use vstd::prelude::*;

verus! {

/// Default number of raw lines one block may hold.
pub const DEFAULT_BUFFER_BLOCK_SIZE: usize = 100;

/// A capacity-bounded chunk of raw output lines within a line store.
#[derive(Debug, PartialEq, Eq, Clone)]
pub struct Block {
    /// The raw lines currently held, oldest first.
    pub content: Vec<String>,
    /// Fixed capacity: `content` never grows beyond this many lines.
    pub size: usize,
}

impl Block {
    /// The character content of the stored lines.
    pub open spec fn lines(&self) -> Seq<Seq<char>> {
        self.content.deep_view()
    }

    /// A block never holds more lines than its capacity.
    pub open spec fn inv(&self) -> bool {
        self.content@.len() <= self.size
    }

    pub fn new(size: usize) -> (b: Block)
        ensures
            b.inv(),
            b.size == size,
            b.content@ == Seq::<String>::empty(),
    {
        Block { content: Vec::new(), size }
    }

    pub fn len(&self) -> (n: usize)
        ensures
            n == self.content@.len(),
    {
        self.content.len()
    }

    pub fn is_empty(&self) -> (e: bool)
        ensures
            e <==> self.content@.len() == 0,
    {
        self.content.is_empty()
    }

    /// Room left before the block reaches its capacity.
    pub fn cap(&self) -> (c: usize)
        requires
            self.inv(),
        ensures
            c == self.size - self.content@.len(),
    {
        self.size - self.content.len()
    }

    /// Appends `data` in order; the lines must fit the remaining capacity.
    pub fn append(&mut self, mut data: Vec<String>)
        requires
            old(self).inv(),
            old(self).content@.len() + data@.len() <= old(self).size,
        ensures
            final(self).inv(),
            final(self).size == old(self).size,
            final(self).content@ == old(self).content@ + data@,
    {
        self.content.append(&mut data);
    }

    /// Read-only access to the stored lines.
    pub fn data(&self) -> (d: &[String])
        ensures
            d@ == self.content@,
    {
        self.content.as_slice()
    }
}

/// The raw lines held by a sequence of blocks, oldest first.
pub open spec fn blocks_lines(blocks: Seq<Block>) -> Seq<String>
    decreases blocks.len(),
{
    if blocks.len() == 0 {
        Seq::empty()
    } else {
        blocks[0].content@ + blocks_lines(blocks.drop_first())
    }
}

/// Appending a block at the end appends its lines at the end.
pub proof fn lemma_blocks_lines_push(blocks: Seq<Block>, b: Block)
    ensures
        blocks_lines(blocks.push(b)) == blocks_lines(blocks) + b.content@,
    decreases blocks.len(),
{
    if blocks.len() == 0 {
        assert(blocks.push(b)[0] == b);
        assert(blocks.push(b).drop_first() =~= blocks);
        assert(blocks_lines(blocks.push(b)) =~= blocks_lines(blocks) + b.content@);
    } else {
        assert(blocks.push(b).drop_first() =~= blocks.drop_first().push(b));
        lemma_blocks_lines_push(blocks.drop_first(), b);
        assert(blocks_lines(blocks.push(b)) =~= blocks_lines(blocks) + b.content@);
    }
}

/// The lines of back-to-back block sequences are the two line sequences
/// back to back.
pub proof fn lemma_blocks_lines_concat(a: Seq<Block>, b: Seq<Block>)
    ensures
        blocks_lines(a + b) == blocks_lines(a) + blocks_lines(b),
    decreases a.len(),
{
    if a.len() == 0 {
        assert(a + b =~= b);
        assert(blocks_lines(a + b) =~= blocks_lines(a) + blocks_lines(b));
    } else {
        assert((a + b)[0] == a[0]);
        assert((a + b).drop_first() =~= a.drop_first() + b);
        lemma_blocks_lines_concat(a.drop_first(), b);
        assert(blocks_lines(a + b) =~= blocks_lines(a) + blocks_lines(b));
    }
}

/// How many blocks a store of `n` lines occupies when each full block holds
/// `c` lines: one, possibly empty, block plus one per extra `c` lines begun.
pub open spec fn block_count_of(n: int, c: int) -> int {
    if n == 0 {
        1
    } else {
        (n + c - 1) / c
    }
}

/// The number of lines in a sequence of blocks in which every block but the
/// last is full.
pub proof fn lemma_blocks_lines_len(blocks: Seq<Block>, c: int)
    requires
        blocks.len() >= 1,
        forall|i: int| 0 <= i < blocks.len() - 1 ==> (#[trigger] blocks[i]).content@.len() == c,
    ensures
        blocks_lines(blocks).len() == (blocks.len() - 1) * c + blocks.last().content@.len(),
    decreases blocks.len(),
{
    if blocks.len() == 1 {
        assert(blocks_lines(blocks.drop_first()) =~= Seq::<String>::empty());
    } else {
        lemma_blocks_lines_len(blocks.drop_first(), c);
        assert(blocks.drop_first().last() == blocks.last());
        assert((blocks.len() - 1) * c == c + (blocks.len() - 2) * c) by (nonlinear_arith);
    }
}

/// A store whose blocks are all full but the last, and whose last block is
/// non-empty unless it is the only one, has exactly `block_count_of` blocks.
pub proof fn lemma_block_count(blocks: Seq<Block>, c: int)
    requires
        c >= 1,
        blocks.len() >= 1,
        forall|i: int| 0 <= i < blocks.len() - 1 ==> (#[trigger] blocks[i]).content@.len() == c,
        blocks.last().content@.len() <= c,
        blocks.len() > 1 ==> blocks.last().content@.len() >= 1,
    ensures
        blocks.len() == block_count_of(blocks_lines(blocks).len() as int, c),
{
    lemma_blocks_lines_len(blocks, c);
    let k: int = blocks.len() as int;
    let t: int = blocks.last().content@.len() as int;
    let n: int = (k - 1) * c + t;
    if t == 0 {
        assert(k == 1);
        assert(n == 0);
    } else {
        assert(n + c - 1 == k * c + (t - 1) && n >= 1) by (nonlinear_arith)
            requires n == (k - 1) * c + t && 1 <= t && c >= 1 && k >= 1;
        vstd::arithmetic::div_mod::lemma_fundamental_div_mod_converse(n + c - 1, c, k, t - 1);
    }
}

/// The full unwrapped output history of one process, an ordered sequence of
/// blocks in which only the last block may be below capacity.
pub struct Buff {
    pub blocks: Vec<Block>,
    pub block_size: usize,
}

impl Buff {
    /// All raw lines in the store, oldest first.
    pub open spec fn lines(&self) -> Seq<String> {
        blocks_lines(self.blocks@)
    }

    /// Total number of raw lines stored.
    pub open spec fn total(&self) -> nat {
        self.lines().len()
    }

    /// Structural invariant: every block carries the store's block size and
    /// respects it; only the last block may be partly filled, and only a
    /// store's sole block may be empty.
    pub open spec fn wf(&self) -> bool {
        &&& self.block_size >= 1
        &&& forall|i: int|
            0 <= i < self.blocks@.len() ==> (#[trigger] self.blocks@[i]).size == self.block_size
        &&& forall|i: int| 0 <= i < self.blocks@.len() ==> (#[trigger] self.blocks@[i]).inv()
        &&& forall|i: int|
            0 <= i < self.blocks@.len() - 1 ==> (#[trigger] self.blocks@[i]).content@.len()
                == self.block_size
        &&& self.blocks@.len() > 1 ==> self.blocks@.last().content@.len() >= 1
    }

    /// Appends `buff` in order, spilling into freshly created blocks as
    /// needed; no line is ever split across blocks and none is lost.
    pub fn append(&mut self, buff: Vec<String>)
        requires
            old(self).wf(),
        ensures
            final(self).wf(),
            final(self).block_size == old(self).block_size,
            final(self).lines() == old(self).lines() + buff@,
            final(self).blocks@.len() == block_count_of(
                final(self).total() as int,
                final(self).block_size as int,
            ),
    {
        if self.blocks.len() == 0 {
            let b = self.new_block();
            proof {
                lemma_blocks_lines_push(self.blocks@, b);
            }
            self.blocks.push(b);
            assert(self.lines() =~= old(self).lines());
        }
        let ghost prior = self.lines();
        let mut i: usize = 0;
        while i < buff.len()
            invariant
                0 <= i <= buff.len(),
                self.wf(),
                self.blocks@.len() >= 1,
                self.block_size == old(self).block_size,
                self.lines() == prior + buff@.take(i as int),
            decreases buff.len() - i,
        {
            let n: usize = self.blocks.len();
            if self.blocks[n - 1].len() == self.block_size {
                let b = self.new_block();
                proof {
                    lemma_blocks_lines_push(self.blocks@, b);
                }
                self.blocks.push(b);
                assert(self.lines() =~= prior + buff@.take(i as int));
            }
            let line = buff[i].clone();
            let ghost pre = self.blocks@;
            let mut blk = self.blocks.pop().unwrap();
            let ghost shorter = self.blocks@;
            proof {
                assert(pre =~= shorter.push(blk));
                lemma_blocks_lines_push(shorter, blk);
                assert(prior + buff@.take(i as int) == blocks_lines(shorter) + blk.content@);
            }
            let ghost held = blk.content@;
            blk.content.push(line);
            proof {
                lemma_blocks_lines_push(shorter, blk);
            }
            self.blocks.push(blk);
            proof {
                assert(self.blocks@ == shorter.push(blk));
                assert(self.lines() == blocks_lines(shorter) + blk.content@);
                assert(blocks_lines(shorter) + held.push(line) =~= (blocks_lines(shorter)
                    + held).push(line));
                assert((prior + buff@.take(i as int)).push(line) =~= prior + buff@.take(
                    i as int,
                ).push(line));
                assert(buff@.take(i + 1) =~= buff@.take(i as int).push(buff@[i as int]));
                assert(self.lines() =~= prior + buff@.take(i + 1));
            }
            i = i + 1;
        }
        proof {
            assert(buff@.take(buff@.len() as int) =~= buff@);
            lemma_block_count(self.blocks@, self.block_size as int);
        }
    }

    /// A read-only snapshot of all blocks' lines, for rendering.
    pub fn content(&self) -> (c: Vec<Vec<String>>)
        ensures
            c@.len() == self.blocks@.len(),
            forall|i: int| 0 <= i < c@.len() ==> (#[trigger] c@[i])@ == self.blocks@[i].content@,
    {
        let mut container: Vec<Vec<String>> = Vec::new();
        let mut i: usize = 0;
        while i < self.blocks.len()
            invariant
                0 <= i <= self.blocks@.len(),
                container@.len() == i,
                forall|j: int|
                    0 <= j < i ==> (#[trigger] container@[j])@ == self.blocks@[j].content@,
            decreases self.blocks@.len() - i,
        {
            let blk = &self.blocks[i];
            let mut row: Vec<String> = Vec::new();
            let mut j: usize = 0;
            while j < blk.content.len()
                invariant
                    0 <= j <= blk.content@.len(),
                    row@ == blk.content@.take(j as int),
                decreases blk.content@.len() - j,
            {
                row.push(blk.content[j].clone());
                proof {
                    assert(blk.content@.take(j + 1) =~= blk.content@.take(j as int).push(
                        blk.content@[j as int],
                    ));
                }
                j = j + 1;
            }
            proof {
                assert(blk.content@.take(blk.content@.len() as int) =~= blk.content@);
            }
            container.push(row);
            i = i + 1;
        }
        container
    }

    /// A store holding `content`, chunked into blocks of `block_size` lines.
    pub fn new(content: Vec<String>, block_size: usize) -> (b: Buff)
        requires
            block_size >= 1,
        ensures
            b.wf(),
            b.block_size == block_size,
            b.lines() == content@,
            b.blocks@.len() == block_count_of(b.total() as int, block_size as int),
    {
        let mut buff = Buff { blocks: Vec::new(), block_size };
        buff.append(content);
        buff
    }

    fn new_block(&self) -> (b: Block)
        ensures
            b.inv(),
            b.size == self.block_size,
            b.content@ == Seq::<String>::empty(),
    {
        Block::new(self.block_size)
    }

}

impl Default for Buff {
    fn default() -> (b: Buff)
        ensures
            b.wf(),
            b.block_size == DEFAULT_BUFFER_BLOCK_SIZE,
            b.blocks@.len() == 0,
            b.lines() == Seq::<String>::empty(),
    {
        Buff { blocks: Vec::new(), block_size: DEFAULT_BUFFER_BLOCK_SIZE }
    }
}

} // verus!
