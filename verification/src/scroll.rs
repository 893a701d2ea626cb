use vstd::prelude::*;
use crate::buffer::{blocks_lines, lemma_blocks_lines_concat, lemma_blocks_lines_push, Buff};

verus! {

/// The first raw line the viewport starts rendering from: a block index and
/// a line index within that block. The line index may equal the block's
/// length, marking the position just past that block's last line; in
/// particular the position just past the end of history is the live tail.
#[derive(Debug, Clone, Copy, PartialEq, Eq, Structural)]
pub struct Anchor {
    pub block: usize,
    pub line: usize,
}

impl Anchor {
    /// The anchor at the very start of history.
    pub fn start() -> (a: Anchor)
        ensures
            a == (Anchor { block: 0, line: 0 }),
    {
        Anchor { block: 0, line: 0 }
    }
}

/// Number of raw lines stored before block `b`.
pub open spec fn lines_before(buf: Buff, b: int) -> int {
    blocks_lines(buf.blocks@.take(b)).len() as int
}

/// An anchor addresses a valid position of the store: a real block, and a
/// line index no further than one past that block's lines. An empty store
/// admits only the zero anchor.
pub open spec fn anchor_ok(buf: Buff, a: Anchor) -> bool {
    if buf.blocks@.len() == 0 {
        a.block == 0 && a.line == 0
    } else {
        a.block < buf.blocks@.len() && a.line <= buf.blocks@[a.block as int].content@.len()
    }
}

/// The global index of the raw line an anchor points at, counting from the
/// start of history.
pub open spec fn anchor_index(buf: Buff, a: Anchor) -> int {
    lines_before(buf, a.block as int) + a.line
}

/// Splitting the block sequence splits the line count.
pub proof fn lemma_lines_split(buf: Buff, b: int)
    requires
        0 <= b <= buf.blocks@.len(),
    ensures
        buf.lines().len() == blocks_lines(buf.blocks@.take(b)).len() + blocks_lines(
            buf.blocks@.skip(b),
        ).len(),
        blocks_lines(buf.blocks@.take(b)) + blocks_lines(buf.blocks@.skip(b)) == buf.lines(),
{
    assert(buf.blocks@.take(b) + buf.blocks@.skip(b) =~= buf.blocks@);
    lemma_blocks_lines_concat(buf.blocks@.take(b), buf.blocks@.skip(b));
}

/// Counting one more block adds that block's lines.
pub proof fn lemma_lines_before_step(buf: Buff, b: int)
    requires
        0 <= b < buf.blocks@.len(),
    ensures
        lines_before(buf, b + 1) == lines_before(buf, b)
            + buf.blocks@[b].content@.len(),
{
    assert(buf.blocks@.take(b + 1) =~= buf.blocks@.take(b).push(buf.blocks@[b]));
    lemma_blocks_lines_push(buf.blocks@.take(b), buf.blocks@[b]);
}

/// A valid anchor's index never passes the end of history.
pub proof fn lemma_anchor_index_in_range(buf: Buff, a: Anchor)
    requires
        anchor_ok(buf, a),
    ensures
        0 <= anchor_index(buf, a) <= buf.total(),
{
    if buf.blocks@.len() == 0 {
        assert(buf.blocks@.take(0) =~= buf.blocks@);
    } else {
        let b = a.block as int;
        lemma_lines_before_step(buf, b);
        lemma_lines_split(buf, b + 1);
    }
}

impl Buff {
    /// Total number of raw lines in the store.
    pub fn total_lines(&self) -> (n: usize)
        requires
            self.total() <= usize::MAX,
        ensures
            n == self.total(),
    {
        let ghost buf = *self;
        let mut n: usize = 0;
        let mut b: usize = 0;
        proof {
            assert(buf.blocks@.take(0) =~= Seq::<crate::buffer::Block>::empty());
        }
        while b < self.blocks.len()
            invariant
                0 <= b <= buf.blocks@.len(),
                self == buf,
                buf.total() <= usize::MAX,
                n == lines_before(buf, b as int),
            decreases buf.blocks@.len() - b,
        {
            proof {
                lemma_lines_before_step(buf, b as int);
                lemma_lines_split(buf, b + 1);
            }
            n = n + self.blocks[b].len();
            b = b + 1;
        }
        proof {
            assert(buf.blocks@.take(buf.blocks@.len() as int) =~= buf.blocks@);
        }
        n
    }

    /// The raw line at global index `i`, counting from the start of history.
    pub fn line_at(&self, i: usize) -> (line: String)
        requires
            i < self.total(),
        ensures
            line == self.lines()[i as int],
    {
        let ghost buf = *self;
        let nb: usize = self.blocks.len();
        let mut seen: usize = 0;
        let mut b: usize = 0;
        proof {
            assert(buf.blocks@.take(0) =~= Seq::<crate::buffer::Block>::empty());
        }
        loop
            invariant
                0 <= b <= buf.blocks@.len(),
                nb == buf.blocks@.len(),
                self == buf,
                i < buf.total(),
                seen == lines_before(buf, b as int),
                seen <= i,
            ensures
                b < buf.blocks@.len(),
                seen == lines_before(buf, b as int),
                i - seen < buf.blocks@[b as int].content@.len(),
            decreases buf.blocks@.len() - b,
        {
            proof {
                if b == buf.blocks@.len() {
                    assert(buf.blocks@.take(b as int) =~= buf.blocks@);
                    assert(false);
                }
                lemma_lines_before_step(buf, b as int);
                lemma_lines_split(buf, b + 1);
            }
            let len: usize = self.blocks[b].len();
            if i - seen < len {
                break ;
            }
            seen = seen + len;
            b = b + 1;
        }
        proof {
            lemma_lines_split(buf, b as int);
            assert(buf.blocks@.skip(b as int)[0] == buf.blocks@[b as int]);
            assert(buf.blocks@.skip(b as int).drop_first() =~= buf.blocks@.skip(b + 1));
            assert(blocks_lines(buf.blocks@.skip(b as int)) =~= buf.blocks@[b as int].content@
                + blocks_lines(buf.blocks@.skip(b + 1)));
            assert(buf.lines()[i as int] == buf.blocks@[b as int].content@[i - seen]);
        }
        self.blocks[b].content[i - seen].clone()
    }

    /// The global line index an anchor stands for.
    pub fn index_of(&self, a: Anchor) -> (g: usize)
        requires
            self.total() <= usize::MAX,
            anchor_ok(*self, a),
        ensures
            g == anchor_index(*self, a),
            g <= self.total(),
    {
        let ghost buf = *self;
        let mut n: usize = 0;
        let mut b: usize = 0;
        proof {
            assert(buf.blocks@.take(0) =~= Seq::<crate::buffer::Block>::empty());
            lemma_anchor_index_in_range(buf, a);
        }
        while b < a.block
            invariant
                0 <= b <= a.block,
                self == buf,
                anchor_ok(buf, a),
                buf.total() <= usize::MAX,
                a.block <= buf.blocks@.len(),
                n == lines_before(buf, b as int),
                anchor_index(buf, a) <= buf.total(),
            decreases a.block - b,
        {
            proof {
                lemma_lines_before_step(buf, b as int);
                lemma_lines_split(buf, b + 1);
                lemma_monotonic_lines_before(buf, b + 1, a.block as int);
            }
            n = n + self.blocks[b].len();
            b = b + 1;
        }
        n + a.line
    }

    /// The canonical anchor for global line index `g`: the unique valid
    /// position whose line index is strictly inside its block, except that
    /// the end of history is addressed one past the last block's lines.
    pub fn anchor_of(&self, g: usize) -> (a: Anchor)
        requires
            self.total() <= usize::MAX,
            g <= self.total(),
        ensures
            anchor_ok(*self, a),
            anchor_index(*self, a) == g,
            g < self.total() ==> a.line < self.blocks@[a.block as int].content@.len(),
            g == self.total() && self.blocks@.len() > 0 ==> a.block == self.blocks@.len() - 1,
    {
        let ghost buf = *self;
        if self.blocks.len() == 0 {
            proof {
                assert(buf.blocks@.take(0) =~= buf.blocks@);
            }
            return Anchor { block: 0, line: 0 };
        }
        let nb: usize = self.blocks.len();
        let mut seen: usize = 0;
        let mut b: usize = 0;
        loop
            invariant
                0 <= b < buf.blocks@.len(),
                nb == buf.blocks@.len(),
                self == buf,
                buf.blocks@.len() >= 1,
                g <= buf.total(),
                seen == lines_before(buf, b as int),
                seen <= g,
            ensures
                b < buf.blocks@.len(),
                seen == lines_before(buf, b as int),
                seen <= g,
                g - seen < buf.blocks@[b as int].content@.len() || (b
                    == buf.blocks@.len() - 1 && g - seen
                    <= buf.blocks@[b as int].content@.len()),
            decreases buf.blocks@.len() - b,
        {
            proof {
                lemma_lines_before_step(buf, b as int);
                lemma_lines_split(buf, b + 1);
            }
            if b == self.blocks.len() - 1 {
                break ;
            }
            let len: usize = self.blocks[b].len();
            if g - seen < len {
                break ;
            }
            seen = seen + len;
            b = b + 1;
        }
        proof {
            lemma_lines_before_step(buf, b as int);
            lemma_lines_split(buf, b + 1);
            lemma_monotonic_lines_before(buf, b + 1, buf.blocks@.len() as int);
            if b + 1 == buf.blocks@.len() {
                assert(buf.blocks@.skip(b + 1) =~= Seq::<crate::buffer::Block>::empty());
                assert(blocks_lines(Seq::<crate::buffer::Block>::empty()) =~= Seq::<
                    String,
                >::empty());
            }
        }
        Anchor { block: b, line: g - seen }
    }
}

/// Counting blocks never loses lines: the prefix count is monotonic.
pub proof fn lemma_monotonic_lines_before(buf: Buff, b1: int, b2: int)
    requires
        0 <= b1 <= b2 <= buf.blocks@.len(),
    ensures
        lines_before(buf, b1) <= lines_before(buf, b2),
        lines_before(buf, b2) <= buf.total(),
{
    let pre = buf.blocks@.take(b2);
    assert(pre.take(b1) =~= buf.blocks@.take(b1));
    lemma_blocks_lines_concat(pre.take(b1), pre.skip(b1));
    assert(pre.take(b1) + pre.skip(b1) =~= pre);
    lemma_blocks_lines_concat(buf.blocks@.take(b2), buf.blocks@.skip(b2));
    assert(buf.blocks@.take(b2) + buf.blocks@.skip(b2) =~= buf.blocks@);
}

} // verus!
