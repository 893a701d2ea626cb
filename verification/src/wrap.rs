use vstd::prelude::*;
use vstd::arithmetic::div_mod::{lemma_basic_div, lemma_div_plus_one};
use vstd::string::StrSliceExecFns;

verus! {

/// The display rows produced by wrapping one raw line to width `w`: chunks
/// of at most `w` characters, in order. An empty line still yields exactly
/// one (empty) row, so blank output lines stay visible and counted.
pub open spec fn wrap_line(line: Seq<char>, w: int) -> Seq<Seq<char>>
    decreases line.len(),
{
    if w < 1 || line.len() <= w {
        seq![line]
    } else {
        seq![line.take(w)] + wrap_line(line.skip(w), w)
    }
}

/// The display rows of a sequence of raw lines, each wrapped to `w`, in order.
pub open spec fn wrap_lines(lines: Seq<Seq<char>>, w: int) -> Seq<Seq<char>>
    decreases lines.len(),
{
    if lines.len() == 0 {
        Seq::empty()
    } else {
        wrap_line(lines[0], w) + wrap_lines(lines.drop_first(), w)
    }
}

/// The character content of a sequence of raw lines.
pub open spec fn line_views(s: Seq<String>) -> Seq<Seq<char>> {
    Seq::new(s.len(), |i: int| s[i]@)
}

/// How many display rows a raw line of `line_len` characters yields at
/// width `w`: one for an empty line, else the length divided by the width,
/// rounded up.
pub open spec fn row_count(line_len: int, w: int) -> int {
    if line_len == 0 {
        1
    } else {
        (line_len - 1) / w + 1
    }
}

/// Concatenation of a sequence of display rows back into one line.
pub open spec fn concat_rows(rows: Seq<Seq<char>>) -> Seq<char>
    decreases rows.len(),
{
    if rows.len() == 0 {
        Seq::empty()
    } else {
        rows[0] + concat_rows(rows.drop_first())
    }
}

/// Wrapping is content-preserving: concatenating the display rows of a line
/// reproduces the line exactly, for every width of at least one.
pub proof fn lemma_wrap_line_content(line: Seq<char>, w: int)
    requires
        w >= 1,
    ensures
        concat_rows(wrap_line(line, w)) == line,
    decreases line.len(),
{
    if line.len() <= w {
        assert(wrap_line(line, w) =~= seq![line]);
        assert(seq![line][0] == line);
        assert(concat_rows(Seq::<Seq<char>>::empty()) =~= Seq::<char>::empty());
        assert(seq![line].drop_first() =~= Seq::<Seq<char>>::empty());
        assert(concat_rows(wrap_line(line, w)) =~= line);
    } else {
        lemma_wrap_line_content(line.skip(w), w);
        let rows = wrap_line(line, w);
        assert(rows[0] == line.take(w));
        assert(rows.drop_first() =~= wrap_line(line.skip(w), w));
        assert(concat_rows(rows) =~= line.take(w) + line.skip(w));
        assert(line.take(w) + line.skip(w) =~= line);
    }
}

/// A line of `n` characters wraps to exactly `row_count(n, w)` display rows;
/// in particular an empty line yields exactly one row.
pub proof fn lemma_wrap_line_count(line: Seq<char>, w: int)
    requires
        w >= 1,
    ensures
        wrap_line(line, w).len() == row_count(line.len() as int, w),
    decreases line.len(),
{
    let n: int = line.len() as int;
    if n == 0 {
    } else if n <= w {
        lemma_basic_div(n - 1, w);
    } else {
        lemma_wrap_line_count(line.skip(w), w);
        assert(line.skip(w).len() == n - w);
        if n - w == 0 {
        } else {
            lemma_div_plus_one(n - w - 1, w);
            assert(1 + (n - w - 1) / w == (w + (n - w - 1)) / w);
        }
    }
}

/// Every display row holds at most `w` characters.
pub proof fn lemma_wrap_line_width(line: Seq<char>, w: int)
    requires
        w >= 1,
    ensures
        forall|i: int|
            0 <= i < wrap_line(line, w).len() ==> (#[trigger] wrap_line(line, w)[i]).len() <= w,
    decreases line.len(),
{
    if line.len() <= w {
    } else {
        lemma_wrap_line_width(line.skip(w), w);
        let rows = wrap_line(line, w);
        assert forall|i: int| 0 <= i < rows.len() implies (#[trigger] rows[i]).len() <= w by {
            if i >= 1 {
                assert(rows[i] == wrap_line(line.skip(w), w)[i - 1]);
            }
        }
    }
}

/// Wrapping one more line at the end appends its rows at the end.
pub proof fn lemma_wrap_lines_push(lines: Seq<Seq<char>>, l: Seq<char>, w: int)
    ensures
        wrap_lines(lines.push(l), w) == wrap_lines(lines, w) + wrap_line(l, w),
    decreases lines.len(),
{
    if lines.len() == 0 {
        assert(lines.push(l)[0] == l);
        assert(lines.push(l).drop_first() =~= lines);
        assert(wrap_lines(lines.push(l), w) =~= wrap_lines(lines, w) + wrap_line(l, w));
    } else {
        assert(lines.push(l).drop_first() =~= lines.drop_first().push(l));
        lemma_wrap_lines_push(lines.drop_first(), l, w);
        assert(wrap_lines(lines.push(l), w) =~= wrap_lines(lines, w) + wrap_line(l, w));
    }
}

/// Wrapping distributes over concatenation of line sequences.
pub proof fn lemma_wrap_lines_concat(a: Seq<Seq<char>>, b: Seq<Seq<char>>, w: int)
    ensures
        wrap_lines(a + b, w) == wrap_lines(a, w) + wrap_lines(b, w),
    decreases a.len(),
{
    if a.len() == 0 {
        assert(a + b =~= b);
        assert(wrap_lines(a + b, w) =~= wrap_lines(a, w) + wrap_lines(b, w));
    } else {
        assert((a + b)[0] == a[0]);
        assert((a + b).drop_first() =~= a.drop_first() + b);
        lemma_wrap_lines_concat(a.drop_first(), b, w);
        assert(wrap_lines(a + b, w) =~= wrap_lines(a, w) + wrap_lines(b, w));
    }
}

/// Appends the display rows of `line`, wrapped to width `w`, to `out`.
pub fn push_wrapped(line: &String, w: usize, out: &mut Vec<String>)
    requires
        w >= 1,
    ensures
        final(out).deep_view() == old(out).deep_view() + wrap_line(line@, w as int),
{
    let ghost base = old(out).deep_view();
    let n: usize = line.as_str().unicode_len();
    if n == 0 {
        out.push(String::new());
        proof {
            assert(line@ =~= Seq::<char>::empty());
            assert(out.deep_view() =~= base + wrap_line(line@, w as int));
        }
        return ;
    }
    let mut i: usize = 0;
    proof {
        assert(out.deep_view().skip(base.len() as int) =~= Seq::<Seq<char>>::empty());
        assert(line@.skip(0) =~= line@);
        assert(wrap_line(line@, w as int) =~= out.deep_view().skip(base.len() as int)
            + wrap_line(line@.skip(0), w as int));
        assert(out.deep_view().take(base.len() as int) =~= base);
    }
    while i < n
        invariant
            w >= 1,
            0 <= i <= n,
            n == line@.len(),
            n >= 1,
            out.deep_view().len() >= base.len(),
            out.deep_view().take(base.len() as int) == base,
            i < n ==> wrap_line(line@, w as int) == out.deep_view().skip(base.len() as int)
                + wrap_line(line@.skip(i as int), w as int),
            i == n ==> wrap_line(line@, w as int) == out.deep_view().skip(base.len() as int),
        decreases n - i,
    {
        let ghost rest = line@.skip(i as int);
        let ghost sofar = out.deep_view().skip(base.len() as int);
        let end: usize = if n - i > w {
            i + w
        } else {
            n
        };
        let piece = line.as_str().substring_char(i, end);
        out.push(piece.to_owned());
        proof {
            assert(out.deep_view() =~= base + sofar.push(piece@));
            assert(out.deep_view().take(base.len() as int) =~= base);
            assert(out.deep_view().skip(base.len() as int) =~= sofar.push(piece@));
            if n - i > w {
                assert(rest.len() > w);
                assert(rest.take(w as int) =~= piece@);
                assert(rest.skip(w as int) =~= line@.skip(end as int));
                assert(wrap_line(rest, w as int) =~= seq![piece@] + wrap_line(
                    line@.skip(end as int),
                    w as int,
                ));
                assert(sofar.push(piece@) + wrap_line(line@.skip(end as int), w as int)
                    =~= sofar + wrap_line(rest, w as int));
            } else {
                assert(rest =~= piece@);
                assert(wrap_line(rest, w as int) =~= seq![piece@]);
                assert(sofar.push(piece@) =~= sofar + wrap_line(rest, w as int));
            }
        }
        i = end;
    }
    proof {
        assert(out.deep_view() =~= out.deep_view().take(base.len() as int)
            + out.deep_view().skip(base.len() as int));
    }
}

/// The number of display rows `line` yields at width `w`.
pub fn count_rows(line: &String, w: usize) -> (c: usize)
    requires
        w >= 1,
    ensures
        c == row_count(line@.len() as int, w as int),
        c == wrap_line(line@, w as int).len(),
{
    proof {
        lemma_wrap_line_count(line@, w as int);
    }
    let n: usize = line.as_str().unicode_len();
    if n == 0 {
        1
    } else {
        (n - 1) / w + 1
    }
}

} // verus!
