use vstd::prelude::*;
use crate::buffer::Buff;
use crate::scroll::{anchor_index, anchor_ok, lemma_anchor_index_in_range, Anchor};
use crate::wrap::{
    count_rows, lemma_wrap_lines_concat, line_views, push_wrapped, wrap_line, wrap_lines,
};

verus! {

/// All display rows of the store's history at width `w`.
pub open spec fn all_rows(buf: Buff, w: int) -> Seq<Seq<char>> {
    wrap_lines(line_views(buf.lines()), w)
}

/// The rows a viewport of height `h` shows at width `w` for anchor index
/// `g`: the first `h` display rows from the anchor onward; if the rest of
/// history yields fewer, rows from before the anchor fill the window and of
/// everything gathered the last `h` rows are kept (biasing toward the anchor
/// and what follows it); a history of fewer than `h` rows is shown whole.
pub open spec fn render_spec(lines: Seq<Seq<char>>, g: int, w: int, h: int) -> Seq<Seq<char>> {
    let fwd = wrap_lines(lines.skip(g), w);
    let back = wrap_lines(lines.take(g), w);
    if fwd.len() >= h {
        fwd.take(h)
    } else if back.len() + fwd.len() <= h {
        back + fwd
    } else {
        (back + fwd).skip(back.len() + fwd.len() - h)
    }
}

/// The window is always filled as far as history allows: rendering yields
/// exactly `h` rows whenever at least `h` are available, and every available
/// row otherwise.
pub proof fn lemma_render_spec_len(lines: Seq<Seq<char>>, g: int, w: int, h: int)
    requires
        0 <= g <= lines.len(),
        h >= 0,
    ensures
        render_spec(lines, g, w, h).len() == if wrap_lines(lines, w).len() >= h {
            h as nat
        } else {
            wrap_lines(lines, w).len()
        },
{
    assert(lines.take(g) + lines.skip(g) =~= lines);
    lemma_wrap_lines_concat(lines.take(g), lines.skip(g), w);
}

impl Buff {
    /// The display rows of the viewport anchored at `a`, for a console of
    /// `w` columns and `h` rows.
    pub fn render_window(&self, a: Anchor, w: usize, h: usize) -> (r: Vec<String>)
        requires
            self.total() <= usize::MAX,
            anchor_ok(*self, a),
            w >= 1,
        ensures
            r.deep_view() == render_spec(
                line_views(self.lines()),
                anchor_index(*self, a),
                w as int,
                h as int,
            ),
            r@.len() == if all_rows(*self, w as int).len() >= h {
                h as nat
            } else {
                all_rows(*self, w as int).len()
            },
    {
        let ghost buf = *self;
        let ghost lv = line_views(buf.lines());
        let total: usize = self.total_lines();
        let g: usize = self.index_of(a);
        proof {
            lemma_anchor_index_in_range(buf, a);
        }
        let mut rows: Vec<String> = Vec::new();
        let mut j: usize = g;
        proof {
            assert(wrap_lines(lv.subrange(g as int, g as int), w as int) =~= Seq::<
                Seq<char>,
            >::empty());
            assert(rows.deep_view() =~= Seq::<Seq<char>>::empty());
        }
        while j < total && rows.len() < h
            invariant
                g <= j <= total,
                w >= 1,
                self == buf,
                total == buf.total(),
                lv == line_views(buf.lines()),
                rows.deep_view() == wrap_lines(lv.subrange(g as int, j as int), w as int),
            decreases total - j,
        {
            let line = self.line_at(j);
            push_wrapped(&line, w, &mut rows);
            proof {
                assert(lv.subrange(g as int, j + 1).drop_last() =~= lv.subrange(
                    g as int,
                    j as int,
                ));
                lemma_wrap_lines_snoc(lv, g as int, j as int, w as int);
                assert(rows.deep_view() =~= wrap_lines(lv.subrange(g as int, j + 1), w as int));
            }
            j = j + 1;
        }
        let ghost fwd = wrap_lines(lv.skip(g as int), w as int);
        let ghost back = wrap_lines(lv.take(g as int), w as int);
        proof {
            assert(lv.subrange(g as int, total as int) =~= lv.skip(g as int));
            assert(lv.subrange(g as int, j as int) + lv.subrange(j as int, total as int) =~= lv.skip(
                g as int,
            ));
            lemma_wrap_lines_concat(
                lv.subrange(g as int, j as int),
                lv.subrange(j as int, total as int),
                w as int,
            );
            lemma_render_spec_len(lv, g as int, w as int, h as int);
            assert(lv.take(g as int) + lv.skip(g as int) =~= lv);
            lemma_wrap_lines_concat(lv.take(g as int), lv.skip(g as int), w as int);
        }
        if rows.len() >= h {
            let ghost pre = rows.deep_view();
            rows.truncate(h);
            proof {
                assert(rows.deep_view() =~= pre.take(h as int));
                assert(fwd =~= pre + wrap_lines(
                    lv.subrange(j as int, total as int),
                    w as int,
                ));
                assert(fwd.take(h as int) =~= pre.take(h as int));
            }
            return rows;
        }
        // The rest of history could not fill the window: gather display rows
        // of the lines before the anchor until the window can be filled.
        let need: usize = h - rows.len();
        let mut s: usize = g;
        let mut cnt: u128 = 0;
        proof {
            assert(wrap_lines(lv.subrange(g as int, g as int), w as int) =~= Seq::<
                Seq<char>,
            >::empty());
        }
        while s > 0 && cnt < need as u128
            invariant
                0 <= s <= g,
                w >= 1,
                self == buf,
                total == buf.total(),
                g <= total,
                lv == line_views(buf.lines()),
                cnt == wrap_lines(lv.subrange(s as int, g as int), w as int).len(),
                cnt < need as u128 + usize::MAX as u128,
            decreases s,
        {
            let line = self.line_at(s - 1);
            let c: usize = count_rows(&line, w);
            proof {
                lemma_wrap_lines_cons_at(lv, s - 1, g as int, w as int);
            }
            cnt = cnt + c as u128;
            s = s - 1;
        }
        let excess: usize = if cnt >= need as u128 {
            (cnt - need as u128) as usize
        } else {
            0
        };
        let mut gathered: Vec<String> = Vec::new();
        let mut k: usize = s;
        proof {
            assert(wrap_lines(lv.subrange(s as int, s as int), w as int) =~= Seq::<
                Seq<char>,
            >::empty());
            assert(gathered.deep_view() =~= Seq::<Seq<char>>::empty());
        }
        while k < g
            invariant
                s <= k <= g,
                w >= 1,
                self == buf,
                total == buf.total(),
                g <= total,
                lv == line_views(buf.lines()),
                gathered.deep_view() == wrap_lines(lv.subrange(s as int, k as int), w as int),
            decreases g - k,
        {
            let line = self.line_at(k);
            push_wrapped(&line, w, &mut gathered);
            proof {
                assert(lv.subrange(s as int, k + 1).drop_last() =~= lv.subrange(
                    s as int,
                    k as int,
                ));
                lemma_wrap_lines_snoc(lv, s as int, k as int, w as int);
                assert(gathered.deep_view() =~= wrap_lines(lv.subrange(s as int, k + 1), w as int));
            }
            k = k + 1;
        }
        let ghost backpart = wrap_lines(lv.subrange(s as int, g as int), w as int);
        proof {
            assert(lv.subrange(0, s as int) + lv.subrange(s as int, g as int) =~= lv.take(
                g as int,
            ));
            lemma_wrap_lines_concat(
                lv.subrange(0, s as int),
                lv.subrange(s as int, g as int),
                w as int,
            );
            assert(gathered.deep_view().len() == cnt);
        }
        let mut r: Vec<String> = Vec::new();
        let mut k2: usize = excess;
        proof {
            assert(r.deep_view() =~= Seq::<Seq<char>>::empty());
            assert(r.deep_view() =~= backpart.subrange(excess as int, excess as int));
        }
        while k2 < gathered.len()
            invariant
                excess <= k2 <= gathered@.len(),
                gathered.deep_view() == backpart,
                excess <= backpart.len(),
                r.deep_view() == backpart.subrange(excess as int, k2 as int),
            decreases gathered@.len() - k2,
        {
            r.push(gathered[k2].clone());
            proof {
                assert(gathered.deep_view()[k2 as int] == gathered@[k2 as int]@);
                assert(backpart.subrange(excess as int, k2 + 1) =~= backpart.subrange(
                    excess as int,
                    k2 as int,
                ).push(backpart[k2 as int]));
                assert(r.deep_view() =~= backpart.subrange(excess as int, k2 + 1));
            }
            k2 = k2 + 1;
        }
        let mut tail = rows;
        r.append(&mut tail);
        proof {
            assert(r.deep_view() =~= backpart.subrange(excess as int, backpart.len() as int)
                + fwd);
            if cnt >= need as u128 {
                assert(render_spec(lv, g as int, w as int, h as int) =~= backpart.subrange(
                    excess as int,
                    backpart.len() as int,
                ) + fwd);
            } else {
                assert(s == 0);
                assert(lv.subrange(0, 0).len() == 0);
                assert(back =~= backpart);
                assert(backpart.subrange(0, backpart.len() as int) =~= backpart);
                assert(render_spec(lv, g as int, w as int, h as int) =~= backpart + fwd);
            }
        }
        r
    }
}

/// Pulling the line at `i` out of a slice of history splits its rows off the
/// front: wrapping `lines[i..e]` yields the rows of line `i` followed by the
/// rows of `lines[i+1..e]`.
pub proof fn lemma_wrap_lines_cons_at(lines: Seq<Seq<char>>, i: int, e: int, w: int)
    requires
        0 <= i < e <= lines.len(),
    ensures
        wrap_lines(lines.subrange(i, e), w) == wrap_line(lines[i], w) + wrap_lines(
            lines.subrange(i + 1, e),
            w,
        ),
{
    assert(lines.subrange(i, e)[0] == lines[i]);
    assert(lines.subrange(i, e).drop_first() =~= lines.subrange(i + 1, e));
}

/// Wrapping one more line at the end of a slice appends its rows.
pub proof fn lemma_wrap_lines_snoc(lines: Seq<Seq<char>>, lo: int, j: int, w: int)
    requires
        0 <= lo <= j < lines.len(),
    ensures
        wrap_lines(lines.subrange(lo, j + 1), w) == wrap_lines(lines.subrange(lo, j), w)
            + wrap_line(lines[j], w),
{
    assert(lines.subrange(lo, j + 1) =~= lines.subrange(lo, j).push(lines[j]));
    crate::wrap::lemma_wrap_lines_push(lines.subrange(lo, j), lines[j], w);
}

} // verus!
