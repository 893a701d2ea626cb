use vstd::prelude::*;
use crate::buffer::{Buff, DEFAULT_BUFFER_BLOCK_SIZE};
use crate::render::{all_rows, render_spec};
use crate::scroll::{anchor_index, anchor_ok, lemma_anchor_index_in_range, Anchor};
use crate::wrap::{line_views, push_wrapped, wrap_lines};

verus! {

/// Once more raw lines than this are stored, the oldest are dropped.
pub const OUTPUT_SIZE_THRESHOLD: usize = 3000;

/// Milliseconds between two drains of the capture queue.
pub const PROCESS_DELAY: u64 = 100;

/// What a process is started from: its display name, the command line the
/// shell runs, and the working directory it runs in.
#[derive(Debug, Clone)]
pub struct CmdDescriptor {
    pub name: String,
    pub executable: String,
    pub workdir: String,
}

/// Mutable run status of a process: whether a child is currently alive, and
/// when it was started (a caller-supplied millisecond timestamp).
#[derive(Debug, Clone, Copy, PartialEq, Eq, Structural)]
pub struct Status {
    pub started_at: Option<u64>,
    pub is_running: bool,
}

/// The captured output of one process: its chunked line store and the scroll
/// anchor of its console viewport.
pub struct CmdOutput {
    pub data: Buff,
    pub anchor: Anchor,
}

impl CmdOutput {
    /// Validity: the store is well-formed and bounded by the eviction
    /// threshold, and the anchor addresses a real position of it.
    pub open spec fn wf(&self) -> bool {
        &&& self.data.wf()
        &&& self.data.total() <= OUTPUT_SIZE_THRESHOLD
        &&& anchor_ok(self.data, self.anchor)
    }

    /// Drops all captured output and resets the scroll position.
    pub fn clear(&mut self)
        requires
            old(self).wf(),
        ensures
            final(self).wf(),
            final(self).data.lines() == Seq::<String>::empty(),
            final(self).data.block_size == old(self).data.block_size,
            final(self).anchor == (Anchor { block: 0, line: 0 }),
    {
        self.data.blocks = Vec::new();
        self.anchor = Anchor::start();
    }

    /// The history after appending `lines` to `stored` and evicting: once the
    /// total passes the threshold, only the most recent `OUTPUT_SIZE_THRESHOLD`
    /// lines are kept; newer lines are never dropped while older ones stay.
    pub open spec fn evicted(stored: Seq<String>, lines: Seq<String>) -> Seq<String> {
        let all = stored + lines;
        if all.len() <= OUTPUT_SIZE_THRESHOLD {
            all
        } else {
            all.skip(all.len() - OUTPUT_SIZE_THRESHOLD)
        }
    }

    /// Where the anchor lands after an append: an anchor sitting at the live
    /// tail stays at the live tail, so a console that was following the
    /// output keeps following it; any other anchor keeps its line, shifted
    /// back by the number of evicted lines and clamped to the new start of
    /// history when that line itself was dropped.
    pub open spec fn shifted_anchor_index(g: int, old_total: int, dropped: int, new_total: int) -> int {
        if g == old_total {
            new_total
        } else if g >= dropped {
            g - dropped
        } else {
            0
        }
    }

    /// Appends one drained batch of captured lines, then enforces the
    /// eviction threshold and re-clamps the scroll anchor.
    pub fn append(&mut self, lines: Vec<String>)
        requires
            old(self).wf(),
            lines@.len() <= usize::MAX - OUTPUT_SIZE_THRESHOLD,
        ensures
            final(self).wf(),
            final(self).data.block_size == old(self).data.block_size,
            final(self).data.lines() == Self::evicted(old(self).data.lines(), lines@),
            final(self).data.total() <= OUTPUT_SIZE_THRESHOLD,
            anchor_index(final(self).data, final(self).anchor) == Self::shifted_anchor_index(
                anchor_index(old(self).data, old(self).anchor),
                old(self).data.total() as int,
                old(self).data.lines().len() + lines@.len() - final(self).data.lines().len(),
                final(self).data.total() as int,
            ),
    {
        let ghost all = old(self).data.lines() + lines@;
        proof {
            lemma_anchor_index_in_range(self.data, self.anchor);
        }
        let pre_total: usize = self.data.total_lines();
        let gi: usize = self.data.index_of(self.anchor);
        self.data.append(lines);
        let total: usize = self.data.total_lines();
        if total > OUTPUT_SIZE_THRESHOLD {
            let dropped: usize = total - OUTPUT_SIZE_THRESHOLD;
            let mut kept: Vec<String> = Vec::new();
            let mut i: usize = dropped;
            proof {
                assert(kept@ =~= all.subrange(dropped as int, dropped as int));
            }
            while i < total
                invariant
                    dropped <= i <= total,
                    self.data.lines() == all,
                    total == self.data.total(),
                    kept@ == all.subrange(dropped as int, i as int),
                decreases total - i,
            {
                kept.push(self.data.line_at(i));
                proof {
                    assert(all.subrange(dropped as int, i + 1) =~= all.subrange(
                        dropped as int,
                        i as int,
                    ).push(all[i as int]));
                }
                i = i + 1;
            }
            proof {
                assert(all.subrange(dropped as int, total as int) =~= all.skip(dropped as int));
            }
            let bs: usize = self.data.block_size;
            self.data = Buff::new(kept, bs);
            let g2: usize = if gi == pre_total {
                OUTPUT_SIZE_THRESHOLD
            } else if gi > dropped {
                gi - dropped
            } else {
                0
            };
            self.anchor = self.data.anchor_of(g2);
        } else {
            let g2: usize = if gi == pre_total {
                total
            } else {
                gi
            };
            self.anchor = self.data.anchor_of(g2);
        }
    }

    /// Moves the viewport `n` raw lines toward the start of history,
    /// clamping at the very start.
    pub fn scroll_up(&mut self, n: usize)
        requires
            old(self).wf(),
        ensures
            final(self).wf(),
            final(self).data == old(self).data,
            anchor_index(final(self).data, final(self).anchor) == {
                let g: int = anchor_index(old(self).data, old(self).anchor);
                if g >= n {
                    g - n
                } else {
                    0
                }
            },
    {
        let gi: usize = self.data.index_of(self.anchor);
        let g2: usize = if gi > n {
            gi - n
        } else {
            0
        };
        self.anchor = self.data.anchor_of(g2);
    }

    /// Moves the viewport `n` raw lines toward the live tail, clamping at
    /// the position just past the last stored line: once there, further
    /// scrolling down does nothing.
    pub fn scroll_down(&mut self, n: usize)
        requires
            old(self).wf(),
        ensures
            final(self).wf(),
            final(self).data == old(self).data,
            anchor_index(final(self).data, final(self).anchor) == {
                let g: int = anchor_index(old(self).data, old(self).anchor);
                if g + n <= old(self).data.total() {
                    g + n
                } else {
                    old(self).data.total() as int
                }
            },
    {
        proof {
            lemma_anchor_index_in_range(self.data, self.anchor);
        }
        let gi: usize = self.data.index_of(self.anchor);
        let total: usize = self.data.total_lines();
        let g2: usize = if n <= total - gi {
            gi + n
        } else {
            total
        };
        self.anchor = self.data.anchor_of(g2);
    }

    /// One viewport height toward the start of history.
    pub fn page_up(&mut self, height: usize)
        requires
            old(self).wf(),
        ensures
            final(self).wf(),
            final(self).data == old(self).data,
            anchor_index(final(self).data, final(self).anchor) == {
                let g: int = anchor_index(old(self).data, old(self).anchor);
                if g >= height {
                    g - height
                } else {
                    0
                }
            },
    {
        self.scroll_up(height);
    }

    /// One viewport height toward the live tail.
    pub fn page_down(&mut self, height: usize)
        requires
            old(self).wf(),
        ensures
            final(self).wf(),
            final(self).data == old(self).data,
            anchor_index(final(self).data, final(self).anchor) == {
                let g: int = anchor_index(old(self).data, old(self).anchor);
                if g + height <= old(self).data.total() {
                    g + height
                } else {
                    old(self).data.total() as int
                }
            },
    {
        self.scroll_down(height);
    }
}

impl Default for CmdOutput {
    fn default() -> (out: CmdOutput)
        ensures
            out.wf(),
            out.data.lines() == Seq::<String>::empty(),
            out.data.block_size == DEFAULT_BUFFER_BLOCK_SIZE,
            out.anchor == (Anchor { block: 0, line: 0 }),
    {
        CmdOutput { data: Buff::default(), anchor: Anchor::start() }
    }
}

/// The status transition of `run`, and whether a child must be spawned:
/// only an idle process starts running and spawns; one already running is
/// left exactly as it is.
pub open spec fn run_status(s: Status, now: u64) -> (Status, bool) {
    if s.is_running {
        (s, false)
    } else {
        ((Status { started_at: Some(now), is_running: true }), true)
    }
}

/// The status transition of `stop`, and whether a stop took place: the
/// process is idle afterwards either way, and only one that was running is
/// acted on.
pub open spec fn stop_status(s: Status) -> (Status, bool) {
    ((Status { started_at: s.started_at, is_running: false }), s.is_running)
}

/// One supervised process: its descriptor, its run status, and its captured
/// output. The child-process handle and worker threads live with the caller
/// that performs the spawning; this state machine decides every transition.
pub struct Cmd {
    pub descriptor: CmdDescriptor,
    pub status: Status,
    pub output: CmdOutput,
}

impl Cmd {
    /// Validity of the captured-output state.
    pub open spec fn wf(&self) -> bool {
        self.output.wf()
    }

    /// A fresh, idle process for `descriptor` with no captured output.
    pub fn new(descriptor: CmdDescriptor) -> (c: Cmd)
        ensures
            c.wf(),
            c.descriptor == descriptor,
            !c.status.is_running,
            c.status.started_at is None,
            c.output.data.lines() == Seq::<String>::empty(),
    {
        Cmd {
            descriptor,
            status: Status { started_at: None, is_running: false },
            output: CmdOutput::default(),
        }
    }

    /// Marks the process as running from time `now` and reports whether a
    /// child must be spawned. Running an already-running process changes
    /// nothing and spawns nothing, so two calls without an intervening stop
    /// leave exactly one child alive.
    pub fn run(&mut self, now: u64) -> (spawn: bool)
        ensures
            spawn == run_status(old(self).status, now).1,
            final(self).status == run_status(old(self).status, now).0,
            final(self).status.is_running,
            final(self).descriptor == old(self).descriptor,
            final(self).output == old(self).output,
    {
        if self.status.is_running {
            return false;
        }
        self.status.is_running = true;
        self.status.started_at = Some(now);
        true
    }

    /// Returns the process to idle after a spawn attempt failed, leaving
    /// everything else untouched.
    pub fn spawn_failed(&mut self)
        ensures
            *final(self) == (Cmd {
                status: (Status { started_at: old(self).status.started_at, is_running: false }),
                ..*old(self)
            }),
    {
        self.status.is_running = false;
    }

    /// Flips the process to idle and discards its captured output, reporting
    /// whether a stop actually took place. Stopping an idle process takes no
    /// action and changes nothing, so it is idempotent; the caller tears the
    /// child down exactly when `true` comes back.
    pub fn stop(&mut self) -> (stopped: bool)
        requires
            old(self).wf(),
        ensures
            final(self).wf(),
            stopped == stop_status(old(self).status).1,
            final(self).status == stop_status(old(self).status).0,
            !old(self).status.is_running ==> *final(self) == *old(self),
            old(self).status.is_running ==> {
                &&& final(self).descriptor == old(self).descriptor
                &&& final(self).status.started_at == old(self).status.started_at
                &&& final(self).output.data.lines() == Seq::<String>::empty()
                &&& final(self).output.anchor == (Anchor { block: 0, line: 0 })
            },
    {
        if !self.status.is_running {
            return false;
        }
        self.status.is_running = false;
        self.output.clear();
        true
    }

    /// The viewport rows of this process's console, wrapped to `w` columns
    /// and windowed to `h` rows around the scroll anchor.
    pub fn render(&self, w: usize, h: usize) -> (r: Vec<String>)
        requires
            self.wf(),
            w >= 1,
        ensures
            r.deep_view() == render_spec(
                line_views(self.output.data.lines()),
                anchor_index(self.output.data, self.output.anchor),
                w as int,
                h as int,
            ),
            r@.len() == if all_rows(self.output.data, w as int).len() >= h {
                h as nat
            } else {
                all_rows(self.output.data, w as int).len()
            },
    {
        self.output.data.render_window(self.output.anchor, w, h)
    }

    /// Wraps a batch of raw lines to `w` columns, in order.
    pub fn build_lines(data: &Vec<String>, w: usize) -> (r: Vec<String>)
        requires
            w >= 1,
        ensures
            r.deep_view() == wrap_lines(line_views(data@), w as int),
    {
        let mut r: Vec<String> = Vec::new();
        let mut i: usize = 0;
        proof {
            assert(r.deep_view() =~= Seq::<Seq<char>>::empty());
            assert(line_views(data@).subrange(0, 0) =~= Seq::<Seq<char>>::empty());
            assert(wrap_lines(line_views(data@).subrange(0, 0), w as int) =~= Seq::<
                Seq<char>,
            >::empty());
        }
        while i < data.len()
            invariant
                0 <= i <= data@.len(),
                w >= 1,
                r.deep_view() == wrap_lines(line_views(data@).subrange(0, i as int), w as int),
            decreases data@.len() - i,
        {
            push_wrapped(&data[i], w, &mut r);
            proof {
                crate::render::lemma_wrap_lines_snoc(line_views(data@), 0, i as int, w as int);
                assert(line_views(data@)[i as int] == data@[i as int]@);
                assert(r.deep_view() =~= wrap_lines(
                    line_views(data@).subrange(0, i + 1),
                    w as int,
                ));
            }
            i = i + 1;
        }
        proof {
            assert(line_views(data@).subrange(0, data@.len() as int) =~= line_views(data@));
        }
        r
    }
}

/// Stopping is idempotent: a second consecutive stop takes no action and
/// leaves the status exactly where the first stop left it. In particular
/// stopping an idle process reports "no action" both times.
pub proof fn lemma_stop_idempotent(s: Status)
    ensures
        !stop_status(stop_status(s).0).1,
        stop_status(stop_status(s).0).0 == stop_status(s).0,
        !s.is_running ==> !stop_status(s).1 && stop_status(s).0 == s,
{
}

/// Running twice without an intervening stop spawns exactly once: the
/// second run spawns no child and changes nothing, so exactly one child and
/// one set of worker threads stays active.
pub proof fn lemma_run_spawns_once(s: Status, first: u64, second: u64)
    ensures
        run_status(s, first).0.is_running,
        !run_status(run_status(s, first).0, second).1,
        run_status(run_status(s, first).0, second).0 == run_status(s, first).0,
{
}

} // verus!
