use vstd::prelude::*;
use crate::project::Cmd;
use crate::render::{all_rows, render_spec};
use crate::scroll::anchor_index;
use crate::wrap::line_views;

verus! {

/// Which pane currently has keyboard focus.
#[derive(Debug, Clone, Copy, PartialEq, Eq, Structural)]
pub enum AppTab {
    Sidebar,
    Console,
}

/// A decoded key press, as the command it stands for; decoding terminal
/// events into these intents happens outside the core.
#[derive(Debug, Clone, Copy, PartialEq, Eq, Structural)]
pub enum KeyIntent {
    Quit,
    Run,
    Stop,
    SwitchPane,
    Up,
    Down,
    PageUp,
    PageDown,
}

/// What the caller must carry out after a key was handled: spawn a child
/// for the selected process, tear its child down, tear every child down on
/// quit, or nothing at all.
#[derive(Debug, Clone, Copy, PartialEq, Eq, Structural)]
pub enum KeyAction {
    Nothing,
    SpawnSelected,
    StopSelected,
    StopAll,
}

/// The inner size of the console pane, in character cells.
#[derive(Debug, Clone, Copy, PartialEq, Eq, Structural)]
pub struct ConsoleSize {
    pub width: u16,
    pub height: u16,
}

/// The other pane.
pub open spec fn toggled(t: AppTab) -> AppTab {
    match t {
        AppTab::Sidebar => AppTab::Console,
        AppTab::Console => AppTab::Sidebar,
    }
}

/// The selection after moving one entry down the sidebar: clamped to the
/// last entry.
pub open spec fn next_sel(sel: int, len: int) -> int {
    if len == 0 {
        sel
    } else if sel + 1 < len {
        sel + 1
    } else {
        len - 1
    }
}

/// The selection after moving one entry up the sidebar: clamped to the
/// first entry.
pub open spec fn prev_sel(sel: int, len: int) -> int {
    if len == 0 {
        sel
    } else if sel > 0 {
        sel - 1
    } else {
        0
    }
}

/// `after` is `before` with its console viewport moved `n` raw lines toward
/// the start of history, clamped at the very start; nothing else changed.
pub open spec fn scrolled_up(before: Cmd, after: Cmd, n: int) -> bool {
    &&& after.descriptor == before.descriptor
    &&& after.status == before.status
    &&& after.output.data == before.output.data
    &&& anchor_index(after.output.data, after.output.anchor) == {
        let g = anchor_index(before.output.data, before.output.anchor);
        if g >= n {
            g - n
        } else {
            0
        }
    }
}

/// `after` is `before` with its console viewport moved `n` raw lines toward
/// the live tail, clamped just past the last stored line; nothing else
/// changed.
pub open spec fn scrolled_down(before: Cmd, after: Cmd, n: int) -> bool {
    &&& after.descriptor == before.descriptor
    &&& after.status == before.status
    &&& after.output.data == before.output.data
    &&& anchor_index(after.output.data, after.output.anchor) == {
        let g = anchor_index(before.output.data, before.output.anchor);
        if g + n <= before.output.data.total() {
            g + n
        } else {
            before.output.data.total() as int
        }
    }
}

/// The whole dashboard: the supervised processes, which one is selected,
/// which pane has focus, and the console pane's last known size.
pub struct App {
    pub content: String,
    pub projects: Vec<Cmd>,
    pub selected_project_index: u8,
    pub active_tab: AppTab,
    pub should_exit: bool,
    pub console_widget_size: ConsoleSize,
}

impl App {
    /// Validity: the selection addresses a real project (when there is
    /// any), every project's state is valid, and the list is small enough
    /// for its one-byte index.
    pub open spec fn wf(&self) -> bool {
        &&& self.projects@.len() <= 256
        &&& self.projects@.len() > 0 ==> (self.selected_project_index as int)
            < self.projects@.len()
        &&& forall|i: int| 0 <= i < self.projects@.len() ==> (#[trigger] self.projects@[i]).wf()
    }

    /// The viewport rows of the selected process's console.
    pub fn lines(&self, w: usize, h: usize) -> (r: Vec<String>)
        requires
            self.wf(),
            self.projects@.len() > 0,
            w >= 1,
        ensures
            ({
                let c = self.projects@[self.selected_project_index as int];
                &&& r.deep_view() == render_spec(
                    line_views(c.output.data.lines()),
                    anchor_index(c.output.data, c.output.anchor),
                    w as int,
                    h as int,
                )
                &&& r@.len() == if all_rows(c.output.data, w as int).len() >= h {
                    h as nat
                } else {
                    all_rows(c.output.data, w as int).len()
                }
            }),
    {
        let idx: usize = self.selected_project_index as usize;
        self.projects[idx].render(w, h)
    }

    /// The currently selected process.
    pub fn selected_project(&self) -> (c: &Cmd)
        requires
            self.wf(),
            self.projects@.len() > 0,
        ensures
            c == self.projects@[self.selected_project_index as int],
    {
        let idx: usize = self.selected_project_index as usize;
        &self.projects[idx]
    }

    /// Moves the sidebar selection one entry down, clamping at the last.
    pub fn select_next(&mut self)
        requires
            old(self).wf(),
        ensures
            final(self).wf(),
            final(self).selected_project_index as int == next_sel(
                old(self).selected_project_index as int,
                old(self).projects@.len() as int,
            ),
            final(self).projects@ == old(self).projects@,
            final(self).content == old(self).content,
            final(self).active_tab == old(self).active_tab,
            final(self).should_exit == old(self).should_exit,
            final(self).console_widget_size == old(self).console_widget_size,
    {
        if self.projects.is_empty() {
            return ;
        }
        let idx: usize = self.selected_project_index as usize;
        if idx + 1 < self.projects.len() {
            self.selected_project_index = self.selected_project_index + 1;
        }
    }

    /// Moves the sidebar selection one entry up, clamping at the first.
    pub fn select_prev(&mut self)
        requires
            old(self).wf(),
        ensures
            final(self).wf(),
            final(self).selected_project_index as int == prev_sel(
                old(self).selected_project_index as int,
                old(self).projects@.len() as int,
            ),
            final(self).projects@ == old(self).projects@,
            final(self).content == old(self).content,
            final(self).active_tab == old(self).active_tab,
            final(self).should_exit == old(self).should_exit,
            final(self).console_widget_size == old(self).console_widget_size,
    {
        if self.projects.is_empty() {
            return ;
        }
        if self.selected_project_index > 0 {
            self.selected_project_index = self.selected_project_index - 1;
        }
    }

    /// Moves keyboard focus to the other pane.
    pub fn next_tab(&mut self)
        ensures
            *final(self) == (App { active_tab: toggled(old(self).active_tab), ..*old(self) }),
    {
        self.active_tab = match self.active_tab {
            AppTab::Console => AppTab::Sidebar,
            AppTab::Sidebar => AppTab::Console,
        };
    }

    /// One UI tick; the dashboard state does not change on its own.
    pub fn on_tick(&mut self)
        ensures
            *final(self) == *old(self),
    {
    }

    /// Scrolls the selected process's console `n` raw lines toward the
    /// start of history.
    fn scroll_selected_up(&mut self, n: usize)
        requires
            old(self).wf(),
            old(self).projects@.len() > 0,
        ensures
            final(self).wf(),
            final(self).projects@.len() == old(self).projects@.len(),
            forall|i: int|
                0 <= i < old(self).projects@.len() && i != old(self).selected_project_index as int
                    ==> final(self).projects@[i] == old(self).projects@[i],
            scrolled_up(
                old(self).projects@[old(self).selected_project_index as int],
                final(self).projects@[old(self).selected_project_index as int],
                n as int,
            ),
            final(self).selected_project_index == old(self).selected_project_index,
            final(self).content == old(self).content,
            final(self).active_tab == old(self).active_tab,
            final(self).should_exit == old(self).should_exit,
            final(self).console_widget_size == old(self).console_widget_size,
    {
        let idx: usize = self.selected_project_index as usize;
        let ghost pre = self.projects@;
        let mut c = self.projects.remove(idx);
        c.output.scroll_up(n);
        self.projects.insert(idx, c);
        proof {
            assert(self.projects@ =~= pre.update(idx as int, c));
        }
    }

    /// Scrolls the selected process's console `n` raw lines toward the live
    /// tail.
    fn scroll_selected_down(&mut self, n: usize)
        requires
            old(self).wf(),
            old(self).projects@.len() > 0,
        ensures
            final(self).wf(),
            final(self).projects@.len() == old(self).projects@.len(),
            forall|i: int|
                0 <= i < old(self).projects@.len() && i != old(self).selected_project_index as int
                    ==> final(self).projects@[i] == old(self).projects@[i],
            scrolled_down(
                old(self).projects@[old(self).selected_project_index as int],
                final(self).projects@[old(self).selected_project_index as int],
                n as int,
            ),
            final(self).selected_project_index == old(self).selected_project_index,
            final(self).content == old(self).content,
            final(self).active_tab == old(self).active_tab,
            final(self).should_exit == old(self).should_exit,
            final(self).console_widget_size == old(self).console_widget_size,
    {
        let idx: usize = self.selected_project_index as usize;
        let ghost pre = self.projects@;
        let mut c = self.projects.remove(idx);
        c.output.scroll_down(n);
        self.projects.insert(idx, c);
        proof {
            assert(self.projects@ =~= pre.update(idx as int, c));
        }
    }

    /// Reacts to one decoded key press: updates focus, selection, scroll
    /// position and the exit flag, and reports what the caller must carry
    /// out on the child processes.
    pub fn on_key(&mut self, intent: KeyIntent) -> (a: KeyAction)
        requires
            old(self).wf(),
            old(self).projects@.len() > 0,
        ensures
            final(self).wf(),
            final(self).projects@.len() == old(self).projects@.len(),
            final(self).content == old(self).content,
            final(self).console_widget_size == old(self).console_widget_size,
            final(self).should_exit == (old(self).should_exit || intent is Quit),
            (a is StopAll) == (intent is Quit),
            (a is SpawnSelected) == (intent is Run),
            (a is StopSelected) == (intent is Stop),
            final(self).active_tab == if intent is SwitchPane {
                toggled(old(self).active_tab)
            } else {
                old(self).active_tab
            },
            final(self).selected_project_index as int == if intent is Up && old(
                self,
            ).active_tab is Sidebar {
                prev_sel(
                    old(self).selected_project_index as int,
                    old(self).projects@.len() as int,
                )
            } else if intent is Down && old(self).active_tab is Sidebar {
                next_sel(
                    old(self).selected_project_index as int,
                    old(self).projects@.len() as int,
                )
            } else {
                old(self).selected_project_index as int
            },
            forall|i: int|
                0 <= i < old(self).projects@.len() && i != old(self).selected_project_index as int
                    ==> final(self).projects@[i] == old(self).projects@[i],
            ({
                let before = old(self).projects@[old(self).selected_project_index as int];
                let after = final(self).projects@[old(self).selected_project_index as int];
                let page = old(self).console_widget_size.height as int;
                if old(self).active_tab is Console {
                    if intent is Up {
                        scrolled_up(before, after, 1)
                    } else if intent is Down {
                        scrolled_down(before, after, 1)
                    } else if intent is PageUp {
                        scrolled_up(before, after, page)
                    } else if intent is PageDown {
                        scrolled_down(before, after, page)
                    } else {
                        after == before
                    }
                } else {
                    after == before
                }
            }),
    {
        match intent {
            KeyIntent::Quit => {
                self.should_exit = true;
                KeyAction::StopAll
            },
            KeyIntent::Run => KeyAction::SpawnSelected,
            KeyIntent::Stop => KeyAction::StopSelected,
            KeyIntent::SwitchPane => {
                self.next_tab();
                KeyAction::Nothing
            },
            KeyIntent::Up => {
                match self.active_tab {
                    AppTab::Sidebar => self.select_prev(),
                    AppTab::Console => self.scroll_selected_up(1),
                }
                KeyAction::Nothing
            },
            KeyIntent::Down => {
                match self.active_tab {
                    AppTab::Sidebar => self.select_next(),
                    AppTab::Console => self.scroll_selected_down(1),
                }
                KeyAction::Nothing
            },
            KeyIntent::PageUp => {
                if let AppTab::Console = self.active_tab {
                    let h: usize = self.console_widget_size.height as usize;
                    self.scroll_selected_up(h);
                }
                KeyAction::Nothing
            },
            KeyIntent::PageDown => {
                if let AppTab::Console = self.active_tab {
                    let h: usize = self.console_widget_size.height as usize;
                    self.scroll_selected_down(h);
                }
                KeyAction::Nothing
            },
        }
    }
}

impl Default for App {
    fn default() -> (a: App)
        ensures
            a.wf(),
            a.projects@.len() == 0,
            a.content@ == Seq::<char>::empty(),
            a.selected_project_index == 0,
            a.active_tab is Sidebar,
            !a.should_exit,
            a.console_widget_size == (ConsoleSize { width: 0, height: 0 }),
    {
        App {
            projects: Vec::new(),
            content: String::new(),
            selected_project_index: 0,
            active_tab: AppTab::Sidebar,
            should_exit: false,
            console_widget_size: ConsoleSize { width: 0, height: 0 },
        }
    }
}

} // verus!
