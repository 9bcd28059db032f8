//! The dashboard state: the snapshot held between samples, the active
//! sort, filter and view mode, the cursor, and the modal input state
//! machine that turns key events into state changes and actions.

use vstd::prelude::*;
use crate::record::{ProcessRecord, pids_unique};
use crate::view::{
    SortBy, SortOrder, filter_view, filtered_recs, flat_rows, flat_view,
};
use crate::tree::{tree_rows, rows_match};
use crate::text::chars_to_string;
use crate::timefmt::dec_str;

verus! {

/// Which keys are interpreted and which overlay is shown.
#[derive(Clone, Copy, PartialEq, Eq, Structural, Debug)]
pub enum InputMode {
    Normal,
    Search,
    KillMenu,
}

/// One abstract key event, already mapped from raw key codes.
#[derive(Clone, Copy, PartialEq, Eq, Structural, Debug)]
pub enum Event {
    Quit,
    ToggleTree,
    OpenSearch,
    OpenKillMenu,
    Up,
    Down,
    PageUp,
    PageDown,
    Home,
    End,
    Escape,
    Confirm,
    Backspace,
    Char(char),
    Sort(SortBy),
    InvertSort,
}

/// What the shell must do after a step.
#[derive(Clone, Copy, PartialEq, Eq, Structural, Debug)]
pub enum Action {
    Nothing,
    Quit,
    Signal { pid: u32, signal: i32 },
}

/// The numeric signals of the fixed catalog, in display order.
pub open spec fn signal_numbers() -> Seq<i32> {
    seq![1i32, 2i32, 9i32, 15i32, 20i32, 24i32]
}

/// The dashboard state between two key events.
pub struct App {
    /// The current snapshot, replaced wholesale every refresh.
    pub processes: Vec<ProcessRecord>,
    pub sort_by: SortBy,
    pub sort_order: SortOrder,
    /// Index into the active view sequence; `None` before any selection.
    pub cursor: Option<usize>,
    pub input_mode: InputMode,
    /// The committed filter pattern, if any.
    pub active_filter: Option<String>,
    /// The query being typed while in search mode.
    pub search_query: Vec<char>,
    /// Hierarchical view when set; flat view otherwise.
    pub tree_view: bool,
    /// The latest status message, shown until the next user action.
    pub message: Option<String>,
    /// The fixed signal catalog: label and signal number.
    pub kill_signals: Vec<(&'static str, i32)>,
    /// Cursor over the signal catalog while the kill menu is open.
    pub sig_index: usize,
}

impl App {
    /// The catalog is the fixed one and the signal cursor stays on it;
    /// pids are unique within the snapshot.
    pub open spec fn wf(self) -> bool {
        &&& pids_unique(self.processes@)
        &&& self.kill_signals@.len() == signal_numbers().len()
        &&& forall|i: int|
            0 <= i < self.kill_signals@.len() ==> (#[trigger] self.kill_signals@[i]).1
                == signal_numbers()[i]
        &&& self.sig_index < self.kill_signals@.len()
    }

    /// The rows of the active view: the filtered, sorted flat list at
    /// depth 0, or the pre-order tree.
    pub open spec fn view_rows(self) -> Seq<(nat, ProcessRecord)> {
        if self.tree_view {
            tree_rows(self.processes@)
        } else {
            flat_rows(
                self.processes@,
                self.sort_by,
                self.sort_order,
                filter_view(self.active_filter),
            ).map_values(|r: ProcessRecord| (0nat, r))
        }
    }

    /// The length navigation works against: all records in tree mode,
    /// the filtered records in flat mode.
    pub open spec fn list_len(self) -> nat {
        if self.tree_view {
            self.processes@.len()
        } else {
            filtered_recs(self.processes@, filter_view(self.active_filter)).len()
        }
    }

    /// The pid under the cursor in the active view, if the cursor points
    /// inside it.
    pub open spec fn selected_pid_spec(self) -> Option<u32> {
        match self.cursor {
            Option::None => Option::None,
            Option::Some(i) => {
                let rows = self.view_rows();
                if (i as nat) < rows.len() {
                    Option::Some(rows[i as int].1.pid)
                } else {
                    Option::None
                }
            },
        }
    }
}

/// The cursor one step down: wraps from the last row to the first.
pub open spec fn wrap_next(c: Option<usize>, len: nat) -> Option<usize> {
    if len == 0 {
        c
    } else {
        match c {
            Option::None => Option::Some(0usize),
            Option::Some(i) => if i + 1 >= len {
                Option::Some(0usize)
            } else {
                Option::Some((i + 1) as usize)
            },
        }
    }
}

/// The cursor one step up: wraps from the first row to the last.
pub open spec fn wrap_prev(c: Option<usize>, len: nat) -> Option<usize> {
    if len == 0 {
        c
    } else {
        match c {
            Option::None => Option::Some((len - 1) as usize),
            Option::Some(i) => if i == 0 {
                Option::Some((len - 1) as usize)
            } else {
                Option::Some((i - 1) as usize)
            },
        }
    }
}

/// The cursor one page down: clamps to the last row, never wraps.
pub open spec fn page_down_cursor(c: Option<usize>, len: nat, page: nat) -> Option<usize> {
    if len == 0 {
        c
    } else {
        let i = match c {
            Option::None => 0int,
            Option::Some(i) => i as int,
        };
        if i + page >= len - 1 {
            Option::Some((len - 1) as usize)
        } else {
            Option::Some((i + page) as usize)
        }
    }
}

/// The cursor one page up: floors at the first row.
pub open spec fn page_up_cursor(c: Option<usize>, len: nat, page: nat) -> Option<usize> {
    if len == 0 {
        c
    } else {
        let i = match c {
            Option::None => 0int,
            Option::Some(i) => i as int,
        };
        if i <= page {
            Option::Some(0usize)
        } else {
            Option::Some((i - page) as usize)
        }
    }
}

/// The signal cursor one step down, wrapping at the catalog's end.
pub open spec fn sig_next(i: usize, len: nat) -> usize {
    if i + 1 >= len {
        0usize
    } else {
        (i + 1) as usize
    }
}

/// The signal cursor one step up, wrapping at the catalog's start.
pub open spec fn sig_prev(i: usize, len: nat) -> usize {
    if i == 0 {
        (len - 1) as usize
    } else {
        (i - 1) as usize
    }
}

/// The state after selecting a sort key: re-selecting the active key
/// flips the direction, a new key sorts descending; either way the
/// cursor returns to the top.
pub open spec fn sort_selected(pre: App, k: SortBy) -> App {
    if pre.sort_by == k {
        App {
            sort_order: match pre.sort_order {
                SortOrder::Asc => SortOrder::Desc,
                SortOrder::Desc => SortOrder::Asc,
            },
            cursor: Option::Some(0usize),
            ..pre
        }
    } else {
        App { sort_by: k, sort_order: SortOrder::Desc, cursor: Option::Some(0usize), ..pre }
    }
}

/// How one key event steps the state machine: relates the state before,
/// the event, the page size, the state after, and the action the shell
/// must perform. An event that does not apply in the current mode leaves
/// the state unchanged.
pub open spec fn steps_to(pre: App, ev: Event, page: nat, post: App, act: Action) -> bool {
    match pre.input_mode {
        InputMode::Normal => match ev {
            Event::Quit => post == pre && act == Action::Quit,
            Event::OpenSearch => act == Action::Nothing && post == (App {
                input_mode: InputMode::Search,
                search_query: post.search_query,
                message: Option::None,
                ..pre
            }) && post.search_query@ == Seq::<char>::empty(),
            Event::OpenKillMenu => act == Action::Nothing && (match pre.selected_pid_spec() {
                Option::Some(_) => post == (App {
                    input_mode: InputMode::KillMenu,
                    sig_index: 0usize,
                    ..pre
                }),
                Option::None => post == pre,
            }),
            Event::Sort(k) => act == Action::Nothing && post == sort_selected(pre, k),
            Event::InvertSort => act == Action::Nothing && post == sort_selected(pre, pre.sort_by),
            Event::Down => act == Action::Nothing && post == (App {
                cursor: wrap_next(pre.cursor, pre.list_len()),
                ..pre
            }),
            Event::Up => act == Action::Nothing && post == (App {
                cursor: wrap_prev(pre.cursor, pre.list_len()),
                ..pre
            }),
            Event::PageDown => act == Action::Nothing && post == (App {
                cursor: page_down_cursor(pre.cursor, pre.list_len(), page),
                ..pre
            }),
            Event::PageUp => act == Action::Nothing && post == (App {
                cursor: page_up_cursor(pre.cursor, pre.list_len(), page),
                ..pre
            }),
            Event::Home => act == Action::Nothing && post == (App {
                cursor: if pre.list_len() > 0 {
                    Option::Some(0usize)
                } else {
                    pre.cursor
                },
                ..pre
            }),
            Event::End => act == Action::Nothing && post == (App {
                cursor: if pre.list_len() > 0 {
                    Option::Some((pre.list_len() - 1) as usize)
                } else {
                    pre.cursor
                },
                ..pre
            }),
            Event::ToggleTree => act == Action::Nothing && post == (App {
                tree_view: !pre.tree_view,
                cursor: Option::Some(0usize),
                ..pre
            }),
            Event::Escape => act == Action::Nothing && (if pre.active_filter is Some {
                post == (App {
                    active_filter: Option::None,
                    cursor: Option::Some(0usize),
                    message: Option::None,
                    ..pre
                })
            } else {
                post == (App { message: Option::None, ..pre })
            }),
            _ => post == pre && act == Action::Nothing,
        },
        InputMode::Search => match ev {
            Event::Char(c) => act == Action::Nothing && post == (App {
                search_query: post.search_query,
                ..pre
            }) && post.search_query@ == pre.search_query@.push(c),
            Event::Backspace => act == Action::Nothing && post == (App {
                search_query: post.search_query,
                ..pre
            }) && post.search_query@ == (if pre.search_query@.len() > 0 {
                pre.search_query@.drop_last()
            } else {
                pre.search_query@
            }),
            Event::Confirm => act == Action::Nothing && post == (App {
                input_mode: InputMode::Normal,
                active_filter: post.active_filter,
                cursor: Option::Some(0usize),
                ..pre
            }) && filter_view(post.active_filter) == (if pre.search_query@.len() == 0 {
                Option::<Seq<char>>::None
            } else {
                Option::Some(pre.search_query@)
            }),
            Event::Escape => act == Action::Nothing && post == (App {
                input_mode: InputMode::Normal,
                search_query: post.search_query,
                ..pre
            }) && post.search_query@ == Seq::<char>::empty(),
            _ => post == pre && act == Action::Nothing,
        },
        InputMode::KillMenu => match ev {
            Event::Escape => act == Action::Nothing && post == (App {
                input_mode: InputMode::Normal,
                ..pre
            }),
            Event::Down => act == Action::Nothing && post == (App {
                sig_index: sig_next(pre.sig_index, pre.kill_signals@.len()),
                ..pre
            }),
            Event::Up => act == Action::Nothing && post == (App {
                sig_index: sig_prev(pre.sig_index, pre.kill_signals@.len()),
                ..pre
            }),
            Event::Confirm => post == (App { input_mode: InputMode::Normal, ..pre }) && act
                == (match pre.selected_pid_spec() {
                Option::Some(pid) => Action::Signal {
                    pid,
                    signal: pre.kill_signals@[pre.sig_index as int].1,
                },
                Option::None => Action::Nothing,
            }),
            _ => post == pre && act == Action::Nothing,
        },
    }
}

impl App {
    /// A fresh dashboard: empty snapshot, CPU sort descending, flat view,
    /// no filter, no selection, normal mode, the fixed signal catalog.
    pub fn new() -> (app: App)
        ensures
            app.wf(),
            app.processes@ =~= Seq::<ProcessRecord>::empty(),
            app.sort_by == SortBy::CPU,
            app.sort_order == SortOrder::Desc,
            app.cursor is None,
            app.input_mode == InputMode::Normal,
            app.active_filter is None,
            app.search_query@ =~= Seq::<char>::empty(),
            !app.tree_view,
            app.message is None,
            app.sig_index == 0,
    {
        let mut signals: Vec<(&'static str, i32)> = Vec::new();
        signals.push((" 1 SIGHUP", 1));
        signals.push((" 2 SIGINT", 2));
        signals.push((" 9 SIGKILL", 9));
        signals.push(("15 SIGTERM", 15));
        signals.push(("20 SIGTSTP", 20));
        signals.push(("24 SIGXCPU", 24));
        let app = App {
            processes: Vec::new(),
            sort_by: SortBy::CPU,
            sort_order: SortOrder::Desc,
            cursor: Option::None,
            input_mode: InputMode::Normal,
            active_filter: Option::None,
            search_query: Vec::new(),
            tree_view: false,
            message: Option::None,
            kill_signals: signals,
            sig_index: 0,
        };
        app
    }

    /// Installs a fresh snapshot, replacing the previous one wholesale.
    /// Cursor, mode, sort, filter and message all persist across the
    /// refresh; navigation clamps against the new length later.
    pub fn replace_snapshot(&mut self, recs: Vec<ProcessRecord>)
        requires
            old(self).wf(),
            pids_unique(recs@),
        ensures
            final(self).wf(),
            *final(self) == (App { processes: final(self).processes, ..*old(self) }),
            final(self).processes == recs,
    {
        self.processes = recs;
    }

    /// The number of rows navigation currently works against.
    pub fn get_list_length(&self) -> (n: usize)
        ensures
            n == self.list_len(),
    {
        if self.tree_view {
            self.processes.len()
        } else {
            let kept = crate::view::filter_records(&self.processes, &self.active_filter);
            kept.len()
        }
    }

    /// Moves the cursor one row down, wrapping to the top.
    pub fn next(&mut self)
        ensures
            *final(self) == (App {
                cursor: wrap_next(old(self).cursor, old(self).list_len()),
                ..*old(self)
            }),
    {
        let len = self.get_list_length();
        if len == 0 {
            return ;
        }
        let i = match self.cursor {
            Option::Some(i) => if i >= len - 1 {
                0
            } else {
                i + 1
            },
            Option::None => 0,
        };
        self.cursor = Option::Some(i);
    }

    /// Moves the cursor one row up, wrapping to the bottom.
    pub fn previous(&mut self)
        ensures
            *final(self) == (App {
                cursor: wrap_prev(old(self).cursor, old(self).list_len()),
                ..*old(self)
            }),
    {
        let len = self.get_list_length();
        if len == 0 {
            return ;
        }
        let i = match self.cursor {
            Option::Some(i) => if i == 0 {
                len - 1
            } else {
                i - 1
            },
            Option::None => len - 1,
        };
        self.cursor = Option::Some(i);
    }

    /// Moves the cursor one page down, clamping to the last row.
    pub fn page_down(&mut self, page_size: usize)
        ensures
            *final(self) == (App {
                cursor: page_down_cursor(old(self).cursor, old(self).list_len(), page_size as nat),
                ..*old(self)
            }),
    {
        let len = self.get_list_length();
        if len == 0 {
            return ;
        }
        let i = match self.cursor {
            Option::Some(i) => i,
            Option::None => 0,
        };
        let cap = len - 1;
        let ni = if i >= cap {
            cap
        } else if page_size >= cap - i {
            cap
        } else {
            i + page_size
        };
        self.cursor = Option::Some(ni);
    }

    /// Moves the cursor one page up, flooring at the first row.
    pub fn page_up(&mut self, page_size: usize)
        ensures
            *final(self) == (App {
                cursor: page_up_cursor(old(self).cursor, old(self).list_len(), page_size as nat),
                ..*old(self)
            }),
    {
        let len = self.get_list_length();
        if len == 0 {
            return ;
        }
        let i = match self.cursor {
            Option::Some(i) => i,
            Option::None => 0,
        };
        let ni = if i <= page_size {
            0
        } else {
            i - page_size
        };
        self.cursor = Option::Some(ni);
    }

    /// Puts the cursor on the first row, if there is one.
    pub fn home(&mut self)
        ensures
            *final(self) == (App {
                cursor: if old(self).list_len() > 0 {
                    Option::Some(0usize)
                } else {
                    old(self).cursor
                },
                ..*old(self)
            }),
    {
        if self.get_list_length() > 0 {
            self.cursor = Option::Some(0);
        }
    }

    /// Puts the cursor on the last row, if there is one.
    pub fn end(&mut self)
        ensures
            *final(self) == (App {
                cursor: if old(self).list_len() > 0 {
                    Option::Some((old(self).list_len() - 1) as usize)
                } else {
                    old(self).cursor
                },
                ..*old(self)
            }),
    {
        let len = self.get_list_length();
        if len > 0 {
            self.cursor = Option::Some(len - 1);
        }
    }

    /// Selects a sort key: re-selecting the active key flips the
    /// direction; either way the cursor returns to the top.
    pub fn set_sort_by(&mut self, k: SortBy)
        ensures
            *final(self) == sort_selected(*old(self), k),
    {
        if self.sort_by == k {
            self.sort_order = match self.sort_order {
                SortOrder::Asc => SortOrder::Desc,
                SortOrder::Desc => SortOrder::Asc,
            };
        } else {
            self.sort_by = k;
            self.sort_order = SortOrder::Desc;
        }
        self.cursor = Option::Some(0);
    }

    /// Moves the kill-menu cursor one entry down, wrapping.
    pub fn next_kill_signal(&mut self)
        requires
            old(self).wf(),
        ensures
            final(self).wf(),
            *final(self) == (App {
                sig_index: sig_next(old(self).sig_index, old(self).kill_signals@.len()),
                ..*old(self)
            }),
    {
        let len = self.kill_signals.len();
        self.sig_index = if self.sig_index >= len - 1 {
            0
        } else {
            self.sig_index + 1
        };
    }

    /// Moves the kill-menu cursor one entry up, wrapping.
    pub fn previous_kill_signal(&mut self)
        requires
            old(self).wf(),
        ensures
            final(self).wf(),
            *final(self) == (App {
                sig_index: sig_prev(old(self).sig_index, old(self).kill_signals@.len()),
                ..*old(self)
            }),
    {
        let len = self.kill_signals.len();
        self.sig_index = if self.sig_index == 0 {
            len - 1
        } else {
            self.sig_index - 1
        };
    }

    /// The hierarchical rows: every process, pid-sorted roots first,
    /// each subtree in pre-order with its depth.
    pub fn tree_ordered_processes(&self) -> (rows: Vec<(usize, ProcessRecord)>)
        ensures
            rows_match(rows@, tree_rows(self.processes@)),
    {
        crate::tree::tree_view(&self.processes)
    }

    /// The records passing the active filter, in snapshot order.
    pub fn filtered_processes(&self) -> (out: Vec<ProcessRecord>)
        ensures
            out@ == filtered_recs(self.processes@, filter_view(self.active_filter)),
    {
        crate::view::filter_records(&self.processes, &self.active_filter)
    }

    /// The rows of the active view, each with its depth.
    pub fn render_view(&self) -> (rows: Vec<(usize, ProcessRecord)>)
        ensures
            rows_match(rows@, self.view_rows()),
    {
        if self.tree_view {
            self.tree_ordered_processes()
        } else {
            let flat = flat_view(&self.processes, self.sort_by, self.sort_order, &self.active_filter);
            let mut rows: Vec<(usize, ProcessRecord)> = Vec::new();
            let n = flat.len();
            for i in 0..n
                invariant
                    n == flat@.len(),
                    rows@.len() == i,
                    forall|j: int|
                        0 <= j < i ==> (#[trigger] rows@[j]).0 == 0usize && rows@[j].1 == flat@[j],
            {
                rows.push((0usize, flat[i].clone()));
            }
            rows
        }
    }

    /// The pid under the cursor in the active view.
    pub fn selected_pid(&self) -> (p: Option<u32>)
        ensures
            p == self.selected_pid_spec(),
    {
        match self.cursor {
            Option::None => Option::None,
            Option::Some(i) => {
                let rows = self.render_view();
                if i < rows.len() {
                    Option::Some(rows[i].1.pid)
                } else {
                    Option::None
                }
            },
        }
    }

    /// Steps the state machine by one key event; the returned action is
    /// what the shell must do before the next event.
    pub fn handle_event(&mut self, ev: Event, page_size: usize) -> (act: Action)
        requires
            old(self).wf(),
        ensures
            final(self).wf(),
            steps_to(*old(self), ev, page_size as nat, *final(self), act),
    {
        let mode = self.input_mode;
        match mode {
            InputMode::Normal => match ev {
                Event::Quit => Action::Quit,
                Event::OpenSearch => {
                    self.input_mode = InputMode::Search;
                    self.search_query = Vec::new();
                    self.message = Option::None;
                    Action::Nothing
                },
                Event::OpenKillMenu => {
                    let sel = self.selected_pid();
                    match sel {
                        Option::Some(_) => {
                            self.input_mode = InputMode::KillMenu;
                            self.sig_index = 0;
                        },
                        Option::None => {},
                    }
                    Action::Nothing
                },
                Event::Sort(k) => {
                    self.set_sort_by(k);
                    Action::Nothing
                },
                Event::InvertSort => {
                    let k = self.sort_by;
                    self.set_sort_by(k);
                    Action::Nothing
                },
                Event::Down => {
                    self.next();
                    Action::Nothing
                },
                Event::Up => {
                    self.previous();
                    Action::Nothing
                },
                Event::PageDown => {
                    self.page_down(page_size);
                    Action::Nothing
                },
                Event::PageUp => {
                    self.page_up(page_size);
                    Action::Nothing
                },
                Event::Home => {
                    self.home();
                    Action::Nothing
                },
                Event::End => {
                    self.end();
                    Action::Nothing
                },
                Event::ToggleTree => {
                    self.tree_view = !self.tree_view;
                    self.cursor = Option::Some(0);
                    Action::Nothing
                },
                Event::Escape => {
                    let has_filter = match &self.active_filter {
                        Option::Some(_) => true,
                        Option::None => false,
                    };
                    if has_filter {
                        self.active_filter = Option::None;
                        self.cursor = Option::Some(0);
                    }
                    self.message = Option::None;
                    Action::Nothing
                },
                _ => Action::Nothing,
            },
            InputMode::Search => match ev {
                Event::Char(c) => {
                    self.search_query.push(c);
                    Action::Nothing
                },
                Event::Backspace => {
                    if self.search_query.len() > 0 {
                        self.search_query.pop();
                    }
                    Action::Nothing
                },
                Event::Confirm => {
                    self.input_mode = InputMode::Normal;
                    self.active_filter = if self.search_query.len() == 0 {
                        Option::None
                    } else {
                        Option::Some(chars_to_string(&self.search_query))
                    };
                    self.cursor = Option::Some(0);
                    Action::Nothing
                },
                Event::Escape => {
                    self.input_mode = InputMode::Normal;
                    self.search_query = Vec::new();
                    Action::Nothing
                },
                _ => Action::Nothing,
            },
            InputMode::KillMenu => match ev {
                Event::Escape => {
                    self.input_mode = InputMode::Normal;
                    Action::Nothing
                },
                Event::Down => {
                    self.next_kill_signal();
                    Action::Nothing
                },
                Event::Up => {
                    self.previous_kill_signal();
                    Action::Nothing
                },
                Event::Confirm => {
                    let sel = self.selected_pid();
                    self.input_mode = InputMode::Normal;
                    match sel {
                        Option::Some(pid) => Action::Signal {
                            pid,
                            signal: self.kill_signals[self.sig_index].1,
                        },
                        Option::None => Action::Nothing,
                    }
                },
                _ => Action::Nothing,
            },
        }
    }

    /// The status message after a signal delivery: what was sent where,
    /// or the failure reason the collaborator reported.
    pub fn record_signal_outcome(&mut self, pid: u32, signal: i32, error: Option<String>)
        requires
            signal >= 0,
        ensures
            *final(self) == (App { message: final(self).message, ..*old(self) }),
            final(self).message is Some,
            final(self).message->0@ == outcome_message(pid, signal as nat, match error {
                Option::None => Option::None,
                Option::Some(e) => Option::Some(e@),
            }),
    {
        let msg = match error {
            Option::None => {
                let mut m = String::from_str("Sent signal ");
                m.append(crate::timefmt::u64_to_string(signal as u64).as_str());
                m.append(" to PID ");
                m.append(crate::timefmt::u64_to_string(pid as u64).as_str());
                m
            },
            Option::Some(e) => {
                let mut m = String::from_str("Error killing ");
                m.append(crate::timefmt::u64_to_string(pid as u64).as_str());
                m.append(": ");
                m.append(e.as_str());
                m
            },
        };
        self.message = Option::Some(msg);
    }
}

/// The status line reported after a signal delivery attempt.
pub open spec fn outcome_message(pid: u32, signal: nat, error: Option<Seq<char>>) -> Seq<char> {
    match error {
        Option::None => "Sent signal "@ + dec_str(signal) + " to PID "@ + dec_str(pid as nat),
        Option::Some(e) => "Error killing "@ + dec_str(pid as nat) + ": "@ + e,
    }
}

} // verus!
