//! The viewer state machine: view modes (normal, search, help, picker,
//! go-to dialog), scroll position, and the dispatch of keyboard and mouse
//! events. Every transition is stated exactly, so mode bookkeeping such as
//! the help-scroll snapshot and the document-switch reset are verified.

use crate::mapper::{link_at_position, link_at_position_spec, link_at_scroll, link_at_scroll_spec,
    lemma_rows_before_nondecreasing, LinkTarget};
use crate::picker::PickerEntry;
use crate::search::{build_search_matches, find_matches_spec, resolve_match, SearchMatch};
use crate::style::{estimate_rendered_lines, estimate_spec};
use crate::wrap::{build_wraps, effective_budget, rows_before, sat16, wrap_spec, LineWrap};
use vstd::prelude::*;
use vstd::string::*;

verus! {

/// A keyboard key, as the state machine distinguishes them.
#[derive(Clone, Copy, Debug, PartialEq, Eq, Structural)]
pub enum Key {
    Char(char),
    Enter,
    Esc,
    Backspace,
    Up,
    Down,
    PageUp,
    PageDown,
    Home,
    End,
    Tab,
    BackTab,
    Other,
}

/// What a handled key asks the surrounding loop to do.
#[derive(Clone, Copy, Debug, PartialEq, Eq, Structural)]
pub enum KeyAction {
    Nothing,
    Quit,
    OpenLink,
    NextDocument,
    PreviousDocument,
    OpenPicker,
    OpenGoDialog,
}

/// What a handled event asks the surrounding loop to do.
#[derive(Clone, Debug)]
pub enum EventResult {
    Continue,
    Quit,
    OpenPicker,
    OpenGoDialog,
    OpenPath(String),
    GoToIndex(usize),
    NextDocument,
    PreviousDocument,
}

/// A mouse event, as the state machine distinguishes them.
#[derive(Clone, Copy, Debug, PartialEq, Eq, Structural)]
pub enum MouseKind {
    ScrollDown,
    ScrollUp,
    Moved,
    Drag,
    DownLeft,
    DownOther,
    Up,
    Other,
}

/// A rectangle of the terminal screen, in cells.
#[derive(Clone, Copy, Debug, PartialEq, Eq, Structural)]
pub struct ScreenRect {
    pub x: u16,
    pub y: u16,
    pub width: u16,
    pub height: u16,
}

/// The whole interaction state of the viewer.
pub struct AppState {
    pub scroll: u16,
    pub viewport_height: u16,
    pub rendered_lines: u16,
    pub beeline_enabled: bool,
    pub plain_mode: bool,
    pub show_help: bool,
    pub search_mode: bool,
    pub search_query: String,
    pub search_matches: Vec<SearchMatch>,
    pub search_index: usize,
    pub current_links: Vec<LinkTarget>,
    pub current_line_offsets: Vec<u16>,
    pub current_wraps: Vec<LineWrap>,
    pub current_lines_text: Vec<String>,
    pub scroll_before_help: Option<u16>,
    pub content_area: ScreenRect,
    pub hover_link: Option<String>,
    pub last_mouse_pos: Option<(u16, u16)>,
    pub priming_mode: bool,
    pub picker_open: bool,
    pub picker_query: String,
    pub picker_dir: String,
    pub picker_entries: Vec<PickerEntry>,
    pub picker_selected: usize,
    pub go_dialog_open: bool,
    pub go_dialog_total: usize,
    pub go_dialog_selected: usize,
}

/// The smaller of two row numbers.
pub open spec fn min16(a: u16, b: u16) -> u16 {
    if a <= b {
        a
    } else {
        b
    }
}

/// Row addition that stops at the largest row number.
pub open spec fn sat_add16(a: u16, b: u16) -> u16 {
    if a + b > 0xFFFF {
        0xFFFF as u16
    } else {
        (a + b) as u16
    }
}

/// Row subtraction that stops at zero.
pub open spec fn sat_sub16(a: u16, b: u16) -> u16 {
    if a >= b {
        (a - b) as u16
    } else {
        0 as u16
    }
}

/// The next match index in the circular next-match cycle.
pub open spec fn cycle_next(i: int, n: int) -> int {
    (i + 1) % n
}

/// The previous match index in the circular cycle.
pub open spec fn cycle_prev(i: int, n: int) -> int {
    if i == 0 {
        n - 1
    } else {
        i - 1
    }
}

/// The index after `k` consecutive next-match steps.
pub open spec fn iterate_cycle(i: int, n: int, k: nat) -> int
    decreases k,
{
    if k == 0 {
        i
    } else {
        iterate_cycle(cycle_next(i, n), n, (k - 1) as nat)
    }
}

proof fn lemma_iterate_cycle_adds(i: int, n: int, k: nat)
    requires
        0 <= i < n,
        k <= n,
    ensures
        iterate_cycle(i, n, k) == (i + k) % n,
    decreases k,
{
    if k == 0 {
        vstd::arithmetic::div_mod::lemma_small_mod(i as nat, n as nat);
    } else {
        vstd::arithmetic::div_mod::lemma_mod_bound(i + 1, n);
        lemma_iterate_cycle_adds((i + 1) % n, n, (k - 1) as nat);
        vstd::arithmetic::div_mod::lemma_small_mod((k - 1) as nat, n as nat);
        vstd::arithmetic::div_mod::lemma_add_mod_noop(i + 1, k - 1, n);
    }
}

/// Cycling "next match" through all `n` matches and once more returns to
/// the match it started from.
pub proof fn lemma_cycle_returns_to_start(i: int, n: int)
    requires
        0 <= i < n,
    ensures
        iterate_cycle(i, n, n as nat) == i,
{
    lemma_iterate_cycle_adds(i, n, n as nat);
    vstd::arithmetic::div_mod::lemma_mod_add_multiples_vanish(i, n);
    vstd::arithmetic::div_mod::lemma_small_mod(i as nat, n as nat);
}

impl AppState {
    /// The vertical offset table is sorted, as built by the layout pass.
    pub open spec fn offsets_sorted(&self) -> bool {
        forall|i: int, j: int|
            0 <= i <= j < self.current_line_offsets@.len()
                ==> #[trigger] self.current_line_offsets@[i]
                <= #[trigger] self.current_line_offsets@[j]
    }

    /// The fresh state: normal mode, top of the document, nothing cached.
    pub fn new(enable_beeline: bool) -> (s: Self)
        ensures
            s.scroll == 0,
            s.viewport_height == 0,
            s.rendered_lines == 0,
            s.beeline_enabled == enable_beeline,
            !s.plain_mode,
            !s.show_help,
            !s.search_mode,
            s.search_query@ == Seq::<char>::empty(),
            s.search_matches@ == Seq::<SearchMatch>::empty(),
            s.search_index == 0,
            s.current_links@ == Seq::<LinkTarget>::empty(),
            s.current_line_offsets@ == Seq::<u16>::empty(),
            s.current_wraps@ == Seq::<LineWrap>::empty(),
            s.current_lines_text@ == Seq::<String>::empty(),
            s.scroll_before_help is None,
            s.content_area == (ScreenRect { x: 0, y: 0, width: 0, height: 0 }),
            s.hover_link is None,
            s.last_mouse_pos is None,
            s.priming_mode,
            !s.picker_open,
            s.picker_query@ == Seq::<char>::empty(),
            s.picker_dir@ == Seq::<char>::empty(),
            s.picker_entries@ == Seq::<PickerEntry>::empty(),
            s.picker_selected == 0,
            !s.go_dialog_open,
            s.go_dialog_total == 0,
            s.go_dialog_selected == 0,
    {
        AppState {
            scroll: 0,
            viewport_height: 0,
            rendered_lines: 0,
            beeline_enabled: enable_beeline,
            plain_mode: false,
            show_help: false,
            search_mode: false,
            search_query: String::new(),
            search_matches: Vec::new(),
            search_index: 0,
            current_links: Vec::new(),
            current_line_offsets: Vec::new(),
            current_wraps: Vec::new(),
            current_lines_text: Vec::new(),
            scroll_before_help: None,
            content_area: ScreenRect { x: 0, y: 0, width: 0, height: 0 },
            hover_link: None,
            last_mouse_pos: None,
            priming_mode: true,
            picker_open: false,
            picker_query: String::new(),
            picker_dir: String::new(),
            picker_entries: Vec::new(),
            picker_selected: 0,
            go_dialog_open: false,
            go_dialog_total: 0,
            go_dialog_selected: 0,
        }
    }

    /// Leave the help overlay; the scroll snapshot is kept for the next
    /// layout pass to restore.
    pub fn close_help(&mut self)
        ensures
            *final(self) == (AppState { show_help: false, ..*old(self) }),
    {
        if self.show_help {
            self.show_help = false;
        }
    }

    fn clear_search_state(&mut self)
        ensures
            *final(self) == (AppState {
                search_query: final(self).search_query,
                search_matches: final(self).search_matches,
                search_index: 0,
                ..*old(self)
            }),
            final(self).search_query@ == Seq::<char>::empty(),
            final(self).search_matches@ == Seq::<SearchMatch>::empty(),
    {
        self.search_query = String::new();
        self.search_matches = Vec::new();
        self.search_index = 0;
    }

    fn reset_search_matches(&mut self)
        ensures
            *final(self) == (AppState {
                search_matches: final(self).search_matches,
                search_index: 0,
                ..*old(self)
            }),
            final(self).search_matches@ == Seq::<SearchMatch>::empty(),
    {
        self.search_matches = Vec::new();
        self.search_index = 0;
    }

    /// Switching the focused document clears everything tied to the old
    /// one: scroll position, search state, hover, help, cached layout, and
    /// any open overlay.
    pub fn on_document_changed(&mut self)
        ensures
            *final(self) == (AppState {
                scroll: 0,
                search_mode: false,
                search_query: final(self).search_query,
                search_matches: final(self).search_matches,
                search_index: 0,
                hover_link: None,
                show_help: false,
                scroll_before_help: None,
                current_links: final(self).current_links,
                current_line_offsets: final(self).current_line_offsets,
                current_wraps: final(self).current_wraps,
                current_lines_text: final(self).current_lines_text,
                picker_open: false,
                picker_query: final(self).picker_query,
                picker_dir: final(self).picker_dir,
                picker_entries: final(self).picker_entries,
                picker_selected: 0,
                go_dialog_open: false,
                go_dialog_total: 0,
                go_dialog_selected: 0,
                ..*old(self)
            }),
            final(self).search_query@ == Seq::<char>::empty(),
            final(self).search_matches@ == Seq::<SearchMatch>::empty(),
            final(self).current_links@ == Seq::<LinkTarget>::empty(),
            final(self).current_line_offsets@ == Seq::<u16>::empty(),
            final(self).current_wraps@ == Seq::<LineWrap>::empty(),
            final(self).current_lines_text@ == Seq::<String>::empty(),
            final(self).picker_query@ == Seq::<char>::empty(),
            final(self).picker_dir@ == Seq::<char>::empty(),
            final(self).picker_entries@ == Seq::<PickerEntry>::empty(),
    {
        self.scroll = 0;
        self.search_mode = false;
        self.clear_search_state();
        self.hover_link = None;
        self.show_help = false;
        self.scroll_before_help = None;
        self.current_links = Vec::new();
        self.current_line_offsets = Vec::new();
        self.current_wraps = Vec::new();
        self.current_lines_text = Vec::new();
        self.close_picker();
        self.close_go_dialog();
    }

    /// Open the file picker on a directory whose listing the caller has
    /// already produced; closes the go-to dialog, leaves search mode, and
    /// clears the hover link.
    pub fn open_picker(&mut self, dir: String, entries: Vec<PickerEntry>)
        ensures
            *final(self) == (AppState {
                go_dialog_open: false,
                go_dialog_total: 0,
                go_dialog_selected: 0,
                picker_open: true,
                picker_query: final(self).picker_query,
                picker_dir: dir,
                picker_entries: entries,
                picker_selected: 0,
                search_mode: false,
                hover_link: None,
                ..*old(self)
            }),
            final(self).picker_query@ == Seq::<char>::empty(),
    {
        self.close_go_dialog();
        self.picker_open = true;
        self.picker_query = String::new();
        self.picker_dir = dir;
        self.picker_selected = 0;
        self.search_mode = false;
        self.hover_link = None;
        self.picker_entries = entries;
    }

    /// Replace the picker listing (after a directory change or query
    /// edit), clamping the selection to the new listing.
    pub fn set_picker_entries(&mut self, entries: Vec<PickerEntry>)
        ensures
            *final(self) == (AppState {
                picker_entries: entries,
                picker_selected: if old(self).picker_selected >= entries@.len() {
                    (if entries@.len() > 0 {
                        entries@.len() - 1
                    } else {
                        0
                    }) as usize
                } else {
                    old(self).picker_selected
                },
                ..*old(self)
            }),
    {
        self.picker_entries = entries;
        if self.picker_selected >= self.picker_entries.len() {
            if self.picker_entries.len() > 0 {
                self.picker_selected = self.picker_entries.len() - 1;
            } else {
                self.picker_selected = 0;
            }
        }
    }

    /// Close the file picker and drop its transient state.
    pub fn close_picker(&mut self)
        ensures
            *final(self) == (AppState {
                picker_open: false,
                picker_query: final(self).picker_query,
                picker_dir: final(self).picker_dir,
                picker_entries: final(self).picker_entries,
                picker_selected: 0,
                ..*old(self)
            }),
            final(self).picker_query@ == Seq::<char>::empty(),
            final(self).picker_dir@ == Seq::<char>::empty(),
            final(self).picker_entries@ == Seq::<PickerEntry>::empty(),
    {
        self.picker_open = false;
        self.picker_query = String::new();
        self.picker_entries = Vec::new();
        self.picker_dir = String::new();
        self.picker_selected = 0;
    }

    /// Open the go-to-document dialog (only when documents exist), with
    /// the selection on the focused document; closes the picker, leaves
    /// search mode and help, and clears the hover link.
    pub fn open_go_dialog(&mut self, total: usize, current_index: usize)
        ensures
            *final(self) == (AppState {
                picker_open: false,
                picker_query: final(self).picker_query,
                picker_dir: final(self).picker_dir,
                picker_entries: final(self).picker_entries,
                picker_selected: 0,
                go_dialog_open: total > 0,
                go_dialog_total: total,
                go_dialog_selected: if total == 0 {
                    0
                } else if current_index < total - 1 {
                    current_index
                } else {
                    (total - 1) as usize
                },
                search_mode: false,
                show_help: false,
                hover_link: None,
                ..*old(self)
            }),
            final(self).picker_query@ == Seq::<char>::empty(),
            final(self).picker_dir@ == Seq::<char>::empty(),
            final(self).picker_entries@ == Seq::<PickerEntry>::empty(),
    {
        self.close_picker();
        self.go_dialog_open = total > 0;
        self.go_dialog_total = total;
        self.go_dialog_selected = if total == 0 {
            0
        } else if current_index < total - 1 {
            current_index
        } else {
            total - 1
        };
        self.search_mode = false;
        self.show_help = false;
        self.hover_link = None;
    }

    /// What one keystroke does while the file picker is open. Changing the
    /// directory or the query leaves the stale listing in place; the caller
    /// refreshes it afterwards with [`AppState::set_picker_entries`].
    pub open spec fn picker_key_rel(
        pre: AppState,
        post: AppState,
        code: Key,
        r: EventResult,
    ) -> bool {
        match code {
            Key::Esc => {
                &&& post == AppState {
                    picker_open: false,
                    picker_query: post.picker_query,
                    picker_dir: post.picker_dir,
                    picker_entries: post.picker_entries,
                    picker_selected: 0,
                    ..pre
                }
                &&& post.picker_query@ == Seq::<char>::empty()
                &&& post.picker_dir@ == Seq::<char>::empty()
                &&& post.picker_entries@ == Seq::<PickerEntry>::empty()
                &&& r is Continue
            },
            Key::Up | Key::BackTab => {
                &&& post == AppState {
                    picker_selected: if pre.picker_selected > 0 {
                        (pre.picker_selected - 1) as usize
                    } else {
                        0
                    },
                    ..pre
                }
                &&& r is Continue
            },
            Key::Down | Key::Tab => {
                &&& if pre.picker_entries@.len() > 0 {
                    post == AppState {
                        picker_selected: if pre.picker_selected + 1 < pre.picker_entries@.len() {
                            (pre.picker_selected + 1) as usize
                        } else {
                            (pre.picker_entries@.len() - 1) as usize
                        },
                        ..pre
                    }
                } else {
                    post == pre
                }
                &&& r is Continue
            },
            Key::Home => post == AppState { picker_selected: 0, ..pre } && r is Continue,
            Key::End => {
                &&& post == AppState {
                    picker_selected: if pre.picker_entries@.len() > 0 {
                        (pre.picker_entries@.len() - 1) as usize
                    } else {
                        0
                    },
                    ..pre
                }
                &&& r is Continue
            },
            Key::Backspace => {
                &&& if pre.picker_query@.len() == 0 {
                    match crate::picker::parent_dir_spec(pre.picker_dir@) {
                        Some(p) => {
                            &&& post == AppState {
                                picker_dir: post.picker_dir,
                                picker_selected: 0,
                                ..pre
                            }
                            &&& post.picker_dir@ == p
                        },
                        None => post == pre,
                    }
                } else {
                    &&& post == AppState { picker_query: post.picker_query, ..pre }
                    &&& post.picker_query@ == pre.picker_query@.take(pre.picker_query@.len() - 1)
                }
                &&& r is Continue
            },
            Key::Char(c) => {
                &&& post == AppState { picker_query: post.picker_query, ..pre }
                &&& post.picker_query@ == pre.picker_query@.push(c)
                &&& r is Continue
            },
            Key::Enter => {
                if pre.picker_selected < pre.picker_entries@.len() {
                    let entry = pre.picker_entries@[pre.picker_selected as int];
                    match entry.kind {
                        crate::picker::PickerEntryKind::Parent
                        | crate::picker::PickerEntryKind::Directory => {
                            &&& post == AppState {
                                picker_dir: post.picker_dir,
                                picker_query: post.picker_query,
                                picker_selected: 0,
                                ..pre
                            }
                            &&& post.picker_dir@ == entry.path@
                            &&& post.picker_query@ == Seq::<char>::empty()
                            &&& r is Continue
                        },
                        crate::picker::PickerEntryKind::MarkdownFile => {
                            &&& post == AppState {
                                picker_open: false,
                                picker_query: post.picker_query,
                                picker_dir: post.picker_dir,
                                picker_entries: post.picker_entries,
                                picker_selected: 0,
                                ..pre
                            }
                            &&& post.picker_query@ == Seq::<char>::empty()
                            &&& post.picker_dir@ == Seq::<char>::empty()
                            &&& post.picker_entries@ == Seq::<PickerEntry>::empty()
                            &&& (r matches EventResult::OpenPath(p) && p@ == entry.path@)
                        },
                    }
                } else {
                    post == pre && r is Continue
                }
            },
            _ => post == pre && r is Continue,
        }
    }

    /// Dispatch one keystroke while the file picker is open. After a
    /// directory change or a query edit the caller lists the directory
    /// again and hands the listing to [`AppState::set_picker_entries`].
    pub fn handle_picker_key_input(&mut self, code: Key) -> (r: EventResult)
        requires
            old(self).picker_selected < usize::MAX,
        ensures
            AppState::picker_key_rel(*old(self), *final(self), code, r),
    {
        match code {
            Key::Esc => {
                self.close_picker();
                EventResult::Continue
            },
            Key::Up | Key::BackTab => {
                self.picker_selected = self.picker_selected.saturating_sub(1);
                EventResult::Continue
            },
            Key::Down | Key::Tab => {
                if self.picker_entries.len() > 0 {
                    let next = self.picker_selected + 1;
                    let cap = self.picker_entries.len() - 1;
                    self.picker_selected = if next < cap {
                        next
                    } else {
                        cap
                    };
                    proof {
                        if old(self).picker_selected + 1 < old(self).picker_entries@.len() {
                            assert(self.picker_selected == old(self).picker_selected + 1);
                        }
                    }
                }
                EventResult::Continue
            },
            Key::Home => {
                self.picker_selected = 0;
                EventResult::Continue
            },
            Key::End => {
                self.picker_selected = self.picker_entries.len().saturating_sub(1);
                EventResult::Continue
            },
            Key::Backspace => {
                if self.picker_query.as_str().unicode_len() == 0 {
                    match crate::picker::parent_of(self.picker_dir.as_str()) {
                        Some(parent) => {
                            self.picker_dir = parent;
                            self.picker_selected = 0;
                        },
                        None => {},
                    }
                } else {
                    let shortened = crate::textutil::string_drop_last(&self.picker_query);
                    self.picker_query = shortened;
                }
                EventResult::Continue
            },
            Key::Char(c) => {
                crate::textutil::string_push(&mut self.picker_query, c);
                EventResult::Continue
            },
            Key::Enter => {
                if self.picker_selected < self.picker_entries.len() {
                    let kind = self.picker_entries[self.picker_selected].kind;
                    match kind {
                        crate::picker::PickerEntryKind::Parent
                        | crate::picker::PickerEntryKind::Directory => {
                            let dir = self.picker_entries[self.picker_selected].path.clone();
                            self.picker_dir = dir;
                            self.picker_query = String::new();
                            self.picker_selected = 0;
                            EventResult::Continue
                        },
                        crate::picker::PickerEntryKind::MarkdownFile => {
                            let path = self.picker_entries[self.picker_selected].path.clone();
                            self.close_picker();
                            EventResult::OpenPath(path)
                        },
                    }
                } else {
                    EventResult::Continue
                }
            },
            _ => EventResult::Continue,
        }
    }

    /// What one keystroke does while the go-to-document dialog is open.
    pub open spec fn go_dialog_key_rel(
        pre: AppState,
        post: AppState,
        code: Key,
        r: EventResult,
    ) -> bool {
        match code {
            Key::Esc => {
                &&& post == AppState {
                    go_dialog_open: false,
                    go_dialog_total: 0,
                    go_dialog_selected: 0,
                    ..pre
                }
                &&& r is Continue
            },
            Key::Up | Key::BackTab => {
                &&& post == AppState {
                    go_dialog_selected: if pre.go_dialog_selected > 0 {
                        (pre.go_dialog_selected - 1) as usize
                    } else {
                        0
                    },
                    ..pre
                }
                &&& r is Continue
            },
            Key::Down | Key::Tab => {
                &&& if pre.go_dialog_total > 0 {
                    post == AppState {
                        go_dialog_selected: if pre.go_dialog_selected + 1 < pre.go_dialog_total {
                            (pre.go_dialog_selected + 1) as usize
                        } else {
                            (pre.go_dialog_total - 1) as usize
                        },
                        ..pre
                    }
                } else {
                    post == pre
                }
                &&& r is Continue
            },
            Key::Home => post == AppState { go_dialog_selected: 0, ..pre } && r is Continue,
            Key::End => {
                &&& post == AppState {
                    go_dialog_selected: if pre.go_dialog_total > 0 {
                        (pre.go_dialog_total - 1) as usize
                    } else {
                        0
                    },
                    ..pre
                }
                &&& r is Continue
            },
            Key::Enter => {
                &&& post == AppState {
                    go_dialog_open: false,
                    go_dialog_total: 0,
                    go_dialog_selected: 0,
                    ..pre
                }
                &&& (r matches EventResult::GoToIndex(i) && i == pre.go_dialog_selected)
            },
            _ => post == pre && r is Continue,
        }
    }

    /// Dispatch one keystroke while the go-to-document dialog is open.
    pub fn handle_go_dialog_key_input(&mut self, code: Key) -> (r: EventResult)
        requires
            old(self).go_dialog_selected < usize::MAX,
        ensures
            AppState::go_dialog_key_rel(*old(self), *final(self), code, r),
    {
        match code {
            Key::Esc => {
                self.close_go_dialog();
                EventResult::Continue
            },
            Key::Up | Key::BackTab => {
                self.go_dialog_selected = self.go_dialog_selected.saturating_sub(1);
                EventResult::Continue
            },
            Key::Down | Key::Tab => {
                if self.go_dialog_total > 0 {
                    let next = self.go_dialog_selected + 1;
                    let cap = self.go_dialog_total - 1;
                    self.go_dialog_selected = if next < cap {
                        next
                    } else {
                        cap
                    };
                }
                EventResult::Continue
            },
            Key::Home => {
                self.go_dialog_selected = 0;
                EventResult::Continue
            },
            Key::End => {
                self.go_dialog_selected = self.go_dialog_total.saturating_sub(1);
                EventResult::Continue
            },
            Key::Enter => {
                let selected = self.go_dialog_selected;
                self.close_go_dialog();
                EventResult::GoToIndex(selected)
            },
            _ => EventResult::Continue,
        }
    }

    /// What one keystroke does in normal, search, or help mode: the exact
    /// relation between the state before, the state after, and the action
    /// handed back to the event loop. Arms are tried in order, so a plain
    /// character typed during a search is appended to the query, while `q`
    /// always quits.
    pub open spec fn key_input_rel(
        pre: AppState,
        post: AppState,
        code: Key,
        max_scroll: u16,
        page: u16,
        r: KeyAction,
    ) -> bool {
        match code {
            Key::Char(c) => {
                if c == 'q' {
                    post == pre && r == KeyAction::Quit
                } else if c == '/' && !pre.show_help {
                    &&& post == AppState {
                        search_mode: true,
                        search_query: post.search_query,
                        search_matches: post.search_matches,
                        search_index: 0,
                        ..pre
                    }
                    &&& post.search_query@ == Seq::<char>::empty()
                    &&& post.search_matches@ == Seq::<SearchMatch>::empty()
                    &&& r == KeyAction::Nothing
                } else if pre.search_mode {
                    &&& post == AppState {
                        search_query: post.search_query,
                        search_matches: post.search_matches,
                        search_index: 0,
                        ..pre
                    }
                    &&& post.search_query@ == pre.search_query@.push(c)
                    &&& post.search_matches@ == Seq::<SearchMatch>::empty()
                    &&& r == KeyAction::Nothing
                } else if c == 'n' && !pre.show_help {
                    &&& if pre.search_matches@.len() > 0 {
                        let ni = cycle_next(
                            pre.search_index as int,
                            pre.search_matches@.len() as int,
                        );
                        &&& post == AppState {
                            search_index: post.search_index,
                            scroll: post.scroll,
                            ..pre
                        }
                        &&& post.search_index == ni
                        &&& post.scroll == min16(pre.search_matches@[ni].scroll_pos, max_scroll)
                    } else {
                        post == pre
                    }
                    &&& r == KeyAction::Nothing
                } else if c == 'N' && !pre.show_help {
                    &&& if pre.search_matches@.len() > 0 {
                        let ni = cycle_prev(
                            pre.search_index as int,
                            pre.search_matches@.len() as int,
                        );
                        &&& post == AppState {
                            search_index: post.search_index,
                            scroll: post.scroll,
                            ..pre
                        }
                        &&& post.search_index == ni
                        &&& post.scroll == min16(pre.search_matches@[ni].scroll_pos, max_scroll)
                    } else {
                        post == pre
                    }
                    &&& r == KeyAction::Nothing
                } else if c == 'h' {
                    &&& if !pre.show_help {
                        post == AppState {
                            show_help: true,
                            scroll_before_help: Some(pre.scroll),
                            search_mode: false,
                            hover_link: None,
                            ..pre
                        }
                    } else {
                        post == AppState { show_help: false, ..pre }
                    }
                    &&& r == KeyAction::Nothing
                } else if c == 'b' {
                    post == AppState { beeline_enabled: !pre.beeline_enabled, ..pre } && r
                        == KeyAction::Nothing
                } else if c == 'm' {
                    post == AppState { plain_mode: !pre.plain_mode, ..pre } && r
                        == KeyAction::Nothing
                } else if c == ']' && !pre.show_help {
                    post == pre && r == KeyAction::NextDocument
                } else if c == '[' && !pre.show_help {
                    post == pre && r == KeyAction::PreviousDocument
                } else if c == 'g' && !pre.show_help {
                    post == pre && r == KeyAction::OpenGoDialog
                } else if c == 'o' && !pre.show_help {
                    post == pre && r == KeyAction::OpenPicker
                } else if c == ' ' {
                    post == AppState { scroll: sat_add16(pre.scroll, page), ..pre } && r
                        == KeyAction::Nothing
                } else {
                    post == pre && r == KeyAction::Nothing
                }
            },
            Key::Enter => {
                if pre.search_mode {
                    &&& post == AppState { search_mode: false, scroll: post.scroll, ..pre }
                    &&& post.scroll == if pre.search_matches@.len() > 0 {
                        min16(pre.search_matches@[0].scroll_pos, max_scroll)
                    } else {
                        pre.scroll
                    }
                    &&& r == KeyAction::Nothing
                } else if !pre.show_help {
                    post == pre && r == KeyAction::OpenLink
                } else {
                    post == pre && r == KeyAction::Nothing
                }
            },
            Key::Esc => {
                &&& if pre.search_mode {
                    post == AppState {
                        search_mode: false,
                        search_query: post.search_query,
                        search_matches: post.search_matches,
                        search_index: 0,
                        ..pre
                    }
                } else {
                    post == AppState {
                        show_help: false,
                        search_query: post.search_query,
                        search_matches: post.search_matches,
                        search_index: 0,
                        ..pre
                    }
                }
                &&& post.search_query@ == Seq::<char>::empty()
                &&& post.search_matches@ == Seq::<SearchMatch>::empty()
                &&& r == KeyAction::Nothing
            },
            Key::Backspace => {
                if pre.search_mode {
                    &&& post == AppState {
                        search_query: post.search_query,
                        search_matches: post.search_matches,
                        search_index: 0,
                        ..pre
                    }
                    &&& post.search_query@ == if pre.search_query@.len() > 0 {
                        pre.search_query@.take(pre.search_query@.len() - 1)
                    } else {
                        pre.search_query@
                    }
                    &&& post.search_matches@ == Seq::<SearchMatch>::empty()
                    &&& r == KeyAction::Nothing
                } else {
                    post == pre && r == KeyAction::Nothing
                }
            },
            Key::Down => post == AppState { scroll: sat_add16(pre.scroll, 1), ..pre } && r
                == KeyAction::Nothing,
            Key::Up => post == AppState { scroll: sat_sub16(pre.scroll, 1), ..pre } && r
                == KeyAction::Nothing,
            Key::PageDown => post == AppState { scroll: sat_add16(pre.scroll, page), ..pre } && r
                == KeyAction::Nothing,
            Key::PageUp => post == AppState { scroll: sat_sub16(pre.scroll, page), ..pre } && r
                == KeyAction::Nothing,
            Key::Tab => post == AppState { scroll: sat_add16(pre.scroll, page), ..pre } && r
                == KeyAction::Nothing,
            Key::BackTab => post == AppState { scroll: sat_sub16(pre.scroll, page), ..pre } && r
                == KeyAction::Nothing,
            Key::Home => post == AppState { scroll: 0, ..pre } && r == KeyAction::Nothing,
            Key::End => post == AppState { scroll: max_scroll, ..pre } && r == KeyAction::Nothing,
            Key::Other => post == pre && r == KeyAction::Nothing,
        }
    }

    /// Dispatch one keystroke of normal, search, or help mode.
    pub fn handle_key_input(&mut self, code: Key, max_scroll: u16, page: u16) -> (r: KeyAction)
        requires
            old(self).search_index <= old(self).search_matches@.len(),
            old(self).search_matches@.len() < usize::MAX,
        ensures
            AppState::key_input_rel(*old(self), *final(self), code, max_scroll, page, r),
    {
        match code {
            Key::Char(c) => {
                if c == 'q' {
                    KeyAction::Quit
                } else if c == '/' && !self.show_help {
                    self.search_mode = true;
                    self.clear_search_state();
                    KeyAction::Nothing
                } else if self.search_mode {
                    crate::textutil::string_push(&mut self.search_query, c);
                    self.reset_search_matches();
                    KeyAction::Nothing
                } else if c == 'n' && !self.show_help {
                    if self.search_matches.len() > 0 {
                        self.search_index = (self.search_index + 1) % self.search_matches.len();
                        let pos = self.search_matches[self.search_index].scroll_pos;
                        self.scroll = if pos <= max_scroll {
                            pos
                        } else {
                            max_scroll
                        };
                    }
                    KeyAction::Nothing
                } else if c == 'N' && !self.show_help {
                    if self.search_matches.len() > 0 {
                        if self.search_index == 0 {
                            self.search_index = self.search_matches.len() - 1;
                        } else {
                            self.search_index = self.search_index - 1;
                        }
                        let pos = self.search_matches[self.search_index].scroll_pos;
                        self.scroll = if pos <= max_scroll {
                            pos
                        } else {
                            max_scroll
                        };
                    }
                    KeyAction::Nothing
                } else if c == 'h' {
                    self.show_help = !self.show_help;
                    if self.show_help {
                        self.scroll_before_help = Some(self.scroll);
                        self.search_mode = false;
                        self.hover_link = None;
                    }
                    KeyAction::Nothing
                } else if c == 'b' {
                    self.beeline_enabled = !self.beeline_enabled;
                    KeyAction::Nothing
                } else if c == 'm' {
                    self.plain_mode = !self.plain_mode;
                    KeyAction::Nothing
                } else if c == ']' && !self.show_help {
                    KeyAction::NextDocument
                } else if c == '[' && !self.show_help {
                    KeyAction::PreviousDocument
                } else if c == 'g' && !self.show_help {
                    KeyAction::OpenGoDialog
                } else if c == 'o' && !self.show_help {
                    KeyAction::OpenPicker
                } else if c == ' ' {
                    self.scroll = self.scroll.saturating_add(page);
                    KeyAction::Nothing
                } else {
                    KeyAction::Nothing
                }
            },
            Key::Enter => {
                if self.search_mode {
                    self.search_mode = false;
                    if self.search_matches.len() > 0 {
                        let pos = self.search_matches[0].scroll_pos;
                        self.scroll = if pos <= max_scroll {
                            pos
                        } else {
                            max_scroll
                        };
                    }
                    KeyAction::Nothing
                } else if !self.show_help {
                    KeyAction::OpenLink
                } else {
                    KeyAction::Nothing
                }
            },
            Key::Esc => {
                if self.search_mode {
                    self.search_mode = false;
                    self.clear_search_state();
                } else {
                    self.close_help();
                    self.clear_search_state();
                }
                KeyAction::Nothing
            },
            Key::Backspace => {
                if self.search_mode {
                    let shortened = crate::textutil::string_drop_last(&self.search_query);
                    self.search_query = shortened;
                    self.reset_search_matches();
                }
                KeyAction::Nothing
            },
            Key::Down => {
                self.scroll = self.scroll.saturating_add(1);
                KeyAction::Nothing
            },
            Key::Up => {
                self.scroll = self.scroll.saturating_sub(1);
                KeyAction::Nothing
            },
            Key::PageDown => {
                self.scroll = self.scroll.saturating_add(page);
                KeyAction::Nothing
            },
            Key::PageUp => {
                self.scroll = self.scroll.saturating_sub(page);
                KeyAction::Nothing
            },
            Key::Tab => {
                self.scroll = self.scroll.saturating_add(page);
                KeyAction::Nothing
            },
            Key::BackTab => {
                self.scroll = self.scroll.saturating_sub(page);
                KeyAction::Nothing
            },
            Key::Home => {
                self.scroll = 0;
                KeyAction::Nothing
            },
            Key::End => {
                self.scroll = max_scroll;
                KeyAction::Nothing
            },
            Key::Other => KeyAction::Nothing,
        }
    }

    /// Close the go-to-document dialog.
    pub fn close_go_dialog(&mut self)
        ensures
            *final(self) == (AppState {
                go_dialog_open: false,
                go_dialog_total: 0,
                go_dialog_selected: 0,
                ..*old(self)
            }),
    {
        self.go_dialog_open = false;
        self.go_dialog_total = 0;
        self.go_dialog_selected = 0;
    }
}

/// A rendered position lies inside a screen rectangle.
pub open spec fn inside_area(area: ScreenRect, column: u16, row: u16) -> bool {
    &&& column >= area.x
    &&& (column as int) < area.x + area.width
    &&& row >= area.y
    &&& (row as int) < area.y + area.height
}

/// A resolved hover value agrees with its specification.
pub open spec fn opt_str_matches(h: Option<String>, sp: Option<Seq<char>>) -> bool {
    match h {
        Some(u) => sp == Some(u@),
        None => sp is None,
    }
}

/// The link under a screen position: nothing when the document has no
/// links or the position lies outside the content area; otherwise the full
/// hit-test of the rendered row and column under the current scroll.
pub open spec fn hover_spec(s: AppState, column: u16, row: u16) -> Option<Seq<char>> {
    if s.current_links@.len() == 0 {
        None
    } else if !inside_area(s.content_area, column, row) {
        None
    } else {
        link_at_position_spec(
            s.current_links@,
            s.current_wraps@,
            s.current_line_offsets@,
            s.current_lines_text@.map_values(|l: String| l@),
            sat_add16(s.scroll, (row - s.content_area.y) as u16),
            (column - s.content_area.x) as u16,
        )
    }
}

/// Resolve the link, if any, under the pointer for status-line display.
pub fn update_hover(state: &AppState, column: u16, row: u16) -> (r: Option<String>)
    requires
        state.offsets_sorted(),
    ensures
        opt_str_matches(r, hover_spec(*state, column, row)),
{
    if state.current_links.len() == 0 {
        return None;
    }
    let a = state.content_area;
    if column < a.x || (column as u32) >= (a.x as u32) + (a.width as u32) || row < a.y || (
    row as u32) >= (a.y as u32) + (a.height as u32) {
        return None;
    }
    let local_y = row - a.y;
    let rendered_line = state.scroll.saturating_add(local_y);
    let local_x = column - a.x;
    link_at_position(
        &state.current_links,
        &state.current_wraps,
        &state.current_line_offsets,
        &state.current_lines_text,
        rendered_line,
        local_x,
    )
}

/// The page step: one line less than the viewport, but at least one row.
pub open spec fn page_size(viewport_height: u16) -> u16 {
    if viewport_height >= 2 {
        (viewport_height - 1) as u16
    } else {
        1 as u16
    }
}

/// Which loop request corresponds to each key action.
pub open spec fn action_event(act: KeyAction, res: EventResult) -> bool {
    match act {
        KeyAction::Quit => res is Quit,
        KeyAction::OpenLink => res is Continue,
        KeyAction::NextDocument => res is NextDocument,
        KeyAction::PreviousDocument => res is PreviousDocument,
        KeyAction::OpenPicker => res is OpenPicker,
        KeyAction::OpenGoDialog => res is OpenGoDialog,
        KeyAction::Nothing => res is Continue,
    }
}

impl AppState {
    /// The state after the scroll effect of a mouse event, with the
    /// pointer position recorded.
    pub open spec fn mouse_scroll_state(
        pre: AppState,
        kind: MouseKind,
        column: u16,
        row: u16,
    ) -> AppState {
        let ms = sat_sub16(pre.rendered_lines, pre.viewport_height);
        let with_pos = AppState { last_mouse_pos: Some((column, row)), ..pre };
        match kind {
            MouseKind::ScrollDown => AppState {
                scroll: min16(sat_add16(pre.scroll, 3), ms),
                ..with_pos
            },
            MouseKind::ScrollUp => AppState { scroll: sat_sub16(pre.scroll, 3), ..with_pos },
            _ => with_pos,
        }
    }

    /// What one mouse event does: wheel scrolling (clamped), hover
    /// tracking outside the help overlay, and on a left click inside the
    /// content area the resolved link, which is also handed back to be
    /// opened.
    pub open spec fn mouse_rel(
        pre: AppState,
        post: AppState,
        kind: MouseKind,
        column: u16,
        row: u16,
        r: Option<String>,
    ) -> bool {
        let mid = AppState::mouse_scroll_state(pre, kind, column, row);
        match kind {
            MouseKind::ScrollDown | MouseKind::ScrollUp | MouseKind::Moved | MouseKind::Drag
                | MouseKind::Up => {
                &&& if pre.show_help {
                    post == mid
                } else {
                    post == AppState { hover_link: post.hover_link, ..mid } && opt_str_matches(
                        post.hover_link,
                        hover_spec(mid, column, row),
                    )
                }
                &&& r is None
            },
            MouseKind::DownLeft => {
                if !pre.show_help && !pre.search_mode && inside_area(
                    pre.content_area,
                    column,
                    row,
                ) {
                    &&& post == AppState { hover_link: post.hover_link, ..mid }
                    &&& opt_str_matches(post.hover_link, hover_spec(mid, column, row))
                    &&& opt_str_matches(r, hover_spec(mid, column, row))
                } else {
                    post == mid && r is None
                }
            },
            MouseKind::DownOther | MouseKind::Other => post == mid && r is None,
        }
    }

    /// Dispatch one mouse event; a returned link is to be opened.
    pub fn handle_mouse(&mut self, kind: MouseKind, column: u16, row: u16) -> (r: Option<String>)
        requires
            old(self).offsets_sorted(),
        ensures
            AppState::mouse_rel(*old(self), *final(self), kind, column, row, r),
    {
        self.last_mouse_pos = Some((column, row));
        let max_scroll = self.rendered_lines.saturating_sub(self.viewport_height);
        match kind {
            MouseKind::ScrollDown => {
                let ns = self.scroll.saturating_add(3);
                self.scroll = if ns <= max_scroll {
                    ns
                } else {
                    max_scroll
                };
                if !self.show_help {
                    let h = update_hover(self, column, row);
                    self.hover_link = h;
                }
                None
            },
            MouseKind::ScrollUp => {
                self.scroll = self.scroll.saturating_sub(3);
                if !self.show_help {
                    let h = update_hover(self, column, row);
                    self.hover_link = h;
                }
                None
            },
            MouseKind::Moved | MouseKind::Drag | MouseKind::Up => {
                if !self.show_help {
                    let h = update_hover(self, column, row);
                    self.hover_link = h;
                }
                None
            },
            MouseKind::DownLeft => {
                let a = self.content_area;
                if !self.show_help && !self.search_mode && column >= a.x && (column as u32) < (
                a.x as u32) + (a.width as u32) && row >= a.y && (row as u32) < (a.y as u32) + (
                a.height as u32) {
                    let local_y = row - a.y;
                    let rendered_line = self.scroll.saturating_add(local_y);
                    let local_x = column - a.x;
                    let h = link_at_position(
                        &self.current_links,
                        &self.current_wraps,
                        &self.current_line_offsets,
                        &self.current_lines_text,
                        rendered_line,
                        local_x,
                    );
                    self.hover_link = h;
                    match &self.hover_link {
                        Some(u) => Some(u.clone()),
                        None => None,
                    }
                } else {
                    None
                }
            },
            MouseKind::DownOther | MouseKind::Other => None,
        }
    }

    /// Re-resolve the hover link at the last known pointer position, after
    /// a focus or size change.
    pub fn refresh_hover(&mut self)
        requires
            old(self).offsets_sorted(),
        ensures
            match old(self).last_mouse_pos {
                Some((c, w)) => *final(self) == (AppState {
                    hover_link: final(self).hover_link,
                    ..*old(self)
                }) && opt_str_matches(final(self).hover_link, hover_spec(*old(self), c, w)),
                None => *final(self) == *old(self),
            },
    {
        match self.last_mouse_pos {
            Some((c, w)) => {
                let h = update_hover(self, c, w);
                self.hover_link = h;
            },
            None => {},
        }
    }

    /// Losing terminal focus clears the hover link.
    pub fn on_focus_lost(&mut self)
        ensures
            *final(self) == (AppState { hover_link: None, ..*old(self) }),
    {
        self.hover_link = None;
    }

    /// Dispatch one keystroke to the right mode handler. The second result
    /// is a link to open (fire-and-forget) when the key asked for it.
    pub fn handle_key_event(&mut self, code: Key) -> (r: (EventResult, Option<String>))
        requires
            old(self).picker_open ==> old(self).picker_selected < usize::MAX,
            !old(self).picker_open && old(self).go_dialog_open ==> old(self).go_dialog_selected
                < usize::MAX,
            !old(self).picker_open && !old(self).go_dialog_open ==> old(self).search_index <= old(
                self,
            ).search_matches@.len() && old(self).search_matches@.len() < usize::MAX,
        ensures
            old(self).picker_open ==> AppState::picker_key_rel(
                *old(self),
                *final(self),
                code,
                r.0,
            ) && r.1 is None,
            !old(self).picker_open && old(self).go_dialog_open ==> AppState::go_dialog_key_rel(
                *old(self),
                *final(self),
                code,
                r.0,
            ) && r.1 is None,
            !old(self).picker_open && !old(self).go_dialog_open ==> (exists|act: KeyAction|
                {
                    &&& #[trigger] AppState::key_input_rel(
                        *old(self),
                        *final(self),
                        code,
                        sat_sub16(old(self).rendered_lines, old(self).viewport_height),
                        page_size(old(self).viewport_height),
                        act,
                    )
                    &&& action_event(act, r.0)
                    &&& (act is OpenLink ==> opt_str_matches(
                        r.1,
                        link_at_scroll_spec(
                            old(self).current_links@,
                            old(self).current_wraps@,
                            old(self).current_line_offsets@,
                            old(self).scroll,
                        ),
                    ))
                    &&& (!(act is OpenLink) ==> r.1 is None)
                }),
    {
        if self.picker_open {
            return (self.handle_picker_key_input(code), None);
        }
        if self.go_dialog_open {
            return (self.handle_go_dialog_key_input(code), None);
        }
        let p = self.viewport_height.saturating_sub(1);
        let page: u16 = if p < 1 {
            1
        } else {
            p
        };
        let max_scroll = self.rendered_lines.saturating_sub(self.viewport_height);
        let act = self.handle_key_input(code, max_scroll, page);
        let mut url: Option<String> = None;
        let res = match act {
            KeyAction::Quit => EventResult::Quit,
            KeyAction::OpenLink => {
                url = link_at_scroll(
                    &self.current_links,
                    &self.current_wraps,
                    &self.current_line_offsets,
                    self.scroll,
                );
                EventResult::Continue
            },
            KeyAction::NextDocument => EventResult::NextDocument,
            KeyAction::PreviousDocument => EventResult::PreviousDocument,
            KeyAction::OpenPicker => EventResult::OpenPicker,
            KeyAction::OpenGoDialog => EventResult::OpenGoDialog,
            KeyAction::Nothing => EventResult::Continue,
        };
        proof {
            assert(AppState::key_input_rel(
                *old(self),
                *final(self),
                code,
                sat_sub16(old(self).rendered_lines, old(self).viewport_height),
                page_size(old(self).viewport_height),
                act,
            ));
        }
        (res, url)
    }

    /// The per-frame layout pass for the normal view: restore a pending
    /// help-scroll snapshot, install the new text and links, rebuild the
    /// wrap and offset tables, recompute search matches (or clear them for
    /// an empty query), and clamp the scroll position to the new document
    /// bounds.
    pub fn apply_frame_layout(
        &mut self,
        lines_text: Vec<String>,
        links: Vec<LinkTarget>,
        area: ScreenRect,
    )
        ensures
            *final(self) == (AppState {
                scroll: final(self).scroll,
                viewport_height: area.height,
                rendered_lines: final(self).rendered_lines,
                search_query: final(self).search_query,
                search_matches: final(self).search_matches,
                search_index: final(self).search_index,
                current_links: links,
                current_line_offsets: final(self).current_line_offsets,
                current_wraps: final(self).current_wraps,
                current_lines_text: lines_text,
                scroll_before_help: None,
                content_area: area,
                ..*old(self)
            }),
            final(self).current_wraps@.len() == lines_text@.len(),
            final(self).current_line_offsets@.len() == lines_text@.len(),
            forall|i: int|
                0 <= i < lines_text@.len() ==> (#[trigger] final(self).current_wraps@[i]).rows@
                    == wrap_spec(lines_text@[i]@, effective_budget(area.width)),
            forall|i: int|
                0 <= i < lines_text@.len() ==> #[trigger] final(self).current_line_offsets@[i]
                    == sat16(
                    rows_before(
                        lines_text@.map_values(|l: String| l@),
                        effective_budget(area.width),
                        i,
                    ) as int,
                ),
            final(self).rendered_lines == sat16(
                rows_before(
                    lines_text@.map_values(|l: String| l@),
                    effective_budget(area.width),
                    lines_text@.len() as int,
                ) as int,
            ),
            old(self).search_query@.len() == 0 ==> final(self).search_query@
                == Seq::<char>::empty() && final(self).search_matches@
                == Seq::<SearchMatch>::empty() && final(self).search_index == 0,
            old(self).search_query@.len() > 0 ==> {
                &&& final(self).search_query == old(self).search_query
                &&& final(self).search_matches@ == find_matches_spec(
                    lines_text@.map_values(|l: String| l@),
                    old(self).search_query@,
                ).map_values(
                    |m: SearchMatch|
                        resolve_match(
                            m,
                            final(self).current_wraps@,
                            final(self).current_line_offsets@,
                        ),
                )
                &&& final(self).search_index as int == (if (old(self).search_index as int) < (final(
                    self).search_matches@.len() as int) {
                    old(self).search_index as int
                } else {
                    0int
                })
            },
            final(self).scroll == min16(
                match old(self).scroll_before_help {
                    Some(p) => p,
                    None => old(self).scroll,
                },
                sat_sub16(final(self).rendered_lines, area.height),
            ),
            final(self).offsets_sorted(),
    {
        self.content_area = area;
        match self.scroll_before_help {
            Some(prev) => {
                self.scroll = prev;
                self.scroll_before_help = None;
            },
            None => {},
        }
        let ghost linesv = lines_text@.map_values(|l: String| l@);
        let ghost budget = effective_budget(area.width);
        let pair = build_wraps(&lines_text, area.width);
        let wraps = pair.0;
        let offsets = pair.1;
        let n = lines_text.len();
        let total: u16 = if n == 0 {
            0
        } else {
            let last_rows = wraps[n - 1].rows.len();
            let cap: u16 = if last_rows > 0xFFFF {
                0xFFFF
            } else {
                last_rows as u16
            };
            offsets[n - 1].saturating_add(cap)
        };
        self.current_links = links;
        self.current_lines_text = lines_text;
        self.current_wraps = wraps;
        self.current_line_offsets = offsets;
        self.rendered_lines = total;
        self.viewport_height = area.height;
        if self.search_query.as_str().unicode_len() == 0 {
            self.clear_search_state();
        } else {
            let found = build_search_matches(
                &self.current_lines_text,
                self.search_query.as_str(),
                &self.current_wraps,
                &self.current_line_offsets,
                area.width,
            );
            self.search_matches = found;
            if self.search_index >= self.search_matches.len() {
                self.search_index = 0;
            }
        }
        let max_scroll = self.rendered_lines.saturating_sub(self.viewport_height);
        if self.scroll > max_scroll {
            self.scroll = max_scroll;
        }
        proof {
            assert forall|i: int, j: int|
                0 <= i <= j < self.current_line_offsets@.len() implies #[trigger] self
                .current_line_offsets@[i] <= #[trigger] self.current_line_offsets@[j] by {
                lemma_rows_before_nondecreasing(linesv, budget, i, j);
            }
        }
    }

    /// The per-frame layout pass while the help overlay is shown: only the
    /// viewport geometry and the row count of the help text are updated;
    /// the scroll position and its snapshot stay untouched.
    pub fn apply_help_layout(&mut self, help_text_lines: &Vec<String>, area: ScreenRect)
        ensures
            *final(self) == (AppState {
                viewport_height: area.height,
                rendered_lines: estimate_spec(
                    help_text_lines@.map_values(|l: String| l@),
                    area.width,
                ),
                content_area: area,
                ..*old(self)
            }),
    {
        self.content_area = area;
        self.viewport_height = area.height;
        self.rendered_lines = estimate_rendered_lines(help_text_lines, area.width);
    }
}

/// Entering the help overlay snapshots the scroll position, and leaving it
/// — whether by the help toggle or by the generic close key — keeps both
/// the snapshot and the scroll position intact, so the next layout pass
/// restores exactly the snapshotted position.
pub proof fn lemma_help_toggle_restores_scroll(
    s0: AppState,
    s1: AppState,
    s2: AppState,
    code2: Key,
    ms1: u16,
    pg1: u16,
    ms2: u16,
    pg2: u16,
    r1: KeyAction,
    r2: KeyAction,
)
    requires
        !s0.show_help,
        !s0.search_mode,
        AppState::key_input_rel(s0, s1, Key::Char('h'), ms1, pg1, r1),
        code2 == Key::Esc || code2 == Key::Char('h'),
        AppState::key_input_rel(s1, s2, code2, ms2, pg2, r2),
    ensures
        !s2.show_help,
        s2.scroll_before_help == Some(s0.scroll),
        s2.scroll == s0.scroll,
{
}

} // verus!
