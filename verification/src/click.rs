//! The mouse: what each clickable place does, and what the wheel moves. A first click on
//! a row selects it; a click on the row that is already selected opens it, as Enter would;
//! on a diff line the second click comments. The wheel moves a list one row and stops at
//! its ends.
use vstd::prelude::*;

use crate::cursor::{clamp_add, clamped};
use crate::drill::pane_follows;
use crate::keys::Key;
use crate::inbox::Inbox;
use crate::pipeline::{logs_retargeted, PipelineView};
use crate::prview::{scope_restored, PrPanes, PR_TAB_COUNT};
use crate::review::{diff_scrolled, DiffFocus, DiffView};
use crate::tabs::{view_top, went_to_tab, Navigation, ScreenKind, SECTION_COUNT};

verus! {

/// A clickable place on screen.
#[derive(Debug, Clone, Copy, PartialEq, Eq, Structural)]
pub enum Hit {
    /// A tab on the top strip: 0 = Command Center, then each visible section.
    Tab(usize),
    /// A PR view sub-tab (Conversation, Commits, Checks, Diff).
    PrTab(usize),
    /// A row of the active section list, by the index its selection uses.
    ListRow(usize),
    /// A Command Center column, and a row in it (a slot position).
    LpColumn(usize),
    LpRow { side: usize, pos: usize },
    /// A notification in the inbox.
    InboxRow(usize),
    /// A commit on the PR view's Commits tab.
    CommitRow(usize),
    /// A file in the Diff tab's file list.
    DiffFile(usize),
    /// The Diff tab's patch pane, and a patch line in it.
    DiffPatch,
    DiffLine(usize),
    /// A node of the pipeline tree, and the log pane beside it.
    PipeNode(usize),
    LogPane,
}

/// What a click asks of the app beyond the state it changed.
#[derive(Debug, Clone, Copy, PartialEq, Eq, Structural)]
pub enum ClickAction {
    Nothing,
    /// Open what is selected, as Enter would.
    Enter,
    /// Comment on the patch line under the cursor, as `c` would.
    Comment,
    /// Ask before walking away from unsubmitted comments.
    PendingExitPrompt,
}

impl Navigation {
    /// A click on strip position `pos`: moves there, unless it would walk away from a pull
    /// request's unsubmitted comments, which asks first.
    pub fn click_tab(&mut self, pos: usize, pending_comments: bool, lens: &Vec<usize>) -> (a: ClickAction)
        requires
            old(self).wf(),
            lens@.len() == SECTION_COUNT,
        ensures
            final(self).wf(),
            old(self).screen == ScreenKind::PrView && pending_comments ==> a == ClickAction::PendingExitPrompt
                && *final(self) == *old(self),
            !(old(self).screen == ScreenKind::PrView && pending_comments) ==> a == ClickAction::Nothing
                && went_to_tab(*old(self), *final(self), pos as int, lens@),
    {
        if self.screen == ScreenKind::PrView && pending_comments {
            return ClickAction::PendingExitPrompt;
        }
        self.go_to_tab(pos, lens);
        ClickAction::Nothing
    }

    /// A click on row `i` of the active list: selects it (keeping it in view), or opens it
    /// when it already was selected.
    pub fn click_list_row(&mut self, i: usize) -> (a: ClickAction)
        requires
            old(self).wf(),
            old(self).list_scroll + (if old(self).content_h == 0 {
                1
            } else {
                old(self).content_h as int
            }) <= u16::MAX,
        ensures
            final(self).wf(),
            old(self).sel@[old(self).active as int] == Some(i) ==> a == ClickAction::Enter
                && *final(self) == *old(self),
            old(self).sel@[old(self).active as int] != Some(i) ==> {
                &&& a == ClickAction::Nothing
                &&& final(self).sel@ == old(self).sel@.update(old(self).active as int, Some(i))
                &&& final(self).list_scroll == view_top(
                    old(self).list_scroll as int,
                    i as u16 as int,
                    old(self).content_h as int,
                )
                &&& *final(self) == (Navigation {
                    sel: final(self).sel,
                    list_scroll: final(self).list_scroll,
                    ..*old(self)
                })
            },
    {
        if self.sel[self.active] == Some(i) {
            return ClickAction::Enter;
        }
        self.sel.set(self.active, Some(i));
        self.ensure_visible();
        ClickAction::Nothing
    }
}

impl Inbox {
    /// A click on notification `i`: selects it, or opens it when it already was selected.
    pub fn click_row(&mut self, i: usize) -> (a: ClickAction)
        ensures
            final(self).rows == old(self).rows,
            old(self).sel == i ==> a == ClickAction::Enter && final(self).sel == i,
            old(self).sel != i ==> a == ClickAction::Nothing && final(self).sel == i,
    {
        if self.sel == i {
            return ClickAction::Enter;
        }
        self.sel = i;
        ClickAction::Nothing
    }
}

impl PrPanes {
    /// A click on sub-tab `tab`: switches to it from the top, dropping the patch cursor and
    /// restoring the whole-PR diff; the tab already shown stays as it is.
    pub fn click_pr_tab(&mut self, tab: usize)
        requires
            old(self).wf(),
            tab < PR_TAB_COUNT,
        ensures
            final(self).wf(),
            tab == old(self).tab ==> *final(self) == *old(self),
            tab != old(self).tab ==> scope_restored(*old(self), final(self).diff) && *final(self) == (
            PrPanes { tab, scroll: 0, diff: final(self).diff, ..*old(self) }),
    {
        if self.tab != tab {
            self.tab = tab;
            self.scroll = 0;
            self.reset_diff_scope();
        }
    }

    /// A click on commit `i`: selects it, or opens its diff when it already was selected.
    pub fn click_commit_row(&mut self, i: usize) -> (a: ClickAction)
        ensures
            old(self).commit_sel == i ==> a == ClickAction::Enter && *final(self) == *old(self),
            old(self).commit_sel != i ==> a == ClickAction::Nothing && *final(self) == (PrPanes {
                commit_sel: i,
                ..*old(self)
            }),
    {
        if self.commit_sel == i {
            return ClickAction::Enter;
        }
        self.commit_sel = i;
        ClickAction::Nothing
    }

    /// A click on file `i` of the diff: the keys go to the file list with the file
    /// selected (a new file from its top); a second click on it opens its patch.
    pub fn click_diff_file(&mut self, i: usize) -> (a: ClickAction)
        ensures
            (old(self).diff.focus == DiffFocus::FileList && old(self).diff.selected == i) ==> a
                == ClickAction::Enter && *final(self) == *old(self),
            !(old(self).diff.focus == DiffFocus::FileList && old(self).diff.selected == i) ==> {
                &&& a == ClickAction::Nothing
                &&& final(self).diff == (if old(self).diff.selected == i {
                    DiffView { focus: DiffFocus::FileList, ..old(self).diff }
                } else {
                    DiffView {
                        focus: DiffFocus::FileList,
                        selected: i,
                        scroll: 0,
                        cursor: 0,
                        ..old(self).diff
                    }
                })
                &&& *final(self) == (PrPanes { diff: final(self).diff, ..*old(self) })
            },
    {
        if self.diff.focus == DiffFocus::FileList && self.diff.selected == i {
            return ClickAction::Enter;
        }
        self.diff.focus = DiffFocus::FileList;
        if self.diff.selected != i {
            self.diff.selected = i;
            self.diff.scroll = 0;
            self.diff.cursor = 0;
        }
        ClickAction::Nothing
    }

    /// A click on patch line `i`: puts the line cursor there; a second click on the same
    /// line comments on it.
    pub fn click_diff_line(&mut self, i: usize) -> (a: ClickAction)
        ensures
            (old(self).diff.focus == DiffFocus::Patch && old(self).diff.cursor == i) ==> a
                == ClickAction::Comment && *final(self) == *old(self),
            !(old(self).diff.focus == DiffFocus::Patch && old(self).diff.cursor == i) ==> a
                == ClickAction::Nothing && *final(self) == (PrPanes {
                diff: DiffView { focus: DiffFocus::Patch, cursor: i, ..old(self).diff },
                ..*old(self)
            }),
    {
        if self.diff.focus == DiffFocus::Patch && self.diff.cursor == i {
            return ClickAction::Comment;
        }
        self.diff.focus = DiffFocus::Patch;
        self.diff.cursor = i;
        ClickAction::Nothing
    }
}

impl PipelineView {
    /// A click on tree row `i`: the keys go to the tree; the row is selected (an open log
    /// pane follows it to its job), or opened when it already was selected.
    pub fn click_node(&mut self, i: usize) -> (a: ClickAction)
        ensures
            old(self).selected == i ==> a == ClickAction::Enter && *final(self) == (PipelineView {
                log_focus: false,
                ..*old(self)
            }),
            old(self).selected != i ==> a == ClickAction::Nothing && pane_follows(
                PipelineView { log_focus: false, selected: i, user_moved: true, ..*old(self) },
                *final(self),
            ),
    {
        self.log_focus = false;
        if self.selected == i {
            return ClickAction::Enter;
        }
        self.selected = i;
        self.user_moved = true;
        if self.logs.is_some() {
            let ghost mid = *self;
            let opened = self.open_logs_for_selection();
            assert(logs_retargeted(mid, *self, opened));
        }
        ClickAction::Nothing
    }

    /// A click on the log pane gives it the keys.
    pub fn click_log_pane(&mut self)
        ensures
            *final(self) == (PipelineView { log_focus: true, ..*old(self) }),
    {
        self.log_focus = true;
    }
}


/// What a wheel notch asks of the app: nothing more, or this key this many times.
#[derive(Debug, Clone, Copy, PartialEq, Eq, Structural)]
pub enum WheelAction {
    Stay,
    Keys(Key, usize),
}

/// The key a wheel notch stands for: up for a negative direction, else down.
pub open spec fn wheel_key_of(dir: int) -> Key {
    if dir < 0 {
        Key::Up
    } else {
        Key::Down
    }
}

/// The key a wheel notch stands for.
pub fn wheel_key(dir: isize) -> (k: Key)
    ensures
        k == wheel_key_of(dir as int),
{
    if dir < 0 {
        Key::Up
    } else {
        Key::Down
    }
}

/// A cursor `sel` moved by `dir` among `len` rows, stopping at both ends (0 when empty).
pub open spec fn wheel_step(sel: int, dir: int, len: int) -> int {
    if len == 0 {
        0
    } else {
        clamped(sel + dir, 0, len - 1)
    }
}

fn wheel_step_exec(sel: usize, dir: isize, len: usize) -> (r: usize)
    ensures
        r == wheel_step(sel as int, dir as int, len as int),
{
    if len == 0 {
        0
    } else {
        clamp_add(sel, dir, len)
    }
}

impl Navigation {
    /// The wheel over a section list of `len` rows: the cursor moves by `dir` (no wrap) and
    /// stays in view.
    pub fn wheel_list(&mut self, dir: isize, len: usize)
        requires
            old(self).wf(),
            old(self).list_scroll + (if old(self).content_h == 0 {
                1
            } else {
                old(self).content_h as int
            }) <= u16::MAX,
        ensures
            final(self).wf(),
            len == 0 ==> *final(self) == *old(self),
            len > 0 ==> {
                let i = wheel_step(
                    (match old(self).sel@[old(self).active as int] {
                        Some(i) => i,
                        None => 0,
                    }) as int,
                    dir as int,
                    len as int,
                );
                &&& final(self).sel@ == old(self).sel@.update(old(self).active as int, Some(i as usize))
                &&& final(self).list_scroll == view_top(
                    old(self).list_scroll as int,
                    i as usize as u16 as int,
                    old(self).content_h as int,
                )
                &&& *final(self) == (Navigation {
                    sel: final(self).sel,
                    list_scroll: final(self).list_scroll,
                    ..*old(self)
                })
            },
    {
        if len > 0 {
            let next = wheel_step_exec(self.selected_index(), dir, len);
            self.sel.set(self.active, Some(next));
            self.ensure_visible();
        }
    }
}

impl Inbox {
    /// The wheel over the inbox: the cursor moves by `dir`, stopping at both ends.
    pub fn wheel(&mut self, dir: isize)
        ensures
            final(self).rows == old(self).rows,
            final(self).sel == wheel_step(old(self).sel as int, dir as int, old(self).rows@.len() as int),
    {
        self.sel = wheel_step_exec(self.sel, dir, self.rows.len());
    }
}

impl PipelineView {
    /// The wheel on the pipeline drill-in. Beside an open log pane, the pane under the
    /// pointer takes the keys; the pane with the keys scrolls three rows a notch, else the
    /// tree cursor moves by `dir` (no wrap) and an open pane follows it.
    pub fn on_wheel(&mut self, hit: Option<Hit>, dir: isize) -> (a: WheelAction)
        ensures
            ({
                let focus = if old(self).logs is Some && old(self).log_split {
                    match hit {
                        Some(Hit::LogPane) => true,
                        Some(Hit::PipeNode(_)) => false,
                        _ => old(self).log_focus,
                    }
                } else {
                    old(self).log_focus
                };
                let mid = PipelineView { log_focus: focus, ..*old(self) };
                let len = mid.visible().len();
                if mid.logs is Some && (focus || !mid.log_split) {
                    a == WheelAction::Keys(wheel_key_of(dir as int), 3) && *final(self) == mid
                } else if len == 0 {
                    a == WheelAction::Stay && *final(self) == mid
                } else {
                    a == WheelAction::Stay && pane_follows(
                        PipelineView {
                            selected: wheel_step(mid.selected as int, dir as int, len as int) as usize,
                            user_moved: true,
                            ..mid
                        },
                        *final(self),
                    )
                }
            }),
    {
        let key = wheel_key(dir);
        if self.logs.is_some() && self.log_split {
            match hit {
                Some(Hit::LogPane) => self.log_focus = true,
                Some(Hit::PipeNode(_)) => self.log_focus = false,
                _ => {},
            }
        }
        if self.logs_have_keys() {
            return WheelAction::Keys(key, 3);
        }
        let len = self.flatten().len();
        if len > 0 {
            self.selected = wheel_step_exec(self.selected, dir, len);
            self.user_moved = true;
            if self.logs.is_some() {
                let ghost mid = *self;
                let opened = self.open_logs_for_selection();
                assert(logs_retargeted(mid, *self, opened));
            }
        }
        WheelAction::Stay
    }
}

impl PrPanes {
    /// The wheel on a pull request. Over the patch while the file list has the keys it
    /// scrolls the patch three lines a notch; elsewhere it stands for the arrow keys, three
    /// at a time on the text tabs (Conversation, Checks).
    pub fn on_wheel(&mut self, hit: Option<Hit>, dir: isize) -> (a: WheelAction)
        requires
            i32::MIN <= 3 * (dir as i32) <= i32::MAX - u16::MAX,
        ensures
            (old(self).tab == 3 && old(self).diff.focus == DiffFocus::FileList && (hit
                == Some(Hit::DiffPatch) || hit matches Some(Hit::DiffLine(_)))) ==> a
                == WheelAction::Stay && *final(self) == (PrPanes {
                diff: diff_scrolled(old(self).diff, 3 * (dir as i32)),
                ..*old(self)
            }),
            !(old(self).tab == 3 && old(self).diff.focus == DiffFocus::FileList && (hit
                == Some(Hit::DiffPatch) || hit matches Some(Hit::DiffLine(_)))) ==> *final(self)
                == *old(self) && a == WheelAction::Keys(
                wheel_key_of(dir as int),
                if old(self).tab == 0 || old(self).tab == 2 {
                    3
                } else {
                    1
                },
            ),
    {
        let over_patch = match hit {
            Some(Hit::DiffPatch) | Some(Hit::DiffLine(_)) => true,
            _ => false,
        };
        if self.tab == 3 && self.diff.focus == DiffFocus::FileList && over_patch {
            let step: i32 = 3 * (dir as i32);
            self.diff.scroll_by(step);
            return WheelAction::Stay;
        }
        WheelAction::Keys(
            wheel_key(dir),
            if self.tab == 0 || self.tab == 2 {
                3
            } else {
                1
            },
        )
    }
}

/// The Command Center's cursor: the column it is in (0 = left, 1 = right), the slot
/// selected in each column, and the title marquee's frame, which restarts whenever the
/// cursor moves.
pub struct LpCursor {
    pub side: usize,
    pub sel: (usize, usize),
    pub anim: usize,
}

/// The slot selected in column `side`.
pub open spec fn lp_sel(c: LpCursor, side: usize) -> usize {
    if side == 0 {
        c.sel.0
    } else {
        c.sel.1
    }
}

/// `c` with the slot of column `side` set to `pos`.
pub open spec fn with_lp_sel(c: LpCursor, side: usize, pos: usize) -> (usize, usize) {
    if side == 0 {
        (pos, c.sel.1)
    } else {
        (c.sel.0, pos)
    }
}

impl LpCursor {
    /// On the left column, first slot of each column, marquee at its start.
    pub fn new() -> (r: LpCursor)
        ensures
            r.side == 0 && r.sel == (0usize, 0usize) && r.anim == 0,
    {
        LpCursor { side: 0, sel: (0, 0), anim: 0 }
    }

    /// The slot selected in the current column.
    pub fn selected(&self) -> (r: usize)
        ensures
            r == lp_sel(*self, self.side),
    {
        if self.side == 0 {
            self.sel.0
        } else {
            self.sel.1
        }
    }

    fn set_sel(&mut self, side: usize, pos: usize)
        ensures
            *final(self) == (LpCursor { sel: with_lp_sel(*old(self), side, pos), ..*old(self) }),
    {
        if side == 0 {
            self.sel.0 = pos;
        } else {
            self.sel.1 = pos;
        }
    }

    /// A click on column `side`: the cursor moves into it (restarting the marquee); the
    /// column it is already in stays as it is.
    pub fn click_column(&mut self, side: usize)
        ensures
            old(self).side == side ==> *final(self) == *old(self),
            old(self).side != side ==> *final(self) == (LpCursor { side, anim: 0, ..*old(self) }),
    {
        if self.side != side {
            self.side = side;
            self.anim = 0;
        }
    }

    /// A click on slot `pos` of column `side`: the slot the cursor is already on opens, as
    /// Enter would; any other becomes the cursor's.
    pub fn click_row(&mut self, side: usize, pos: usize) -> (a: ClickAction)
        ensures
            old(self).side == side && lp_sel(*old(self), side) == pos ==> a == ClickAction::Enter && *final(self)
                == *old(self),
            !(old(self).side == side && lp_sel(*old(self), side) == pos) ==> a == ClickAction::Nothing
                && *final(self) == (LpCursor { side, sel: with_lp_sel(*old(self), side, pos), anim: 0 }),
    {
        let cur = if side == 0 {
            self.sel.0
        } else {
            self.sel.1
        };
        if self.side == side && cur == pos {
            return ClickAction::Enter;
        }
        self.side = side;
        self.set_sel(side, pos);
        self.anim = 0;
        ClickAction::Nothing
    }

    /// Moves the cursor `delta` slots within its column of `len` slots, stopping at either
    /// end (nothing moves in an empty column); the marquee restarts either way.
    pub fn move_by(&mut self, delta: isize, len: usize)
        ensures
            len == 0 ==> *final(self) == (LpCursor { anim: 0, ..*old(self) }),
            len > 0 ==> *final(self) == (LpCursor {
                sel: with_lp_sel(
                    *old(self),
                    old(self).side,
                    clamped(lp_sel(*old(self), old(self).side) + delta, 0, len - 1) as usize,
                ),
                anim: 0,
                ..*old(self)
            }),
    {
        if len > 0 {
            let cur = self.selected();
            let side = self.side;
            let next = clamp_add(cur, delta, len);
            self.set_sel(side, next);
        }
        self.anim = 0;
    }

    /// Moves the cursor `delta` columns, stopping at the left and right ones; the marquee
    /// restarts.
    pub fn switch_side(&mut self, delta: isize)
        ensures
            *final(self) == (LpCursor { side: clamped(old(self).side + delta, 0, 1) as usize, anim: 0, ..*old(self) }),
    {
        self.side = clamp_add(self.side, delta, 2);
        self.anim = 0;
    }

    /// Keeps each column's slot inside the column after the entries were rebuilt: past the
    /// end it moves to the last slot (0 for an empty column).
    pub fn clamp_to(&mut self, left_len: usize, right_len: usize)
        ensures
            final(self).side == old(self).side,
            final(self).anim == old(self).anim,
            final(self).sel.0 == (if old(self).sel.0 >= left_len {
                if left_len == 0 { 0 } else { left_len - 1 }
            } else {
                old(self).sel.0 as int
            }),
            final(self).sel.1 == (if old(self).sel.1 >= right_len {
                if right_len == 0 { 0 } else { right_len - 1 }
            } else {
                old(self).sel.1 as int
            }),
    {
        if self.sel.0 >= left_len {
            self.sel.0 = if left_len == 0 { 0 } else { left_len - 1 };
        }
        if self.sel.1 >= right_len {
            self.sel.1 = if right_len == 0 { 0 } else { right_len - 1 };
        }
    }

    /// One step of the marquee (wrapping).
    pub fn tick_anim(&mut self)
        ensures
            *final(self) == (LpCursor { anim: if old(self).anim == usize::MAX { 0 } else { (old(self).anim + 1) as usize }, ..*old(self) }),
    {
        self.anim = self.anim.wrapping_add(1);
    }
}

} // verus!
