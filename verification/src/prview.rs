//! Keys in the full-screen pull-request and work-item views: the sub-tabs, their scroll,
//! the commit cursor, the diff tab, and the actions that a key hands to the app.
use vstd::prelude::*;

use crate::cursor::wrapped;
use crate::keys::Key;
use crate::lists::{first_chars, push_first_chars, ReviewVote};
use crate::order::{before, lex_sign, sort_rows, SortKey};
use crate::text::{chars_of, push_char};
use crate::review::{
    cursor_moved, diff_scrolled, file_selected, patch_entered, viewed_toggled, DiffFocus, DiffView,
    FileChange,
};

verus! {

/// The pull-request view's sub-tabs: Conversation, Commits, Checks, Diff.
pub const PR_TAB_COUNT: usize = 4;

/// The Commits sub-tab.
pub const COMMITS_TAB: usize = 1;

/// The Diff sub-tab.
pub const DIFF_TAB: usize = 3;

/// What a key in an item view asks of the app around it.
#[derive(Debug, Clone, Copy, PartialEq, Eq, Structural)]
pub enum ViewKeyAction {
    /// Handled here (or ignored); nothing more to do.
    Stay,
    /// Leave the view for where it was opened from.
    Leave,
    /// Ask before leaving: line comments are buffered and not yet submitted.
    PromptPendingExit,
    /// Open the item in the browser.
    OpenSelected,
    /// Offer to cast this vote.
    Vote(ReviewVote),
    /// Offer to merge.
    Merge,
    /// Offer to revert the merged pull request.
    Revert,
    /// Start a comment: on the patch line under the cursor, else on the item.
    Comment,
    /// Start a reply to a thread.
    Reply,
    /// Offer to submit the buffered review.
    SubmitReview,
    /// Move the patch cursor to the next (`1`) or previous (`-1`) comment thread.
    JumpThread(isize),
    /// Start editing the item's fields.
    Edit,
}

/// The parts of the pull-request view that keys move: the sub-tab, the scroll of the text
/// tabs, the commit cursor, the diff tab, and the whole-PR files it goes back to.
pub struct PrPanes {
    pub tab: usize,
    /// Scroll offset for the Conversation / Commits / Checks tabs.
    pub scroll: u16,
    /// Cursor row on the Commits tab.
    pub commit_sel: usize,
    /// The whole-PR changed files, kept so the Diff tab can return to them after showing a
    /// single commit's changes.
    pub pr_files: Vec<FileChange>,
    pub diff: DiffView,
}

impl PrPanes {
    /// A sub-tab among the four, and a diff whose viewed marks are distinct.
    pub open spec fn wf(&self) -> bool {
        &&& self.tab < PR_TAB_COUNT
        &&& self.diff.wf()
    }
}

fn clone_file(f: &FileChange) -> (r: FileChange)
    ensures
        r == *f,
{
    FileChange {
        path: f.path.clone(),
        patch: match &f.patch {
            Some(p) => Some(p.clone()),
            None => None,
        },
    }
}

fn clone_files(v: &Vec<FileChange>) -> (r: Vec<FileChange>)
    ensures
        r@ == v@,
{
    let mut r: Vec<FileChange> = Vec::new();
    let mut i: usize = 0;
    while i < v.len()
        invariant
            i <= v@.len(),
            r@ == v@.take(i as int),
        decreases v@.len() - i,
    {
        r.push(clone_file(&v[i]));
        i += 1;
        assert(r@ =~= v@.take(i as int));
    }
    assert(v@.take(v@.len() as int) =~= v@);
    r
}

/// `n` is the diff of `p` with the keys back on the file list and, when it showed a single
/// commit, the whole-PR files restored with the first file selected.
pub open spec fn scope_restored(p: PrPanes, n: DiffView) -> bool {
    if p.diff.commit_label is Some {
        &&& n.files@ == p.pr_files@
        &&& n == (DiffView {
            files: n.files,
            focus: DiffFocus::FileList,
            selected: 0,
            cursor: 0,
            commit_label: None,
            ..p.diff
        })
    } else {
        n == (DiffView { focus: DiffFocus::FileList, ..p.diff })
    }
}

impl PrPanes {
    /// Restores the whole-PR diff if the view was showing a single commit's changes.
    pub fn reset_diff_scope(&mut self)
        ensures
            scope_restored(*old(self), final(self).diff),
            *final(self) == (PrPanes { diff: final(self).diff, ..*old(self) }),
    {
        self.diff.focus = DiffFocus::FileList;
        if self.diff.commit_label.is_some() {
            self.diff.files = clone_files(&self.pr_files);
            self.diff.selected = 0;
            self.diff.cursor = 0;
            self.diff.commit_label = None;
        }
    }
}

/// The machine limits a key runs into: the counters it moves must have room to move.
pub open spec fn pr_key_fits(p: PrPanes, key: Key, commits: int) -> bool {
    let in_patch = p.tab == DIFF_TAB && p.diff.focus == DiffFocus::Patch;
    if key == Key::Up || key == Key::Char('k') || key == Key::PageUp || key == Key::Char('b') {
        in_patch ==> p.diff.cursor <= isize::MAX
    } else if key == Key::Down || key == Key::Char('j') {
        &&& in_patch ==> p.diff.cursor + 1 <= isize::MAX
        &&& (p.tab == COMMITS_TAB && commits > 0) ==> p.commit_sel < usize::MAX
        &&& (p.tab != COMMITS_TAB && p.tab != DIFF_TAB) ==> p.scroll + 1 <= u16::MAX
    } else if key == Key::PageDown || key == Key::Char(' ') {
        &&& in_patch ==> p.diff.cursor + 10 <= isize::MAX
        &&& p.tab != DIFF_TAB ==> p.scroll + 10 <= u16::MAX
    } else {
        true
    }
}

/// `a` moved by `step` rows towards the end, stopping at `max`.
pub open spec fn capped_add(a: int, step: int, max: int) -> int {
    if a + step < max {
        a + step
    } else {
        max
    }
}

/// `a` moved by `step` rows towards the top, stopping at 0.
pub open spec fn floored_sub(a: int, step: int) -> int {
    if a >= step {
        a - step
    } else {
        0
    }
}

/// The diff after a move key on the Diff tab: the line cursor in the patch, else the file
/// list (rows) or the patch scroll (pages).
pub open spec fn diff_moved(d: DiffView, step: int, page: bool) -> DiffView {
    if d.focus == DiffFocus::Patch {
        cursor_moved(d, step)
    } else if page {
        diff_scrolled(d, step)
    } else {
        file_selected(d, step)
    }
}

/// What a key that moves within the pull-request view leaves: `step` rows (or a page of
/// ten) up or down the Diff tab, the Commits cursor, or the text tabs' scroll.
pub open spec fn pr_moved(o: PrPanes, n: PrPanes, step: int, page: bool, commits: int, max: int) -> bool {
    if o.tab == DIFF_TAB {
        n == (PrPanes { diff: diff_moved(o.diff, step, page), ..o })
    } else if o.tab == COMMITS_TAB && !page {
        n == (PrPanes {
            commit_sel: if step < 0 {
                floored_sub(o.commit_sel as int, -step) as usize
            } else if commits > 0 {
                capped_add(o.commit_sel as int, step, commits - 1) as usize
            } else {
                o.commit_sel
            },
            ..o
        })
    } else {
        n == (PrPanes {
            scroll: if step < 0 {
                floored_sub(o.scroll as int, -step) as u16
            } else {
                capped_add(o.scroll as int, step, max) as u16
            },
            ..o
        })
    }
}

/// What a key in the pull-request view does: `o` becomes `n`, asking `a` of the app. The
/// PR has `commits` commits, `pending` buffered line comments, and is `merged` or not; the
/// text tabs scroll no further than `max`.
pub open spec fn pr_keyed(
    o: PrPanes,
    n: PrPanes,
    key: Key,
    commits: int,
    pending: int,
    merged: bool,
    max: int,
    a: ViewKeyAction,
) -> bool {
    let on_diff = o.tab == DIFF_TAB;
    if key == Key::Escape || key == Key::Char('q') {
        if on_diff && o.diff.focus == DiffFocus::Patch {
            a is Stay && n == (PrPanes { diff: DiffView { focus: DiffFocus::FileList, ..o.diff }, ..o })
        } else if pending > 0 {
            a is PromptPendingExit && n == o
        } else {
            a is Leave && n == o
        }
    } else if key == Key::Char('o') {
        a is OpenSelected && n == o
    } else if key == Key::Char('a') {
        a == (if merged {
            ViewKeyAction::Stay
        } else {
            ViewKeyAction::Vote(ReviewVote::Approved)
        }) && n == o
    } else if key == Key::Char('x') {
        a == (if merged {
            ViewKeyAction::Stay
        } else {
            ViewKeyAction::Vote(ReviewVote::Rejected)
        }) && n == o
    } else if key == Key::Char('m') {
        a == (if merged {
            ViewKeyAction::Stay
        } else {
            ViewKeyAction::Merge
        }) && n == o
    } else if key == Key::Char('R') {
        a == (if merged {
            ViewKeyAction::Revert
        } else {
            ViewKeyAction::Stay
        }) && n == o
    } else if key == Key::Char('c') {
        a is Comment && n == o
    } else if key == Key::Char('r') {
        a is Reply && n == o
    } else if key == Key::Char('s') {
        a is SubmitReview && n == o
    } else if key == Key::Left || key == Key::Char('h') || key == Key::Right || key == Key::Char('l') {
        let t = if key == Key::Left || key == Key::Char('h') {
            -1int
        } else {
            1int
        };
        &&& a is Stay
        &&& scope_restored(o, n.diff)
        &&& n == (PrPanes {
            tab: wrapped(o.tab as int, t, PR_TAB_COUNT as int) as usize,
            scroll: 0,
            diff: n.diff,
            ..o
        })
    } else if on_diff && key == Key::Enter {
        a is Stay && n == (PrPanes { diff: patch_entered(o.diff), ..o })
    } else if on_diff && key == Key::Char('v') {
        a is Stay && viewed_toggled(o.diff, n.diff) && n == (PrPanes { diff: n.diff, ..o })
    } else if on_diff && key == Key::Char(']') {
        a == ViewKeyAction::JumpThread(1isize) && n == o
    } else if on_diff && key == Key::Char('[') {
        a == ViewKeyAction::JumpThread(-1isize) && n == o
    } else if key == Key::Up || key == Key::Char('k') {
        a is Stay && pr_moved(o, n, -1, false, commits, max)
    } else if key == Key::Down || key == Key::Char('j') {
        a is Stay && pr_moved(o, n, 1, false, commits, max)
    } else if key == Key::PageDown || key == Key::Char(' ') {
        a is Stay && pr_moved(o, n, 10, true, commits, max)
    } else if key == Key::PageUp || key == Key::Char('b') {
        a is Stay && pr_moved(o, n, -10, true, commits, max)
    } else {
        a is Stay && n == o
    }
}

/// Keys in the full-screen pull-request view. Actions (leave, open, vote, merge, revert,
/// comment, reply, submit) go back to the app; the rest moves the view. Changing sub-tab
/// starts the new tab at the top, drops the patch cursor and restores the whole-PR diff.
pub fn on_pr_view_key(
    v: &mut PrPanes,
    key: Key,
    commits: usize,
    pending: usize,
    merged: bool,
    max: u16,
) -> (a: ViewKeyAction)
    requires
        old(v).wf(),
        pr_key_fits(*old(v), key, commits as int),
    ensures
        final(v).wf(),
        pr_keyed(*old(v), *final(v), key, commits as int, pending as int, merged, max as int, a),
{
    let on_diff = v.tab == DIFF_TAB;
    match key {
        Key::Escape | Key::Char('q') => {
            if on_diff && v.diff.focus == DiffFocus::Patch {
                v.diff.exit_patch();
                return ViewKeyAction::Stay;
            }
            if pending > 0 {
                return ViewKeyAction::PromptPendingExit;
            }
            return ViewKeyAction::Leave;
        },
        Key::Char('o') => {
            return ViewKeyAction::OpenSelected;
        },
        Key::Char('a') => {
            return if merged {
                ViewKeyAction::Stay
            } else {
                ViewKeyAction::Vote(ReviewVote::Approved)
            };
        },
        Key::Char('x') => {
            return if merged {
                ViewKeyAction::Stay
            } else {
                ViewKeyAction::Vote(ReviewVote::Rejected)
            };
        },
        Key::Char('m') => {
            return if merged {
                ViewKeyAction::Stay
            } else {
                ViewKeyAction::Merge
            };
        },
        Key::Char('R') => {
            return if merged {
                ViewKeyAction::Revert
            } else {
                ViewKeyAction::Stay
            };
        },
        Key::Char('c') => {
            return ViewKeyAction::Comment;
        },
        Key::Char('r') => {
            return ViewKeyAction::Reply;
        },
        Key::Char('s') => {
            return ViewKeyAction::SubmitReview;
        },
        _ => {},
    }
    let in_patch = on_diff && v.diff.focus == DiffFocus::Patch;
    match key {
        Key::Left | Key::Char('h') => {
            v.tab = (v.tab + PR_TAB_COUNT - 1) % PR_TAB_COUNT;
            v.scroll = 0;
            v.reset_diff_scope();
        },
        Key::Right | Key::Char('l') => {
            v.tab = (v.tab + 1) % PR_TAB_COUNT;
            v.scroll = 0;
            v.reset_diff_scope();
        },
        Key::Enter if on_diff => v.diff.enter_patch(),
        Key::Char('v') if on_diff => v.diff.toggle_viewed(),
        Key::Char(']') if on_diff => {
            return ViewKeyAction::JumpThread(1);
        },
        Key::Char('[') if on_diff => {
            return ViewKeyAction::JumpThread(-1);
        },
        Key::Up | Key::Char('k') => {
            if on_diff {
                if in_patch {
                    v.diff.move_cursor(-1);
                } else {
                    v.diff.select_file(-1);
                }
            } else if v.tab == COMMITS_TAB {
                v.commit_sel = if v.commit_sel >= 1 {
                    v.commit_sel - 1
                } else {
                    0
                };
            } else {
                v.scroll = if v.scroll >= 1 {
                    v.scroll - 1
                } else {
                    0
                };
            }
        },
        Key::Down | Key::Char('j') => {
            if on_diff {
                if in_patch {
                    v.diff.move_cursor(1);
                } else {
                    v.diff.select_file(1);
                }
            } else if v.tab == COMMITS_TAB {
                if commits > 0 {
                    let next = v.commit_sel + 1;
                    v.commit_sel = if next < commits - 1 {
                        next
                    } else {
                        commits - 1
                    };
                }
            } else {
                let next = v.scroll + 1;
                v.scroll = if next < max {
                    next
                } else {
                    max
                };
            }
        },
        Key::PageDown | Key::Char(' ') => {
            if on_diff {
                if in_patch {
                    v.diff.move_cursor(10);
                } else {
                    v.diff.scroll_by(10);
                }
            } else {
                let next = v.scroll + 10;
                v.scroll = if next < max {
                    next
                } else {
                    max
                };
            }
        },
        Key::PageUp | Key::Char('b') => {
            if on_diff {
                if in_patch {
                    v.diff.move_cursor(-10);
                } else {
                    v.diff.scroll_by(-10);
                }
            } else {
                v.scroll = if v.scroll >= 10 {
                    v.scroll - 10
                } else {
                    0
                };
            }
        },
        _ => {},
    }
    ViewKeyAction::Stay
}

/// What a key in the work-item view does to its scroll `o` (now `n`), asking `a` of the
/// app; the view scrolls no further than `max`.
pub open spec fn wi_keyed(o: u16, n: u16, key: Key, max: int, a: ViewKeyAction) -> bool {
    if key == Key::Escape || key == Key::Char('q') {
        a is Leave && n == o
    } else if key == Key::Char('o') {
        a is OpenSelected && n == o
    } else if key == Key::Char('c') {
        a is Comment && n == o
    } else if key == Key::Char('e') {
        a is Edit && n == o
    } else if key == Key::Up || key == Key::Char('k') {
        a is Stay && n == floored_sub(o as int, 1)
    } else if key == Key::Down || key == Key::Char('j') {
        a is Stay && n == capped_add(o as int, 1, max)
    } else if key == Key::PageDown || key == Key::Char(' ') {
        a is Stay && n == capped_add(o as int, 10, max)
    } else if key == Key::PageUp || key == Key::Char('b') {
        a is Stay && n == floored_sub(o as int, 10)
    } else {
        a is Stay && n == o
    }
}

/// Keys in the full-screen work-item view: leave, open, comment and edit go back to the
/// app; the arrows and pages scroll.
pub fn on_wi_view_key(scroll: &mut u16, key: Key, max: u16) -> (a: ViewKeyAction)
    requires
        (key == Key::Down || key == Key::Char('j')) ==> *old(scroll) + 1 <= u16::MAX,
        (key == Key::PageDown || key == Key::Char(' ')) ==> *old(scroll) + 10 <= u16::MAX,
    ensures
        wi_keyed(*old(scroll), *final(scroll), key, max as int, a),
{
    match key {
        Key::Escape | Key::Char('q') => ViewKeyAction::Leave,
        Key::Char('o') => ViewKeyAction::OpenSelected,
        Key::Char('c') => ViewKeyAction::Comment,
        Key::Char('e') => ViewKeyAction::Edit,
        Key::Up | Key::Char('k') => {
            *scroll = if *scroll >= 1 {
                *scroll - 1
            } else {
                0
            };
            ViewKeyAction::Stay
        },
        Key::Down | Key::Char('j') => {
            let next = *scroll + 1;
            *scroll = if next < max {
                next
            } else {
                max
            };
            ViewKeyAction::Stay
        },
        Key::PageDown | Key::Char(' ') => {
            let next = *scroll + 10;
            *scroll = if next < max {
                next
            } else {
                max
            };
            ViewKeyAction::Stay
        },
        Key::PageUp | Key::Char('b') => {
            *scroll = if *scroll >= 10 {
                *scroll - 10
            } else {
                0
            };
            ViewKeyAction::Stay
        },
        _ => ViewKeyAction::Stay,
    }
}

/// `order` lists `0..n`, each once.
pub open spec fn is_permutation(order: Seq<usize>, n: int) -> bool {
    &&& order.len() == n
    &&& forall|x: usize| #[trigger] order.contains(x) <==> x < n
}

/// File `x` goes before file `y`: a smaller path, or the same path and it came first.
pub open spec fn path_before(files: Seq<FileChange>, x: int, y: int) -> bool {
    lex_sign(files[x].path@, files[y].path@) < 0 || (lex_sign(files[x].path@, files[y].path@) == 0
        && x < y)
}

/// `out` is `files` sorted by path, stably.
pub open spec fn sorted_by_path(files: Seq<FileChange>, out: Seq<FileChange>) -> bool {
    exists|order: Seq<usize>|
        #![trigger is_permutation(order, files.len() as int)]
        is_permutation(order, files.len() as int) && out.len() == files.len() && (forall|k: int|
            0 <= k < out.len() ==> #[trigger] out[k] == files[order[k] as int]) && (forall|i: int, j: int|
            0 <= i < j < order.len() ==> path_before(files, #[trigger] order[i] as int, #[trigger] order[j] as int))
}

/// `files` sorted by path, stably.
pub fn sort_by_path(files: &Vec<FileChange>) -> (out: Vec<FileChange>)
    ensures
        sorted_by_path(files@, out@),
{
    let mut keys: Vec<SortKey> = Vec::new();
    let mut idx: Vec<usize> = Vec::new();
    let mut i: usize = 0;
    while i < files.len()
        invariant
            i <= files@.len(),
            keys@.len() == i,
            idx@.len() == i,
            forall|j: int| 0 <= j < i ==> ((#[trigger] keys@[j]) matches SortKey::Text(t) && t@ == files@[j].path@),
            forall|j: int| 0 <= j < i ==> #[trigger] idx@[j] == j,
        decreases files@.len() - i,
    {
        keys.push(SortKey::Text(chars_of(files[i].path.as_str())));
        idx.push(i);
        i += 1;
    }
    assert forall|a: int, b: int| 0 <= a < keys@.len() && 0 <= b < keys@.len() implies crate::order::same_shape(
        #[trigger] keys@[a],
        #[trigger] keys@[b],
    ) by {}
    assert forall|a: int, b: int| 0 <= a < b < idx@.len() implies #[trigger] idx@[a] < #[trigger] idx@[b] by {}
    assert forall|x: usize| #[trigger] idx@.contains(x) <==> (x < files@.len()) by {
        if x < files@.len() {
            assert(idx@[x as int] == x);
        }
    }
    let order = sort_rows(idx, &keys, false);
    let mut out: Vec<FileChange> = Vec::new();
    let mut k: usize = 0;
    while k < order.len()
        invariant
            k <= order@.len(),
            order@.len() == files@.len(),
            forall|x: usize| #[trigger] order@.contains(x) <==> (x < files@.len()),
            out@.len() == k,
            forall|j: int| 0 <= j < k ==> #[trigger] out@[j] == files@[order@[j] as int],
        decreases order@.len() - k,
    {
        assert(order@.contains(order@[k as int]));
        out.push(clone_file(&files[order[k]]));
        k += 1;
    }
    proof {
        assert forall|a: int, b: int| 0 <= a < b < order@.len() implies path_before(
            files@,
            #[trigger] order@[a] as int,
            #[trigger] order@[b] as int,
        ) by {
            assert(before(keys@, false, order@[a] as int, order@[b] as int));
            assert(order@.contains(order@[a]));
            assert(order@.contains(order@[b]));
            assert(keys@[order@[a] as int] matches SortKey::Text(t) && t@ == files@[order@[a] as int].path@);
            assert(keys@[order@[b] as int] matches SortKey::Text(t) && t@ == files@[order@[b] as int].path@);
        }
        assert(is_permutation(order@, files@.len() as int));
    }
    out
}

/// A commit's label in the diff header: its short sha and the start of its message.
pub open spec fn commit_label_text(sha: Seq<char>, message: Seq<char>) -> Seq<char> {
    first_chars(sha, 7) + seq![' '] + first_chars(message, 50)
}

impl PrPanes {
    /// Shows commit `sha`'s changed files on the Diff tab, sorted by path, with the first
    /// file selected and the commit named in the header. A commit with no files (a provider
    /// with no per-commit diff) leaves the view as it was and returns false.
    pub fn show_commit_diff(&mut self, files: Vec<FileChange>, sha: &str, message: &str) -> (shown: bool)
        ensures
            shown == (files@.len() > 0),
            !shown ==> *final(self) == *old(self),
            shown ==> ({
                &&& sorted_by_path(files@, final(self).diff.files@)
                &&& final(self).diff.commit_label matches Some(l) && l@ == commit_label_text(sha@, message@)
                &&& final(self).tab == DIFF_TAB
                &&& *final(self) == (PrPanes { tab: DIFF_TAB, diff: final(self).diff, ..*old(self) })
                &&& final(self).diff == (DiffView {
                    files: final(self).diff.files,
                    selected: 0,
                    cursor: 0,
                    focus: DiffFocus::FileList,
                    commit_label: final(self).diff.commit_label,
                    ..old(self).diff
                })
            }),
    {
        if files.len() == 0 {
            return false;
        }
        let sorted = sort_by_path(&files);
        let mut label = String::new();
        push_first_chars(&mut label, sha, 7);
        push_char(&mut label, ' ');
        push_first_chars(&mut label, message, 50);
        self.diff.files = sorted;
        self.diff.selected = 0;
        self.diff.cursor = 0;
        self.diff.focus = DiffFocus::FileList;
        self.diff.commit_label = Some(label);
        self.tab = DIFF_TAB;
        proof {
            assert(commit_label_text(sha@, message@) == first_chars(sha@, 7) + seq![' '] + first_chars(message@, 50));
        }
        true
    }
}

} // verus!
