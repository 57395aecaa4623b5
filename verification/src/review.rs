//! The diff tab of a pull request: the file list, a line cursor inside the selected
//! file's patch, and the files the user has marked viewed.
use vstd::prelude::*;

use crate::cursor::{clamp_add, clamped, wrap_add, wrapped};
use crate::text::{chars_of, lines_of, split_lines};

verus! {

/// One changed file of a pull request, as the diff tab reads it.
pub struct FileChange {
    pub path: String,
    /// The unified-diff patch, when the provider sent one (binary files have none).
    pub patch: Option<String>,
}

/// Where key input lands inside the diff tab: the file list, or a line cursor inside the
/// selected file's patch.
#[derive(Debug, Clone, Copy, PartialEq, Eq, Structural, Default)]
pub enum DiffFocus {
    #[default]
    FileList,
    Patch,
}

/// State for the full-screen PR diff view.
pub struct DiffView {
    pub pr_label: String,
    pub url: Option<String>,
    pub files: Vec<FileChange>,
    pub selected: usize,
    pub scroll: u16,
    /// Whether keys drive the file list or a line cursor in the patch.
    pub focus: DiffFocus,
    /// Cursor line index into the current file's patch (used in `Patch` focus).
    pub cursor: usize,
    /// When set, the diff shows a single commit's changes; `None` means the whole PR.
    pub commit_label: Option<String>,
    /// Paths the user has marked "viewed" this session (each at most once).
    pub viewed: Vec<String>,
}

/// Whether `path` is among the marked paths.
pub open spec fn marked(viewed: Seq<String>, path: Seq<char>) -> bool {
    exists|i: int| 0 <= i < viewed.len() && #[trigger] viewed[i]@ == path
}

/// No path is marked twice.
pub open spec fn distinct_paths(viewed: Seq<String>) -> bool {
    forall|i: int, j: int| 0 <= i < j < viewed.len() ==> #[trigger] viewed[i]@ != #[trigger] viewed[j]@
}

/// How many of the first `n` files are marked viewed.
pub open spec fn viewed_among(files: Seq<FileChange>, viewed: Seq<String>, n: int) -> nat
    decreases n,
{
    if n <= 0 {
        0
    } else {
        viewed_among(files, viewed, n - 1) + if marked(viewed, files[n - 1].path@) {
            1nat
        } else {
            0nat
        }
    }
}

pub proof fn lemma_viewed_among_bound(files: Seq<FileChange>, viewed: Seq<String>, n: int)
    ensures
        viewed_among(files, viewed, n) <= if n < 0 {
            0
        } else {
            n
        },
    decreases n,
{
    if n > 0 {
        lemma_viewed_among_bound(files, viewed, n - 1);
    }
}

/// The number of lines in the patch of `file` (0 without one).
pub open spec fn patch_lines(file: FileChange) -> int {
    match file.patch {
        Some(p) => lines_of(p@).len() as int,
        None => 0,
    }
}

/// What toggling the "viewed" mark on the current file leaves: the current file's path
/// flipped in the marks, everything else as it was (no current file, no change).
pub open spec fn viewed_toggled(o: DiffView, n: DiffView) -> bool {
    if o.selected >= o.files@.len() {
        n == o
    } else {
        let p = o.files@[o.selected as int].path@;
        &&& forall|q: Seq<char>| #[trigger] marked(n.viewed@, q) <==> (if q == p {
            !marked(o.viewed@, p)
        } else {
            marked(o.viewed@, q)
        })
        &&& n == (DiffView { viewed: n.viewed, ..o })
    }
}

/// Marking a file viewed and unmarking it again leaves the marks as they were.
pub proof fn lemma_toggle_viewed_twice(a: DiffView, b: DiffView, c: DiffView)
    requires
        viewed_toggled(a, b),
        viewed_toggled(b, c),
    ensures
        forall|q: Seq<char>| #[trigger] marked(c.viewed@, q) == marked(a.viewed@, q),
        c == (DiffView { viewed: c.viewed, ..a }),
{
    if a.selected < a.files@.len() {
        let p = a.files@[a.selected as int].path@;
        assert forall|q: Seq<char>| #[trigger] marked(c.viewed@, q) == marked(a.viewed@, q) by {
            assert(marked(b.viewed@, p) == !marked(a.viewed@, p));
            if q != p {
                assert(marked(b.viewed@, q) == marked(a.viewed@, q));
            }
        }
    }
}

/// The diff after selecting the file `delta` rows away (wrapping): scroll and cursor back
/// at the top; no files, no change.
pub open spec fn file_selected(d: DiffView, delta: int) -> DiffView {
    if d.files@.len() == 0 {
        d
    } else {
        DiffView {
            selected: wrapped(d.selected as int, delta, d.files@.len() as int) as usize,
            scroll: 0,
            cursor: 0,
            ..d
        }
    }
}

/// The diff after entering the current file's patch: the line cursor on its first line;
/// without a patch, no change.
pub open spec fn patch_entered(d: DiffView) -> DiffView {
    if d.patch_len_spec() > 0 {
        DiffView { focus: DiffFocus::Patch, cursor: 0, ..d }
    } else {
        d
    }
}

/// The diff after moving the line cursor by `delta`, kept inside the patch.
pub open spec fn cursor_moved(d: DiffView, delta: int) -> DiffView {
    if d.patch_len_spec() == 0 {
        d
    } else {
        DiffView { cursor: clamped(d.cursor + delta, 0, d.patch_len_spec() - 1) as usize, ..d }
    }
}

/// The diff after scrolling the patch by `delta` lines, never above the top (a target
/// past `u16::MAX` wraps).
pub open spec fn diff_scrolled(d: DiffView, delta: int) -> DiffView {
    DiffView {
        scroll: (if d.scroll + delta < 0 {
            0
        } else {
            (d.scroll + delta) % 0x10000
        }) as u16,
        ..d
    }
}

impl DiffView {
    /// Well-formed: the marked paths are distinct.
    pub open spec fn wf(&self) -> bool {
        distinct_paths(self.viewed@)
    }

    /// The number of lines in the current file's patch (0 if none).
    pub open spec fn patch_len_spec(&self) -> int {
        if self.selected < self.files@.len() {
            patch_lines(self.files@[self.selected as int])
        } else {
            0
        }
    }

    /// The selected file, if the selection is in range.
    pub fn current(&self) -> (r: Option<&FileChange>)
        ensures
            self.selected < self.files@.len() ==> r == Some(&self.files@[self.selected as int]),
            self.selected >= self.files@.len() ==> r is None,
    {
        if self.selected < self.files.len() {
            Some(&self.files[self.selected])
        } else {
            None
        }
    }

    /// Number of lines in the current file's patch (0 if none).
    pub fn patch_len(&self) -> (n: usize)
        ensures
            n == self.patch_len_spec(),
    {
        match self.current() {
            Some(f) => match &f.patch {
                Some(p) => {
                    let v = chars_of(p.as_str());
                    split_lines(v.as_slice()).len()
                },
                None => 0,
            },
            None => 0,
        }
    }

    /// Selects the file `delta` rows away, wrapping, and resets the scroll and cursor.
    pub fn select_file(&mut self, delta: isize)
        ensures
            *final(self) == file_selected(*old(self), delta as int),
    {
        if self.files.len() == 0 {
            return;
        }
        self.selected = wrap_add(self.selected, delta, self.files.len());
        self.scroll = 0;
        self.cursor = 0;
    }

    /// Enters the patch line cursor for the current file (no-op without a patch).
    pub fn enter_patch(&mut self)
        ensures
            *final(self) == patch_entered(*old(self)),
    {
        if self.patch_len() > 0 {
            self.focus = DiffFocus::Patch;
            self.cursor = 0;
        }
    }

    /// Returns focus to the file list.
    pub fn exit_patch(&mut self)
        ensures
            *final(self) == (DiffView { focus: DiffFocus::FileList, ..*old(self) }),
    {
        self.focus = DiffFocus::FileList;
    }

    /// Moves the patch line cursor, clamped to the patch bounds.
    pub fn move_cursor(&mut self, delta: isize)
        requires
            old(self).cursor <= isize::MAX,
            isize::MIN <= old(self).cursor + delta <= isize::MAX,
        ensures
            *final(self) == cursor_moved(*old(self), delta as int),
    {
        let n = self.patch_len();
        if n == 0 {
            return;
        }
        self.cursor = clamp_add(self.cursor, delta, n);
    }

    /// Scrolls the patch by `delta` lines, never above the top.
    pub fn scroll_by(&mut self, delta: i32)
        requires
            old(self).scroll + delta <= i32::MAX,
        ensures
            *final(self) == diff_scrolled(*old(self), delta as int),
    {
        let v: i32 = self.scroll as i32 + delta;
        let v: i32 = if v < 0 {
            0
        } else {
            v
        };
        // A target past `u16::MAX` wraps, as the `as u16` conversion does.
        self.scroll = (v % 0x10000) as u16;
    }

    /// Whether `path` is marked viewed.
    pub fn is_viewed(&self, path: &str) -> (r: bool)
        ensures
            r == marked(self.viewed@, path@),
    {
        let target = path.to_owned();
        let mut i: usize = 0;
        while i < self.viewed.len()
            invariant
                target@ == path@,
                i <= self.viewed@.len(),
                forall|j: int| 0 <= j < i ==> self.viewed@[j]@ != path@,
            decreases self.viewed@.len() - i,
        {
            if self.viewed[i] == target {
                assert(self.viewed@[i as int]@ == path@);
                return true;
            }
            i += 1;
        }
        false
    }

    /// Toggles the "viewed" mark on the current file.
    pub fn toggle_viewed(&mut self)
        requires
            old(self).wf(),
        ensures
            final(self).wf(),
            viewed_toggled(*old(self), *final(self)),
    {
        if self.selected >= self.files.len() {
            return;
        }
        let path = self.files[self.selected].path.clone();
        let ghost orig = self.viewed@;
        let mut kept: Vec<String> = Vec::new();
        let mut found = false;
        let mut i: usize = 0;
        while i < self.viewed.len()
            invariant
                self.viewed@ == orig,
                distinct_paths(orig),
                i <= orig.len(),
                found == exists|j: int| 0 <= j < i && orig[j]@ == path@,
                distinct_paths(kept@),
                forall|q: Seq<char>| #[trigger] marked(kept@, q) <==> (q != path@ && exists|j: int| 0 <= j < i && orig[j]@ == q),
            decreases orig.len() - i,
        {
            let ghost prev = kept@;
            if self.viewed[i] == path {
                found = true;
            } else {
                let s = self.viewed[i].clone();
                kept.push(s);
                assert forall|a: int, b: int| 0 <= a < b < kept@.len() implies #[trigger] kept@[a]@ != #[trigger] kept@[b]@ by {
                    if b == prev.len() {
                        if kept@[a]@ == kept@[b]@ {
                            assert(marked(prev, orig[i as int]@));
                        }
                    }
                }
            }
            assert forall|q: Seq<char>| #[trigger] marked(kept@, q) <==> (q != path@ && exists|j: int| 0 <= j < i + 1 && orig[j]@ == q) by {
                if marked(kept@, q) {
                    let w = choose|w: int| 0 <= w < kept@.len() && #[trigger] kept@[w]@ == q;
                    if w < prev.len() {
                        assert(prev[w]@ == q);
                        assert(marked(prev, q));
                    }
                }
                if q != path@ && exists|j: int| 0 <= j < i + 1 && orig[j]@ == q {
                    let j = choose|j: int| 0 <= j < i + 1 && orig[j]@ == q;
                    if j < i {
                        assert(marked(prev, q));
                        let w = choose|w: int| 0 <= w < prev.len() && #[trigger] prev[w]@ == q;
                        assert(kept@[w]@ == q);
                    } else {
                        assert(kept@[prev.len() as int]@ == q);
                    }
                }
            }
            i += 1;
        }
        if !found {
            let ghost prev = kept@;
            kept.push(path);
            assert forall|a: int, b: int| 0 <= a < b < kept@.len() implies #[trigger] kept@[a]@ != #[trigger] kept@[b]@ by {
                if b == prev.len() && kept@[a]@ == kept@[b]@ {
                    assert(marked(prev, kept@[a]@));
                }
            }
            assert forall|q: Seq<char>| #[trigger] marked(kept@, q) <==> (q == path@ || marked(prev, q)) by {
                if marked(kept@, q) {
                    let w = choose|w: int| 0 <= w < kept@.len() && #[trigger] kept@[w]@ == q;
                    if w < prev.len() {
                        assert(prev[w]@ == q);
                    }
                }
                if marked(prev, q) {
                    let w = choose|w: int| 0 <= w < prev.len() && #[trigger] prev[w]@ == q;
                    assert(kept@[w]@ == q);
                }
                if q == path@ {
                    assert(kept@[prev.len() as int]@ == q);
                }
            }
        }
        assert forall|q: Seq<char>| #[trigger] marked(orig, q) <==> exists|j: int| 0 <= j < orig.len() && orig[j]@ == q by {
            if exists|j: int| 0 <= j < orig.len() && orig[j]@ == q {
                let j = choose|j: int| 0 <= j < orig.len() && orig[j]@ == q;
                assert(orig[j]@ == q);
            }
        }
        self.viewed = kept;
    }

    /// How many of the currently-listed files are marked viewed (for "N/M reviewed").
    pub fn viewed_count(&self) -> (n: usize)
        ensures
            n == viewed_among(self.files@, self.viewed@, self.files@.len() as int),
    {
        let mut n: usize = 0;
        let mut i: usize = 0;
        while i < self.files.len()
            invariant
                i <= self.files@.len(),
                n == viewed_among(self.files@, self.viewed@, i as int),
            decreases self.files@.len() - i,
        {
            proof {
                lemma_viewed_among_bound(self.files@, self.viewed@, i as int);
            }
            if self.is_viewed(self.files[i].path.as_str()) {
                n += 1;
            }
            i += 1;
        }
        n
    }
}

/// Whether the patch line `t` is one of `targets`.
pub open spec fn has_line(targets: Seq<usize>, t: usize) -> bool {
    exists|i: int| 0 <= i < targets.len() && targets[i] == t
}

/// The thread line the cursor jumps to from `cur`: forward (`dir > 0`) the first one
/// after it, wrapping to the first; backward the last one before it, wrapping to the last.
pub open spec fn jumped_to(targets: Seq<usize>, cur: usize, dir: isize, to: usize) -> bool {
    &&& has_line(targets, to)
    &&& if dir > 0 {
        if exists|i: int| 0 <= i < targets.len() && targets[i] > cur {
            to > cur && forall|i: int| 0 <= i < targets.len() && targets[i] > cur ==> to <= targets[i]
        } else {
            forall|i: int| 0 <= i < targets.len() ==> to <= targets[i]
        }
    } else {
        if exists|i: int| 0 <= i < targets.len() && targets[i] < cur {
            to < cur && forall|i: int| 0 <= i < targets.len() && targets[i] < cur ==> to >= targets[i]
        } else {
            forall|i: int| 0 <= i < targets.len() ==> to >= targets[i]
        }
    }
}

impl DiffView {
    /// `]` / `[` on the diff: moves the patch cursor to the next (`dir > 0`) or previous
    /// comment thread of the current file, wrapping, and enters the patch. `targets` are the
    /// patch lines the file's threads are anchored at, in any order; with none, nothing
    /// moves.
    pub fn jump_thread(&mut self, targets: &Vec<usize>, dir: isize)
        ensures
            targets@.len() == 0 ==> *final(self) == *old(self),
            targets@.len() > 0 ==> jumped_to(targets@, old(self).cursor, dir, final(self).cursor) && *final(self)
                == (DiffView { focus: DiffFocus::Patch, cursor: final(self).cursor, ..*old(self) }),
    {
        if targets.len() == 0 {
            return;
        }
        let cur = self.cursor;
        let mut lo: usize = targets[0];
        let mut hi: usize = targets[0];
        let mut after: Option<usize> = None;
        let mut before: Option<usize> = None;
        let mut i: usize = 0;
        while i < targets.len()
            invariant
                0 < targets@.len(),
                i <= targets@.len(),
                has_line(targets@, lo) && forall|j: int| 0 <= j < i ==> lo <= targets@[j],
                has_line(targets@, hi) && forall|j: int| 0 <= j < i ==> hi >= targets@[j],
                match after {
                    Some(a) => has_line(targets@, a) && a > cur && forall|j: int| 0 <= j < i && targets@[j] > cur ==> a <= targets@[j],
                    None => forall|j: int| 0 <= j < i ==> targets@[j] <= cur,
                },
                match before {
                    Some(b) => has_line(targets@, b) && b < cur && forall|j: int| 0 <= j < i && targets@[j] < cur ==> b >= targets@[j],
                    None => forall|j: int| 0 <= j < i ==> targets@[j] >= cur,
                },
            decreases targets@.len() - i,
        {
            let t = targets[i];
            if t < lo {
                lo = t;
            }
            if t > hi {
                hi = t;
            }
            if t > cur {
                match after {
                    Some(a) => if t < a {
                        after = Some(t);
                    },
                    None => after = Some(t),
                }
            }
            if t < cur {
                match before {
                    Some(b) => if t > b {
                        before = Some(t);
                    },
                    None => before = Some(t),
                }
            }
            i += 1;
        }
        let to = if dir > 0 {
            match after {
                Some(a) => a,
                None => lo,
            }
        } else {
            match before {
                Some(b) => b,
                None => hi,
            }
        };
        self.focus = DiffFocus::Patch;
        self.cursor = to;
    }
}

} // verus!
