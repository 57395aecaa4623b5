//! Saved views: each section's named bundles of filter, quick filter, sort and hidden
//! states, the one that is active, and how they are added, switched and deleted.
use vstd::prelude::*;

use crate::cursor::{lemma_wrapped_back, wrap_add, wrapped};
use crate::scan::{
    lead_len_exec, lemma_lead_len_bounds, lemma_trail_len_bounds, trail_len_exec, trim_lead,
    trim_trail, CharClass,
};
use crate::lists::{
    lemma_pr_filter_round_trip, parse_pr_filter, parse_pr_filter_spec, pr_filter_key, pr_filter_text,
    PullRequestFilter,
};
use crate::order::{lex_sign, sort_rows, SortKey, SortPref};
use crate::sections::{default_views, plain_view, SavedView};
use crate::text::{chars_of, string_of};

verus! {

/// The saved views of the three sections (0 = pull requests, 1 = work items,
/// 2 = pipelines) and the active view of each.
pub struct ViewShelf {
    pub views: Vec<Vec<SavedView>>,
    pub view_idx: Vec<usize>,
}

/// `s` without surrounding whitespace (`str::trim`).
pub open spec fn trimmed(s: Seq<char>) -> Seq<char> {
    trim_trail(trim_lead(s, CharClass::Space), CharClass::Space)
}

/// The name a view is saved under: the typed name without surrounding whitespace, or
/// `None` when nothing is left of it.
pub fn view_name(typed: &str) -> (r: Option<String>)
    ensures
        r matches Some(n) ==> n@ == trimmed(typed@) && n@.len() > 0,
        r is None ==> trimmed(typed@).len() == 0,
{
    let v = chars_of(typed);
    let a = lead_len_exec(v.as_slice(), CharClass::Space);
    proof {
        lemma_lead_len_bounds(v@, CharClass::Space);
    }
    let mut rest: Vec<char> = Vec::new();
    let mut i: usize = a;
    while i < v.len()
        invariant
            a <= i <= v@.len(),
            rest@ == v@.subrange(a as int, i as int),
        decreases v@.len() - i,
    {
        rest.push(v[i]);
        i += 1;
        assert(rest@ =~= v@.subrange(a as int, i as int));
    }
    assert(rest@ =~= trim_lead(v@, CharClass::Space));
    let b = trail_len_exec(rest.as_slice(), CharClass::Space);
    proof {
        lemma_trail_len_bounds(rest@, CharClass::Space);
    }
    let keep = rest.len() - b;
    if keep == 0 {
        assert(trimmed(typed@).len() == 0);
        return None;
    }
    let mut out: Vec<char> = Vec::new();
    let mut j: usize = 0;
    while j < keep
        invariant
            keep <= rest@.len(),
            j <= keep,
            out@ == rest@.take(j as int),
        decreases keep - j,
    {
        out.push(rest[j]);
        j += 1;
        assert(out@ =~= rest@.take(j as int));
    }
    let s = string_of(out.as_slice());
    Some(s)
}

impl ViewShelf {
    /// Three sections, each with its active index.
    pub open spec fn wf(&self) -> bool {
        &&& self.views@.len() == 3
        &&& self.view_idx@.len() == 3
    }

    /// Every section has at least one view, as it does once the saved ones are applied.
    pub open spec fn seeded(&self) -> bool {
        forall|k: int| 0 <= k < 3 ==> (#[trigger] self.views@[k])@.len() >= 1
    }

    /// No views yet, each section at its first.
    pub fn new() -> (r: ViewShelf)
        ensures
            r.wf(),
            forall|k: int| 0 <= k < 3 ==> (#[trigger] r.views@[k])@.len() == 0 && r.view_idx@[k] == 0,
    {
        ViewShelf { views: vec![Vec::new(), Vec::new(), Vec::new()], view_idx: vec![0, 0, 0] }
    }

    /// Applies persisted saved views at startup, seeding the built-in views for a section
    /// that has none saved; a saved set is kept as it is.
    pub fn apply_views(&mut self, pr: Vec<SavedView>, wi: Vec<SavedView>, pipe: Vec<SavedView>)
        requires
            old(self).wf(),
        ensures
            final(self).wf(),
            final(self).seeded(),
            final(self).view_idx == old(self).view_idx,
            pr@.len() > 0 ==> final(self).views@[0]@ == pr@,
            wi@.len() > 0 ==> final(self).views@[1]@ == wi@,
            pipe@.len() > 0 ==> final(self).views@[2]@ == pipe@,
            pr@.len() == 0 ==> final(self).views@[0]@.len() == 3 && plain_view(
                final(self).views@[0]@[0],
                "All"@,
                Some("all"@),
            ) && plain_view(final(self).views@[0]@[1], "Mine"@, Some("mine"@)) && plain_view(
                final(self).views@[0]@[2],
                "Review"@,
                Some("review"@),
            ),
            wi@.len() == 0 ==> final(self).views@[1]@.len() == 1 && plain_view(
                final(self).views@[1]@[0],
                "All"@,
                None,
            ),
            pipe@.len() == 0 ==> final(self).views@[2]@.len() == 1 && plain_view(
                final(self).views@[2]@[0],
                "All"@,
                None,
            ),
    {
        let a = if pr.len() == 0 {
            default_views(0)
        } else {
            pr
        };
        let b = if wi.len() == 0 {
            default_views(1)
        } else {
            wi
        };
        let c = if pipe.len() == 0 {
            default_views(2)
        } else {
            pipe
        };
        self.views = vec![a, b, c];
    }

    /// The active view of a section, if its index is in range.
    pub fn active_view(&self, section: usize) -> (r: Option<&SavedView>)
        requires
            self.wf(),
            section < 3,
        ensures
            ({
                let shelf = self.views@[section as int]@;
                let i = self.view_idx@[section as int];
                if i < shelf.len() {
                    r == Some(&shelf[i as int])
                } else {
                    r is None
                }
            }),
    {
        let i = self.view_idx[section];
        if i < self.views[section].len() {
            Some(&self.views[section][i])
        } else {
            None
        }
    }

    /// Makes view `idx` of a section the active one; an index past the section's views
    /// changes nothing. Answers whether it took.
    pub fn select_view(&mut self, section: usize, idx: usize) -> (took: bool)
        requires
            old(self).wf(),
            section < 3,
        ensures
            final(self).wf(),
            final(self).views == old(self).views,
            took == (idx < old(self).views@[section as int]@.len()),
            final(self).view_idx@ == (if took {
                old(self).view_idx@.update(section as int, idx)
            } else {
                old(self).view_idx@
            }),
    {
        if idx < self.views[section].len() {
            self.view_idx.set(section, idx);
            true
        } else {
            false
        }
    }

    /// Moves a section to its previous/next saved view, wrapping; with one view or none it
    /// stays. Answers the view it moved to.
    pub fn switch_view(&mut self, section: usize, delta: isize) -> (r: Option<usize>)
        requires
            old(self).wf(),
            section < 3,
            old(self).view_idx@[section as int] <= isize::MAX,
            isize::MIN <= old(self).view_idx@[section as int] + delta <= isize::MAX,
        ensures
            final(self).wf(),
            final(self).views == old(self).views,
            ({
                let n = old(self).views@[section as int]@.len();
                if n <= 1 {
                    r is None && final(self).view_idx == old(self).view_idx
                } else {
                    let t = wrapped(old(self).view_idx@[section as int] as int, delta as int, n as int);
                    r == Some(t as usize) && final(self).view_idx@ == old(self).view_idx@.update(
                        section as int,
                        t as usize,
                    )
                }
            }),
    {
        let n = self.views[section].len();
        if n <= 1 {
            return None;
        }
        let idx = wrap_add(self.view_idx[section], delta, n);
        self.select_view(section, idx);
        Some(idx)
    }

    /// Adds a view to a section and makes it the active one.
    pub fn save_view(&mut self, section: usize, view: SavedView)
        requires
            old(self).wf(),
            section < 3,
        ensures
            final(self).wf(),
            final(self).views@[section as int]@ == old(self).views@[section as int]@.push(view),
            forall|k: int| 0 <= k < 3 && k != section ==> #[trigger] final(self).views@[k] == old(self).views@[k],
            final(self).view_idx@ == old(self).view_idx@.update(
                section as int,
                old(self).views@[section as int]@.len() as usize,
            ),
            old(self).seeded() ==> final(self).seeded(),
    {
        self.views[section].push(view);
        let last = self.views[section].len() - 1;
        self.view_idx.set(section, last);
    }

    /// Whether a section's current view may be deleted: never its last one.
    pub fn can_delete_view(&self, section: usize) -> (r: bool)
        requires
            self.wf(),
            section < 3,
        ensures
            r == (self.views@[section as int]@.len() > 1),
    {
        self.views[section].len() > 1
    }

    /// Removes a section's current view (never its last one) and answers it; the view
    /// after it, or the new last one, becomes current.
    pub fn delete_view(&mut self, section: usize) -> (r: Option<SavedView>)
        requires
            old(self).wf(),
            section < 3,
        ensures
            final(self).wf(),
            ({
                let shelf = old(self).views@[section as int]@;
                let i = old(self).view_idx@[section as int];
                let at = if i < shelf.len() - 1 {
                    i as int
                } else {
                    shelf.len() - 1
                };
                if shelf.len() <= 1 {
                    r is None && *final(self) == *old(self)
                } else {
                    &&& r == Some(shelf[at])
                    &&& final(self).views@[section as int]@ == shelf.remove(at)
                    &&& forall|k: int| 0 <= k < 3 && k != section ==> #[trigger] final(self).views@[k]
                        == old(self).views@[k]
                    &&& final(self).view_idx@ == old(self).view_idx@.update(
                        section as int,
                        (if at < shelf.len() - 2 {
                            at
                        } else {
                            shelf.len() - 2
                        }) as usize,
                    )
                }
            }),
            old(self).seeded() ==> final(self).seeded(),
    {
        let n = self.views[section].len();
        if n <= 1 {
            return None;
        }
        let cur = self.view_idx[section];
        let idx = if cur < n - 1 {
            cur
        } else {
            n - 1
        };
        let removed = self.views[section].remove(idx);
        let left = n - 1;
        let next = if idx < left - 1 {
            idx
        } else {
            left - 1
        };
        self.view_idx.set(section, next);
        Some(removed)
    }
}

/// Switching a section's view by `delta` and back by `-delta` returns to the view it was
/// on, when that view is among its views.
pub proof fn lemma_switch_view_back(a: ViewShelf, b: ViewShelf, c: ViewShelf, section: usize, delta: int)
    requires
        a.wf(),
        section < 3,
        a.views@[section as int]@.len() > 1,
        a.view_idx@[section as int] < a.views@[section as int]@.len(),
        b.views == a.views,
        b.view_idx@ == a.view_idx@.update(
            section as int,
            wrapped(a.view_idx@[section as int] as int, delta, a.views@[section as int]@.len() as int)
                as usize,
        ),
        c.views == b.views,
        c.view_idx@ == b.view_idx@.update(
            section as int,
            wrapped(b.view_idx@[section as int] as int, -delta, b.views@[section as int]@.len() as int)
                as usize,
        ),
    ensures
        c.view_idx@ == a.view_idx@,
{
    let shelf = a.views@[section as int];
    let n = shelf@.len() as int;
    assert(shelf@.len() == shelf.len());
    let p = a.view_idx@[section as int] as int;
    lemma_wrapped_back(p, delta, n);
    let t = wrapped(p, delta, n);
    assert(b.view_idx@[section as int] == t);
    assert(c.view_idx@[section as int] == p);
    assert(c.view_idx@ =~= a.view_idx@);
}

/// `v` in ascending order of its text.
pub open spec fn ascending(v: Seq<String>) -> bool {
    forall|i: int, j: int| 0 <= i < j < v.len() ==> lex_sign((#[trigger] v[i])@, (#[trigger] v[j])@) <= 0
}

/// The strings of `v`, sorted ascending (stable).
pub fn sorted_strings(v: &Vec<String>) -> (out: Vec<String>)
    ensures
        out@.len() == v@.len(),
        forall|s: String| #[trigger] out@.contains(s) <==> v@.contains(s),
        ascending(out@),
{
    let mut keys: Vec<SortKey> = Vec::new();
    let mut idx: Vec<usize> = Vec::new();
    let mut i: usize = 0;
    while i < v.len()
        invariant
            i <= v@.len(),
            keys@.len() == i,
            idx@.len() == i,
            forall|j: int| 0 <= j < i ==> ((#[trigger] keys@[j]) matches SortKey::Text(t) && t@ == v@[j]@),
            forall|j: int| 0 <= j < i ==> #[trigger] idx@[j] == j,
        decreases v@.len() - i,
    {
        keys.push(SortKey::Text(chars_of(v[i].as_str())));
        idx.push(i);
        i += 1;
    }
    assert forall|a: int, b: int| 0 <= a < keys@.len() && 0 <= b < keys@.len() implies crate::order::same_shape(
        #[trigger] keys@[a],
        #[trigger] keys@[b],
    ) by {}
    assert forall|a: int, b: int| 0 <= a < b < idx@.len() implies #[trigger] idx@[a] < #[trigger] idx@[b] by {}
    assert forall|x: usize| #[trigger] idx@.contains(x) <==> (x < v@.len()) by {
        if x < v@.len() {
            assert(idx@[x as int] == x);
        }
    }
    let order = sort_rows(idx, &keys, false);
    let mut out: Vec<String> = Vec::new();
    let mut k: usize = 0;
    while k < order.len()
        invariant
            k <= order@.len(),
            order@.len() == v@.len(),
            keys@.len() == v@.len(),
            forall|j: int| 0 <= j < v@.len() ==> ((#[trigger] keys@[j]) matches SortKey::Text(t) && t@ == v@[j]@),
            forall|x: usize| #[trigger] order@.contains(x) <==> (x < v@.len()),
            out@.len() == k,
            forall|j: int| 0 <= j < k ==> #[trigger] out@[j] == v@[order@[j] as int],
        decreases order@.len() - k,
    {
        assert(order@.contains(order@[k as int]));
        out.push(v[order[k]].clone());
        k += 1;
    }
    proof {
        assert forall|s: String| #[trigger] out@.contains(s) <==> v@.contains(s) by {
            if out@.contains(s) {
                let j = choose|j: int| 0 <= j < out@.len() && out@[j] == s;
                assert(order@.contains(order@[j]));
                assert(v@[order@[j] as int] == s);
            }
            if v@.contains(s) {
                let j = choose|j: int| 0 <= j < v@.len() && v@[j] == s;
                assert(order@.contains(j as usize));
                let p = choose|p: int| 0 <= p < order@.len() && order@[p] == j as usize;
                assert(out@[p] == s);
            }
        }
        assert forall|a: int, b: int| 0 <= a < b < out@.len() implies lex_sign((#[trigger] out@[a])@, (#[trigger] out@[b])@) <= 0 by {
            assert(crate::order::before(keys@, false, order@[a] as int, order@[b] as int));
            assert(order@.contains(order@[a]));
            assert(order@.contains(order@[b]));
            assert(keys@[order@[a] as int] matches SortKey::Text(t) && t@ == v@[order@[a] as int]@);
            assert(keys@[order@[b] as int] matches SortKey::Text(t) && t@ == v@[order@[b] as int]@);
        }
    }
    out
}

fn clone_pref(p: &Option<SortPref>) -> (r: Option<SortPref>)
    ensures
        r == *p,
{
    match p {
        Some(q) => Some(SortPref { key: q.key.clone(), desc: q.desc }),
        None => None,
    }
}

/// The current state of a section as a view named `name`: the PR filter (pull requests
/// only), the quick filter, the sort, and the hidden states (work items only, sorted).
pub fn snapshot_view(
    section: usize,
    name: String,
    pr_filter: PullRequestFilter,
    query: &String,
    sort: &Option<SortPref>,
    hidden_states: &Vec<String>,
) -> (v: SavedView)
    ensures
        v.name == name,
        section == 0 ==> (v.filter matches Some(f) && f@ == pr_filter_text(pr_filter)),
        section != 0 ==> v.filter is None,
        v.query == *query,
        v.sort == *sort,
        section == 1 ==> ({
            &&& v.hidden_states@.len() == hidden_states@.len()
            &&& forall|s: String| #[trigger] v.hidden_states@.contains(s) <==> hidden_states@.contains(s)
            &&& ascending(v.hidden_states@)
        }),
        section != 1 ==> v.hidden_states@.len() == 0,
{
    let hidden = if section == 1 {
        sorted_strings(hidden_states)
    } else {
        Vec::new()
    };
    let filter = if section == 0 {
        Some(pr_filter_key(pr_filter).to_owned())
    } else {
        None
    };
    SavedView { name, filter, query: query.clone(), sort: clone_pref(sort), hidden_states: hidden }
}

/// What applying a view sets in its section.
pub struct ViewSettings {
    /// The quick filter.
    pub query: String,
    /// The sort.
    pub sort: Option<SortPref>,
    /// The hidden states (work items only).
    pub hidden_states: Option<Vec<String>>,
    /// The PR filter (pull requests only).
    pub pr_filter: Option<PullRequestFilter>,
}

/// The PR filter a view names, read as `parse_pr_filter` reads it.
pub open spec fn view_filter(v: SavedView) -> PullRequestFilter {
    parse_pr_filter_spec(
        match v.filter {
            Some(f) => Some(f@),
            None => None,
        },
    )
}

/// What applying `view` in `section` sets: its quick filter and sort, its hidden states in
/// the work-item section, and its PR filter in the pull-request section.
pub fn view_settings(section: usize, view: &SavedView) -> (r: ViewSettings)
    ensures
        r.query == view.query,
        r.sort == view.sort,
        section == 1 ==> (r.hidden_states matches Some(h) && h@ == view.hidden_states@),
        section != 1 ==> r.hidden_states is None,
        section == 0 ==> r.pr_filter == Some(view_filter(*view)),
        section != 0 ==> r.pr_filter is None,
{
    let hidden_states = if section == 1 {
        let mut h: Vec<String> = Vec::new();
        let mut i: usize = 0;
        while i < view.hidden_states.len()
            invariant
                i <= view.hidden_states@.len(),
                h@ == view.hidden_states@.take(i as int),
            decreases view.hidden_states@.len() - i,
        {
            h.push(view.hidden_states[i].clone());
            assert(view.hidden_states@.take(i + 1) == view.hidden_states@.take(i as int).push(view.hidden_states@[i as int]));
            i += 1;
        }
        assert(view.hidden_states@.take(i as int) == view.hidden_states@);
        Some(h)
    } else {
        None
    };
    let pr_filter = if section == 0 {
        Some(
            parse_pr_filter(
                match &view.filter {
                    Some(f) => Some(f.as_str()),
                    None => None,
                },
            ),
        )
    } else {
        None
    };
    ViewSettings { query: view.query.clone(), sort: clone_pref(&view.sort), hidden_states, pr_filter }
}

/// A saved pull-request view gives back its filter: the key `snapshot_view` writes for a
/// filter is read back by `view_settings` as that same filter.
pub proof fn lemma_saved_view_round_trip(v: SavedView, pr_filter: PullRequestFilter)
    requires
        v.filter matches Some(f) && f@ == pr_filter_text(pr_filter),
    ensures
        view_filter(v) == pr_filter,
{
    lemma_pr_filter_round_trip(pr_filter);
}

} // verus!
