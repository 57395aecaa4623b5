//! A section's repository scope, as the section header reads it.
use vstd::prelude::*;

use crate::notify::ToggleItem;
use crate::text::{dec_nat, push_str, push_u64};

verus! {

/// A section's repository scope, as the header indicator and empty state read it.
pub struct ScopeSummary {
    /// The repo-addressed connections feeding this section.
    pub connections: Vec<String>,
    /// How many repositories are currently fetched from.
    pub selected: usize,
    /// How many the credentials can reach, once discovery has run. `None` until then, so
    /// the indicator never invents a denominator.
    pub available: Option<usize>,
    /// Discovery hit its page ceiling: the total reads "37+", never a cap dressed as a
    /// total.
    pub truncated: bool,
    /// Every connection explicitly chose no repositories. Distinct from "nothing to show".
    pub none_selected: bool,
}

/// The header text of a scope: "Repos · 5 of 37", with a `+` on a truncated total, or
/// "Repos · 5" before discovery has run.
pub open spec fn scope_label(s: ScopeSummary) -> Seq<char> {
    "Repos \u{b7} "@ + dec_nat(s.selected as nat) + match s.available {
        Some(n) => " of "@ + dec_nat(n as nat) + if s.truncated {
            "+"@
        } else {
            ""@
        },
        None => ""@,
    }
}

impl ScopeSummary {
    /// "Repos · 5 of 37" for the section header. Truncation is marked, never silent.
    pub fn label(&self) -> (r: String)
        ensures
            r@ == scope_label(*self),
    {
        let mut out = String::new();
        push_str(&mut out, "Repos \u{b7} ");
        push_u64(&mut out, self.selected as u64);
        match self.available {
            Some(n) => {
                push_str(&mut out, " of ");
                push_u64(&mut out, n as u64);
                if self.truncated {
                    push_str(&mut out, "+");
                }
            },
            None => {},
        }
        proof {
            reveal_strlit("Repos \u{b7} ");
            reveal_strlit(" of ");
            reveal_strlit("+");
            reveal_strlit("");
        }
        assert(out@ =~= scope_label(*self));
        out
    }
}

/// What the scope indicator reads of one connection bound to a section.
pub struct ScopeConn {
    pub id: String,
    /// Whether its provider addresses repositories at all.
    pub repo_addressed: bool,
    /// The repositories chosen for it; `None` when never chosen.
    pub repo_scope: Option<Vec<String>>,
    /// Whether it names a single repository of its own.
    pub has_repository: bool,
    /// What discovery found, once it ran: how many repositories, and whether it stopped at
    /// its page ceiling.
    pub catalog: Option<(usize, bool)>,
}

/// How many repositories `c` fetches from: its chosen ones, else its own one, if any.
pub open spec fn conn_selected(c: ScopeConn) -> int {
    match c.repo_scope {
        Some(v) => v.len() as int,
        None => if c.has_repository {
            1
        } else {
            0
        },
    }
}

/// The ids of the repo-addressed connections among the first `n`.
pub open spec fn scoped_ids(conns: Seq<ScopeConn>, n: int) -> Seq<Seq<char>>
    decreases n,
{
    if n <= 0 {
        seq![]
    } else {
        scoped_ids(conns, n - 1) + if conns[n - 1].repo_addressed {
            seq![conns[n - 1].id@]
        } else {
            seq![]
        }
    }
}

/// How many repositories the repo-addressed connections among the first `n` fetch from.
pub open spec fn selected_total(conns: Seq<ScopeConn>, n: int) -> int
    decreases n,
{
    if n <= 0 {
        0
    } else {
        selected_total(conns, n - 1) + if conns[n - 1].repo_addressed {
            conn_selected(conns[n - 1])
        } else {
            0
        }
    }
}

/// How many repositories discovery found for the repo-addressed connections among the
/// first `n`.
pub open spec fn available_total(conns: Seq<ScopeConn>, n: int) -> int
    decreases n,
{
    if n <= 0 {
        0
    } else {
        available_total(conns, n - 1) + match (conns[n - 1].repo_addressed, conns[n - 1].catalog) {
            (true, Some(p)) => p.0 as int,
            _ => 0,
        }
    }
}

/// Whether discovery for `c` stopped at its page ceiling.
pub open spec fn page_truncated(c: ScopeConn) -> bool {
    match c.catalog {
        Some(p) => p.1,
        None => false,
    }
}

/// Whether `c` explicitly chose no repositories.
pub open spec fn chose_none(c: ScopeConn) -> bool {
    match c.repo_scope {
        Some(v) => v.len() == 0,
        None => false,
    }
}

/// Whether discovery ran for any repo-addressed connection.
pub open spec fn any_page(conns: Seq<ScopeConn>) -> bool {
    exists|i: int| 0 <= i < conns.len() && #[trigger] conns[i].repo_addressed && conns[i].catalog is Some
}

/// Whether discovery stopped at its ceiling for any repo-addressed connection.
pub open spec fn any_truncated(conns: Seq<ScopeConn>) -> bool {
    exists|i: int|
        0 <= i < conns.len() && #[trigger] conns[i].repo_addressed && page_truncated(conns[i])
}

/// Whether every repo-addressed connection chose no repositories at all.
pub open spec fn all_chose_none(conns: Seq<ScopeConn>) -> bool {
    forall|i: int|
        0 <= i < conns.len() && #[trigger] conns[i].repo_addressed ==> chose_none(conns[i])
}

/// The header's scope for a section fed by `conns`: `None` when no repo-addressed
/// connection feeds it, or when nothing is chosen, nothing is discoverable and no
/// connection chose to fetch nothing (nothing to scope).
pub fn scope_summary(conns: &Vec<ScopeConn>) -> (r: Option<ScopeSummary>)
    requires
        selected_total(conns@, conns@.len() as int) <= usize::MAX,
        available_total(conns@, conns@.len() as int) <= usize::MAX,
    ensures
        ({
            let n = conns@.len() as int;
            let ids = scoped_ids(conns@, n);
            let sel = selected_total(conns@, n);
            let avail = available_total(conns@, n);
            if ids.len() == 0 || (sel == 0 && avail == 0 && !all_chose_none(conns@)) {
                r is None
            } else {
                r matches Some(s) && {
                    &&& s.connections@.len() == ids.len()
                    &&& forall|k: int| 0 <= k < ids.len() ==> (#[trigger] s.connections@[k])@ == ids[k]
                    &&& s.selected == sel
                    &&& s.available == (if any_page(conns@) {
                        Some(avail as usize)
                    } else {
                        None
                    })
                    &&& s.truncated == any_truncated(conns@)
                    &&& s.none_selected == all_chose_none(conns@)
                }
            }
        }),
{
    let mut ids: Vec<String> = Vec::new();
    let mut selected: usize = 0;
    let mut available: usize = 0;
    let mut pages = false;
    let mut truncated = false;
    let mut none_selected = true;
    let mut i: usize = 0;
    while i < conns.len()
        invariant
            i <= conns@.len(),
            selected_total(conns@, conns@.len() as int) <= usize::MAX,
            available_total(conns@, conns@.len() as int) <= usize::MAX,
            ids@.len() == scoped_ids(conns@, i as int).len(),
            forall|k: int| 0 <= k < ids@.len() ==> (#[trigger] ids@[k])@ == scoped_ids(conns@, i as int)[k],
            selected == selected_total(conns@, i as int),
            available == available_total(conns@, i as int),
            pages == any_page(conns@.take(i as int)),
            truncated == any_truncated(conns@.take(i as int)),
            none_selected == all_chose_none(conns@.take(i as int)),
        decreases conns@.len() - i,
    {
        proof {
            lemma_totals_grow(conns@, i as int + 1, conns@.len() as int);
        }
        let ghost t0 = conns@.take(i as int);
        let ghost t1 = conns@.take(i + 1);
        assert(t1.drop_last() == t0);
        let c = &conns[i];
        if c.repo_addressed {
            ids.push(c.id.clone());
            let n: usize = match &c.repo_scope {
                Some(v) => v.len(),
                None => if c.has_repository {
                    1
                } else {
                    0
                },
            };
            selected = selected + n;
            match c.catalog {
                Some(p) => {
                    available = available + p.0;
                    pages = true;
                    if p.1 {
                        truncated = true;
                    }
                },
                None => {},
            }
            let none_here = match &c.repo_scope {
                Some(v) => v.len() == 0,
                None => false,
            };
            none_selected = none_selected && none_here;
        }
        proof {
            assert(t1[i as int] == conns@[i as int]);
            assert forall|k: int| 0 <= k < i implies #[trigger] t1[k] == t0[k] by {}
            if pages == any_page(t1) {
            } else {
                if any_page(t1) {
                    let w = choose|w: int| 0 <= w < t1.len() && #[trigger] t1[w].repo_addressed && t1[w].catalog is Some;
                    if w < i {
                        assert(t0[w] == t1[w]);
                    }
                } else {
                    if any_page(t0) {
                        let w = choose|w: int| 0 <= w < t0.len() && #[trigger] t0[w].repo_addressed && t0[w].catalog is Some;
                        assert(t1[w] == t0[w]);
                    }
                }
            }
            if truncated != any_truncated(t1) {
                if any_truncated(t1) {
                    let w = choose|w: int|
                        0 <= w < t1.len() && #[trigger] t1[w].repo_addressed && page_truncated(t1[w]);
                    if w < i {
                        assert(t0[w] == t1[w]);
                    }
                } else {
                    if any_truncated(t0) {
                        let w = choose|w: int|
                            0 <= w < t0.len() && #[trigger] t0[w].repo_addressed && page_truncated(t0[w]);
                        assert(t1[w] == t0[w]);
                    }
                }
            }
            if none_selected != all_chose_none(t1) {
                if none_selected {
                    assert forall|w: int| 0 <= w < t1.len() && #[trigger] t1[w].repo_addressed implies chose_none(t1[w]) by {
                        if w < i {
                            assert(t0[w] == t1[w]);
                        }
                    }
                } else {
                    if all_chose_none(t1) {
                        assert forall|w: int| 0 <= w < t0.len() && #[trigger] t0[w].repo_addressed implies chose_none(t0[w]) by {
                            assert(t1[w] == t0[w]);
                        }
                    }
                }
            }
        }
        i += 1;
    }
    assert(conns@.take(i as int) == conns@);
    if ids.len() == 0 {
        return None;
    }
    if selected == 0 && available == 0 && !none_selected {
        return None;
    }
    Some(
        ScopeSummary {
            connections: ids,
            selected,
            available: if pages {
                Some(available)
            } else {
                None
            },
            truncated,
            none_selected,
        },
    )
}

proof fn lemma_totals_grow(conns: Seq<ScopeConn>, i: int, n: int)
    requires
        0 <= i <= n <= conns.len(),
    ensures
        0 <= selected_total(conns, i) <= selected_total(conns, n),
        0 <= available_total(conns, i) <= available_total(conns, n),
    decreases n,
{
    if n > i {
        lemma_totals_grow(conns, i, n - 1);
    } else if i > 0 {
        lemma_totals_nonneg(conns, i);
    } else {
    }
}

proof fn lemma_totals_nonneg(conns: Seq<ScopeConn>, n: int)
    ensures
        selected_total(conns, n) >= 0,
        available_total(conns, n) >= 0,
    decreases n,
{
    if n > 0 {
        lemma_totals_nonneg(conns, n - 1);
    }
}

/// The repositories a connection fetches from: its chosen ones, else its own one, if any.
pub fn chosen_repos(repo_scope: &Option<Vec<String>>, repository: &Option<String>) -> (r: Vec<String>)
    ensures
        r@ == match repo_scope {
            Some(v) => v@,
            None => match repository {
                Some(x) => seq![*x],
                None => Seq::empty(),
            },
        },
{
    match repo_scope {
        Some(v) => {
            let mut r: Vec<String> = Vec::new();
            let mut i: usize = 0;
            while i < v.len()
                invariant
                    i <= v@.len(),
                    r@ == v@.take(i as int),
                decreases v@.len() - i,
            {
                r.push(v[i].clone());
                i += 1;
                assert(r@ =~= v@.take(i as int));
            }
            assert(v@.take(i as int) =~= v@);
            r
        },
        None => match repository {
            Some(x) => {
                let mut r: Vec<String> = Vec::new();
                r.push(x.clone());
                r
            },
            None => Vec::new(),
        },
    }
}

/// Whether `v` holds a string that reads `s`.
pub open spec fn has_text(v: Seq<String>, s: Seq<char>) -> bool {
    exists|i: int| 0 <= i < v.len() && #[trigger] v[i]@ == s
}

fn has_text_exec(v: &Vec<String>, s: &String) -> (r: bool)
    ensures
        r == has_text(v@, s@),
{
    let mut i: usize = 0;
    while i < v.len()
        invariant
            i <= v@.len(),
            forall|j: int| 0 <= j < i ==> (#[trigger] v@[j])@ != s@,
        decreases v@.len() - i,
    {
        if v[i] == *s {
            return true;
        }
        i += 1;
    }
    false
}

/// The repositories the checklist lists: the chosen ones first (kept even where discovery
/// missed them), then the discovered ones not chosen, in order.
pub open spec fn listed_repos(chosen: Seq<String>, discovered: Seq<String>, n: int) -> Seq<Seq<char>>
    decreases n,
{
    if n <= 0 {
        Seq::new(chosen.len(), |i: int| chosen[i]@)
    } else {
        listed_repos(chosen, discovered, n - 1) + if has_text(chosen, discovered[n - 1]@) {
            seq![]
        } else {
            seq![discovered[n - 1]@]
        }
    }
}

/// The repository-scope checklist: every listed repository, ticked when chosen. Empty when
/// neither a choice nor discovery names any.
pub fn repo_scope_items(chosen: &Vec<String>, discovered: &Vec<String>) -> (items: Vec<ToggleItem>)
    ensures
        ({
            let l = listed_repos(chosen@, discovered@, discovered@.len() as int);
            &&& items@.len() == l.len()
            &&& forall|k: int|
                0 <= k < l.len() ==> (#[trigger] items@[k]).id@ == l[k] && items@[k].label@ == l[k]
                    && items@[k].on == has_text(chosen@, l[k])
        }),
{
    let mut items: Vec<ToggleItem> = Vec::new();
    let mut i: usize = 0;
    while i < chosen.len()
        invariant
            i <= chosen@.len(),
            items@.len() == i,
            forall|k: int|
                0 <= k < i ==> (#[trigger] items@[k]).id@ == chosen@[k]@ && items@[k].label@ == chosen@[k]@
                    && items@[k].on,
        decreases chosen@.len() - i,
    {
        items.push(ToggleItem { id: chosen[i].clone(), label: chosen[i].clone(), on: true });
        i += 1;
    }
    proof {
        assert forall|k: int| 0 <= k < items@.len() implies has_text(chosen@, items@[k].id@) by {
            assert(chosen@[k]@ == items@[k].id@);
        }
    }
    let mut j: usize = 0;
    while j < discovered.len()
        invariant
            j <= discovered@.len(),
            items@.len() == listed_repos(chosen@, discovered@, j as int).len(),
            forall|k: int|
                0 <= k < items@.len() ==> (#[trigger] items@[k]).id@ == listed_repos(chosen@, discovered@, j as int)[k]
                    && items@[k].label@ == listed_repos(chosen@, discovered@, j as int)[k]
                    && items@[k].on == has_text(chosen@, listed_repos(chosen@, discovered@, j as int)[k]),
        decreases discovered@.len() - j,
    {
        let d = &discovered[j];
        if !has_text_exec(chosen, d) {
            items.push(ToggleItem { id: d.clone(), label: d.clone(), on: false });
        }
        j += 1;
    }
    items
}

/// What applying a repository scope of `count` repositories says.
pub open spec fn repo_scope_toast_text(count: nat) -> Seq<char> {
    if count == 0 {
        "No repositories selected \u{2014} nothing will be fetched"@
    } else if count == 1 {
        "Fetching from 1 repository"@
    } else {
        "Fetching from "@ + dec_nat(count) + " repositories"@
    }
}

/// What applying a repository scope of `count` repositories says.
pub fn repo_scope_toast(count: usize) -> (r: String)
    ensures
        r@ == repo_scope_toast_text(count as nat),
{
    if count == 0 {
        "No repositories selected \u{2014} nothing will be fetched".to_owned()
    } else if count == 1 {
        "Fetching from 1 repository".to_owned()
    } else {
        let mut out = String::new();
        push_str(&mut out, "Fetching from ");
        push_u64(&mut out, count as u64);
        push_str(&mut out, " repositories");
        out
    }
}

/// A saved scope is never silently dropped: every chosen repository stays listed, in its
/// place at the top, and ticked, whatever discovery returned.
pub proof fn lemma_chosen_stay_listed(chosen: Seq<String>, discovered: Seq<String>, n: int)
    requires
        0 <= n <= discovered.len(),
    ensures
        listed_repos(chosen, discovered, n).len() >= chosen.len(),
        forall|k: int|
            0 <= k < chosen.len() ==> #[trigger] listed_repos(chosen, discovered, n)[k] == chosen[k]@
                && has_text(chosen, listed_repos(chosen, discovered, n)[k]),
    decreases n,
{
    if n > 0 {
        lemma_chosen_stay_listed(chosen, discovered, n - 1);
    }
    assert forall|k: int| 0 <= k < chosen.len() implies #[trigger] listed_repos(chosen, discovered, n)[k]
        == chosen[k]@ && has_text(chosen, listed_repos(chosen, discovered, n)[k]) by {
        if n > 0 {
            assert(listed_repos(chosen, discovered, n)[k] == listed_repos(chosen, discovered, n - 1)[k]);
        }
        assert(chosen[k]@ == listed_repos(chosen, discovered, n)[k]);
    }
}

} // verus!
