//! The three list sections and what is kept per section: tab positions, cache keys, the
//! rule for taking a fetched section, saved views, sort columns and pipeline queries.
use vstd::prelude::*;

use crate::lists::{pr_filter_text, PullRequestFilter};
use crate::order::SortPref;
use crate::pipes::or_empty;
use crate::text::{chars_of, push_char, push_str, str_eq};

verus! {

/// A top-level list section.
#[derive(Debug, Clone, Copy, PartialEq, Eq, Structural)]
pub enum Section {
    PullRequests,
    WorkItems,
    Pipelines,
}

pub open spec fn section_of_spec(index: int) -> Section {
    if index == 0 {
        Section::PullRequests
    } else if index == 1 {
        Section::WorkItems
    } else {
        Section::Pipelines
    }
}

pub open spec fn index_of_spec(section: Section) -> int {
    match section {
        Section::PullRequests => 0,
        Section::WorkItems => 1,
        Section::Pipelines => 2,
    }
}

/// The section behind each tab position (0 = Pull Requests, 1 = Work Items, 2 and on =
/// Pipelines).
pub fn section_of(index: usize) -> (r: Section)
    ensures
        r == section_of_spec(index as int),
{
    match index {
        0 => Section::PullRequests,
        1 => Section::WorkItems,
        _ => Section::Pipelines,
    }
}

/// The tab position of a section.
pub fn index_of(section: Section) -> (r: usize)
    ensures
        r == index_of_spec(section),
{
    match section {
        Section::PullRequests => 0,
        Section::WorkItems => 1,
        Section::Pipelines => 2,
    }
}

/// A section's tab leads back to the section, and each of the three tabs to its own.
pub proof fn lemma_section_index_round_trip(s: Section, i: int)
    ensures
        section_of_spec(index_of_spec(s)) == s,
        0 <= i < 3 ==> index_of_spec(section_of_spec(i)) == i,
{
}

/// What a section shows after a fetch: the incoming rows, unless the fetch failed and
/// brought nothing (an outage must not erase the rows on screen). A section that answered
/// is always taken, an authoritative empty included.
pub open spec fn taken<T>(field: Seq<T>, incoming: Seq<T>, ok: bool) -> Seq<T> {
    if ok || incoming.len() > 0 {
        incoming
    } else {
        field
    }
}

pub fn take_section<T>(field: &mut Vec<T>, incoming: Vec<T>, ok: bool)
    ensures
        final(field)@ == taken(old(field)@, incoming@, ok),
{
    if ok || incoming.len() > 0 {
        *field = incoming;
    }
}

/// The same rule for an inline reload, which counts as answered when it added no error to
/// `errors` (which held `errors_before` entries when it started).
pub fn take_inline_section<T>(field: &mut Vec<T>, incoming: Vec<T>, errors: &Vec<String>, errors_before: usize)
    ensures
        final(field)@ == taken(old(field)@, incoming@, errors@.len() == errors_before),
{
    take_section(field, incoming, errors.len() == errors_before);
}

/// Per-section "every feed I consulted answered" flags for one reload.
#[derive(Clone, Copy)]
pub struct SectionsOk {
    pub prs: bool,
    pub wis: bool,
    pub pipes: bool,
    pub inbox: bool,
    pub lp_mine: bool,
    pub lp_review: bool,
}

impl SectionsOk {
    /// True only when every section came back whole.
    pub fn all(&self) -> (r: bool)
        ensures
            r == (self.prs && self.wis && self.pipes && self.inbox && self.lp_mine && self.lp_review),
    {
        self.prs && self.wis && self.pipes && self.inbox && self.lp_mine && self.lp_review
    }
}

// ---------------------------------------------------------------------------
// Cache keys
// ---------------------------------------------------------------------------

/// Where an item lives: its repository (when it is repository-addressed) and its id.
pub struct ItemRef {
    pub id: String,
    pub repo: Option<String>,
}

impl ItemRef {
    /// An item of repository `repo`.
    pub fn in_repo(repo: &str, id: &str) -> (r: ItemRef)
        ensures
            r.id@ == id@,
            r.repo matches Some(x) && x@ == repo@,
    {
        ItemRef { id: id.to_owned(), repo: Some(repo.to_owned()) }
    }
}

/// `detail.<kind>.<connection>.<repository or ->.<id>`: a connection reaches every
/// repository it can see, so the repository is part of the key.
pub open spec fn detail_key(kind: Seq<char>, conn_id: Seq<char>, item: ItemRef) -> Seq<char> {
    "detail."@ + kind + seq!['.'] + conn_id + seq!['.'] + (match item.repo {
        Some(r) => r@,
        None => seq!['-'],
    }) + seq!['.'] + item.id@
}

fn detail_cache_key(kind: &str, conn_id: &str, item: &ItemRef) -> (r: String)
    ensures
        r@ == detail_key(kind@, conn_id@, *item),
{
    let mut out = String::new();
    push_str(&mut out, "detail.");
    push_str(&mut out, kind);
    push_char(&mut out, '.');
    push_str(&mut out, conn_id);
    push_char(&mut out, '.');
    match &item.repo {
        Some(r) => push_str(&mut out, r.as_str()),
        None => push_char(&mut out, '-'),
    }
    push_char(&mut out, '.');
    push_str(&mut out, item.id.as_str());
    out
}

pub fn pr_detail_cache_key(conn_id: &str, item: &ItemRef) -> (r: String)
    ensures
        r@ == detail_key("pr"@, conn_id@, *item),
{
    detail_cache_key("pr", conn_id, item)
}

pub fn wi_detail_cache_key(conn_id: &str, item: &ItemRef) -> (r: String)
    ensures
        r@ == detail_key("wi"@, conn_id@, *item),
{
    detail_cache_key("wi", conn_id, item)
}

pub fn pipeline_detail_cache_key(conn_id: &str, run: &ItemRef) -> (r: String)
    ensures
        r@ == detail_key("pipeline"@, conn_id@, *run),
{
    detail_cache_key("pipeline", conn_id, run)
}

/// The text of `base` before its first `#` (all of it when it has none).
pub open spec fn before_hash(base: Seq<char>) -> Seq<char>
    decreases base.len(),
{
    if base.len() == 0 {
        seq![]
    } else if base[0] == '#' {
        seq![]
    } else {
        seq![base[0]] + before_hash(base.drop_first())
    }
}

/// Builds a dashboard target without keeping a stale fragment of a previous route.
pub fn dashboard_target(base: &str, hash: &str) -> (r: String)
    ensures
        r@ == before_hash(base@) + hash@,
{
    let v = chars_of(base);
    let mut out = String::new();
    let mut i: usize = 0;
    assert(base@.skip(0) =~= base@);
    assert(out@ + before_hash(base@) =~= before_hash(base@));
    while i < v.len() && v[i] != '#'
        invariant
            v@ == base@,
            i <= v@.len(),
            forall|j: int| 0 <= j < i ==> v@[j] != '#',
            out@ + before_hash(base@.skip(i as int)) == before_hash(base@),
        decreases v@.len() - i,
    {
        assert(base@.skip(i as int).drop_first() =~= base@.skip(i + 1));
        assert(base@.skip(i as int)[0] == v@[i as int]);
        push_char(&mut out, v[i]);
        i += 1;
        assert(out@ + before_hash(base@.skip(i as int)) =~= before_hash(base@));
    }
    assert(before_hash(base@.skip(i as int)) =~= seq![]) by {
        if i < v.len() {
            assert(base@.skip(i as int)[0] == '#');
        }
    }
    assert(out@ =~= before_hash(base@));
    push_str(&mut out, hash);
    out
}

// ---------------------------------------------------------------------------
// Saved views, sort columns, pipeline queries
// ---------------------------------------------------------------------------

/// A named combination of filter, quick filter, sort and hidden states for a section.
pub struct SavedView {
    pub name: String,
    pub filter: Option<String>,
    pub query: String,
    pub sort: Option<SortPref>,
    pub hidden_states: Vec<String>,
}

/// A built-in view: its name and filter, with nothing else set.
pub open spec fn plain_view(v: SavedView, name: Seq<char>, filter: Option<Seq<char>>) -> bool {
    &&& v.name@ == name
    &&& match (v.filter, filter) {
        (Some(a), Some(b)) => a@ == b,
        (None, None) => true,
        _ => false,
    }
    &&& v.query@ == Seq::<char>::empty()
    &&& v.sort is None
    &&& v.hidden_states@.len() == 0
}

fn view(name: &str, filter: Option<&str>) -> (v: SavedView)
    ensures
        plain_view(v, name@, match filter {
            Some(f) => Some(f@),
            None => None,
        }),
{
    SavedView {
        name: name.to_owned(),
        filter: match filter {
            Some(f) => Some(f.to_owned()),
            None => None,
        },
        query: String::new(),
        sort: None,
        hidden_states: Vec::new(),
    }
}

/// The built-in views seeded for a section that has none saved: All / Mine / Review for
/// pull requests (filtered by their persisted keys), a single All elsewhere.
pub fn default_views(section: usize) -> (r: Vec<SavedView>)
    ensures
        section == 0 ==> r@.len() == 3 && plain_view(r@[0], "All"@, Some("all"@)) && plain_view(
            r@[1],
            "Mine"@,
            Some("mine"@),
        ) && plain_view(r@[2], "Review"@, Some("review"@)),
        section != 0 ==> r@.len() == 1 && plain_view(r@[0], "All"@, None),
{
    let mut out: Vec<SavedView> = Vec::new();
    if section == 0 {
        out.push(view("All", Some("all")));
        out.push(view("Mine", Some("mine")));
        out.push(view("Review", Some("review")));
    } else {
        out.push(view("All", None));
    }
    out
}

/// One sortable column: a stable `key` (persisted) and a display `label`.
pub struct SortCol {
    pub key: &'static str,
    pub label: &'static str,
}

/// The (key, label) pairs of the sortable columns of a section.
pub open spec fn sort_cols_spec(section: int) -> Seq<(Seq<char>, Seq<char>)> {
    if section == 0 {
        seq![("updated"@, "Updated"@), ("number"@, "Number"@), ("title"@, "Title"@), ("author"@, "Author"@), ("checks"@, "Checks"@), ("status"@, "Status"@)]
    } else if section == 1 {
        seq![("updated"@, "Updated"@), ("state"@, "State"@), ("title"@, "Title"@), ("type"@, "Type"@), ("assignee"@, "Assignee"@)]
    } else {
        seq![("started"@, "Started"@), ("status"@, "Status"@), ("pipeline"@, "Pipeline"@), ("repository"@, "Repository"@), ("provider"@, "Provider"@), ("branch"@, "Branch"@)]
    }
}

pub open spec fn col_views(cols: Seq<SortCol>) -> Seq<(Seq<char>, Seq<char>)> {
    cols.map_values(|c: SortCol| (c.key@, c.label@))
}

/// The sortable columns for a section (0 = PRs, 1 = work items, otherwise pipelines).
pub fn sort_cols(section: usize) -> (r: Vec<SortCol>)
    ensures
        col_views(r@) == sort_cols_spec(section as int),
{
    let mut v: Vec<SortCol> = Vec::new();
    if section == 0 {
        v.push(SortCol { key: "updated", label: "Updated" });
        v.push(SortCol { key: "number", label: "Number" });
        v.push(SortCol { key: "title", label: "Title" });
        v.push(SortCol { key: "author", label: "Author" });
        v.push(SortCol { key: "checks", label: "Checks" });
        v.push(SortCol { key: "status", label: "Status" });
    } else if section == 1 {
        v.push(SortCol { key: "updated", label: "Updated" });
        v.push(SortCol { key: "state", label: "State" });
        v.push(SortCol { key: "title", label: "Title" });
        v.push(SortCol { key: "type", label: "Type" });
        v.push(SortCol { key: "assignee", label: "Assignee" });
    } else {
        v.push(SortCol { key: "started", label: "Started" });
        v.push(SortCol { key: "status", label: "Status" });
        v.push(SortCol { key: "pipeline", label: "Pipeline" });
        v.push(SortCol { key: "repository", label: "Repository" });
        v.push(SortCol { key: "provider", label: "Provider" });
        v.push(SortCol { key: "branch", label: "Branch" });
    }
    assert(col_views(v@) =~= sort_cols_spec(section as int));
    v
}

pub open spec fn default_desc_spec(key: Seq<char>) -> bool {
    key == "updated"@ || key == "created"@ || key == "number"@ || key == "started"@ || key == "checks"@
        || key == "status"@
}

/// The direction a column starts in when first picked: newest / highest first for time,
/// number, checks and status; A→Z for text.
pub fn default_desc(key: &str) -> (r: bool)
    ensures
        r == default_desc_spec(key@),
{
    str_eq(key, "updated") || str_eq(key, "created") || str_eq(key, "number") || str_eq(key, "started")
        || str_eq(key, "checks") || str_eq(key, "status")
}

/// The sort a pick of column `index` leaves in `section`, given the `current` one (its
/// key and direction): the same column again flips the direction, another column starts
/// in its default direction. `None` for an index past the columns.
pub open spec fn picked_sort(section: int, index: int, current: Option<(Seq<char>, bool)>) -> Option<
    (Seq<char>, bool),
> {
    let cols = sort_cols_spec(section);
    if 0 <= index < cols.len() {
        let key = cols[index].0;
        Some(
            (
                key,
                match current {
                    Some(c) => if c.0 == key {
                        !c.1
                    } else {
                        default_desc_spec(key)
                    },
                    None => default_desc_spec(key),
                },
            ),
        )
    } else {
        None
    }
}

/// A sort preference as its key and direction.
pub open spec fn pref_view(p: Option<SortPref>) -> Option<(Seq<char>, bool)> {
    match p {
        Some(s) => Some((s.key@, s.desc)),
        None => None,
    }
}

/// Applies a chosen sort column: the same column toggles direction, a new column starts at
/// its sensible default direction.
pub fn pick_sort(section: usize, index: usize, current: &Option<SortPref>) -> (r: Option<SortPref>)
    ensures
        pref_view(r) == picked_sort(section as int, index as int, pref_view(*current)),
{
    let cols = sort_cols(section);
    if index >= cols.len() {
        return None;
    }
    let key = cols[index].key;
    assert(col_views(cols@)[index as int] == (cols@[index as int].key@, cols@[index as int].label@));
    let desc = match current {
        Some(s) => if str_eq(s.key.as_str(), key) {
            !s.desc
        } else {
            default_desc(key)
        },
        None => default_desc(key),
    };
    Some(SortPref { key: key.to_owned(), desc })
}

/// The status line after a sort is picked: the column and an arrow for the direction.
pub open spec fn sort_toast_text(label: Seq<char>, desc: bool) -> Seq<char> {
    "Sorted by "@ + label + " "@ + if desc {
        "\u{2193}"@
    } else {
        "\u{2191}"@
    }
}

/// "Sorted by Updated ↓".
pub fn sort_toast(label: &str, desc: bool) -> (r: String)
    ensures
        r@ == sort_toast_text(label@, desc),
{
    let mut out = String::new();
    push_str(&mut out, "Sorted by ");
    push_str(&mut out, label);
    push_str(&mut out, " ");
    push_str(&mut out, if desc {
        "\u{2193}"
    } else {
        "\u{2191}"
    });
    proof {
        reveal_strlit("Sorted by ");
        reveal_strlit(" ");
        reveal_strlit("\u{2193}");
        reveal_strlit("\u{2191}");
    }
    assert(out@ =~= sort_toast_text(label@, desc));
    out
}

/// The first column at or after `i` whose key is `key` (`-1` when none is).
pub open spec fn first_col(cols: Seq<(Seq<char>, Seq<char>)>, key: Seq<char>, i: int) -> int
    decreases cols.len() - i,
{
    if i < 0 || i >= cols.len() {
        -1
    } else if cols[i].0 == key {
        i
    } else {
        first_col(cols, key, i + 1)
    }
}

/// Where the sort picker opens: on the current sort's column, else on the first.
pub open spec fn picker_row(cols: Seq<(Seq<char>, Seq<char>)>, current: Option<(Seq<char>, bool)>) -> int {
    match current {
        Some(c) => if first_col(cols, c.0, 0) >= 0 {
            first_col(cols, c.0, 0)
        } else {
            0
        },
        None => 0,
    }
}

/// The row the sort picker opens on for `section`.
pub fn sort_picker_selected(section: usize, current: &Option<SortPref>) -> (r: usize)
    ensures
        r == picker_row(sort_cols_spec(section as int), pref_view(*current)),
{
    let cols = sort_cols(section);
    let ghost cv = col_views(cols@);
    match current {
        Some(s) => {
            let mut i: usize = 0;
            while i < cols.len()
                invariant
                    cv == col_views(cols@),
                    cv == sort_cols_spec(section as int),
                    cv.len() == cols@.len(),
                    i <= cols@.len(),
                    first_col(cv, s.key@, 0) == first_col(cv, s.key@, i as int),
                    pref_view(*current) == Some((s.key@, s.desc)),
                decreases cols@.len() - i,
            {
                assert(cv[i as int] == (cols@[i as int].key@, cols@[i as int].label@));
                if str_eq(cols[i].key, s.key.as_str()) {
                    assert(cv[i as int].0 == s.key@);
                    return i;
                }
                i += 1;
            }
            0
        },
        None => 0,
    }
}

/// Which pipelines a connection follows: every one it can discover, or the listed
/// definitions.
pub struct PipelineSubscription {
    pub auto_discover_all: bool,
    pub definition_ids: Vec<String>,
}

/// A pipeline definition discovery found.
pub struct PipelineDefinition {
    pub id: String,
    pub name: String,
    pub repository: Option<String>,
}

/// One list-runs request.
pub struct PipelineRunQuery {
    pub definition_id: Option<String>,
    pub repository: Option<String>,
    pub branch: Option<String>,
    pub limit: Option<usize>,
}

/// The repository discovery places definition `id` in (the first definition with that id).
pub open spec fn repo_of(defs: Seq<PipelineDefinition>, id: Seq<char>) -> Option<String>
    decreases defs.len(),
{
    if defs.len() == 0 {
        None
    } else if defs[0].id@ == id {
        defs[0].repository
    } else {
        repo_of(defs.drop_first(), id)
    }
}

fn repo_of_exec(defs: &[PipelineDefinition], id: &String) -> (r: Option<String>)
    ensures
        r == repo_of(defs@, id@),
{
    let mut i: usize = 0;
    assert(defs@.skip(0) =~= defs@);
    while i < defs.len()
        invariant
            i <= defs@.len(),
            repo_of(defs@, id@) == repo_of(defs@.skip(i as int), id@),
        decreases defs@.len() - i,
    {
        assert(defs@.skip(i as int).drop_first() =~= defs@.skip(i + 1));
        assert(defs@.skip(i as int)[0] == defs@[i as int]);
        if defs[i].id == *id {
            return match &defs[i].repository {
                Some(r) => Some(r.clone()),
                None => None,
            };
        }
        i += 1;
    }
    None
}

/// One query per subscribed definition, addressed at the repository discovery says it
/// belongs to (a definition id is only unique within its repository), or a single
/// catch-all when auto-discovering.
pub fn feed_queries(sub: &PipelineSubscription, defs: &[PipelineDefinition]) -> (r: Vec<PipelineRunQuery>)
    ensures
        (sub.auto_discover_all || sub.definition_ids@.len() == 0) ==> r@.len() == 1 && r@[0].definition_id
            is None && r@[0].repository is None && r@[0].branch is None && r@[0].limit == Some(20usize),
        !(sub.auto_discover_all || sub.definition_ids@.len() == 0) ==> r@.len() == sub.definition_ids@.len()
            && forall|i: int|
            0 <= i < r@.len() ==> {
                &&& (#[trigger] r@[i]).definition_id == Some(sub.definition_ids@[i])
                &&& r@[i].repository == repo_of(defs@, sub.definition_ids@[i]@)
                &&& r@[i].branch is None
                &&& r@[i].limit == Some(10usize)
            },
{
    let mut out: Vec<PipelineRunQuery> = Vec::new();
    if sub.auto_discover_all || sub.definition_ids.len() == 0 {
        out.push(PipelineRunQuery { definition_id: None, repository: None, branch: None, limit: Some(20) });
        return out;
    }
    let mut i: usize = 0;
    while i < sub.definition_ids.len()
        invariant
            i <= sub.definition_ids@.len(),
            out@.len() == i,
            forall|j: int|
                0 <= j < i ==> {
                    &&& (#[trigger] out@[j]).definition_id == Some(sub.definition_ids@[j])
                    &&& out@[j].repository == repo_of(defs@, sub.definition_ids@[j]@)
                    &&& out@[j].branch is None
                    &&& out@[j].limit == Some(10usize)
                },
        decreases sub.definition_ids@.len() - i,
    {
        let id = &sub.definition_ids[i];
        out.push(PipelineRunQuery {
            repository: repo_of_exec(defs, id),
            definition_id: Some(id.clone()),
            branch: None,
            limit: Some(10),
        });
        i += 1;
    }
    out
}

} // verus!
