//! The Pull Requests and Work Items lists: the rows, their labels, the quick filter, the
//! sort columns, and the persisted spellings of their filters and statuses.
use vstd::prelude::*;

use crate::logs::string_views;
use crate::notify::ToggleItem;
use crate::order::{
    before, directed, int_sign, key_sign, lemma_lex_sign, lemma_rows_kept, lex_sign, num_sign,
    rows_kept, same_shape, sort_rows, time_sign, SortKey, SortPref,
};
use crate::pipes::{hash_number, lemma_ends_with, lemma_extended, or_empty, short};
use crate::text::{
    chars_of, contains, dec_nat, lowercase, push_char, push_str, push_u64, query_match, query_matches,
    str_eq, to_lowercase,
};
use crate::time::{opt_time_lt, UtcTime};

verus! {

// ---------------------------------------------------------------------------
// Rows
// ---------------------------------------------------------------------------

/// A person on a forge or tracker.
pub struct User {
    pub id: String,
    pub display_name: String,
    pub handle: Option<String>,
}

#[derive(Debug, Clone, Copy, PartialEq, Eq, Structural, Hash)]
pub enum PullRequestStatus {
    Open,
    Draft,
    Merged,
    Closed,
}

#[derive(Debug, Clone, Copy, PartialEq, Eq, Structural)]
pub enum CheckStatus {
    /// No checks reported.
    NoChecks,
    Passed,
    Pending,
    Failed,
}

/// A pull request, as the lists read it.
pub struct PullRequest {
    pub id: String,
    pub number: Option<u64>,
    pub title: String,
    pub author: User,
    pub status: PullRequestStatus,
    pub is_draft: bool,
    pub source_ref: Option<String>,
    pub labels: Vec<String>,
    pub checks: CheckStatus,
    pub updated_at: Option<UtcTime>,
    pub url: Option<String>,
}

#[derive(Debug, Clone, Copy, PartialEq, Eq, Structural)]
pub enum WorkItemStateCategory {
    Triage,
    Backlog,
    Unstarted,
    Started,
    Completed,
    Canceled,
}

/// A work item, as the lists read it.
pub struct WorkItem {
    pub id: String,
    pub identifier: Option<String>,
    pub title: String,
    pub state: String,
    pub state_category: WorkItemStateCategory,
    pub work_item_type: Option<String>,
    pub assignee: Option<User>,
    pub updated_at: Option<UtcTime>,
    pub url: Option<String>,
    /// The repository the item lives in, on a connection that spans several.
    pub repository: Option<String>,
    pub description: Option<String>,
}

/// A pull request tagged with the connection it came from.
pub struct PrRow {
    pub connection_id: String,
    pub connection: String,
    /// The provider's name, as `ProviderType::as_str` spells it.
    pub provider: String,
    pub pr: PullRequest,
}

/// A work item tagged with the connection it came from.
pub struct WiRow {
    pub connection_id: String,
    pub connection: String,
    /// The provider's name, as `ProviderType::as_str` spells it.
    pub provider: String,
    pub wi: WorkItem,
}

// ---------------------------------------------------------------------------
// Labels
// ---------------------------------------------------------------------------

/// `PR #n — title` (title cut to 40 characters; no number, no `#n `).
pub open spec fn pr_label_spec(pr: PullRequest) -> Seq<char> {
    let num = match pr.number {
        Some(n) => hash_number(n) + seq![' '],
        None => seq![],
    };
    "PR "@ + num + "\u{2014} "@ + first_chars(pr.title@, 40)
}

/// The first `n` characters of `s`.
pub open spec fn first_chars(s: Seq<char>, n: int) -> Seq<char> {
    if s.len() <= n {
        s
    } else {
        s.take(n)
    }
}

pub(crate) fn push_first_chars(out: &mut String, s: &str, n: usize)
    ensures
        final(out)@ == old(out)@ + first_chars(s@, n as int),
{
    let v = chars_of(s);
    let ghost start = out@;
    let mut i: usize = 0;
    while i < v.len() && i < n
        invariant
            v@ == s@,
            i <= v@.len(),
            i <= n,
            out@ == start + s@.take(i as int),
        decreases n - i,
    {
        push_char(out, v[i]);
        i += 1;
        assert(out@ =~= start + s@.take(i as int));
    }
    proof {
        if s@.len() <= n {
            assert(s@.take(i as int) =~= s@);
        }
    }
}

/// `PR #n — title`, for notifications.
pub fn pr_label(pr: &PullRequest) -> (r: String)
    ensures
        r@ == pr_label_spec(*pr),
{
    let mut out = String::new();
    push_str(&mut out, "PR ");
    if let Some(n) = pr.number {
        push_char(&mut out, '#');
        push_u64(&mut out, n);
        push_char(&mut out, ' ');
    }
    push_str(&mut out, "\u{2014} ");
    push_first_chars(&mut out, pr.title.as_str(), 40);
    assert(out@ =~= pr_label_spec(*pr));
    out
}

/// `KEY-1 — title` (title cut to 40 characters; no identifier, no `KEY-1 `).
pub open spec fn wi_label_spec(wi: WorkItem) -> Seq<char> {
    let id = match wi.identifier {
        Some(i) => i@ + seq![' '],
        None => seq![],
    };
    id + "\u{2014} "@ + first_chars(wi.title@, 40)
}

pub fn wi_label(wi: &WorkItem) -> (r: String)
    ensures
        r@ == wi_label_spec(*wi),
{
    let mut out = String::new();
    if let Some(i) = &wi.identifier {
        push_str(&mut out, i.as_str());
        push_char(&mut out, ' ');
    }
    push_str(&mut out, "\u{2014} ");
    push_first_chars(&mut out, wi.title.as_str(), 40);
    assert(out@ =~= wi_label_spec(*wi));
    out
}

// ---------------------------------------------------------------------------
// Quick filter
// ---------------------------------------------------------------------------

/// `labels` joined with single spaces.
pub open spec fn joined(labels: Seq<String>) -> Seq<char>
    decreases labels.len(),
{
    if labels.len() == 0 {
        seq![]
    } else if labels.len() == 1 {
        labels[0]@
    } else {
        joined(labels.drop_last()) + seq![' '] + labels.last()@
    }
}

fn push_joined(out: &mut String, labels: &Vec<String>)
    ensures
        final(out)@ == old(out)@ + joined(labels@),
{
    let ghost start = out@;
    let mut i: usize = 0;
    while i < labels.len()
        invariant
            i <= labels@.len(),
            out@ == start + joined(labels@.take(i as int)),
        decreases labels@.len() - i,
    {
        assert(labels@.take(i + 1).drop_last() =~= labels@.take(i as int));
        if i > 0 {
            push_char(out, ' ');
        }
        push_str(out, labels[i].as_str());
        i += 1;
        assert(out@ =~= start + joined(labels@.take(i as int)));
    }
    assert(labels@.take(i as int) =~= labels@);
}

/// What the quick filter searches in a PR row.
pub open spec fn pr_hay(pr: PullRequest) -> Seq<char> {
    pr.title@ + seq![' '] + pr.author.display_name@ + seq![' '] + (match pr.number {
        Some(n) => hash_number(n),
        None => seq![],
    }) + seq![' '] + or_empty(pr.source_ref) + seq![' '] + joined(pr.labels@)
}

fn push_opt(out: &mut String, o: &Option<String>)
    ensures
        final(out)@ == old(out)@ + or_empty(*o),
{
    if let Some(s) = o {
        push_str(out, s.as_str());
    } else {
        assert(old(out)@ + or_empty(*o) =~= old(out)@);
    }
}

/// Quick-filter match: every whitespace-separated token of `q` (already lowercased) must
/// occur in the row's searchable text. An empty query matches everything.
/// The quick filter searches what a pull-request row shows: the title, the author, the
/// number (as `#n`), the source branch and the labels, each a word of its own in the
/// searched text.
pub proof fn lemma_the_pr_filter_searches_every_column(pr: PullRequest)
    ensures
        contains(pr_hay(pr), pr.title@ + seq![' ']),
        contains(pr_hay(pr), seq![' '] + pr.author.display_name@ + seq![' ']),
        pr.number matches Some(n) ==> contains(pr_hay(pr), seq![' '] + hash_number(n) + seq![' ']),
        contains(pr_hay(pr), seq![' '] + or_empty(pr.source_ref) + seq![' ']),
        contains(pr_hay(pr), seq![' '] + joined(pr.labels@)),
{
    let sp = seq![' '];
    let t = pr.title@;
    let a = pr.author.display_name@;
    let n = (match pr.number {
        Some(n) => hash_number(n),
        None => seq![],
    });
    let sr = or_empty(pr.source_ref);
    let l = joined(pr.labels@);
    assert(pr_hay(pr) == t + sp + a + sp + n + sp + sr + sp + l);
    assert(contains(pr_hay(pr), t + sp)) by {
        lemma_ends_with(seq![], t + sp);
        assert(seq![] + (t + sp) =~= t + sp);
        lemma_extended(t + sp, t + sp, a);
        lemma_extended(t + sp + a, t + sp, sp);
        lemma_extended(t + sp + a + sp, t + sp, n);
        lemma_extended(t + sp + a + sp + n, t + sp, sp);
        lemma_extended(t + sp + a + sp + n + sp, t + sp, sr);
        lemma_extended(t + sp + a + sp + n + sp + sr, t + sp, sp);
        lemma_extended(t + sp + a + sp + n + sp + sr + sp, t + sp, l);
    }
    assert(contains(pr_hay(pr), sp + a + sp)) by {
        lemma_ends_with(t, sp + a + sp);
        vstd::seq_lib::lemma_concat_associative(t, sp + a, sp);
        vstd::seq_lib::lemma_concat_associative(t, sp, a);
        lemma_extended(t + sp + a + sp, sp + a + sp, n);
        lemma_extended(t + sp + a + sp + n, sp + a + sp, sp);
        lemma_extended(t + sp + a + sp + n + sp, sp + a + sp, sr);
        lemma_extended(t + sp + a + sp + n + sp + sr, sp + a + sp, sp);
        lemma_extended(t + sp + a + sp + n + sp + sr + sp, sp + a + sp, l);
    }
    assert(contains(pr_hay(pr), sp + n + sp)) by {
        lemma_ends_with(t + sp + a, sp + n + sp);
        vstd::seq_lib::lemma_concat_associative(t + sp + a, sp + n, sp);
        vstd::seq_lib::lemma_concat_associative(t + sp + a, sp, n);
        lemma_extended(t + sp + a + sp + n + sp, sp + n + sp, sr);
        lemma_extended(t + sp + a + sp + n + sp + sr, sp + n + sp, sp);
        lemma_extended(t + sp + a + sp + n + sp + sr + sp, sp + n + sp, l);
    }
    assert(contains(pr_hay(pr), sp + sr + sp)) by {
        lemma_ends_with(t + sp + a + sp + n, sp + sr + sp);
        vstd::seq_lib::lemma_concat_associative(t + sp + a + sp + n, sp + sr, sp);
        vstd::seq_lib::lemma_concat_associative(t + sp + a + sp + n, sp, sr);
        lemma_extended(t + sp + a + sp + n + sp + sr + sp, sp + sr + sp, l);
    }
    assert(contains(pr_hay(pr), sp + l)) by {
        lemma_ends_with(t + sp + a + sp + n + sp + sr, sp + l);
        vstd::seq_lib::lemma_concat_associative(t + sp + a + sp + n + sp + sr, sp, l);
    }
}

pub fn pr_matches(pr: &PullRequest, q: &str) -> (r: bool)
    ensures
        r == query_matches(pr_hay(*pr), q@),
        contains(pr_hay(*pr), pr.title@ + seq![' ']),
        contains(pr_hay(*pr), seq![' '] + pr.author.display_name@ + seq![' ']),
        pr.number matches Some(n) ==> contains(pr_hay(*pr), seq![' '] + hash_number(n) + seq![' ']),
        contains(pr_hay(*pr), seq![' '] + or_empty(pr.source_ref) + seq![' ']),
        contains(pr_hay(*pr), seq![' '] + joined(pr.labels@)),
{
    proof {
        lemma_the_pr_filter_searches_every_column(*pr);
    }
    let mut hay = pr.title.clone();
    push_char(&mut hay, ' ');
    push_str(&mut hay, pr.author.display_name.as_str());
    push_char(&mut hay, ' ');
    if let Some(n) = pr.number {
        push_char(&mut hay, '#');
        push_u64(&mut hay, n);
    }
    push_char(&mut hay, ' ');
    push_opt(&mut hay, &pr.source_ref);
    push_char(&mut hay, ' ');
    push_joined(&mut hay, &pr.labels);
    assert(hay@ =~= pr_hay(*pr));
    query_match(hay.as_str(), q)
}

/// What the quick filter searches in a work-item row.
pub open spec fn wi_hay(wi: WorkItem) -> Seq<char> {
    wi.title@ + seq![' '] + or_empty(wi.identifier) + seq![' '] + wi.state@ + seq![' '] + or_empty(
        wi.work_item_type,
    ) + seq![' '] + (match wi.assignee {
        Some(a) => a.display_name@,
        None => seq![],
    })
}

/// The quick filter searches what a work-item row shows: the title, the identifier, the
/// state, the type and the assignee, each a word of its own in the searched text.
pub proof fn lemma_the_wi_filter_searches_every_column(wi: WorkItem)
    ensures
        contains(wi_hay(wi), wi.title@ + seq![' ']),
        contains(wi_hay(wi), seq![' '] + or_empty(wi.identifier) + seq![' ']),
        contains(wi_hay(wi), seq![' '] + wi.state@ + seq![' ']),
        contains(wi_hay(wi), seq![' '] + or_empty(wi.work_item_type) + seq![' ']),
        wi.assignee matches Some(a) ==> contains(wi_hay(wi), seq![' '] + a.display_name@),
{
    let sp = seq![' '];
    let t = wi.title@;
    let i = or_empty(wi.identifier);
    let st = wi.state@;
    let ty = or_empty(wi.work_item_type);
    let a = (match wi.assignee {
        Some(a) => a.display_name@,
        None => seq![],
    });
    assert(wi_hay(wi) == t + sp + i + sp + st + sp + ty + sp + a);
    assert(contains(wi_hay(wi), t + sp)) by {
        lemma_ends_with(seq![], t + sp);
        assert(seq![] + (t + sp) =~= t + sp);
        lemma_extended(t + sp, t + sp, i);
        lemma_extended(t + sp + i, t + sp, sp);
        lemma_extended(t + sp + i + sp, t + sp, st);
        lemma_extended(t + sp + i + sp + st, t + sp, sp);
        lemma_extended(t + sp + i + sp + st + sp, t + sp, ty);
        lemma_extended(t + sp + i + sp + st + sp + ty, t + sp, sp);
        lemma_extended(t + sp + i + sp + st + sp + ty + sp, t + sp, a);
    }
    assert(contains(wi_hay(wi), sp + i + sp)) by {
        lemma_ends_with(t, sp + i + sp);
        vstd::seq_lib::lemma_concat_associative(t, sp + i, sp);
        vstd::seq_lib::lemma_concat_associative(t, sp, i);
        lemma_extended(t + sp + i + sp, sp + i + sp, st);
        lemma_extended(t + sp + i + sp + st, sp + i + sp, sp);
        lemma_extended(t + sp + i + sp + st + sp, sp + i + sp, ty);
        lemma_extended(t + sp + i + sp + st + sp + ty, sp + i + sp, sp);
        lemma_extended(t + sp + i + sp + st + sp + ty + sp, sp + i + sp, a);
    }
    assert(contains(wi_hay(wi), sp + st + sp)) by {
        lemma_ends_with(t + sp + i, sp + st + sp);
        vstd::seq_lib::lemma_concat_associative(t + sp + i, sp + st, sp);
        vstd::seq_lib::lemma_concat_associative(t + sp + i, sp, st);
        lemma_extended(t + sp + i + sp + st + sp, sp + st + sp, ty);
        lemma_extended(t + sp + i + sp + st + sp + ty, sp + st + sp, sp);
        lemma_extended(t + sp + i + sp + st + sp + ty + sp, sp + st + sp, a);
    }
    assert(contains(wi_hay(wi), sp + ty + sp)) by {
        lemma_ends_with(t + sp + i + sp + st, sp + ty + sp);
        vstd::seq_lib::lemma_concat_associative(t + sp + i + sp + st, sp + ty, sp);
        vstd::seq_lib::lemma_concat_associative(t + sp + i + sp + st, sp, ty);
        lemma_extended(t + sp + i + sp + st + sp + ty + sp, sp + ty + sp, a);
    }
    assert(contains(wi_hay(wi), sp + a)) by {
        lemma_ends_with(t + sp + i + sp + st + sp + ty, sp + a);
        vstd::seq_lib::lemma_concat_associative(t + sp + i + sp + st + sp + ty, sp, a);
    }
}

pub fn wi_matches(wi: &WorkItem, q: &str) -> (r: bool)
    ensures
        r == query_matches(wi_hay(*wi), q@),
        contains(wi_hay(*wi), wi.title@ + seq![' ']),
        contains(wi_hay(*wi), seq![' '] + or_empty(wi.identifier) + seq![' ']),
        contains(wi_hay(*wi), seq![' '] + wi.state@ + seq![' ']),
        contains(wi_hay(*wi), seq![' '] + or_empty(wi.work_item_type) + seq![' ']),
        wi.assignee matches Some(a) ==> contains(wi_hay(*wi), seq![' '] + a.display_name@),
{
    proof {
        lemma_the_wi_filter_searches_every_column(*wi);
    }
    let mut hay = wi.title.clone();
    push_char(&mut hay, ' ');
    push_opt(&mut hay, &wi.identifier);
    push_char(&mut hay, ' ');
    push_str(&mut hay, wi.state.as_str());
    push_char(&mut hay, ' ');
    push_opt(&mut hay, &wi.work_item_type);
    push_char(&mut hay, ' ');
    if let Some(a) = &wi.assignee {
        push_str(&mut hay, a.display_name.as_str());
    }
    assert(hay@ =~= wi_hay(*wi));
    query_match(hay.as_str(), q)
}


// ---------------------------------------------------------------------------
// Sorting
// ---------------------------------------------------------------------------

pub open spec fn check_rank(s: CheckStatus) -> int {
    match s {
        CheckStatus::NoChecks => 0,
        CheckStatus::Passed => 1,
        CheckStatus::Pending => 2,
        CheckStatus::Failed => 3,
    }
}

/// Drafts first (whatever their status says), then open, merged, closed.
pub open spec fn pr_status_rank(pr: PullRequest) -> int {
    if pr.is_draft {
        0
    } else {
        match pr.status {
            PullRequestStatus::Draft => 0,
            PullRequestStatus::Open => 1,
            PullRequestStatus::Merged => 2,
            PullRequestStatus::Closed => 3,
        }
    }
}

pub open spec fn wi_state_rank(c: WorkItemStateCategory) -> int {
    match c {
        WorkItemStateCategory::Triage => 0,
        WorkItemStateCategory::Backlog => 1,
        WorkItemStateCategory::Unstarted => 2,
        WorkItemStateCategory::Started => 3,
        WorkItemStateCategory::Completed => 4,
        WorkItemStateCategory::Canceled => 5,
    }
}

pub fn check_rank_exec(s: CheckStatus) -> (r: u8)
    ensures
        r == check_rank(s),
{
    match s {
        CheckStatus::NoChecks => 0,
        CheckStatus::Passed => 1,
        CheckStatus::Pending => 2,
        CheckStatus::Failed => 3,
    }
}

pub fn pr_status_rank_exec(pr: &PullRequest) -> (r: u8)
    ensures
        r == pr_status_rank(*pr),
{
    if pr.is_draft {
        return 0;
    }
    match pr.status {
        PullRequestStatus::Draft => 0,
        PullRequestStatus::Open => 1,
        PullRequestStatus::Merged => 2,
        PullRequestStatus::Closed => 3,
    }
}

pub fn wi_state_rank_exec(c: WorkItemStateCategory) -> (r: u8)
    ensures
        r == wi_state_rank(c),
{
    match c {
        WorkItemStateCategory::Triage => 0,
        WorkItemStateCategory::Backlog => 1,
        WorkItemStateCategory::Unstarted => 2,
        WorkItemStateCategory::Started => 3,
        WorkItemStateCategory::Completed => 4,
        WorkItemStateCategory::Canceled => 5,
    }
}

/// How two pull requests compare on column `col` (-1, 0 or 1). Text columns compare
/// lowercased; an unknown column compares everything equal.
pub open spec fn pr_sign(a: PullRequest, b: PullRequest, col: Seq<char>) -> int {
    if col == "updated"@ {
        time_sign(a.updated_at, b.updated_at)
    } else if col == "number"@ {
        num_sign(a.number, b.number)
    } else if col == "title"@ {
        lex_sign(lowercase(a.title@), lowercase(b.title@))
    } else if col == "author"@ {
        lex_sign(lowercase(a.author.display_name@), lowercase(b.author.display_name@))
    } else if col == "checks"@ {
        int_sign(check_rank(a.checks), check_rank(b.checks))
    } else if col == "status"@ {
        int_sign(pr_status_rank(a), pr_status_rank(b))
    } else {
        0
    }
}

pub open spec fn pr_key_of(k: SortKey, p: PullRequest, col: Seq<char>) -> bool {
    if col == "updated"@ {
        k == SortKey::Time(p.updated_at)
    } else if col == "number"@ {
        k == SortKey::Number(p.number)
    } else if col == "title"@ {
        k matches SortKey::Text(t) && t@ == lowercase(p.title@)
    } else if col == "author"@ {
        k matches SortKey::Text(t) && t@ == lowercase(p.author.display_name@)
    } else if col == "checks"@ {
        k matches SortKey::Rank(r) && r == check_rank(p.checks)
    } else if col == "status"@ {
        k matches SortKey::Rank(r) && r == pr_status_rank(p)
    } else {
        k is Unsorted
    }
}

pub proof fn lemma_pr_keys(k1: SortKey, k2: SortKey, a: PullRequest, b: PullRequest, col: Seq<char>)
    requires
        pr_key_of(k1, a, col),
        pr_key_of(k2, b, col),
    ensures
        same_shape(k1, k2),
        key_sign(k1, k2) == pr_sign(a, b, col),
{
}

fn lower_chars(s: &str) -> (v: Vec<char>)
    ensures
        v@ == lowercase(s@),
{
    let l = to_lowercase(s);
    chars_of(l.as_str())
}

pub fn pr_sort_key(p: &PullRequest, col: &str) -> (k: SortKey)
    ensures
        pr_key_of(k, *p, col@),
{
    if str_eq(col, "updated") {
        SortKey::Time(p.updated_at)
    } else if str_eq(col, "number") {
        SortKey::Number(p.number)
    } else if str_eq(col, "title") {
        SortKey::Text(lower_chars(p.title.as_str()))
    } else if str_eq(col, "author") {
        SortKey::Text(lower_chars(p.author.display_name.as_str()))
    } else if str_eq(col, "checks") {
        SortKey::Rank(check_rank_exec(p.checks))
    } else if str_eq(col, "status") {
        SortKey::Rank(pr_status_rank_exec(p))
    } else {
        SortKey::Unsorted
    }
}

/// How two work items compare on column `col` (-1, 0 or 1); `state` orders by category,
/// then by the state's lowercased name.
pub open spec fn wi_sign(a: WorkItem, b: WorkItem, col: Seq<char>) -> int {
    if col == "updated"@ {
        time_sign(a.updated_at, b.updated_at)
    } else if col == "state"@ {
        let r = int_sign(wi_state_rank(a.state_category), wi_state_rank(b.state_category));
        if r != 0 {
            r
        } else {
            lex_sign(lowercase(a.state@), lowercase(b.state@))
        }
    } else if col == "title"@ {
        lex_sign(lowercase(a.title@), lowercase(b.title@))
    } else if col == "type"@ {
        lex_sign(lowercase(or_empty(a.work_item_type)), lowercase(or_empty(b.work_item_type)))
    } else if col == "assignee"@ {
        lex_sign(assignee_key(a), assignee_key(b))
    } else {
        0
    }
}

/// The assignee's lowercased display name, or `""`.
pub open spec fn assignee_key(w: WorkItem) -> Seq<char> {
    match w.assignee {
        Some(u) => lowercase(u.display_name@),
        None => seq![],
    }
}

pub open spec fn wi_key_of(k: SortKey, w: WorkItem, col: Seq<char>) -> bool {
    if col == "updated"@ {
        k == SortKey::Time(w.updated_at)
    } else if col == "state"@ {
        k matches SortKey::RankText(r, t) && r == wi_state_rank(w.state_category) && t@ == lowercase(w.state@)
    } else if col == "title"@ {
        k matches SortKey::Text(t) && t@ == lowercase(w.title@)
    } else if col == "type"@ {
        k matches SortKey::Text(t) && t@ == lowercase(or_empty(w.work_item_type))
    } else if col == "assignee"@ {
        k matches SortKey::Text(t) && t@ == assignee_key(w)
    } else {
        k is Unsorted
    }
}

pub proof fn lemma_wi_keys(k1: SortKey, k2: SortKey, a: WorkItem, b: WorkItem, col: Seq<char>)
    requires
        wi_key_of(k1, a, col),
        wi_key_of(k2, b, col),
    ensures
        same_shape(k1, k2),
        key_sign(k1, k2) == wi_sign(a, b, col),
{
}

fn opt_text(o: &Option<String>) -> (r: &str)
    ensures
        r@ == or_empty(*o),
{
    match o {
        Some(s) => s.as_str(),
        None => {
            proof {
                reveal_strlit("");
            }
            ""
        },
    }
}

pub fn wi_sort_key(w: &WorkItem, col: &str) -> (k: SortKey)
    ensures
        wi_key_of(k, *w, col@),
{
    if str_eq(col, "updated") {
        SortKey::Time(w.updated_at)
    } else if str_eq(col, "state") {
        SortKey::RankText(wi_state_rank_exec(w.state_category), lower_chars(w.state.as_str()))
    } else if str_eq(col, "title") {
        SortKey::Text(lower_chars(w.title.as_str()))
    } else if str_eq(col, "type") {
        SortKey::Text(lower_chars(opt_text(&w.work_item_type)))
    } else if str_eq(col, "assignee") {
        match &w.assignee {
            Some(u) => SortKey::Text(lower_chars(u.display_name.as_str())),
            None => SortKey::Text(Vec::new()),
        }
    } else {
        SortKey::Unsorted
    }
}

/// `out` lists exactly the rows of `rows`, each once, ordered by `sign` in the chosen
/// direction; rows that compare equal keep their order.
pub open spec fn sorted_rows(rows: Seq<usize>, out: Seq<usize>, sign: spec_fn(int, int) -> int, desc: bool) -> bool {
    &&& out.len() == rows.len()
    &&& forall|x: usize| #[trigger] out.contains(x) <==> rows.contains(x)
    &&& forall|i: int, j: int|
        0 <= i < j < out.len() ==> {
            let s = directed(sign(#[trigger] out[i] as int, #[trigger] out[j] as int), desc);
            s < 0 || (s == 0 && out[i] < out[j])
        }
}

/// Whether status `s` is among the shown statuses.
pub open spec fn shows(shown: Seq<PullRequestStatus>, s: PullRequestStatus) -> bool {
    shown.contains(s)
}

/// The PR rows the list shows: a shown status, and the quick filter `q` matches.
pub open spec fn prs_matching(prs: Seq<PrRow>, shown: Seq<PullRequestStatus>, q: Seq<char>) -> Seq<usize> {
    rows_kept(|i: int| shows(shown, prs[i].pr.status) && query_matches(pr_hay(prs[i].pr), q), prs.len() as int)
}

fn status_shown(shown: &Vec<PullRequestStatus>, s: PullRequestStatus) -> (r: bool)
    ensures
        r == shows(shown@, s),
{
    let mut i: usize = 0;
    while i < shown.len()
        invariant
            i <= shown@.len(),
            forall|j: int| 0 <= j < i ==> shown@[j] != s,
        decreases shown@.len() - i,
    {
        if shown[i] == s {
            assert(shown@[i as int] == s);
            return true;
        }
        i += 1;
    }
    false
}

/// Row indices of the PR list: rows with a shown status that match the quick filter
/// `filter` (all rows if empty), in the chosen sort order (list order without one).
pub fn filtered_pr_indices(prs: &[PrRow], shown: &Vec<PullRequestStatus>, filter: &str, sort: &Option<SortPref>) -> (out: Vec<usize>)
    ensures
        ({
            let rows = prs_matching(prs@, shown@, lowercase(filter@));
            match sort {
                None => out@ == rows,
                Some(s) => sorted_rows(rows, out@, |x: int, y: int| pr_sign(prs@[x].pr, prs@[y].pr, s.key@), s.desc),
            }
        }),
        match sort {
            Some(s) => (s.key@ == "updated"@ ==> updated_in_order(prs@, out@, s.desc)) && (s.key@ == "number"@
                ==> numbers_in_order(prs@, out@, s.desc)) && (s.key@ == "title"@ ==> ordered_by(
                prs@,
                out@,
                s.desc,
                |a: PullRequest, b: PullRequest| lex_sign(lowercase(a.title@), lowercase(b.title@)),
            )) && (s.key@ == "author"@ ==> ordered_by(
                prs@,
                out@,
                s.desc,
                |a: PullRequest, b: PullRequest| lex_sign(lowercase(a.author.display_name@), lowercase(b.author.display_name@)),
            )) && (s.key@ == "checks"@ ==> ordered_by(
                prs@,
                out@,
                s.desc,
                |a: PullRequest, b: PullRequest| int_sign(check_rank(a.checks), check_rank(b.checks)),
            )) && (s.key@ == "status"@ ==> ordered_by(
                prs@,
                out@,
                s.desc,
                |a: PullRequest, b: PullRequest| int_sign(pr_status_rank(a), pr_status_rank(b)),
            )),
            None => true,
        },
{
    let q = to_lowercase(filter);
    let ghost keep = |i: int| shows(shown@, prs@[i].pr.status) && query_matches(pr_hay(prs@[i].pr), q@);
    let mut idx: Vec<usize> = Vec::new();
    let mut i: usize = 0;
    while i < prs.len()
        invariant
            q@ == lowercase(filter@),
            keep == (|i: int| shows(shown@, prs@[i].pr.status) && query_matches(pr_hay(prs@[i].pr), q@)),
            i <= prs@.len(),
            idx@ == rows_kept(keep, i as int),
        decreases prs@.len() - i,
    {
        if status_shown(shown, prs[i].pr.status) && pr_matches(&prs[i].pr, q.as_str()) {
            idx.push(i);
        }
        i += 1;
    }
    proof {
        lemma_rows_kept(keep, prs@.len() as int);
    }
    match sort {
        None => idx,
        Some(s) => {
            let ghost rows = idx@;
            let mut keys: Vec<SortKey> = Vec::new();
            let mut j: usize = 0;
            while j < prs.len()
                invariant
                    j <= prs@.len(),
                    keys@.len() == j,
                    forall|q: int| 0 <= q < j ==> pr_key_of(#[trigger] keys@[q], prs@[q].pr, s.key@),
                decreases prs@.len() - j,
            {
                keys.push(pr_sort_key(&prs[j].pr, s.key.as_str()));
                j += 1;
            }
            assert forall|a: int, b: int| 0 <= a < keys@.len() && 0 <= b < keys@.len() implies same_shape(#[trigger] keys@[a], #[trigger] keys@[b]) by {
                lemma_pr_keys(keys@[a], keys@[b], prs@[a].pr, prs@[b].pr, s.key@);
            }
            let out = sort_rows(idx, &keys, s.desc);
            assert forall|i: int, j: int| 0 <= i < j < out@.len() implies ({
                let d = directed(pr_sign(prs@[#[trigger] out@[i] as int].pr, prs@[#[trigger] out@[j] as int].pr, s.key@), s.desc);
                d < 0 || (d == 0 && out@[i] < out@[j])
            }) by {
                assert(before(keys@, s.desc, out@[i] as int, out@[j] as int));
                assert(out@.contains(out@[i]) && out@.contains(out@[j]));
                let wi = choose|w: int| 0 <= w < rows.len() && #[trigger] rows[w] == out@[i];
                let wj = choose|w: int| 0 <= w < rows.len() && #[trigger] rows[w] == out@[j];
                lemma_pr_keys(keys@[out@[i] as int], keys@[out@[j] as int], prs@[out@[i] as int].pr, prs@[out@[j] as int].pr, s.key@);
            }
            proof {
                if s.key@ == "updated"@ {
                    lemma_updated_sort_orders_by_update_time(prs@, out@, s.desc);
                }
                if s.key@ == "number"@ {
                    lemma_number_sort_orders_by_number(prs@, out@, s.desc);
                }
                lemma_text_and_rank_sorts(prs@, out@, s.desc, s.key@);
            }
            out
        },
    }
}

/// Rows `out` of `prs` run from the least recently updated (a row never updated first) to
/// the most recently updated; the reverse when `desc`.
pub open spec fn updated_in_order(prs: Seq<PrRow>, out: Seq<usize>, desc: bool) -> bool {
    forall|i: int, j: int|
        0 <= i < j < out.len() ==> if desc {
            !opt_time_lt(prs[#[trigger] out[i] as int].pr.updated_at, prs[#[trigger] out[j] as int].pr.updated_at)
        } else {
            !opt_time_lt(prs[out[j] as int].pr.updated_at, prs[out[i] as int].pr.updated_at)
        }
}

/// Rows `out` of `prs` run by ascending number (a row without one first); descending when
/// `desc`.
pub open spec fn numbers_in_order(prs: Seq<PrRow>, out: Seq<usize>, desc: bool) -> bool {
    forall|i: int, j: int|
        0 <= i < j < out.len() ==> {
            let a = prs[#[trigger] out[i] as int].pr.number;
            let b = prs[#[trigger] out[j] as int].pr.number;
            match (a, b) {
                (Some(x), Some(y)) => if desc { x >= y } else { x <= y },
                (None, Some(_)) => !desc,
                (Some(_), None) => desc,
                (None, None) => true,
            }
        }
}

/// Rows `out` of `prs` never step down under the comparison `sign` (-1, 0 or 1): ascending,
/// or never step up when `desc`.
pub open spec fn ordered_by(
    prs: Seq<PrRow>,
    out: Seq<usize>,
    desc: bool,
    sign: spec_fn(PullRequest, PullRequest) -> int,
) -> bool {
    forall|i: int, j: int|
        0 <= i < j < out.len() ==> directed(sign(prs[#[trigger] out[i] as int].pr, prs[#[trigger] out[j] as int].pr), desc)
            <= 0
}

/// Sorting on Title or Author orders the rows by the lowercased text of that column;
/// sorting on Checks or Status orders them by the column's rank (failing checks and open
/// pull requests first).
pub proof fn lemma_text_and_rank_sorts(prs: Seq<PrRow>, out: Seq<usize>, desc: bool, col: Seq<char>)
    requires
        forall|i: int, j: int| 0 <= i < j < out.len() ==> ({
            let d = directed(pr_sign(prs[#[trigger] out[i] as int].pr, prs[#[trigger] out[j] as int].pr, col), desc);
            d < 0 || (d == 0 && out[i] < out[j])
        }),
    ensures
        col == "title"@ ==> ordered_by(prs, out, desc, |a: PullRequest, b: PullRequest| lex_sign(lowercase(a.title@), lowercase(b.title@))),
        col == "author"@ ==> ordered_by(
            prs,
            out,
            desc,
            |a: PullRequest, b: PullRequest| lex_sign(lowercase(a.author.display_name@), lowercase(b.author.display_name@)),
        ),
        col == "checks"@ ==> ordered_by(prs, out, desc, |a: PullRequest, b: PullRequest| int_sign(check_rank(a.checks), check_rank(b.checks))),
        col == "status"@ ==> ordered_by(prs, out, desc, |a: PullRequest, b: PullRequest| int_sign(pr_status_rank(a), pr_status_rank(b))),
{
    reveal_strlit("updated");
    reveal_strlit("number");
    reveal_strlit("title");
    reveal_strlit("author");
    reveal_strlit("checks");
    reveal_strlit("status");
    assert("updated"@[0] == 'u' && "number"@[0] == 'n' && "title"@[0] == 't');
    assert("author"@[0] == 'a' && "checks"@[0] == 'c' && "status"@[0] == 's');
    assert("updated"@.len() == 7 && "number"@.len() == 6 && "title"@.len() == 5);
    assert("author"@.len() == 6 && "checks"@.len() == 6 && "status"@.len() == 6);
}

/// Sorting the pull requests on the Updated column orders them by when each was last
/// updated: oldest first, or newest first when descending.
pub proof fn lemma_updated_sort_orders_by_update_time(prs: Seq<PrRow>, out: Seq<usize>, desc: bool)
    requires
        forall|i: int, j: int| 0 <= i < j < out.len() ==> ({
            let d = directed(pr_sign(prs[#[trigger] out[i] as int].pr, prs[#[trigger] out[j] as int].pr, "updated"@), desc);
            d < 0 || (d == 0 && out[i] < out[j])
        }),
    ensures
        updated_in_order(prs, out, desc),
{
    assert forall|i: int, j: int| 0 <= i < j < out.len() implies (if desc {
        !opt_time_lt(prs[#[trigger] out[i] as int].pr.updated_at, prs[#[trigger] out[j] as int].pr.updated_at)
    } else {
        !opt_time_lt(prs[out[j] as int].pr.updated_at, prs[out[i] as int].pr.updated_at)
    }) by {
        let a = prs[out[i] as int].pr;
        let b = prs[out[j] as int].pr;
        assert(pr_sign(a, b, "updated"@) == time_sign(a.updated_at, b.updated_at));
    }
}

/// Sorting the pull requests on the Number column orders them by number: ascending, or
/// descending when asked.
pub proof fn lemma_number_sort_orders_by_number(prs: Seq<PrRow>, out: Seq<usize>, desc: bool)
    requires
        forall|i: int, j: int| 0 <= i < j < out.len() ==> ({
            let d = directed(pr_sign(prs[#[trigger] out[i] as int].pr, prs[#[trigger] out[j] as int].pr, "number"@), desc);
            d < 0 || (d == 0 && out[i] < out[j])
        }),
    ensures
        numbers_in_order(prs, out, desc),
{
    assert forall|i: int, j: int| 0 <= i < j < out.len() implies ({
        let a = prs[#[trigger] out[i] as int].pr.number;
        let b = prs[#[trigger] out[j] as int].pr.number;
        match (a, b) {
            (Some(x), Some(y)) => if desc { x >= y } else { x <= y },
            (None, Some(_)) => !desc,
            (Some(_), None) => desc,
            (None, None) => true,
        }
    }) by {
        let a = prs[out[i] as int].pr;
        let b = prs[out[j] as int].pr;
        reveal_strlit("number");
        reveal_strlit("updated");
        assert("number"@.len() != "updated"@.len());
        assert(pr_sign(a, b, "number"@) == num_sign(a.number, b.number));
    }
}

/// Whether the state `state` is hidden.
pub open spec fn hidden(hidden_states: Seq<String>, state: Seq<char>) -> bool {
    exists|i: int| 0 <= i < hidden_states.len() && #[trigger] hidden_states[i]@ == state
}

/// The work-item rows the list shows: a state that isn't hidden, and the quick filter
/// `q` matches.
pub open spec fn wis_matching(wis: Seq<WiRow>, hidden_states: Seq<String>, q: Seq<char>) -> Seq<usize> {
    rows_kept(|i: int| !hidden(hidden_states, wis[i].wi.state@) && query_matches(wi_hay(wis[i].wi), q), wis.len() as int)
}

fn state_hidden(hidden_states: &Vec<String>, state: &String) -> (r: bool)
    ensures
        r == hidden(hidden_states@, state@),
{
    let mut i: usize = 0;
    while i < hidden_states.len()
        invariant
            i <= hidden_states@.len(),
            forall|j: int| 0 <= j < i ==> (#[trigger] hidden_states@[j])@ != state@,
        decreases hidden_states@.len() - i,
    {
        if hidden_states[i] == *state {
            return true;
        }
        i += 1;
    }
    false
}

/// Rows `out` of `wis` never step down under the comparison `sign` (-1, 0 or 1): ascending,
/// or never step up when `desc`.
pub open spec fn wi_ordered_by(wis: Seq<WiRow>, out: Seq<usize>, desc: bool, sign: spec_fn(WorkItem, WorkItem) -> int) -> bool {
    forall|i: int, j: int|
        0 <= i < j < out.len() ==> directed(sign(wis[#[trigger] out[i] as int].wi, wis[#[trigger] out[j] as int].wi), desc)
            <= 0
}

/// Sorting the work items on Updated orders them by when each was last updated; on State,
/// by the state's category (backlog, unstarted, started, done, cancelled); on Title, Type or
/// Assignee, by that column's lowercased text (no assignee first).
pub proof fn lemma_wi_sorts(wis: Seq<WiRow>, out: Seq<usize>, desc: bool, col: Seq<char>)
    requires
        forall|i: int, j: int| 0 <= i < j < out.len() ==> ({
            let d = directed(wi_sign(wis[#[trigger] out[i] as int].wi, wis[#[trigger] out[j] as int].wi, col), desc);
            d < 0 || (d == 0 && out[i] < out[j])
        }),
    ensures
        col == "updated"@ ==> wi_ordered_by(wis, out, desc, |a: WorkItem, b: WorkItem| time_sign(a.updated_at, b.updated_at)),
        col == "state"@ ==> wi_ordered_by(
            wis,
            out,
            desc,
            |a: WorkItem, b: WorkItem| int_sign(wi_state_rank(a.state_category), wi_state_rank(b.state_category)),
        ),
        col == "title"@ ==> wi_ordered_by(wis, out, desc, |a: WorkItem, b: WorkItem| lex_sign(lowercase(a.title@), lowercase(b.title@))),
        col == "type"@ ==> wi_ordered_by(
            wis,
            out,
            desc,
            |a: WorkItem, b: WorkItem| lex_sign(lowercase(or_empty(a.work_item_type)), lowercase(or_empty(b.work_item_type))),
        ),
        col == "assignee"@ ==> wi_ordered_by(wis, out, desc, |a: WorkItem, b: WorkItem| lex_sign(assignee_key(a), assignee_key(b))),
{
    reveal_strlit("updated");
    reveal_strlit("state");
    reveal_strlit("title");
    reveal_strlit("type");
    reveal_strlit("assignee");
    assert("updated"@.len() == 7 && "state"@.len() == 5 && "title"@.len() == 5);
    assert("type"@.len() == 4 && "assignee"@.len() == 8);
    assert("state"@[0] == 's' && "title"@[0] == 't');
    if col == "state"@ {
        assert forall|i: int, j: int| 0 <= i < j < out.len() implies directed(
            int_sign(
                wi_state_rank(wis[#[trigger] out[i] as int].wi.state_category),
                wi_state_rank(wis[#[trigger] out[j] as int].wi.state_category),
            ),
            desc,
        ) <= 0 by {
            let a = wis[out[i] as int].wi;
            let b = wis[out[j] as int].wi;
            lemma_lex_sign(lowercase(a.state@), lowercase(b.state@));
        }
    }
}

/// Row indices of the Work Items list: rows whose state isn't hidden that match the quick
/// filter `filter` (all rows if empty), in the chosen sort order (list order without one).
pub fn filtered_wi_indices(wis: &[WiRow], hidden_states: &Vec<String>, filter: &str, sort: &Option<SortPref>) -> (out: Vec<usize>)
    ensures
        ({
            let rows = wis_matching(wis@, hidden_states@, lowercase(filter@));
            match sort {
                None => out@ == rows,
                Some(s) => sorted_rows(rows, out@, |x: int, y: int| wi_sign(wis@[x].wi, wis@[y].wi, s.key@), s.desc),
            }
        }),
        match sort {
            Some(s) => (s.key@ == "updated"@ ==> wi_ordered_by(
                wis@,
                out@,
                s.desc,
                |a: WorkItem, b: WorkItem| time_sign(a.updated_at, b.updated_at),
            )) && (s.key@ == "state"@ ==> wi_ordered_by(
                wis@,
                out@,
                s.desc,
                |a: WorkItem, b: WorkItem| int_sign(wi_state_rank(a.state_category), wi_state_rank(b.state_category)),
            )) && (s.key@ == "title"@ ==> wi_ordered_by(
                wis@,
                out@,
                s.desc,
                |a: WorkItem, b: WorkItem| lex_sign(lowercase(a.title@), lowercase(b.title@)),
            )) && (s.key@ == "type"@ ==> wi_ordered_by(
                wis@,
                out@,
                s.desc,
                |a: WorkItem, b: WorkItem| lex_sign(lowercase(or_empty(a.work_item_type)), lowercase(or_empty(b.work_item_type))),
            )) && (s.key@ == "assignee"@ ==> wi_ordered_by(
                wis@,
                out@,
                s.desc,
                |a: WorkItem, b: WorkItem| lex_sign(assignee_key(a), assignee_key(b)),
            )),
            None => true,
        },
{
    let q = to_lowercase(filter);
    let ghost keep = |i: int| !hidden(hidden_states@, wis@[i].wi.state@) && query_matches(wi_hay(wis@[i].wi), q@);
    let mut idx: Vec<usize> = Vec::new();
    let mut i: usize = 0;
    while i < wis.len()
        invariant
            q@ == lowercase(filter@),
            keep == (|i: int| !hidden(hidden_states@, wis@[i].wi.state@) && query_matches(wi_hay(wis@[i].wi), q@)),
            i <= wis@.len(),
            idx@ == rows_kept(keep, i as int),
        decreases wis@.len() - i,
    {
        if !state_hidden(hidden_states, &wis[i].wi.state) && wi_matches(&wis[i].wi, q.as_str()) {
            idx.push(i);
        }
        i += 1;
    }
    proof {
        lemma_rows_kept(keep, wis@.len() as int);
    }
    match sort {
        None => idx,
        Some(s) => {
            let ghost rows = idx@;
            let mut keys: Vec<SortKey> = Vec::new();
            let mut j: usize = 0;
            while j < wis.len()
                invariant
                    j <= wis@.len(),
                    keys@.len() == j,
                    forall|q: int| 0 <= q < j ==> wi_key_of(#[trigger] keys@[q], wis@[q].wi, s.key@),
                decreases wis@.len() - j,
            {
                keys.push(wi_sort_key(&wis[j].wi, s.key.as_str()));
                j += 1;
            }
            assert forall|a: int, b: int| 0 <= a < keys@.len() && 0 <= b < keys@.len() implies same_shape(#[trigger] keys@[a], #[trigger] keys@[b]) by {
                lemma_wi_keys(keys@[a], keys@[b], wis@[a].wi, wis@[b].wi, s.key@);
            }
            let out = sort_rows(idx, &keys, s.desc);
            assert forall|i: int, j: int| 0 <= i < j < out@.len() implies ({
                let d = directed(wi_sign(wis@[#[trigger] out@[i] as int].wi, wis@[#[trigger] out@[j] as int].wi, s.key@), s.desc);
                d < 0 || (d == 0 && out@[i] < out@[j])
            }) by {
                assert(before(keys@, s.desc, out@[i] as int, out@[j] as int));
                assert(out@.contains(out@[i]) && out@.contains(out@[j]));
                let wi = choose|w: int| 0 <= w < rows.len() && #[trigger] rows[w] == out@[i];
                let wj = choose|w: int| 0 <= w < rows.len() && #[trigger] rows[w] == out@[j];
                lemma_wi_keys(keys@[out@[i] as int], keys@[out@[j] as int], wis@[out@[i] as int].wi, wis@[out@[j] as int].wi, s.key@);
            }
            proof {
                lemma_wi_sorts(wis@, out@, s.desc, s.key@);
            }
            out
        },
    }
}


// ---------------------------------------------------------------------------
// Persisted spellings and messages
// ---------------------------------------------------------------------------

/// The PR list's base filter.
#[derive(Debug, Clone, Copy, PartialEq, Eq, Structural)]
pub enum PullRequestFilter {
    All,
    Mine,
    ReviewRequested,
}

pub open spec fn pr_filter_text(f: PullRequestFilter) -> Seq<char> {
    match f {
        PullRequestFilter::Mine => "mine"@,
        PullRequestFilter::ReviewRequested => "review"@,
        PullRequestFilter::All => "all"@,
    }
}

pub open spec fn parse_pr_filter_spec(s: Option<Seq<char>>) -> PullRequestFilter {
    match s {
        Some(t) => if t == "mine"@ {
            PullRequestFilter::Mine
        } else if t == "review"@ {
            PullRequestFilter::ReviewRequested
        } else {
            PullRequestFilter::All
        },
        None => PullRequestFilter::All,
    }
}

/// Reads a persisted PR base filter; anything else (or nothing) is `All`.
pub fn parse_pr_filter(s: Option<&str>) -> (r: PullRequestFilter)
    ensures
        r == parse_pr_filter_spec(match s {
            Some(t) => Some(t@),
            None => None,
        }),
{
    match s {
        Some(t) => if str_eq(t, "mine") {
            PullRequestFilter::Mine
        } else if str_eq(t, "review") {
            PullRequestFilter::ReviewRequested
        } else {
            PullRequestFilter::All
        },
        None => PullRequestFilter::All,
    }
}

/// The persisted key for a PR base filter (inverse of `parse_pr_filter`).
pub fn pr_filter_key(f: PullRequestFilter) -> (r: &'static str)
    ensures
        r@ == pr_filter_text(f),
{
    match f {
        PullRequestFilter::Mine => "mine",
        PullRequestFilter::ReviewRequested => "review",
        PullRequestFilter::All => "all",
    }
}

/// A persisted PR filter reads back as the filter that was saved.
pub proof fn lemma_pr_filter_round_trip(f: PullRequestFilter)
    ensures
        parse_pr_filter_spec(Some(pr_filter_text(f))) == f,
{
    reveal_strlit("mine");
    reveal_strlit("review");
    reveal_strlit("all");
    assert("mine"@.len() == 4);
    assert("review"@.len() == 6);
    assert("all"@.len() == 3);
}

pub open spec fn pr_filter_label_spec(f: PullRequestFilter) -> Seq<char> {
    match f {
        PullRequestFilter::All => "all"@,
        PullRequestFilter::Mine => "mine"@,
        PullRequestFilter::ReviewRequested => "review-requested"@,
    }
}

/// Human label for a PR filter (shown in the section title / footer).
pub fn pr_filter_label(f: PullRequestFilter) -> (r: &'static str)
    ensures
        r@ == pr_filter_label_spec(f),
{
    match f {
        PullRequestFilter::All => "all",
        PullRequestFilter::Mine => "mine",
        PullRequestFilter::ReviewRequested => "review-requested",
    }
}

/// The `Debug` spelling of a PR filter.
pub open spec fn pr_filter_debug(f: PullRequestFilter) -> Seq<char> {
    match f {
        PullRequestFilter::All => "All"@,
        PullRequestFilter::Mine => "Mine"@,
        PullRequestFilter::ReviewRequested => "ReviewRequested"@,
    }
}

/// The cache key of the PR list seeded for `filter` and completed-ness: both vary the
/// rows, so both are in the key.
pub open spec fn prs_cache_key_spec(filter: PullRequestFilter, completed: bool) -> Seq<char> {
    "list.prs."@ + pr_filter_debug(filter) + seq!['.'] + if completed {
        "true"@
    } else {
        "false"@
    }
}

pub fn prs_cache_key(filter: PullRequestFilter, completed: bool) -> (r: String)
    ensures
        r@ == prs_cache_key_spec(filter, completed),
{
    let mut out = String::new();
    push_str(&mut out, "list.prs.");
    push_str(
        &mut out,
        match filter {
            PullRequestFilter::All => "All",
            PullRequestFilter::Mine => "Mine",
            PullRequestFilter::ReviewRequested => "ReviewRequested",
        },
    );
    push_char(&mut out, '.');
    push_str(
        &mut out,
        if completed {
            "true"
        } else {
            "false"
        },
    );
    out
}

/// PR statuses in display order (drives the "Show statuses" checklist and the header).
pub open spec fn pr_status_order() -> Seq<PullRequestStatus> {
    seq![PullRequestStatus::Open, PullRequestStatus::Draft, PullRequestStatus::Merged, PullRequestStatus::Closed]
}

pub open spec fn pr_status_text(s: PullRequestStatus) -> Seq<char> {
    match s {
        PullRequestStatus::Open => "Open"@,
        PullRequestStatus::Draft => "Draft"@,
        PullRequestStatus::Merged => "Merged"@,
        PullRequestStatus::Closed => "Closed"@,
    }
}

pub fn pr_status_key(s: PullRequestStatus) -> (r: &'static str)
    ensures
        r@ == pr_status_text(s),
{
    match s {
        PullRequestStatus::Open => "Open",
        PullRequestStatus::Draft => "Draft",
        PullRequestStatus::Merged => "Merged",
        PullRequestStatus::Closed => "Closed",
    }
}

pub open spec fn parse_pr_status_spec(t: Seq<char>) -> Option<PullRequestStatus> {
    if t == "Open"@ {
        Some(PullRequestStatus::Open)
    } else if t == "Draft"@ {
        Some(PullRequestStatus::Draft)
    } else if t == "Merged"@ {
        Some(PullRequestStatus::Merged)
    } else if t == "Closed"@ {
        Some(PullRequestStatus::Closed)
    } else {
        None
    }
}

/// Reads a status by its key (the first in display order with that key).
pub fn parse_pr_status(t: &str) -> (r: Option<PullRequestStatus>)
    ensures
        r == parse_pr_status_spec(t@),
{
    if str_eq(t, "Open") {
        Some(PullRequestStatus::Open)
    } else if str_eq(t, "Draft") {
        Some(PullRequestStatus::Draft)
    } else if str_eq(t, "Merged") {
        Some(PullRequestStatus::Merged)
    } else if str_eq(t, "Closed") {
        Some(PullRequestStatus::Closed)
    } else {
        None
    }
}

/// A status key reads back as its status.
pub proof fn lemma_pr_status_round_trip(s: PullRequestStatus)
    ensures
        parse_pr_status_spec(pr_status_text(s)) == Some(s),
{
    reveal_strlit("Open");
    reveal_strlit("Draft");
    reveal_strlit("Merged");
    reveal_strlit("Closed");
    assert("Open"@.len() == 4);
    assert("Draft"@.len() == 5);
    assert("Merged"@.len() == 6);
    assert("Closed"@.len() == 6);
    assert("Merged"@[0] == 'M' && "Closed"@[0] == 'C');
}

/// The keys of the shown statuses among the first `n` of display order, joined by `, `.
pub open spec fn shown_summary(shown: Seq<PullRequestStatus>, n: int) -> Seq<char>
    decreases n,
{
    if n <= 0 {
        seq![]
    } else {
        let prev = shown_summary(shown, n - 1);
        let st = pr_status_order()[n - 1];
        if shown.contains(st) {
            if prev.len() == 0 {
                pr_status_text(st)
            } else {
                prev + ", "@ + pr_status_text(st)
            }
        } else {
            prev
        }
    }
}

/// Human summary of the shown statuses in canonical order (e.g. "Open, Merged"), or
/// "all statuses" when every status is shown.
pub open spec fn pr_status_summary_spec(shown: Seq<PullRequestStatus>) -> Seq<char> {
    if forall|i: int| 0 <= i < 4 ==> shown.contains(#[trigger] pr_status_order()[i]) {
        "all statuses"@
    } else {
        shown_summary(shown, 4)
    }
}

proof fn lemma_status_text_nonempty(s: PullRequestStatus)
    ensures
        pr_status_text(s).len() > 0,
{
    reveal_strlit("Open");
    reveal_strlit("Draft");
    reveal_strlit("Merged");
    reveal_strlit("Closed");
}

/// Human summary of the shown-status set, in canonical order (e.g. "Open, Merged").
/// `shown` holds the shown statuses (a set: order and repeats don't matter).
pub fn pr_status_summary(shown: &Vec<PullRequestStatus>) -> (r: String)
    ensures
        r@ == pr_status_summary_spec(shown@),
{
    let order = [PullRequestStatus::Open, PullRequestStatus::Draft, PullRequestStatus::Merged, PullRequestStatus::Closed];
    let mut all = true;
    let mut out = String::new();
    let mut i: usize = 0;
    while i < 4
        invariant
            i <= 4,
            order@ == pr_status_order(),
            all == (forall|j: int| 0 <= j < i ==> shown@.contains(#[trigger] pr_status_order()[j])),
            out@ == shown_summary(shown@, i as int),
        decreases 4 - i,
    {
        let st = order[i];
        if status_shown(shown, st) {
            proof {
                lemma_status_text_nonempty(st);
            }
            if !out.as_str().is_empty() {
                push_str(&mut out, ", ");
            }
            push_str(&mut out, pr_status_key(st));
        } else {
            all = false;
        }
        i += 1;
    }
    if all {
        "all statuses".to_owned()
    } else {
        out
    }
}

/// A vote cast on a pull request.
#[derive(Debug, Clone, Copy, PartialEq, Eq, Structural)]
pub enum ReviewVote {
    Approved,
    ApprovedWithSuggestions,
    Rejected,
    WaitingForAuthor,
    NoVote,
}

pub open spec fn vote_message_spec(v: ReviewVote) -> Seq<char> {
    match v {
        ReviewVote::Approved => "Approved"@,
        ReviewVote::ApprovedWithSuggestions => "Approved with suggestions"@,
        ReviewVote::Rejected => "Requested changes"@,
        ReviewVote::WaitingForAuthor => "Waiting for author"@,
        ReviewVote::NoVote => "Vote reset"@,
    }
}

/// What a cast vote is announced as.
pub fn vote_message(vote: ReviewVote) -> (r: &'static str)
    ensures
        r@ == vote_message_spec(vote),
{
    match vote {
        ReviewVote::Approved => "Approved",
        ReviewVote::ApprovedWithSuggestions => "Approved with suggestions",
        ReviewVote::Rejected => "Requested changes",
        ReviewVote::WaitingForAuthor => "Waiting for author",
        ReviewVote::NoVote => "Vote reset",
    }
}

/// Which vote states newly flipped on since the last scan: (newly approved, newly changes
/// requested). `now` is the PR's (approved, changes requested) rollup; `prev` the last
/// scan's, if the PR was seen.
pub fn pr_review_transitions(prev: Option<(bool, bool)>, now: (bool, bool)) -> (r: (bool, bool))
    ensures
        r == (match prev {
            Some(p) => (now.0 && !p.0, now.1 && !p.1),
            None => now,
        }),
{
    let (a, c) = now;
    let (pa, pc) = match prev {
        Some(p) => p,
        None => (false, false),
    };
    (a && !pa, c && !pc)
}


/// The distinct states of `wis`, in first-seen order.
pub open spec fn distinct_states(wis: Seq<WiRow>) -> Seq<Seq<char>>
    decreases wis.len(),
{
    if wis.len() == 0 {
        seq![]
    } else {
        let prev = distinct_states(wis.drop_last());
        let st = wis.last().wi.state@;
        if prev.contains(st) {
            prev
        } else {
            prev.push(st)
        }
    }
}

/// Distinct work-item states in first-seen order (drives the visibility checklist).
pub fn distinct_wi_states(wis: &[WiRow]) -> (out: Vec<String>)
    ensures
        string_views(out@) == distinct_states(wis@),
{
    let mut out: Vec<String> = Vec::new();
    let mut i: usize = 0;
    while i < wis.len()
        invariant
            i <= wis@.len(),
            string_views(out@) == distinct_states(wis@.take(i as int)),
        decreases wis@.len() - i,
    {
        assert(wis@.take(i + 1).drop_last() =~= wis@.take(i as int));
        let st = &wis[i].wi.state;
        let seen = state_hidden(&out, st);
        assert(seen == string_views(out@).contains(st@)) by {
            if seen {
                let w = choose|w: int| 0 <= w < out@.len() && #[trigger] out@[w]@ == st@;
                assert(string_views(out@)[w] == st@);
            }
            if string_views(out@).contains(st@) {
                let w = choose|w: int| 0 <= w < string_views(out@).len() && string_views(out@)[w] == st@;
                assert(out@[w]@ == st@);
            }
        }
        if !seen {
            let ghost prev = out@;
            out.push(st.clone());
            assert(string_views(out@) =~= string_views(prev).push(st@));
        }
        i += 1;
    }
    assert(wis@.take(i as int) =~= wis@);
    out
}

/// How many of `states` are hidden.
pub open spec fn hidden_count(states: Seq<Seq<char>>, hidden_states: Seq<String>) -> nat
    decreases states.len(),
{
    if states.len() == 0 {
        0
    } else {
        hidden_count(states.drop_last(), hidden_states) + if hidden(hidden_states, states.last()) {
            1nat
        } else {
            0nat
        }
    }
}

/// How many distinct states in view are hidden (for the title and toast; ignores hidden
/// states left over from another provider).
pub fn hidden_states_in_view(wis: &[WiRow], hidden_states: &Vec<String>) -> (n: usize)
    ensures
        n == hidden_count(distinct_states(wis@), hidden_states@),
{
    let states = distinct_wi_states(wis);
    let ghost sv = string_views(states@);
    let mut n: usize = 0;
    let mut i: usize = 0;
    while i < states.len()
        invariant
            sv == string_views(states@),
            i <= states@.len(),
            n == hidden_count(sv.take(i as int), hidden_states@),
            n <= i,
        decreases states@.len() - i,
    {
        assert(sv.take(i + 1).drop_last() =~= sv.take(i as int));
        assert(sv.take(i + 1).last() == states@[i as int]@);
        if state_hidden(hidden_states, &states[i]) {
            n += 1;
        }
        i += 1;
    }
    assert(sv.take(i as int) =~= sv);
    n
}


/// The hidden states after the state checklist leaves `shown` ticked: each state in view
/// is hidden exactly when it is unticked; a state not in view keeps what it had.
pub open spec fn states_applied(
    before: Seq<String>,
    wis: Seq<WiRow>,
    shown: Seq<String>,
    after: Seq<String>,
) -> bool {
    forall|x: Seq<char>| #[trigger] hidden(after, x) <==> if distinct_states(wis).contains(x) {
        !hidden(shown, x)
    } else {
        hidden(before, x)
    }
}

/// Applies the state checklist: `shown` are the states left ticked. Everything in view but
/// unticked becomes hidden; states not in view now are left as they were.
pub fn apply_wi_states(hidden_states: &mut Vec<String>, wis: &[WiRow], shown: &Vec<String>)
    ensures
        states_applied(old(hidden_states)@, wis@, shown@, final(hidden_states)@),
{
    let states = distinct_wi_states(wis);
    let ghost sv = string_views(states@);
    let ghost before = hidden_states@;
    let mut out: Vec<String> = Vec::new();
    let mut i: usize = 0;
    while i < hidden_states.len()
        invariant
            hidden_states@ == before,
            sv == string_views(states@),
            sv == distinct_states(wis@),
            i <= before.len(),
            forall|x: Seq<char>| #[trigger] hidden(out@, x) <==> (!sv.contains(x) && exists|j: int|
                0 <= j < i && before[j]@ == x),
        decreases before.len() - i,
    {
        let h = &hidden_states[i];
        let present = state_hidden(&states, h);
        assert(present == sv.contains(h@)) by {
            if present {
                let w = choose|w: int| 0 <= w < states@.len() && #[trigger] states@[w]@ == h@;
                assert(sv[w] == h@);
            }
            if sv.contains(h@) {
                let w = choose|w: int| 0 <= w < sv.len() && sv[w] == h@;
                assert(states@[w]@ == h@);
            }
        }
        let ghost prev = out@;
        if !present {
            out.push(h.clone());
        }
        assert forall|x: Seq<char>| #[trigger] hidden(out@, x) <==> (!sv.contains(x) && exists|j: int|
            0 <= j < i + 1 && before[j]@ == x) by {
            if hidden(out@, x) {
                let w = choose|w: int| 0 <= w < out@.len() && #[trigger] out@[w]@ == x;
                if w < prev.len() {
                    assert(prev[w]@ == x);
                    assert(hidden(prev, x));
                }
            }
            if !sv.contains(x) && exists|j: int| 0 <= j < i + 1 && before[j]@ == x {
                let j = choose|j: int| 0 <= j < i + 1 && before[j]@ == x;
                if j < i {
                    assert(hidden(prev, x));
                    let w = choose|w: int| 0 <= w < prev.len() && #[trigger] prev[w]@ == x;
                    assert(out@[w]@ == x);
                } else {
                    assert(out@[prev.len() as int]@ == x);
                }
            }
        }
        i += 1;
    }
    let mut k: usize = 0;
    while k < states.len()
        invariant
            hidden_states@ == before,
            sv == string_views(states@),
            sv == distinct_states(wis@),
            k <= states@.len(),
            forall|x: Seq<char>| #[trigger] hidden(out@, x) <==> ((!sv.contains(x) && hidden(before, x)) || (
            exists|j: int| 0 <= j < k && sv[j] == x && !hidden(shown@, x))),
        decreases states@.len() - k,
    {
        let st = &states[k];
        let ticked = state_hidden(shown, st);
        let ghost prev = out@;
        if !ticked {
            out.push(st.clone());
        }
        assert(sv[k as int] == st@);
        assert forall|x: Seq<char>| #[trigger] hidden(out@, x) <==> ((!sv.contains(x) && hidden(before, x)) || (
        exists|j: int| 0 <= j < k + 1 && sv[j] == x && !hidden(shown@, x))) by {
            if hidden(out@, x) {
                let w = choose|w: int| 0 <= w < out@.len() && #[trigger] out@[w]@ == x;
                if w < prev.len() {
                    assert(prev[w]@ == x);
                    assert(hidden(prev, x));
                }
            }
            if (!sv.contains(x) && hidden(before, x)) || (exists|j: int| 0 <= j < k + 1 && sv[j] == x && !hidden(shown@, x)) {
                if !sv.contains(x) && hidden(before, x) {
                    assert(hidden(prev, x));
                    let w = choose|w: int| 0 <= w < prev.len() && #[trigger] prev[w]@ == x;
                    assert(out@[w]@ == x);
                } else {
                    let j = choose|j: int| 0 <= j < k + 1 && sv[j] == x && !hidden(shown@, x);
                    if j < k {
                        assert(hidden(prev, x));
                        let w = choose|w: int| 0 <= w < prev.len() && #[trigger] prev[w]@ == x;
                        assert(out@[w]@ == x);
                    } else {
                        assert(out@[prev.len() as int]@ == x);
                    }
                }
            }
        }
        k += 1;
    }
    assert forall|x: Seq<char>| #[trigger] hidden(out@, x) <==> if sv.contains(x) {
        !hidden(shown@, x)
    } else {
        hidden(before, x)
    } by {
        if sv.contains(x) && !hidden(shown@, x) {
            let j = choose|j: int| 0 <= j < sv.len() && sv[j] == x;
            assert(exists|q: int| 0 <= q < states@.len() && sv[q] == x && !hidden(shown@, x));
        }
    }
    *hidden_states = out;
}

/// The status line after the state checklist: how many states in view are hidden.
pub open spec fn states_toast_text(n: nat) -> Seq<char> {
    if n == 0 {
        "Showing all states"@
    } else {
        dec_nat(n) + " state(s) hidden"@
    }
}

/// "Showing all states", or "2 state(s) hidden".
pub fn states_toast(n: usize) -> (r: String)
    ensures
        r@ == states_toast_text(n as nat),
{
    if n == 0 {
        let r = "Showing all states".to_owned();
        proof {
            reveal_strlit("Showing all states");
        }
        return r;
    }
    let mut out = String::new();
    push_u64(&mut out, n as u64);
    push_str(&mut out, " state(s) hidden");
    proof {
        reveal_strlit(" state(s) hidden");
    }
    assert(out@ =~= states_toast_text(n as nat));
    out
}

/// The statuses the checklist leaves shown: those of `ids` that name a status.
pub fn shown_statuses(ids: &Vec<String>) -> (r: Vec<PullRequestStatus>)
    ensures
        forall|s: PullRequestStatus| #[trigger] r@.contains(s) <==> exists|i: int|
            0 <= i < ids@.len() && parse_pr_status_spec(ids@[i]@) == Some(s),
{
    let mut r: Vec<PullRequestStatus> = Vec::new();
    let mut i: usize = 0;
    while i < ids.len()
        invariant
            i <= ids@.len(),
            forall|s: PullRequestStatus| #[trigger] r@.contains(s) <==> exists|j: int|
                0 <= j < i && parse_pr_status_spec(ids@[j]@) == Some(s),
        decreases ids@.len() - i,
    {
        let ghost prev = r@;
        match parse_pr_status(ids[i].as_str()) {
            Some(s) => {
                r.push(s);
                assert forall|t: PullRequestStatus| #[trigger] r@.contains(t) <==> exists|j: int|
                    0 <= j < i + 1 && parse_pr_status_spec(ids@[j]@) == Some(t) by {
                    if r@.contains(t) {
                        let w = choose|w: int| 0 <= w < r@.len() && r@[w] == t;
                        if w < prev.len() {
                            assert(prev[w] == t);
                            assert(prev.contains(t));
                        }
                    }
                    if exists|j: int| 0 <= j < i + 1 && parse_pr_status_spec(ids@[j]@) == Some(t) {
                        let j = choose|j: int| 0 <= j < i + 1 && parse_pr_status_spec(ids@[j]@) == Some(t);
                        if j < i {
                            assert(prev.contains(t));
                            let w = choose|w: int| 0 <= w < prev.len() && prev[w] == t;
                            assert(r@[w] == t);
                        } else {
                            assert(r@[prev.len() as int] == t);
                        }
                    }
                }
            },
            None => {
                assert forall|t: PullRequestStatus| #[trigger] r@.contains(t) <==> exists|j: int|
                    0 <= j < i + 1 && parse_pr_status_spec(ids@[j]@) == Some(t) by {
                    if exists|j: int| 0 <= j < i + 1 && parse_pr_status_spec(ids@[j]@) == Some(t) {
                        let j = choose|j: int| 0 <= j < i + 1 && parse_pr_status_spec(ids@[j]@) == Some(t);
                        assert(j < i);
                    }
                }
            },
        }
        i += 1;
    }
    r
}


/// The "Show statuses" checklist: every status in display order, ticked when shown.
pub fn pr_status_items(shown: &Vec<PullRequestStatus>) -> (r: Vec<ToggleItem>)
    ensures
        r@.len() == 4,
        forall|i: int|
            0 <= i < 4 ==> (#[trigger] r@[i]).id@ == pr_status_text(pr_status_order()[i]) && r@[i].label@
                == pr_status_text(pr_status_order()[i]) && r@[i].on == shown@.contains(pr_status_order()[i]),
{
    let order = [PullRequestStatus::Open, PullRequestStatus::Draft, PullRequestStatus::Merged, PullRequestStatus::Closed];
    let mut r: Vec<ToggleItem> = Vec::new();
    let mut i: usize = 0;
    while i < 4
        invariant
            i <= 4,
            order@ == pr_status_order(),
            r@.len() == i,
            forall|j: int|
                0 <= j < i ==> (#[trigger] r@[j]).id@ == pr_status_text(pr_status_order()[j]) && r@[j].label@
                    == pr_status_text(pr_status_order()[j]) && r@[j].on == shown@.contains(pr_status_order()[j]),
        decreases 4 - i,
    {
        let st = order[i];
        let key = pr_status_key(st);
        let mut on = false;
        let mut k: usize = 0;
        while k < shown.len()
            invariant
                k <= shown@.len(),
                on == exists|q: int| 0 <= q < k && shown@[q] == st,
            decreases shown@.len() - k,
        {
            if shown[k] == st {
                on = true;
            }
            k += 1;
        }
        r.push(ToggleItem { id: key.to_owned(), label: key.to_owned(), on });
        i += 1;
    }
    r
}

/// Opening the "Show statuses" checklist and applying it unchanged shows the same
/// statuses.
pub proof fn lemma_status_checklist_round_trip(shown: Seq<PullRequestStatus>, items: Seq<ToggleItem>, ids: Seq<String>)
    requires
        items.len() == 4,
        forall|i: int|
            0 <= i < 4 ==> (#[trigger] items[i]).id@ == pr_status_text(pr_status_order()[i]) && items[i].on
                == shown.contains(pr_status_order()[i]),
        forall|s: String| #[trigger] ids.contains(s) ==> exists|i: int| 0 <= i < 4 && items[i].on && items[i].id@ == s@,
        forall|i: int| 0 <= i < 4 && #[trigger] items[i].on ==> exists|j: int| 0 <= j < ids.len() && ids[j]@ == items[i].id@,
    ensures
        forall|s: PullRequestStatus|
            (exists|j: int| 0 <= j < ids.len() && parse_pr_status_spec(ids[j]@) == Some(s)) <==> #[trigger] shown.contains(s),
{
    let order = pr_status_order();
    assert forall|s: PullRequestStatus|
        (exists|j: int| 0 <= j < ids.len() && parse_pr_status_spec(ids[j]@) == Some(s)) <==> #[trigger] shown.contains(s) by {
        let k: int = match s {
            PullRequestStatus::Open => 0,
            PullRequestStatus::Draft => 1,
            PullRequestStatus::Merged => 2,
            PullRequestStatus::Closed => 3,
        };
        assert(order[k] == s);
        lemma_pr_status_round_trip(s);
        if exists|j: int| 0 <= j < ids.len() && parse_pr_status_spec(ids[j]@) == Some(s) {
            let j = choose|j: int| 0 <= j < ids.len() && parse_pr_status_spec(ids[j]@) == Some(s);
            assert(ids.contains(ids[j]));
            let i = choose|i: int| 0 <= i < 4 && items[i].on && items[i].id@ == ids[j]@;
            lemma_pr_status_round_trip(order[i]);
            assert(parse_pr_status_spec(pr_status_text(order[i])) == Some(order[i]));
            assert(order[i] == s);
        }
        if shown.contains(s) {
            assert(items[k].on);
            let j = choose|j: int| 0 <= j < ids.len() && ids[j]@ == items[k].id@;
            assert(parse_pr_status_spec(ids[j]@) == Some(s));
        }
    }
}

/// The states offered before the current one is added: what the provider offered, else the
/// states seen in the list when there are at least two, else a plain three-step flow.
pub open spec fn offered_states(fetched: Seq<Seq<char>>, seen: Seq<Seq<char>>) -> Seq<Seq<char>> {
    if fetched.len() > 0 {
        fetched
    } else if seen.len() >= 2 {
        seen
    } else {
        seq!["Todo"@, "In Progress"@, "Done"@]
    }
}

/// The state picker's rows: the offered states, with a current state they lack put first.
pub open spec fn state_choices(fetched: Seq<Seq<char>>, seen: Seq<Seq<char>>, current: Seq<char>) -> Seq<Seq<char>> {
    let s = offered_states(fetched, seen);
    if current.len() > 0 && !s.contains(current) {
        seq![current] + s
    } else {
        s
    }
}

/// The state picker for a work item in state `current`: `fetched` are the states the
/// provider offers for it (empty when it offered none), `seen` the states in the list. The
/// cursor starts on the current state (on the first row when there is none).
pub fn wi_state_choices(fetched: Vec<String>, seen: Vec<String>, current: &String) -> (r: (Vec<String>, usize))
    ensures
        string_views(r.0@) == state_choices(string_views(fetched@), string_views(seen@), current@),
        r.1 < r.0@.len(),
        string_views(r.0@).contains(current@) ==> r.0@[r.1 as int]@ == current@ && forall|j: int|
            0 <= j < r.1 ==> (#[trigger] r.0@[j])@ != current@,
        !string_views(r.0@).contains(current@) ==> r.1 == 0,
{
    let mut states = if fetched.len() > 0 {
        fetched
    } else if seen.len() >= 2 {
        seen
    } else {
        let mut d: Vec<String> = Vec::new();
        d.push("Todo".to_owned());
        d.push("In Progress".to_owned());
        d.push("Done".to_owned());
        proof {
            assert(string_views(d@) =~= seq!["Todo"@, "In Progress"@, "Done"@]);
        }
        d
    };
    let ghost offered = string_views(states@);
    assert(offered == offered_states(string_views(fetched@), string_views(seen@)));
    let mut found = false;
    let mut pos: usize = 0;
    let mut i: usize = 0;
    while i < states.len()
        invariant
            i <= states@.len(),
            offered == string_views(states@),
            !found ==> forall|j: int| 0 <= j < i ==> (#[trigger] states@[j])@ != current@,
            found ==> pos < i && states@[pos as int]@ == current@ && forall|j: int|
                0 <= j < pos ==> (#[trigger] states@[j])@ != current@,
        decreases states@.len() - i,
    {
        if !found && states[i] == *current {
            found = true;
            pos = i;
        }
        i += 1;
    }
    proof {
        if found {
            assert(offered[pos as int] == current@);
        } else {
            assert forall|j: int| 0 <= j < offered.len() implies offered[j] != current@ by {
                assert(offered[j] == states@[j]@);
            }
        }
    }
    if !current.as_str().is_empty() && !found {
        states.insert(0, current.clone());
        proof {
            assert(string_views(states@) =~= seq![current@] + offered);
        }
        return (states, 0);
    }
    if !found {
        if states.len() == 0 {
            proof {
                assert(offered.len() > 0);
            }
        }
        return (states, 0);
    }
    (states, pos)
}

} // verus!
