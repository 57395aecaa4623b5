//! The Pipelines list: runs tagged with their connection, how they are labelled, matched
//! by the quick filter, grouped, and which of them call for a notification.
use vstd::prelude::*;

use crate::logs::string_views;
use crate::order::{
    before, directed, int_sign, key_sign, lemma_key_sign_basics, lemma_lex_sign, lemma_rows_kept,
    lex_sign, one_shape, rows_kept, same_shape, sort_rows, sorted_by, time_sign, SortKey, SortPref,
};
use crate::pipeline::{is_active_spec, PipelineApproval, PipelineRun, PipelineRunStatus};
use crate::text::{
    blank, chars_of, contains, contains_exec, dec_nat, is_blank, lowercase, push_char, push_str,
    occurs_at, push_u64, query_match, query_matches, str_eq, to_lowercase,
};
use crate::time::{clock_shape, local_clock, utc_minute, utc_minute_text, UtcTime};

verus! {

/// One pipeline run, tagged with the connection it came from (for the provider column).
pub struct PipeRow {
    pub connection_id: String,
    pub connection: String,
    /// The provider's name, as `ProviderType::as_str` spells it.
    pub provider: String,
    pub run: PipelineRun,
    /// The pipeline (definition) name, e.g. "CI Build", resolved from the run's
    /// definition id; distinct from the run's own name (e.g. a release like "10.1.100").
    pub definition_name: Option<String>,
    /// True when this run has a gate the authenticated user can approve/reject.
    pub awaiting_approval: bool,
}

// ---------------------------------------------------------------------------
// Grouping modes
// ---------------------------------------------------------------------------

/// How the Pipelines list groups its runs. Every mode shows the same runs, only arranged
/// differently; `Off` is the ungrouped list.
#[derive(Debug, Clone, Copy, PartialEq, Eq, Structural, Default)]
pub enum PipeGroup {
    /// One header per pipeline definition (the default).
    #[default]
    Pipeline,
    /// One header per trigger: the runs a single push or tag started together.
    Trigger,
    /// One header per branch.
    Branch,
    /// No grouping: one line per run.
    Off,
}

pub open spec fn pipe_group_text(g: PipeGroup) -> Seq<char> {
    match g {
        PipeGroup::Pipeline => "pipeline"@,
        PipeGroup::Trigger => "trigger"@,
        PipeGroup::Branch => "branch"@,
        PipeGroup::Off => "off"@,
    }
}

pub open spec fn pipe_group_parse(s: Seq<char>) -> PipeGroup {
    if s == "trigger"@ {
        PipeGroup::Trigger
    } else if s == "branch"@ {
        PipeGroup::Branch
    } else if s == "off"@ {
        PipeGroup::Off
    } else {
        PipeGroup::Pipeline
    }
}

pub open spec fn pipe_group_next(g: PipeGroup) -> PipeGroup {
    match g {
        PipeGroup::Pipeline => PipeGroup::Trigger,
        PipeGroup::Trigger => PipeGroup::Branch,
        PipeGroup::Branch => PipeGroup::Off,
        PipeGroup::Off => PipeGroup::Pipeline,
    }
}

impl PipeGroup {
    /// The persisted spelling. Kept stable: it lands in the user's config file.
    pub fn as_str(self) -> (r: &'static str)
        ensures
            r@ == pipe_group_text(self),
    {
        match self {
            PipeGroup::Pipeline => "pipeline",
            PipeGroup::Trigger => "trigger",
            PipeGroup::Branch => "branch",
            PipeGroup::Off => "off",
        }
    }

    /// Parses a persisted spelling. Anything unrecognised falls back to the default rather
    /// than erroring: a config written by a newer build must not break an older one.
    pub fn parse(s: &str) -> (r: PipeGroup)
        ensures
            r == pipe_group_parse(s@),
    {
        if str_eq(s, "trigger") {
            PipeGroup::Trigger
        } else if str_eq(s, "branch") {
            PipeGroup::Branch
        } else if str_eq(s, "off") {
            PipeGroup::Off
        } else {
            PipeGroup::Pipeline
        }
    }

    /// The `G` cycle: the default first, the ungrouped list last.
    pub fn next(self) -> (r: PipeGroup)
        ensures
            r == pipe_group_next(self),
    {
        match self {
            PipeGroup::Pipeline => PipeGroup::Trigger,
            PipeGroup::Trigger => PipeGroup::Branch,
            PipeGroup::Branch => PipeGroup::Off,
            PipeGroup::Off => PipeGroup::Pipeline,
        }
    }
}

/// A persisted grouping reads back as the grouping that was saved.
pub proof fn lemma_pipe_group_round_trip(g: PipeGroup)
    ensures
        pipe_group_parse(pipe_group_text(g)) == g,
{
    reveal_strlit("pipeline");
    reveal_strlit("trigger");
    reveal_strlit("branch");
    reveal_strlit("off");
    assert("pipeline"@.len() == 8);
    assert("trigger"@.len() == 7);
    assert("branch"@.len() == 6);
    assert("off"@.len() == 3);
}

/// The `G` cycle visits every mode and comes back after four presses.
pub proof fn lemma_pipe_group_cycle(g: PipeGroup)
    ensures
        pipe_group_next(pipe_group_next(pipe_group_next(pipe_group_next(g)))) == g,
        pipe_group_next(g) != g,
        pipe_group_next(pipe_group_next(g)) != g,
        pipe_group_next(pipe_group_next(pipe_group_next(g))) != g,
{
}

// ---------------------------------------------------------------------------
// Labels
// ---------------------------------------------------------------------------

/// The text of an optional string, or `""`.
pub open spec fn or_empty(o: Option<String>) -> Seq<char> {
    match o {
        Some(s) => s@,
        None => seq![],
    }
}

/// `#n`.
pub open spec fn hash_number(n: u64) -> Seq<char> {
    seq!['#'] + dec_nat(n as nat)
}

/// The pipeline (definition) name for a row: "CI Build", not the run's own name.
pub open spec fn definition_name_spec(p: PipeRow) -> Seq<char> {
    match p.definition_name {
        Some(d) => d@,
        None => match p.run.name {
            Some(n) => n@,
            None => p.run.definition_id@,
        },
    }
}

/// The pipeline (definition) name for a row. Shared with the renderer so the list and the
/// grouping can never disagree on identity.
pub fn pipe_definition_name(p: &PipeRow) -> (r: String)
    ensures
        r@ == definition_name_spec(*p),
{
    match &p.definition_name {
        Some(d) => d.clone(),
        None => match &p.run.name {
            Some(n) => n.clone(),
            None => p.run.definition_id.clone(),
        },
    }
}

pub open spec fn branch_label_spec(p: PipeRow) -> Seq<char> {
    match p.run.branch {
        Some(b) => if b@.len() > 0 {
            b@
        } else {
            "(no branch)"@
        },
        None => "(no branch)"@,
    }
}

/// A run's branch, or a marker when the provider gives none: never an empty cell.
pub fn pipe_branch_label(p: &PipeRow) -> (r: String)
    ensures
        r@ == branch_label_spec(*p),
{
    match &p.run.branch {
        Some(b) => if !b.as_str().is_empty() {
            b.clone()
        } else {
            "(no branch)".to_owned()
        },
        None => "(no branch)".to_owned(),
    }
}

pub open spec fn trigger_token_spec(p: PipeRow) -> Seq<char> {
    match p.run.commit_sha {
        Some(sha) if sha@.len() > 0 => sha@,
        _ => match p.run.started_at {
            Some(t) => match utc_minute_text(t.secs, t.nanos) {
                Some(m) => m,
                None => p.run.id@,
            },
            None => p.run.id@,
        },
    }
}

/// What identifies the trigger that started a run: the commit where the provider gives
/// one, otherwise the start time to the minute (UTC), otherwise the run id. Without the
/// fallbacks, providers that leave the commit empty would put every run in a group of its
/// own.
pub fn pipe_trigger_token(p: &PipeRow) -> (r: String)
    ensures
        r@ == trigger_token_spec(*p),
{
    if let Some(sha) = &p.run.commit_sha {
        if !sha.as_str().is_empty() {
            return sha.clone();
        }
    }
    match p.run.started_at {
        Some(t) => match utc_minute(t) {
            Some(m) => m,
            None => p.run.id.clone(),
        },
        None => p.run.id.clone(),
    }
}

pub open spec fn pipe_label_spec(p: PipeRow) -> Seq<char> {
    let name = match p.run.name {
        Some(n) => n@,
        None => p.run.definition_id@,
    };
    match p.run.number {
        Some(n) => name + seq![' '] + hash_number(n),
        None => name,
    }
}

/// `name #n` for a run in the list (the definition id when the run has no name).
pub fn pipe_label(pipe: &PipeRow) -> (r: String)
    ensures
        r@ == pipe_label_spec(*pipe),
{
    let mut out = match &pipe.run.name {
        Some(n) => n.clone(),
        None => pipe.run.definition_id.clone(),
    };
    if let Some(n) = pipe.run.number {
        push_char(&mut out, ' ');
        push_char(&mut out, '#');
        push_u64(&mut out, n);
    }
    out
}

pub open spec fn run_label_spec(run: PipelineRun) -> Seq<char> {
    let name = match run.name {
        Some(n) => if is_blank(n@) {
            None
        } else {
            Some(n@)
        },
        None => None,
    };
    match (name, run.number) {
        (Some(name), Some(n)) => if contains(name, hash_number(n)) {
            name
        } else {
            name + seq![' '] + hash_number(n)
        },
        (Some(name), None) => name,
        (None, Some(n)) => hash_number(n),
        (None, None) => "run "@ + run.id@,
    }
}

/// A run as one short name for a message: its name and number, without saying the number
/// twice when the name already holds it (`#9902`, not `#9902 #9902`).
pub fn run_label(run: &PipelineRun) -> (r: String)
    ensures
        r@ == run_label_spec(*run),
{
    let number: Option<String> = match run.number {
        Some(n) => {
            let mut s = String::new();
            push_char(&mut s, '#');
            push_u64(&mut s, n);
            assert(s@ =~= hash_number(n));
            Some(s)
        },
        None => None,
    };
    let name: Option<&String> = match &run.name {
        Some(n) => if blank(n.as_str()) {
            None
        } else {
            Some(n)
        },
        None => None,
    };
    match (name, number) {
        (Some(name), Some(num)) => {
            let nv = chars_of(name.as_str());
            let hv = chars_of(num.as_str());
            if contains_exec(nv.as_slice(), hv.as_slice()) {
                name.clone()
            } else {
                let mut out = name.clone();
                push_char(&mut out, ' ');
                push_str(&mut out, num.as_str());
                out
            }
        },
        (Some(name), None) => name.clone(),
        (None, Some(num)) => num,
        (None, None) => {
            let mut out = String::new();
            push_str(&mut out, "run ");
            push_str(&mut out, run.id.as_str());
            out
        },
    }
}

/// The `Debug` spelling of a status (the quick filter searches it).
pub open spec fn status_name(s: PipelineRunStatus) -> Seq<char> {
    match s {
        PipelineRunStatus::Queued => "Queued"@,
        PipelineRunStatus::Running => "Running"@,
        PipelineRunStatus::Succeeded => "Succeeded"@,
        PipelineRunStatus::PartiallySucceeded => "PartiallySucceeded"@,
        PipelineRunStatus::Failed => "Failed"@,
        PipelineRunStatus::Canceled => "Canceled"@,
    }
}

pub fn status_name_str(s: PipelineRunStatus) -> (r: &'static str)
    ensures
        r@ == status_name(s),
{
    match s {
        PipelineRunStatus::Queued => "Queued",
        PipelineRunStatus::Running => "Running",
        PipelineRunStatus::Succeeded => "Succeeded",
        PipelineRunStatus::PartiallySucceeded => "PartiallySucceeded",
        PipelineRunStatus::Failed => "Failed",
        PipelineRunStatus::Canceled => "Canceled",
    }
}

/// Everything a Pipelines row can show, space-separated: what the quick filter searches.
pub open spec fn pipe_hay(p: PipeRow) -> Seq<char> {
    (match p.run.name {
        Some(n) => n@,
        None => p.run.definition_id@,
    }) + seq![' '] + or_empty(p.definition_name) + seq![' '] + or_empty(p.run.repository) + seq![' ']
        + p.provider@ + seq![' '] + p.connection@ + seq![' '] + or_empty(p.run.branch) + seq![' ']
        + status_name(p.run.status)
}

/// The quick filter searches what a Pipelines row shows: its pipeline (definition) name, its
/// repository and its branch each stand in the searched text as a word of their own,
/// between spaces, beside the run's name, provider, connection and status.
/// The quick filter searches what a Pipelines row shows: its pipeline (definition) name, its
/// repository and its branch each stand in the searched text as a word of their own,
/// between spaces, beside the run's name, provider and connection.
pub proof fn lemma_the_filter_searches_the_pipeline_column(p: PipeRow)
    ensures
        p.definition_name matches Some(d) ==> contains(pipe_hay(p), seq![' '] + d@ + seq![' ']),
        p.run.repository matches Some(r) ==> contains(pipe_hay(p), seq![' '] + r@ + seq![' ']),
        p.run.branch matches Some(b) ==> contains(pipe_hay(p), seq![' '] + b@ + seq![' ']),
        contains(pipe_hay(p), seq![' '] + p.connection@ + seq![' ']),
        contains(pipe_hay(p), seq![' '] + p.provider@ + seq![' ']),
        contains(pipe_hay(p), (match p.run.name {
            Some(n) => n@,
            None => p.run.definition_id@,
        }) + seq![' ']),
        contains(pipe_hay(p), seq![' '] + status_name(p.run.status)),
{
    let name = match p.run.name {
        Some(n) => n@,
        None => p.run.definition_id@,
    };
    let sp = seq![' '];
    let d = or_empty(p.definition_name);
    let r = or_empty(p.run.repository);
    let b = or_empty(p.run.branch);
    let v = p.provider@;
    let c = p.connection@;
    let st = status_name(p.run.status);
    assert(pipe_hay(p) == name + sp + d + sp + r + sp + v + sp + c + sp + b + sp + st);
    assert(contains(pipe_hay(p), name + sp)) by {
        lemma_ends_with(seq![], name + sp);
        assert(seq![] + (name + sp) =~= name + sp);
        lemma_extended(name + sp, name + sp, d);
        lemma_extended(name + sp + d, name + sp, sp);
        lemma_extended(name + sp + d + sp, name + sp, r);
        lemma_extended(name + sp + d + sp + r, name + sp, sp);
        lemma_extended(name + sp + d + sp + r + sp, name + sp, v);
        lemma_extended(name + sp + d + sp + r + sp + v, name + sp, sp);
        lemma_extended(name + sp + d + sp + r + sp + v + sp, name + sp, c);
        lemma_extended(name + sp + d + sp + r + sp + v + sp + c, name + sp, sp);
        lemma_extended(name + sp + d + sp + r + sp + v + sp + c + sp, name + sp, b);
        lemma_extended(name + sp + d + sp + r + sp + v + sp + c + sp + b, name + sp, sp);
        lemma_extended(name + sp + d + sp + r + sp + v + sp + c + sp + b + sp, name + sp, st);
    }
    assert(contains(pipe_hay(p), sp + st)) by {
        lemma_ends_with(name + sp + d + sp + r + sp + v + sp + c + sp + b, sp + st);
        vstd::seq_lib::lemma_concat_associative(name + sp + d + sp + r + sp + v + sp + c + sp + b, sp, st);
    }
    assert(contains(pipe_hay(p), sp + d + sp)) by {
        lemma_ends_with(name, sp + d + sp);
        vstd::seq_lib::lemma_concat_associative(name, sp + d, sp);
        vstd::seq_lib::lemma_concat_associative(name, sp, d);
        lemma_extended(name + sp + d + sp, sp + d + sp, r);
        lemma_extended(name + sp + d + sp + r, sp + d + sp, sp);
        lemma_extended(name + sp + d + sp + r + sp, sp + d + sp, v);
        lemma_extended(name + sp + d + sp + r + sp + v, sp + d + sp, sp);
        lemma_extended(name + sp + d + sp + r + sp + v + sp, sp + d + sp, c);
        lemma_extended(name + sp + d + sp + r + sp + v + sp + c, sp + d + sp, sp);
        lemma_extended(name + sp + d + sp + r + sp + v + sp + c + sp, sp + d + sp, b);
        lemma_extended(name + sp + d + sp + r + sp + v + sp + c + sp + b, sp + d + sp, sp);
        lemma_extended(name + sp + d + sp + r + sp + v + sp + c + sp + b + sp, sp + d + sp, st);
    }
    assert(contains(pipe_hay(p), sp + r + sp)) by {
        lemma_ends_with(name + sp + d, sp + r + sp);
        vstd::seq_lib::lemma_concat_associative(name + sp + d, sp + r, sp);
        vstd::seq_lib::lemma_concat_associative(name + sp + d, sp, r);
        lemma_extended(name + sp + d + sp + r + sp, sp + r + sp, v);
        lemma_extended(name + sp + d + sp + r + sp + v, sp + r + sp, sp);
        lemma_extended(name + sp + d + sp + r + sp + v + sp, sp + r + sp, c);
        lemma_extended(name + sp + d + sp + r + sp + v + sp + c, sp + r + sp, sp);
        lemma_extended(name + sp + d + sp + r + sp + v + sp + c + sp, sp + r + sp, b);
        lemma_extended(name + sp + d + sp + r + sp + v + sp + c + sp + b, sp + r + sp, sp);
        lemma_extended(name + sp + d + sp + r + sp + v + sp + c + sp + b + sp, sp + r + sp, st);
    }
    assert(contains(pipe_hay(p), sp + v + sp)) by {
        lemma_ends_with(name + sp + d + sp + r, sp + v + sp);
        vstd::seq_lib::lemma_concat_associative(name + sp + d + sp + r, sp + v, sp);
        vstd::seq_lib::lemma_concat_associative(name + sp + d + sp + r, sp, v);
        lemma_extended(name + sp + d + sp + r + sp + v + sp, sp + v + sp, c);
        lemma_extended(name + sp + d + sp + r + sp + v + sp + c, sp + v + sp, sp);
        lemma_extended(name + sp + d + sp + r + sp + v + sp + c + sp, sp + v + sp, b);
        lemma_extended(name + sp + d + sp + r + sp + v + sp + c + sp + b, sp + v + sp, sp);
        lemma_extended(name + sp + d + sp + r + sp + v + sp + c + sp + b + sp, sp + v + sp, st);
    }
    assert(contains(pipe_hay(p), sp + c + sp)) by {
        lemma_ends_with(name + sp + d + sp + r + sp + v, sp + c + sp);
        vstd::seq_lib::lemma_concat_associative(name + sp + d + sp + r + sp + v, sp + c, sp);
        vstd::seq_lib::lemma_concat_associative(name + sp + d + sp + r + sp + v, sp, c);
        lemma_extended(name + sp + d + sp + r + sp + v + sp + c + sp, sp + c + sp, b);
        lemma_extended(name + sp + d + sp + r + sp + v + sp + c + sp + b, sp + c + sp, sp);
        lemma_extended(name + sp + d + sp + r + sp + v + sp + c + sp + b + sp, sp + c + sp, st);
    }
    assert(contains(pipe_hay(p), sp + b + sp)) by {
        lemma_ends_with(name + sp + d + sp + r + sp + v + sp + c, sp + b + sp);
        vstd::seq_lib::lemma_concat_associative(name + sp + d + sp + r + sp + v + sp + c, sp + b, sp);
        vstd::seq_lib::lemma_concat_associative(name + sp + d + sp + r + sp + v + sp + c, sp, b);
        lemma_extended(name + sp + d + sp + r + sp + v + sp + c + sp + b + sp, sp + b + sp, st);
    }
}

/// `m` occurs at the end of `x + m`.
pub proof fn lemma_ends_with(x: Seq<char>, m: Seq<char>)
    ensures
        contains(x + m, m),
{
    assert((x + m).subrange(x.len() as int, (x.len() + m.len()) as int) =~= m);
    assert(occurs_at(x + m, m, x.len() as int));
}

/// What occurs in `s` still occurs once `t` is appended.
pub proof fn lemma_extended(s: Seq<char>, m: Seq<char>, t: Seq<char>)
    ensures
        contains(s, m) ==> contains(s + t, m),
{
    if contains(s, m) {
        let i = choose|i: int| occurs_at(s, m, i);
        assert((s + t).subrange(i, i + m.len()) =~= s.subrange(i, i + m.len()));
        assert(occurs_at(s + t, m, i));
    }
}


fn push_opt(out: &mut String, o: &Option<String>)
    ensures
        final(out)@ == old(out)@ + or_empty(*o),
{
    if let Some(s) = o {
        push_str(out, s.as_str());
    } else {
        assert(old(out)@ + or_empty(*o) =~= old(out)@);
    }
}

/// Quick-filter match for a run: every token of `q` (already lowercased) must occur in
/// what the row can show, so `/forgetop` finds the Repository column and `/integration` the
/// Pipeline column. An empty query matches everything.
pub fn pipe_matches(p: &PipeRow, q: &str) -> (r: bool)
    ensures
        r == query_matches(pipe_hay(*p), q@),
        p.definition_name matches Some(d) ==> contains(pipe_hay(*p), seq![' '] + d@ + seq![' ']),
        p.run.repository matches Some(rp) ==> contains(pipe_hay(*p), seq![' '] + rp@ + seq![' ']),
        p.run.branch matches Some(b) ==> contains(pipe_hay(*p), seq![' '] + b@ + seq![' ']),
{
    proof {
        lemma_the_filter_searches_the_pipeline_column(*p);
    }
    let mut hay = match &p.run.name {
        Some(n) => n.clone(),
        None => p.run.definition_id.clone(),
    };
    push_char(&mut hay, ' ');
    push_opt(&mut hay, &p.definition_name);
    push_char(&mut hay, ' ');
    push_opt(&mut hay, &p.run.repository);
    push_char(&mut hay, ' ');
    push_str(&mut hay, p.provider.as_str());
    push_char(&mut hay, ' ');
    push_str(&mut hay, p.connection.as_str());
    push_char(&mut hay, ' ');
    push_opt(&mut hay, &p.run.branch);
    push_char(&mut hay, ' ');
    push_str(&mut hay, status_name_str(p.run.status));
    assert(hay@ =~= pipe_hay(*p));
    query_match(hay.as_str(), q)
}


// ---------------------------------------------------------------------------
// What a refresh tells the user about
// ---------------------------------------------------------------------------

/// The status the previous refresh recorded for run `id` (the first entry for it).
pub open spec fn seen_status(prev: Seq<(String, PipelineRunStatus)>, id: Seq<char>) -> Option<
    PipelineRunStatus,
>
    decreases prev.len(),
{
    if prev.len() == 0 {
        None
    } else if prev[0].0@ == id {
        Some(prev[0].1)
    } else {
        seen_status(prev.drop_first(), id)
    }
}

/// Whether `p` is a failure the previous refresh had not seen as one.
pub open spec fn is_new_failure(prev: Seq<(String, PipelineRunStatus)>, p: PipeRow) -> bool {
    p.run.status == PipelineRunStatus::Failed && seen_status(prev, p.run.id@) != Some(
        PipelineRunStatus::Failed,
    )
}

/// The runs of `pipes` that failed since the previous refresh, in order.
pub open spec fn new_failures(prev: Seq<(String, PipelineRunStatus)>, pipes: Seq<PipeRow>) -> Seq<
    PipeRow,
>
    decreases pipes.len(),
{
    if pipes.len() == 0 {
        seq![]
    } else {
        new_failures(prev, pipes.drop_last()) + if is_new_failure(prev, pipes.last()) {
            seq![pipes.last()]
        } else {
            seq![]
        }
    }
}

fn seen_status_exec(prev: &Vec<(String, PipelineRunStatus)>, id: &String) -> (r: Option<
    PipelineRunStatus,
>)
    ensures
        r == seen_status(prev@, id@),
{
    let mut i: usize = 0;
    assert(prev@.skip(0) =~= prev@);
    while i < prev.len()
        invariant
            i <= prev@.len(),
            seen_status(prev@, id@) == seen_status(prev@.skip(i as int), id@),
        decreases prev@.len() - i,
    {
        assert(prev@.skip(i as int).drop_first() =~= prev@.skip(i + 1));
        if prev[i].0 == *id {
            return Some(prev[i].1);
        }
        i += 1;
    }
    None
}

/// Runs that are Failed now but weren't Failed at the previous refresh. `prev` holds each
/// run id the previous refresh saw with its status.
pub fn new_pipeline_failures<'a>(prev: &Vec<(String, PipelineRunStatus)>, pipes: &'a [PipeRow]) -> (out: Vec<&'a PipeRow>)
    ensures
        out@.len() == new_failures(prev@, pipes@).len(),
        forall|i: int| 0 <= i < out@.len() ==> *out@[i] == new_failures(prev@, pipes@)[i],
{
    let mut out: Vec<&PipeRow> = Vec::new();
    let mut i: usize = 0;
    while i < pipes.len()
        invariant
            i <= pipes@.len(),
            out@.len() == new_failures(prev@, pipes@.take(i as int)).len(),
            forall|j: int| 0 <= j < out@.len() ==> *out@[j] == new_failures(prev@, pipes@.take(i as int))[j],
        decreases pipes@.len() - i,
    {
        let r = &pipes[i];
        assert(pipes@.take(i + 1).drop_last() == pipes@.take(i as int));
        assert(pipes@.take(i + 1).last() == pipes@[i as int]);
        if r.run.status == PipelineRunStatus::Failed {
            match seen_status_exec(prev, &r.run.id) {
                Some(PipelineRunStatus::Failed) => {},
                _ => out.push(r),
            }
        }
        i += 1;
    }
    assert(pipes@.take(i as int) == pipes@);
    out
}

/// Whether the previous refresh already saw run `run` of connection `conn` awaiting approval.
pub open spec fn seen_pair(prev: Seq<(String, String)>, conn: Seq<char>, run: Seq<char>) -> bool {
    exists|i: int| 0 <= i < prev.len() && #[trigger] prev[i].0@ == conn && prev[i].1@ == run
}

pub open spec fn is_new_approval(prev: Seq<(String, String)>, p: PipeRow) -> bool {
    p.awaiting_approval && !seen_pair(prev, p.connection_id@, p.run.id@)
}

/// The runs of `pipes` awaiting the user's approval that weren't at the previous refresh.
pub open spec fn new_approvals(prev: Seq<(String, String)>, pipes: Seq<PipeRow>) -> Seq<PipeRow>
    decreases pipes.len(),
{
    if pipes.len() == 0 {
        seq![]
    } else {
        new_approvals(prev, pipes.drop_last()) + if is_new_approval(prev, pipes.last()) {
            seq![pipes.last()]
        } else {
            seq![]
        }
    }
}

pub(crate) fn seen_pair_exec(prev: &Vec<(String, String)>, conn: &String, run: &String) -> (r: bool)
    ensures
        r == seen_pair(prev@, conn@, run@),
{
    let mut i: usize = 0;
    while i < prev.len()
        invariant
            i <= prev@.len(),
            forall|j: int| 0 <= j < i ==> !(#[trigger] prev@[j].0@ == conn@ && prev@[j].1@ == run@),
        decreases prev@.len() - i,
    {
        if prev[i].0 == *conn && prev[i].1 == *run {
            return true;
        }
        i += 1;
    }
    false
}

/// Runs awaiting the user's approval now that weren't at the previous refresh. `prev`
/// holds the (connection id, run id) pairs the previous refresh saw awaiting approval.
pub fn new_pending_approvals<'a>(prev: &Vec<(String, String)>, pipes: &'a [PipeRow]) -> (out: Vec<&'a PipeRow>)
    ensures
        out@.len() == new_approvals(prev@, pipes@).len(),
        forall|i: int| 0 <= i < out@.len() ==> *out@[i] == new_approvals(prev@, pipes@)[i],
{
    let mut out: Vec<&PipeRow> = Vec::new();
    let mut i: usize = 0;
    while i < pipes.len()
        invariant
            i <= pipes@.len(),
            out@.len() == new_approvals(prev@, pipes@.take(i as int)).len(),
            forall|j: int| 0 <= j < out@.len() ==> *out@[j] == new_approvals(prev@, pipes@.take(i as int))[j],
        decreases pipes@.len() - i,
    {
        let r = &pipes[i];
        assert(pipes@.take(i + 1).drop_last() == pipes@.take(i as int));
        assert(pipes@.take(i + 1).last() == pipes@[i as int]);
        if r.awaiting_approval && !seen_pair_exec(prev, &r.connection_id, &r.run.id) {
            out.push(r);
        }
        i += 1;
    }
    assert(pipes@.take(i as int) == pipes@);
    out
}

/// Identifies one job's log fetch, to match an answer to the fetch that is in flight.
pub open spec fn log_fetch_key_spec(conn_id: Seq<char>, run_id: Seq<char>, job_id: Seq<char>) -> Seq<char> {
    conn_id + seq!['\u{1f}'] + run_id + seq!['\u{1f}'] + job_id
}

/// Identifies one job's log fetch, to match an answer to the fetch that is in flight.
pub fn log_fetch_key(conn_id: &str, run_id: &str, job_id: &str) -> (r: String)
    ensures
        r@ == log_fetch_key_spec(conn_id@, run_id@, job_id@),
{
    let mut out = conn_id.to_owned();
    push_char(&mut out, '\u{1f}');
    push_str(&mut out, run_id);
    push_char(&mut out, '\u{1f}');
    push_str(&mut out, job_id);
    out
}

/// A row's `awaiting_approval`, plus whether the approvals call that decided it succeeded.
/// `None` means the call failed: the row reads as "no gate pending", but the caller must not
/// cache that guess, so the second element is what clears the section's flag.
pub fn gate_from_approvals(gates: Option<Vec<PipelineApproval>>) -> (r: (bool, bool))
    ensures
        r == match gates {
            Some(g) => (exists|i: int| 0 <= i < g@.len() && #[trigger] g@[i].can_respond, true),
            None => (false, false),
        },
{
    match gates {
        Some(g) => {
            let mut any = false;
            let mut i: usize = 0;
            while i < g.len()
                invariant
                    i <= g@.len(),
                    any == exists|j: int| 0 <= j < i && #[trigger] g@[j].can_respond,
                decreases g@.len() - i,
            {
                if g[i].can_respond {
                    any = true;
                }
                i += 1;
            }
            (any, true)
        },
        None => (false, false),
    }
}

/// Whether two fetches of a run agree on what a revalidation is most likely to move: the
/// run's status and each stage's and job's status (not steps, times, texts or links).
pub open spec fn run_statuses_match(a: PipelineRun, b: PipelineRun) -> bool {
    &&& a.status == b.status
    &&& a.stages@.len() == b.stages@.len()
    &&& forall|s: int|
        0 <= s < a.stages@.len() ==> {
            &&& (#[trigger] a.stages@[s]).status == b.stages@[s].status
            &&& a.stages@[s].jobs@.len() == b.stages@[s].jobs@.len()
            &&& forall|j: int|
                0 <= j < a.stages@[s].jobs@.len() ==> (#[trigger] a.stages@[s].jobs@[j]).status
                    == b.stages@[s].jobs@[j].status
        }
}

/// Whether a refetched run would look the same in the tree (see `run_statuses_match`).
pub fn pipeline_run_matches(a: &PipelineRun, b: &PipelineRun) -> (r: bool)
    ensures
        r == run_statuses_match(*a, *b),
{
    if a.status != b.status || a.stages.len() != b.stages.len() {
        return false;
    }
    let mut s: usize = 0;
    while s < a.stages.len()
        invariant
            a.stages@.len() == b.stages@.len(),
            s <= a.stages@.len(),
            forall|t: int|
                0 <= t < s ==> {
                    &&& (#[trigger] a.stages@[t]).status == b.stages@[t].status
                    &&& a.stages@[t].jobs@.len() == b.stages@[t].jobs@.len()
                    &&& forall|j: int|
                        0 <= j < a.stages@[t].jobs@.len() ==> (#[trigger] a.stages@[t].jobs@[j]).status
                            == b.stages@[t].jobs@[j].status
                },
        decreases a.stages@.len() - s,
    {
        let x = &a.stages[s];
        let y = &b.stages[s];
        if x.status != y.status || x.jobs.len() != y.jobs.len() {
            return false;
        }
        let mut j: usize = 0;
        while j < x.jobs.len()
            invariant
                s < a.stages@.len(),
                a.stages@.len() == b.stages@.len(),
                *x == a.stages@[s as int],
                *y == b.stages@[s as int],
                x.jobs@.len() == y.jobs@.len(),
                j <= x.jobs@.len(),
                forall|k: int| 0 <= k < j ==> (#[trigger] x.jobs@[k]).status == y.jobs@[k].status,
            decreases x.jobs@.len() - j,
        {
            if x.jobs[j].status != y.jobs[j].status {
                assert(a.stages@[s as int].jobs@[j as int].status != b.stages@[s as int].jobs@[j as int].status);
                assert(!run_statuses_match(*a, *b));
                return false;
            }
            j += 1;
        }
        s += 1;
    }
    true
}


// ---------------------------------------------------------------------------
// Sorting the list
// ---------------------------------------------------------------------------

/// Status order for the Status column: failures first, successes last.
pub open spec fn pipe_status_rank(s: PipelineRunStatus) -> int {
    match s {
        PipelineRunStatus::Failed => 0,
        PipelineRunStatus::Canceled => 1,
        PipelineRunStatus::Running => 2,
        PipelineRunStatus::Queued => 3,
        PipelineRunStatus::PartiallySucceeded => 4,
        PipelineRunStatus::Succeeded => 5,
    }
}

pub fn pipe_status_rank_exec(s: PipelineRunStatus) -> (r: u8)
    ensures
        r == pipe_status_rank(s),
{
    match s {
        PipelineRunStatus::Failed => 0,
        PipelineRunStatus::Canceled => 1,
        PipelineRunStatus::Running => 2,
        PipelineRunStatus::Queued => 3,
        PipelineRunStatus::PartiallySucceeded => 4,
        PipelineRunStatus::Succeeded => 5,
    }
}

/// How two runs compare on column `col` (-1, 0 or 1): start time, status rank, or the
/// lowercased text of the column; `provider` breaks ties by connection name. An unknown
/// column compares everything equal.
pub open spec fn pipe_sign(a: PipeRow, b: PipeRow, col: Seq<char>) -> int {
    if col == "started"@ {
        time_sign(a.run.started_at, b.run.started_at)
    } else if col == "status"@ {
        int_sign(pipe_status_rank(a.run.status), pipe_status_rank(b.run.status))
    } else if col == "pipeline"@ {
        lex_sign(lowercase(definition_name_spec(a)), lowercase(definition_name_spec(b)))
    } else if col == "repository"@ {
        lex_sign(lowercase(or_empty(a.run.repository)), lowercase(or_empty(b.run.repository)))
    } else if col == "provider"@ {
        let s = lex_sign(lowercase(a.provider@), lowercase(b.provider@));
        if s != 0 {
            s
        } else {
            lex_sign(lowercase(a.connection@), lowercase(b.connection@))
        }
    } else if col == "branch"@ {
        lex_sign(lowercase(or_empty(a.run.branch)), lowercase(or_empty(b.run.branch)))
    } else {
        0
    }
}

/// `k` is row `p`'s key for column `col`.
pub open spec fn pipe_key_of(k: SortKey, p: PipeRow, col: Seq<char>) -> bool {
    if col == "started"@ {
        k == SortKey::Time(p.run.started_at)
    } else if col == "status"@ {
        k matches SortKey::Rank(r) && r == pipe_status_rank(p.run.status)
    } else if col == "pipeline"@ {
        k matches SortKey::Text(t) && t@ == lowercase(definition_name_spec(p))
    } else if col == "repository"@ {
        k matches SortKey::Text(t) && t@ == lowercase(or_empty(p.run.repository))
    } else if col == "provider"@ {
        k matches SortKey::TextText(t, u) && t@ == lowercase(p.provider@) && u@ == lowercase(p.connection@)
    } else if col == "branch"@ {
        k matches SortKey::Text(t) && t@ == lowercase(or_empty(p.run.branch))
    } else {
        k is Unsorted
    }
}

pub proof fn lemma_pipe_keys(k1: SortKey, k2: SortKey, a: PipeRow, b: PipeRow, col: Seq<char>)
    requires
        pipe_key_of(k1, a, col),
        pipe_key_of(k2, b, col),
    ensures
        same_shape(k1, k2),
        key_sign(k1, k2) == pipe_sign(a, b, col),
{
    if col == "provider"@ {
        lemma_lex_sign(lowercase(a.provider@), lowercase(b.provider@));
    }
}

fn lower_chars(s: &str) -> (v: Vec<char>)
    ensures
        v@ == lowercase(s@),
{
    let l = to_lowercase(s);
    chars_of(l.as_str())
}

fn opt_text(o: &Option<String>) -> (r: &str)
    ensures
        r@ == or_empty(*o),
{
    match o {
        Some(s) => s.as_str(),
        None => {
            proof {
                reveal_strlit("");
            }
            ""
        },
    }
}

/// Row `p`'s key for the column `col`.
pub fn pipe_sort_key(p: &PipeRow, col: &str) -> (k: SortKey)
    ensures
        pipe_key_of(k, *p, col@),
{
    if str_eq(col, "started") {
        SortKey::Time(p.run.started_at)
    } else if str_eq(col, "status") {
        SortKey::Rank(pipe_status_rank_exec(p.run.status))
    } else if str_eq(col, "pipeline") {
        let name = pipe_definition_name(p);
        SortKey::Text(lower_chars(name.as_str()))
    } else if str_eq(col, "repository") {
        SortKey::Text(lower_chars(opt_text(&p.run.repository)))
    } else if str_eq(col, "provider") {
        SortKey::TextText(lower_chars(p.provider.as_str()), lower_chars(p.connection.as_str()))
    } else if str_eq(col, "branch") {
        SortKey::Text(lower_chars(opt_text(&p.run.branch)))
    } else {
        SortKey::Unsorted
    }
}

/// Row `x` comes before row `y` when sorting the runs on `col`.
pub open spec fn pipe_before(pipes: Seq<PipeRow>, col: Seq<char>, desc: bool, x: int, y: int) -> bool {
    let s = directed(pipe_sign(pipes[x], pipes[y], col), desc);
    s < 0 || (s == 0 && x < y)
}

/// The rows the quick filter `q` keeps, in list order.
pub open spec fn pipes_matching(pipes: Seq<PipeRow>, q: Seq<char>) -> Seq<usize> {
    rows_kept(|i: int| query_matches(pipe_hay(pipes[i]), q), pipes.len() as int)
}

/// `out` lists exactly the rows of `rows`, each once, ordered by `col`.
pub open spec fn pipes_sorted(pipes: Seq<PipeRow>, rows: Seq<usize>, col: Seq<char>, desc: bool, out: Seq<usize>) -> bool {
    &&& out.len() == rows.len()
    &&& forall|x: usize| #[trigger] out.contains(x) <==> rows.contains(x)
    &&& forall|i: int, j: int| 0 <= i < j < out.len() ==> pipe_before(pipes, col, desc, #[trigger] out[i] as int, #[trigger] out[j] as int)
}

/// Orders the rows `rows` (ascending) of `pipes` by column `col`, stably.
pub fn sort_pipe_rows(pipes: &[PipeRow], rows: Vec<usize>, col: &str, desc: bool) -> (out: Vec<usize>)
    requires
        forall|i: int| 0 <= i < rows@.len() ==> (#[trigger] rows@[i]) < pipes@.len(),
        forall|i: int, j: int| 0 <= i < j < rows@.len() ==> #[trigger] rows@[i] < #[trigger] rows@[j],
    ensures
        pipes_sorted(pipes@, rows@, col@, desc, out@),
{
    let mut keys: Vec<SortKey> = Vec::new();
    let mut i: usize = 0;
    while i < pipes.len()
        invariant
            i <= pipes@.len(),
            keys@.len() == i,
            forall|j: int| 0 <= j < i ==> pipe_key_of(#[trigger] keys@[j], pipes@[j], col@),
        decreases pipes@.len() - i,
    {
        keys.push(pipe_sort_key(&pipes[i], col));
        i += 1;
    }
    assert forall|a: int, b: int| 0 <= a < keys@.len() && 0 <= b < keys@.len() implies same_shape(#[trigger] keys@[a], #[trigger] keys@[b]) by {
        lemma_pipe_keys(keys@[a], keys@[b], pipes@[a], pipes@[b], col@);
    }
    let out = sort_rows(rows, &keys, desc);
    assert forall|i: int, j: int| 0 <= i < j < out@.len() implies pipe_before(pipes@, col@, desc, #[trigger] out@[i] as int, #[trigger] out@[j] as int) by {
        assert(before(keys@, desc, out@[i] as int, out@[j] as int));
        assert(out@.contains(out@[i]) && out@.contains(out@[j]));
        let wi = choose|w: int| 0 <= w < rows@.len() && #[trigger] rows@[w] == out@[i];
        let wj = choose|w: int| 0 <= w < rows@.len() && #[trigger] rows@[w] == out@[j];
        lemma_pipe_keys(keys@[out@[i] as int], keys@[out@[j] as int], pipes@[out@[i] as int], pipes@[out@[j] as int], col@);
    }
    out
}

/// Row indices of the Pipelines list matching its quick filter (all rows if empty), in the
/// chosen sort order (list order without one).
pub fn filtered_pipe_indices(pipes: &[PipeRow], filter: &str, sort: &Option<SortPref>) -> (out: Vec<usize>)
    ensures
        ({
            let rows = pipes_matching(pipes@, lowercase(filter@));
            match sort {
                None => out@ == rows,
                Some(s) => pipes_sorted(pipes@, rows, s.key@, s.desc, out@),
            }
        }),
        match sort {
            Some(s) => (s.key@ == "started"@ ==> pipes_ordered_by(
                pipes@,
                out@,
                s.desc,
                |a: PipeRow, b: PipeRow| time_sign(a.run.started_at, b.run.started_at),
            )) && (s.key@ == "status"@ ==> pipes_ordered_by(
                pipes@,
                out@,
                s.desc,
                |a: PipeRow, b: PipeRow| int_sign(pipe_status_rank(a.run.status), pipe_status_rank(b.run.status)),
            )) && (s.key@ == "branch"@ ==> pipes_ordered_by(
                pipes@,
                out@,
                s.desc,
                |a: PipeRow, b: PipeRow| lex_sign(lowercase(or_empty(a.run.branch)), lowercase(or_empty(b.run.branch))),
            )) && (s.key@ == "pipeline"@ ==> pipes_ordered_by(
                pipes@,
                out@,
                s.desc,
                |a: PipeRow, b: PipeRow| lex_sign(lowercase(definition_name_spec(a)), lowercase(definition_name_spec(b))),
            )) && (s.key@ == "repository"@ ==> pipes_ordered_by(
                pipes@,
                out@,
                s.desc,
                |a: PipeRow, b: PipeRow| lex_sign(lowercase(or_empty(a.run.repository)), lowercase(or_empty(b.run.repository))),
            )) && (s.key@ == "provider"@ ==> pipes_ordered_by(
                pipes@,
                out@,
                s.desc,
                |a: PipeRow, b: PipeRow| lex_sign(lowercase(a.provider@), lowercase(b.provider@)),
            )),
            None => true,
        },
{
    let q = to_lowercase(filter);
    let ghost keep = |i: int| query_matches(pipe_hay(pipes@[i]), q@);
    let mut idx: Vec<usize> = Vec::new();
    let mut i: usize = 0;
    while i < pipes.len()
        invariant
            q@ == lowercase(filter@),
            keep == (|i: int| query_matches(pipe_hay(pipes@[i]), q@)),
            i <= pipes@.len(),
            idx@ == rows_kept(keep, i as int),
        decreases pipes@.len() - i,
    {
        if pipe_matches(&pipes[i], q.as_str()) {
            idx.push(i);
        }
        i += 1;
    }
    proof {
        lemma_rows_kept(keep, pipes@.len() as int);
    }
    match sort {
        None => idx,
        Some(s) => {
            let out = sort_pipe_rows(pipes, idx, s.key.as_str(), s.desc);
            proof {
                lemma_pipe_sorts(pipes@, out@, s.desc, s.key@);
            }
            out
        },
    }
}

/// Rows `out` of `pipes` never step down under the comparison `sign` (-1, 0 or 1):
/// ascending, or never step up when `desc`.
pub open spec fn pipes_ordered_by(pipes: Seq<PipeRow>, out: Seq<usize>, desc: bool, sign: spec_fn(PipeRow, PipeRow) -> int) -> bool {
    forall|i: int, j: int|
        0 <= i < j < out.len() ==> directed(sign(pipes[#[trigger] out[i] as int], pipes[#[trigger] out[j] as int]), desc) <= 0
}

/// Sorting the runs on Started orders them by start time (a run not yet started first);
/// on Status, failures first; on Branch, Pipeline, Repository or Provider, by that column's
/// lowercased text.
pub proof fn lemma_pipe_sorts(pipes: Seq<PipeRow>, out: Seq<usize>, desc: bool, col: Seq<char>)
    requires
        forall|i: int, j: int| 0 <= i < j < out.len() ==> pipe_before(pipes, col, desc, #[trigger] out[i] as int, #[trigger] out[j] as int),
    ensures
        col == "started"@ ==> pipes_ordered_by(pipes, out, desc, |a: PipeRow, b: PipeRow| time_sign(a.run.started_at, b.run.started_at)),
        col == "status"@ ==> pipes_ordered_by(
            pipes,
            out,
            desc,
            |a: PipeRow, b: PipeRow| int_sign(pipe_status_rank(a.run.status), pipe_status_rank(b.run.status)),
        ),
        col == "branch"@ ==> pipes_ordered_by(
            pipes,
            out,
            desc,
            |a: PipeRow, b: PipeRow| lex_sign(lowercase(or_empty(a.run.branch)), lowercase(or_empty(b.run.branch))),
        ),
        col == "pipeline"@ ==> pipes_ordered_by(
            pipes,
            out,
            desc,
            |a: PipeRow, b: PipeRow| lex_sign(lowercase(definition_name_spec(a)), lowercase(definition_name_spec(b))),
        ),
        col == "repository"@ ==> pipes_ordered_by(
            pipes,
            out,
            desc,
            |a: PipeRow, b: PipeRow| lex_sign(lowercase(or_empty(a.run.repository)), lowercase(or_empty(b.run.repository))),
        ),
        col == "provider"@ ==> pipes_ordered_by(
            pipes,
            out,
            desc,
            |a: PipeRow, b: PipeRow| lex_sign(lowercase(a.provider@), lowercase(b.provider@)),
        ),
{
    reveal_strlit("started");
    reveal_strlit("status");
    reveal_strlit("pipeline");
    reveal_strlit("repository");
    reveal_strlit("provider");
    reveal_strlit("branch");
    assert("started"@.len() == 7 && "status"@.len() == 6 && "pipeline"@.len() == 8);
    assert("repository"@.len() == 10 && "provider"@.len() == 8 && "branch"@.len() == 6);
    assert("pipeline"@[1] == 'i' && "provider"@[1] == 'r' && "status"@[0] == 's' && "branch"@[0] == 'b');
}


// ---------------------------------------------------------------------------
// Grouped list
// ---------------------------------------------------------------------------

/// The group a run falls under in mode `g`: connection-qualified so two forges with a
/// same-named pipeline never merge, repository-qualified so `main` in one repository is not
/// `main` in another, and keyed on the definition id (never the displayed name). `\u{1}`
/// cannot occur in a name, so the parts can't collide across the separator.
pub open spec fn group_key_spec(g: PipeGroup, p: PipeRow) -> Seq<char> {
    let sep = seq!['\u{1}'];
    let repo = or_empty(p.run.repository);
    let branch = or_empty(p.run.branch);
    match g {
        PipeGroup::Pipeline => p.connection_id@ + sep + repo + sep + p.run.definition_id@,
        PipeGroup::Trigger => p.connection_id@ + sep + repo + sep + branch + sep + trigger_token_spec(p),
        PipeGroup::Branch => p.connection_id@ + sep + repo + sep + branch,
        PipeGroup::Off => seq![],
    }
}

/// The group key a run falls under, for grouping mode `g`.
pub fn pipe_group_key(g: PipeGroup, p: &PipeRow) -> (r: String)
    ensures
        r@ == group_key_spec(g, *p),
{
    let mut out = String::new();
    if g == PipeGroup::Off {
        return out;
    }
    push_str(&mut out, p.connection_id.as_str());
    push_char(&mut out, '\u{1}');
    push_str(&mut out, opt_text(&p.run.repository));
    push_char(&mut out, '\u{1}');
    match g {
        PipeGroup::Pipeline => {
            push_str(&mut out, p.run.definition_id.as_str());
        },
        PipeGroup::Trigger => {
            push_str(&mut out, opt_text(&p.run.branch));
            push_char(&mut out, '\u{1}');
            let t = pipe_trigger_token(p);
            push_str(&mut out, t.as_str());
        },
        _ => {
            push_str(&mut out, opt_text(&p.run.branch));
        },
    }
    assert(out@ =~= group_key_spec(g, *p));
    out
}

/// The first of `keys` equal to `k`, or `keys.len()` when none is.
pub open spec fn key_index(keys: Seq<Seq<char>>, k: Seq<char>) -> int
    decreases keys.len(),
{
    if keys.len() == 0 {
        0
    } else {
        let j = key_index(keys.drop_last(), k);
        if j < keys.len() - 1 {
            j
        } else if keys.last() == k {
            keys.len() - 1
        } else {
            keys.len() as int
        }
    }
}

pub proof fn lemma_key_index(keys: Seq<Seq<char>>, k: Seq<char>)
    ensures
        0 <= key_index(keys, k) <= keys.len(),
        key_index(keys, k) < keys.len() ==> keys[key_index(keys, k)] == k,
        forall|j: int| 0 <= j < key_index(keys, k) ==> keys[j] != k,
    decreases keys.len(),
{
    if keys.len() > 0 {
        lemma_key_index(keys.drop_last(), k);
        assert forall|j: int| 0 <= j < key_index(keys, k) implies keys[j] != k by {
            if j < keys.len() - 1 {
                assert(keys.drop_last()[j] == keys[j]);
            }
        }
    }
}

/// The groups of the rows `rows` (in their order) under mode `g`, in first-seen order: the
/// keys, and each group's rows in list order.
pub open spec fn grouped(pipes: Seq<PipeRow>, rows: Seq<usize>, g: PipeGroup) -> (Seq<Seq<char>>, Seq<Seq<usize>>)
    decreases rows.len(),
{
    if rows.len() == 0 {
        (seq![], seq![])
    } else {
        let (ks, ms) = grouped(pipes, rows.drop_last(), g);
        let r = rows.last();
        let k = group_key_spec(g, pipes[r as int]);
        let j = key_index(ks, k);
        if j < ks.len() {
            (ks, ms.update(j, ms[j].push(r)))
        } else {
            (ks.push(k), ms.push(seq![r]))
        }
    }
}

pub proof fn lemma_grouped(pipes: Seq<PipeRow>, rows: Seq<usize>, g: PipeGroup)
    requires
        forall|i: int| 0 <= i < rows.len() ==> (#[trigger] rows[i]) < pipes.len(),
    ensures
        grouped(pipes, rows, g).0.len() == grouped(pipes, rows, g).1.len(),
        forall|j: int| 0 <= j < grouped(pipes, rows, g).1.len() ==> (#[trigger] grouped(pipes, rows, g).1[j]).len() > 0,
        forall|j: int, m: int| 0 <= j < grouped(pipes, rows, g).1.len() && 0 <= m < grouped(pipes, rows, g).1[j].len()
            ==> #[trigger] grouped(pipes, rows, g).1[j][m] < pipes.len(),
    decreases rows.len(),
{
    if rows.len() > 0 {
        lemma_grouped(pipes, rows.drop_last(), g);
        let (ks, ms) = grouped(pipes, rows.drop_last(), g);
        lemma_key_index(ks, group_key_spec(g, pipes[rows.last() as int]));
        let (ks2, ms2) = grouped(pipes, rows, g);
        assert forall|j: int, m: int| 0 <= j < ms2.len() && 0 <= m < ms2[j].len() implies #[trigger] ms2[j][m] < pipes.len() by {
            if j < ms.len() && m < ms[j].len() {
                assert(ms2[j][m] == ms[j][m]);
            }
        }
    }
}

/// The group's latest run: the member with the latest start (no start counts as earliest),
/// the last such member on a tie.
pub open spec fn latest_of(pipes: Seq<PipeRow>, members: Seq<usize>) -> usize
    decreases members.len(),
{
    if members.len() <= 1 {
        members[0]
    } else {
        let b = latest_of(pipes, members.drop_last());
        let m = members.last();
        if time_sign(pipes[m as int].run.started_at, pipes[b as int].run.started_at) >= 0 {
            m
        } else {
            b
        }
    }
}

pub proof fn lemma_latest_of(pipes: Seq<PipeRow>, members: Seq<usize>)
    requires
        members.len() > 0,
    ensures
        members.contains(latest_of(pipes, members)),
    decreases members.len(),
{
    if members.len() > 1 {
        lemma_latest_of(pipes, members.drop_last());
        let b = latest_of(pipes, members.drop_last());
        let w = choose|w: int| 0 <= w < members.drop_last().len() && members.drop_last()[w] == b;
        assert(members[w] == b);
        assert(members[members.len() - 1] == members.last());
    } else {
        assert(members[0] == members[0]);
    }
}

/// The smallest definition name among the members that have one.
pub open spec fn min_definition(pipes: Seq<PipeRow>, members: Seq<usize>) -> Option<Seq<char>>
    decreases members.len(),
{
    if members.len() == 0 {
        None
    } else {
        let prev = min_definition(pipes, members.drop_last());
        match pipes[members.last() as int].definition_name {
            Some(d) => match prev {
                Some(p) => if lex_sign(p, d@) <= 0 {
                    Some(p)
                } else {
                    Some(d@)
                },
                None => Some(d@),
            },
            None => prev,
        }
    }
}

/// What names a group: the pipeline (the smallest definition name, else the first run's
/// definition id, independent of order) when grouping by pipeline, else the branch.
pub open spec fn group_subject(pipes: Seq<PipeRow>, members: Seq<usize>, g: PipeGroup) -> Seq<char> {
    let first = pipes[members[0] as int];
    match g {
        PipeGroup::Pipeline | PipeGroup::Off => match min_definition(pipes, members) {
            Some(d) => d,
            None => first.run.definition_id@,
        },
        _ => branch_label_spec(first),
    }
}

/// How many of the members failed.
pub open spec fn failed_count(pipes: Seq<PipeRow>, members: Seq<usize>) -> nat
    decreases members.len(),
{
    if members.len() == 0 {
        0
    } else {
        failed_count(pipes, members.drop_last()) + if pipes[members.last() as int].run.status
            == PipelineRunStatus::Failed {
            1nat
        } else {
            0nat
        }
    }
}

pub proof fn lemma_failed_count_bound(pipes: Seq<PipeRow>, members: Seq<usize>)
    ensures
        failed_count(pipes, members) <= members.len(),
    decreases members.len(),
{
    if members.len() > 0 {
        lemma_failed_count_bound(pipes, members.drop_last());
    }
}

/// Whether `set` holds the text `k`.
pub open spec fn holds_text(set: Seq<String>, k: Seq<char>) -> bool {
    exists|i: int| 0 <= i < set.len() && #[trigger] set[i]@ == k
}

/// A group header in the Pipelines list: the roll-up of the runs beneath it.
pub struct PipeHead {
    /// Index into the runs of the group's most recent run, which its status and start
    /// time describe and the preview shows.
    pub latest: usize,
    /// Stable identity, used as the expand/collapse key.
    pub key: String,
    /// What names the group: the pipeline, or the branch.
    pub subject: String,
    /// The repository every run beneath belongs to.
    pub repo: String,
    /// Short commit for the trigger grouping; empty otherwise.
    pub commit: String,
    pub runs: usize,
    pub failed: usize,
    /// The status of the most recent run beneath.
    pub status: PipelineRunStatus,
    /// Start of that same most recent run.
    pub started: Option<UtcTime>,
    /// True when any run beneath has a gate this user can answer.
    pub approval: bool,
    pub expanded: bool,
    pub provider: String,
    pub connection: String,
}

/// One rendered line of the Pipelines list.
pub enum PipeLine {
    Head(PipeHead),
    /// Index into the runs.
    Run(usize),
}

/// The first seven characters of `s`.
pub open spec fn short(s: Seq<char>) -> Seq<char> {
    if s.len() <= 7 {
        s
    } else {
        s.take(7)
    }
}

/// The commit cell of a trigger header: the short commit, else the start time (local clock,
/// marked with `~`), else the short run id (marked with `#`).
pub open spec fn commit_cell_ok(cell: Seq<char>, first: PipeRow) -> bool {
    match first.run.commit_sha {
        Some(sha) if sha@.len() > 0 => cell == short(sha@),
        _ => match first.run.started_at {
            Some(t) => if utc_minute_text(t.secs, t.nanos) is Some {
                cell.len() == 6 && cell[0] == '~' && clock_shape(cell.drop_first())
            } else {
                cell == seq!['#'] + short(first.run.id@)
            },
            None => cell == seq!['#'] + short(first.run.id@),
        },
    }
}

/// `h` is the header of the group `key` with rows `members` under mode `g`.
pub open spec fn head_ok(
    h: PipeHead,
    pipes: Seq<PipeRow>,
    key: Seq<char>,
    members: Seq<usize>,
    g: PipeGroup,
    expanded: Seq<String>,
) -> bool {
    let first = pipes[members[0] as int];
    let latest = latest_of(pipes, members);
    &&& h.latest == latest
    &&& h.key@ == key
    &&& h.subject@ == group_subject(pipes, members, g)
    &&& h.repo@ == or_empty(first.run.repository)
    &&& (if g == PipeGroup::Trigger {
        commit_cell_ok(h.commit@, first)
    } else {
        h.commit@ == Seq::<char>::empty()
    })
    &&& h.runs == members.len()
    &&& h.failed == failed_count(pipes, members)
    &&& h.status == pipes[latest as int].run.status
    &&& h.started == pipes[latest as int].run.started_at
    &&& h.approval == (exists|m: int| 0 <= m < members.len() && #[trigger] pipes[members[m] as int].awaiting_approval)
    &&& h.expanded == holds_text(expanded, key)
    &&& h.provider@ == first.provider@
    &&& h.connection@ == first.connection@
}

fn take7(s: &str) -> (r: String)
    ensures
        r@ == short(s@),
{
    let v = chars_of(s);
    let mut out = String::new();
    let mut i: usize = 0;
    while i < v.len() && i < 7
        invariant
            v@ == s@,
            i <= v@.len(),
            i <= 7,
            out@ == s@.take(i as int),
        decreases 7 - i,
    {
        push_char(&mut out, v[i]);
        i += 1;
        assert(out@ =~= s@.take(i as int));
    }
    proof {
        if s@.len() <= 7 {
            assert(s@.take(i as int) =~= s@);
        }
    }
    out
}

fn holds_text_exec(set: &Vec<String>, k: &String) -> (r: bool)
    ensures
        r == holds_text(set@, k@),
{
    let mut i: usize = 0;
    while i < set.len()
        invariant
            i <= set@.len(),
            forall|j: int| 0 <= j < i ==> (#[trigger] set@[j])@ != k@,
        decreases set@.len() - i,
    {
        if set[i] == *k {
            return true;
        }
        i += 1;
    }
    false
}

/// The latest run among `members` (see `latest_of`).
pub fn latest_run(pipes: &[PipeRow], members: &Vec<usize>) -> (r: usize)
    requires
        members@.len() > 0,
        forall|m: int| 0 <= m < members@.len() ==> (#[trigger] members@[m]) < pipes@.len(),
    ensures
        r == latest_of(pipes@, members@),
{
    let mut best = members[0];
    let mut i: usize = 1;
    while i < members.len()
        invariant
            members@.len() > 0,
            forall|m: int| 0 <= m < members@.len() ==> (#[trigger] members@[m]) < pipes@.len(),
            1 <= i <= members@.len(),
            best == latest_of(pipes@, members@.take(i as int)),
            best < pipes@.len(),
        decreases members@.len() - i,
    {
        let m = members[i];
        assert(members@.take(i + 1).drop_last() =~= members@.take(i as int));
        let a = pipes[m].run.started_at;
        let b = pipes[best].run.started_at;
        let later_or_same = match (a, b) {
            (None, None) => true,
            (None, Some(_)) => false,
            (Some(_), None) => true,
            (Some(x), Some(y)) => !(x.secs < y.secs || (x.secs == y.secs && x.nanos < y.nanos)),
        };
        if later_or_same {
            best = m;
        }
        i += 1;
    }
    assert(members@.take(i as int) =~= members@);
    best
}

fn group_subject_exec(pipes: &[PipeRow], members: &Vec<usize>, g: PipeGroup) -> (r: String)
    requires
        members@.len() > 0,
        forall|m: int| 0 <= m < members@.len() ==> (#[trigger] members@[m]) < pipes@.len(),
    ensures
        r@ == group_subject(pipes@, members@, g),
{
    let first = &pipes[members[0]];
    match g {
        PipeGroup::Pipeline | PipeGroup::Off => {
            let mut best: Option<Vec<char>> = None;
            let mut best_s: Option<String> = None;
            let mut i: usize = 0;
            while i < members.len()
                invariant
                    forall|m: int| 0 <= m < members@.len() ==> (#[trigger] members@[m]) < pipes@.len(),
                    i <= members@.len(),
                    min_definition(pipes@, members@.take(i as int)) == match best {
                        Some(v) => Some(v@),
                        None => None::<Seq<char>>,
                    },
                    best is Some <==> best_s is Some,
                    best matches Some(v) ==> best_s matches Some(s) && s@ == v@,
                decreases members@.len() - i,
            {
                assert(members@.take(i + 1).drop_last() =~= members@.take(i as int));
                if let Some(d) = &pipes[members[i]].definition_name {
                    let dv = chars_of(d.as_str());
                    let replace = match &best {
                        Some(v) => lex_sign_exec_pub(v, &dv) > 0,
                        None => true,
                    };
                    if replace {
                        best = Some(dv);
                        best_s = Some(d.clone());
                    }
                }
                i += 1;
            }
            assert(members@.take(i as int) =~= members@);
            match best_s {
                Some(s) => s,
                None => first.run.definition_id.clone(),
            }
        },
        _ => pipe_branch_label(first),
    }
}

fn lex_sign_exec_pub(a: &Vec<char>, b: &Vec<char>) -> (r: i8)
    ensures
        r == lex_sign(a@, b@),
{
    crate::order::lex_sign_exec(a, b)
}

/// Builds the header of one group.
fn build_head(
    pipes: &[PipeRow],
    key: String,
    members: &Vec<usize>,
    g: PipeGroup,
    expanded: &Vec<String>,
) -> (h: PipeHead)
    requires
        members@.len() > 0,
        forall|m: int| 0 <= m < members@.len() ==> (#[trigger] members@[m]) < pipes@.len(),
    ensures
        head_ok(h, pipes@, key@, members@, g, expanded@),
{
    let first = &pipes[members[0]];
    let latest = latest_run(pipes, members);
    proof {
        lemma_latest_of(pipes@, members@);
    }
    let commit = if g == PipeGroup::Trigger {
        let sha_cell: Option<String> = match &first.run.commit_sha {
            Some(sha) => if !sha.as_str().is_empty() {
                Some(take7(sha.as_str()))
            } else {
                None
            },
            None => None,
        };
        match sha_cell {
            Some(c) => c,
            None => {
                let mut fallback = String::new();
                push_char(&mut fallback, '#');
                let id7 = take7(first.run.id.as_str());
                push_str(&mut fallback, id7.as_str());
                match first.run.started_at {
                    Some(t) => match local_clock(t) {
                        Some(clock) => {
                            let mut c = String::new();
                            push_char(&mut c, '~');
                            push_str(&mut c, clock.as_str());
                            assert(c@.drop_first() =~= clock@);
                            c
                        },
                        // An instant chrono cannot represent reads as no start time.
                        None => fallback,
                    },
                    None => fallback,
                }
            },
        }
    } else {
        String::new()
    };
    let mut failed: usize = 0;
    let mut approval = false;
    let mut i: usize = 0;
    while i < members.len()
        invariant
            forall|m: int| 0 <= m < members@.len() ==> (#[trigger] members@[m]) < pipes@.len(),
            i <= members@.len(),
            failed == failed_count(pipes@, members@.take(i as int)),
            approval == (exists|m: int| 0 <= m < i && #[trigger] pipes@[members@[m] as int].awaiting_approval),
        decreases members@.len() - i,
    {
        assert(members@.take(i + 1).drop_last() =~= members@.take(i as int));
        proof {
            lemma_failed_count_bound(pipes@, members@.take(i as int));
        }
        let p = &pipes[members[i]];
        if p.run.status == PipelineRunStatus::Failed {
            failed += 1;
        }
        if p.awaiting_approval {
            approval = true;
        }
        i += 1;
    }
    assert(members@.take(i as int) =~= members@);
    let expanded_now = holds_text_exec(expanded, &key);
    PipeHead {
        latest,
        key,
        subject: group_subject_exec(pipes, members, g),
        repo: opt_text(&first.run.repository).to_owned(),
        commit,
        runs: members.len(),
        failed,
        status: pipes[latest].run.status,
        started: pipes[latest].run.started_at,
        approval,
        expanded: expanded_now,
        provider: first.provider.clone(),
        connection: first.connection.clone(),
    }
}


pub open spec fn member_views(v: Seq<Vec<usize>>) -> Seq<Seq<usize>> {
    v.map_values(|m: Vec<usize>| m@)
}

fn find_key(keys: &Vec<String>, k: &String) -> (j: usize)
    ensures
        j == key_index(string_views(keys@), k@),
{
    let ghost ks = string_views(keys@);
    proof {
        lemma_key_index(ks, k@);
    }
    let mut j: usize = 0;
    while j < keys.len()
        invariant
            ks == string_views(keys@),
            j <= keys@.len(),
            forall|q: int| 0 <= q < j ==> ks[q] != k@,
            0 <= key_index(ks, k@) <= ks.len(),
            key_index(ks, k@) < ks.len() ==> ks[key_index(ks, k@)] == k@,
            forall|q: int| 0 <= q < key_index(ks, k@) ==> ks[q] != k@,
        decreases keys@.len() - j,
    {
        if keys[j] == *k {
            assert(ks[j as int] == k@);
            return j;
        }
        j += 1;
    }
    j
}

/// Groups the rows `rows` under mode `g`, in first-seen order (see `grouped`).
pub fn pipe_groups(pipes: &[PipeRow], rows: &Vec<usize>, g: PipeGroup) -> (r: (Vec<String>, Vec<Vec<usize>>))
    requires
        forall|i: int| 0 <= i < rows@.len() ==> (#[trigger] rows@[i]) < pipes@.len(),
    ensures
        string_views(r.0@) == grouped(pipes@, rows@, g).0,
        member_views(r.1@) == grouped(pipes@, rows@, g).1,
{
    let mut keys: Vec<String> = Vec::new();
    let mut members: Vec<Vec<usize>> = Vec::new();
    let mut i: usize = 0;
    while i < rows.len()
        invariant
            forall|i: int| 0 <= i < rows@.len() ==> (#[trigger] rows@[i]) < pipes@.len(),
            i <= rows@.len(),
            string_views(keys@) == grouped(pipes@, rows@.take(i as int), g).0,
            member_views(members@) == grouped(pipes@, rows@.take(i as int), g).1,
            keys@.len() == members@.len(),
        decreases rows@.len() - i,
    {
        let r = rows[i];
        assert(rows@.take(i + 1).drop_last() =~= rows@.take(i as int));
        assert(rows@.take(i + 1).last() == r);
        proof {
            lemma_grouped(pipes@, rows@.take(i as int), g);
        }
        let k = pipe_group_key(g, &pipes[r]);
        let j = find_key(&keys, &k);
        let ghost prev = grouped(pipes@, rows@.take(i as int), g);
        assert(grouped(pipes@, rows@.take(i + 1), g) == (if key_index(prev.0, k@) < prev.0.len() {
            (prev.0, prev.1.update(key_index(prev.0, k@), prev.1[key_index(prev.0, k@)].push(r)))
        } else {
            (prev.0.push(k@), prev.1.push(seq![r]))
        }));
        if j < keys.len() {
            let ghost old_members = members@;
            let mut m = members.remove(j);
            assert(m@ == member_views(old_members)[j as int]);
            m.push(r);
            let ghost m_view = m@;
            assert(m_view == member_views(old_members)[j as int].push(r));
            assert(member_views(old_members) == prev.1);
            assert(j as int == key_index(prev.0, k@));
            members.insert(j, m);
            assert(members@ =~= old_members.update(j as int, members@[j as int]));
            assert(members@[j as int]@ == m_view);
            assert(member_views(members@) =~= member_views(old_members).update(j as int, m_view));
            assert(prev.0.len() == keys@.len());
            assert(key_index(prev.0, k@) < prev.0.len());
            assert(grouped(pipes@, rows@.take(i + 1), g).1 == prev.1.update(j as int, prev.1[j as int].push(r)));
            assert(m_view == prev.1[j as int].push(r));
            assert(member_views(members@) == prev.1.update(j as int, m_view));
            assert(member_views(members@) == grouped(pipes@, rows@.take(i + 1), g).1);
        } else {
            keys.push(k);
            let mut one: Vec<usize> = Vec::new();
            one.push(r);
            assert(one@ =~= seq![r]);
            members.push(one);
            assert(string_views(keys@) =~= grouped(pipes@, rows@.take(i + 1), g).0);
            assert(member_views(members@) =~= grouped(pipes@, rows@.take(i + 1), g).1);
        }
        i += 1;
    }
    assert(rows@.take(i as int) =~= rows@);
    (keys, members)
}

/// How groups `a` and `b` compare: by their latest runs on the chosen column, or newest
/// first without a sort.
pub open spec fn group_sign(pipes: Seq<PipeRow>, ms: Seq<Seq<usize>>, sort: Option<SortPref>, a: int, b: int) -> int {
    let ra = pipes[latest_of(pipes, ms[a]) as int];
    let rb = pipes[latest_of(pipes, ms[b]) as int];
    match sort {
        Some(s) => directed(pipe_sign(ra, rb, s.key@), s.desc),
        None => directed(time_sign(ra.run.started_at, rb.run.started_at), true),
    }
}

/// `order` lists every group once, in sort order; equal groups keep their first-seen order.
pub open spec fn groups_ordered(pipes: Seq<PipeRow>, ms: Seq<Seq<usize>>, sort: Option<SortPref>, order: Seq<usize>) -> bool {
    &&& order.len() == ms.len()
    &&& forall|x: usize| #[trigger] order.contains(x) <==> x < ms.len()
    &&& forall|i: int, j: int|
        0 <= i < j < order.len() ==> {
            let s = group_sign(pipes, ms, sort, #[trigger] order[i] as int, #[trigger] order[j] as int);
            s < 0 || (s == 0 && order[i] < order[j])
        }
}

/// Orders the groups `members`: a sort orders the groups (each by the run its header
/// shows), and without one the groups go newest first. Stable either way.
pub fn group_order(pipes: &[PipeRow], members: &Vec<Vec<usize>>, sort: &Option<SortPref>) -> (order: Vec<usize>)
    requires
        forall|j: int| 0 <= j < members@.len() ==> (#[trigger] members@[j])@.len() > 0,
        forall|j: int, m: int| 0 <= j < members@.len() && 0 <= m < members@[j]@.len() ==> #[trigger] members@[j]@[m] < pipes@.len(),
    ensures
        groups_ordered(pipes@, member_views(members@), *sort, order@),
{
    let ghost ms = member_views(members@);
    let mut keys: Vec<SortKey> = Vec::new();
    let mut reps: Vec<usize> = Vec::new();
    let mut ids: Vec<usize> = Vec::new();
    let mut j: usize = 0;
    while j < members.len()
        invariant
            ms == member_views(members@),
            forall|j: int| 0 <= j < members@.len() ==> (#[trigger] members@[j])@.len() > 0,
            forall|j: int, m: int| 0 <= j < members@.len() && 0 <= m < members@[j]@.len() ==> #[trigger] members@[j]@[m] < pipes@.len(),
            j <= members@.len(),
            keys@.len() == j,
            reps@.len() == j,
            ids@.len() == j,
            forall|q: int| 0 <= q < j ==> (#[trigger] ids@[q]) == q,
            forall|q: int| 0 <= q < j ==> (#[trigger] reps@[q]) == latest_of(pipes@, ms[q]),
            forall|q: int| 0 <= q < j ==> match *sort {
                Some(s) => pipe_key_of(#[trigger] keys@[q], pipes@[reps@[q] as int], s.key@),
                None => keys@[q] == SortKey::Time(pipes@[reps@[q] as int].run.started_at),
            },
        decreases members@.len() - j,
    {
        let m = &members[j];
        assert(forall|q: int| 0 <= q < m@.len() ==> #[trigger] m@[q] < pipes@.len());
        let rep = latest_run(pipes, m);
        proof {
            lemma_latest_of(pipes@, m@);
        }
        let k = match sort {
            Some(s) => pipe_sort_key(&pipes[rep], s.key.as_str()),
            None => SortKey::Time(pipes[rep].run.started_at),
        };
        keys.push(k);
        reps.push(rep);
        ids.push(j);
        j += 1;
    }
    assert forall|a: int, b: int| 0 <= a < keys@.len() && 0 <= b < keys@.len() implies same_shape(#[trigger] keys@[a], #[trigger] keys@[b]) by {
        match *sort {
            Some(s) => lemma_pipe_keys(keys@[a], keys@[b], pipes@[reps@[a] as int], pipes@[reps@[b] as int], s.key@),
            None => {},
        }
    }
    let desc = match sort {
        Some(s) => s.desc,
        None => true,
    };
    let order = sort_rows(ids, &keys, desc);
    assert forall|x: usize| #[trigger] order@.contains(x) <==> x < ms.len() by {
        if x < ms.len() {
            assert(ids@[x as int] == x);
        }
    }
    assert forall|i: int, j: int| 0 <= i < j < order@.len() implies ({
        let s = group_sign(pipes@, ms, *sort, #[trigger] order@[i] as int, #[trigger] order@[j] as int);
        s < 0 || (s == 0 && order@[i] < order@[j])
    }) by {
        assert(before(keys@, desc, order@[i] as int, order@[j] as int));
        assert(order@.contains(order@[i]) && order@.contains(order@[j]));
        let a = order@[i] as int;
        let b = order@[j] as int;
        match *sort {
            Some(s) => lemma_pipe_keys(keys@[a], keys@[b], pipes@[reps@[a] as int], pipes@[reps@[b] as int], s.key@),
            None => {},
        }
    }
    order
}

/// A line of the grouped list, by what it shows: a group's header, or a run.
pub enum LineSlot {
    Head(usize),
    Run(usize),
}

/// The lines of the first `t` groups of `order`: each header, then its runs when the group
/// is expanded.
pub open spec fn line_slots(ks: Seq<Seq<char>>, ms: Seq<Seq<usize>>, order: Seq<usize>, expanded: Seq<String>, t: int) -> Seq<LineSlot>
    decreases t,
{
    if t <= 0 {
        seq![]
    } else {
        let g = order[t - 1];
        line_slots(ks, ms, order, expanded, t - 1) + seq![LineSlot::Head(g)] + if holds_text(expanded, ks[g as int]) {
            ms[g as int].map_values(|r: usize| LineSlot::Run(r))
        } else {
            seq![]
        }
    }
}

/// `out` shows the slots `slots`.
pub open spec fn lines_show(
    out: Seq<PipeLine>,
    slots: Seq<LineSlot>,
    pipes: Seq<PipeRow>,
    ks: Seq<Seq<char>>,
    ms: Seq<Seq<usize>>,
    g: PipeGroup,
    expanded: Seq<String>,
) -> bool {
    &&& out.len() == slots.len()
    &&& forall|i: int|
        0 <= i < out.len() ==> match #[trigger] slots[i] {
            LineSlot::Head(gi) => out[i] matches PipeLine::Head(h) && head_ok(h, pipes, ks[gi as int], ms[gi as int], g, expanded),
            LineSlot::Run(r) => out[i] matches PipeLine::Run(x) && x == r,
        }
}

/// The Pipelines list as rendered lines: group headers plus the runs of expanded groups.
/// `rows` are the filtered rows in list order; runs keep that order inside their group.
/// Ungrouped, the list is one line per row.
pub fn pipe_lines(pipes: &[PipeRow], rows: Vec<usize>, g: PipeGroup, expanded: &Vec<String>, sort: &Option<SortPref>) -> (out: Vec<PipeLine>)
    requires
        forall|i: int| 0 <= i < rows@.len() ==> (#[trigger] rows@[i]) < pipes@.len(),
    ensures
        g == PipeGroup::Off ==> out@.len() == rows@.len() && forall|i: int| 0 <= i < out@.len() ==> ((#[trigger] out@[i]) matches PipeLine::Run(x) && x == rows@[i]),
        g != PipeGroup::Off ==> ({
            let (ks, ms) = grouped(pipes@, rows@, g);
            exists|order: Seq<usize>| #[trigger] groups_ordered(pipes@, ms, *sort, order)
                && lines_show(out@, line_slots(ks, ms, order, expanded@, order.len() as int), pipes@, ks, ms, g, expanded@)
        }),
{
    let mut out: Vec<PipeLine> = Vec::new();
    if g == PipeGroup::Off {
        let mut i: usize = 0;
        while i < rows.len()
            invariant
                i <= rows@.len(),
                out@.len() == i,
                forall|q: int| 0 <= q < i ==> ((#[trigger] out@[q]) matches PipeLine::Run(x) && x == rows@[q]),
            decreases rows@.len() - i,
        {
            out.push(PipeLine::Run(rows[i]));
            i += 1;
        }
        return out;
    }
    let (keys, members) = pipe_groups(pipes, &rows, g);
    let ghost ks = string_views(keys@);
    let ghost ms = member_views(members@);
    proof {
        lemma_grouped(pipes@, rows@, g);
        assert forall|j: int| 0 <= j < members@.len() implies (#[trigger] members@[j])@.len() > 0 by {
            assert(ms[j] == members@[j]@);
        }
        assert forall|j: int, m: int| 0 <= j < members@.len() && 0 <= m < members@[j]@.len() implies #[trigger] members@[j]@[m] < pipes@.len() by {
            assert(ms[j] == members@[j]@);
            assert(ms[j][m] < pipes@.len());
        }
    }
    let order = group_order(pipes, &members, sort);
    let mut t: usize = 0;
    while t < order.len()
        invariant
            ks == string_views(keys@),
            ms == member_views(members@),
            (ks, ms) == grouped(pipes@, rows@, g),
            keys@.len() == members@.len(),
            groups_ordered(pipes@, ms, *sort, order@),
            forall|j: int| 0 <= j < members@.len() ==> (#[trigger] members@[j])@.len() > 0,
            forall|j: int, m: int| 0 <= j < members@.len() && 0 <= m < members@[j]@.len() ==> #[trigger] members@[j]@[m] < pipes@.len(),
            t <= order@.len(),
            lines_show(out@, line_slots(ks, ms, order@, expanded@, t as int), pipes@, ks, ms, g, expanded@),
        decreases order@.len() - t,
    {
        let gi = order[t];
        assert(order@.contains(gi));
        let ghost before_out = out@;
        let ghost prev_slots = line_slots(ks, ms, order@, expanded@, t as int);
        let m = &members[gi];
        assert(forall|q: int| 0 <= q < m@.len() ==> #[trigger] m@[q] < pipes@.len());
        assert(ks[gi as int] == keys@[gi as int]@);
        assert(ms[gi as int] == m@);
        let head = build_head(pipes, keys[gi].clone(), m, g, expanded);
        let open = head.expanded;
        out.push(PipeLine::Head(head));
        let ghost head_slots = prev_slots + seq![LineSlot::Head(gi)];
        assert(lines_show(out@, head_slots, pipes@, ks, ms, g, expanded@)) by {
            assert forall|i: int| 0 <= i < out@.len() implies match #[trigger] head_slots[i] {
                LineSlot::Head(gx) => out@[i] matches PipeLine::Head(h) && head_ok(h, pipes@, ks[gx as int], ms[gx as int], g, expanded@),
                LineSlot::Run(r) => out@[i] matches PipeLine::Run(x) && x == r,
            } by {
                if i < before_out.len() {
                    assert(head_slots[i] == prev_slots[i]);
                    assert(out@[i] == before_out[i]);
                }
            }
        }
        if open {
            let mut q: usize = 0;
            while q < m.len()
                invariant
                    lines_show(out@, head_slots + m@.take(q as int).map_values(|r: usize| LineSlot::Run(r)), pipes@, ks, ms, g, expanded@),
                    q <= m@.len(),
                decreases m@.len() - q,
            {
                let ghost cur = out@;
                let ghost cur_slots = head_slots + m@.take(q as int).map_values(|r: usize| LineSlot::Run(r));
                out.push(PipeLine::Run(m[q]));
                let ghost next_slots = head_slots + m@.take(q + 1).map_values(|r: usize| LineSlot::Run(r));
                assert(next_slots =~= cur_slots.push(LineSlot::Run(m@[q as int])));
                assert forall|i: int| 0 <= i < out@.len() implies match #[trigger] next_slots[i] {
                    LineSlot::Head(gx) => out@[i] matches PipeLine::Head(h) && head_ok(h, pipes@, ks[gx as int], ms[gx as int], g, expanded@),
                    LineSlot::Run(r) => out@[i] matches PipeLine::Run(x) && x == r,
                } by {
                    if i < cur.len() {
                        assert(next_slots[i] == cur_slots[i]);
                        assert(out@[i] == cur[i]);
                    }
                }
                q += 1;
            }
            assert(m@.take(q as int) =~= m@);
            assert(line_slots(ks, ms, order@, expanded@, t + 1) =~= head_slots + m@.map_values(|r: usize| LineSlot::Run(r)));
        } else {
            assert(line_slots(ks, ms, order@, expanded@, t + 1) =~= head_slots);
        }
        t += 1;
    }
    assert(groups_ordered(pipes@, ms, *sort, order@));
    out
}


/// What a run shows in the subject column under a header: what varies within its group
/// (its branch when grouped by pipeline, else its pipeline).
pub fn pipe_child_subject(g: PipeGroup, p: &PipeRow) -> (r: String)
    ensures
        r@ == (if g == PipeGroup::Pipeline {
            branch_label_spec(*p)
        } else {
            definition_name_spec(*p)
        }),
{
    match g {
        PipeGroup::Pipeline => pipe_branch_label(p),
        _ => pipe_definition_name(p),
    }
}

pub open spec fn subject_heading_spec(g: PipeGroup, any_open: bool) -> Seq<char> {
    match (g, any_open) {
        (PipeGroup::Off, _) => "Pipeline"@,
        (PipeGroup::Pipeline, false) => "Pipeline"@,
        (PipeGroup::Pipeline, true) => "Pipeline / Branch"@,
        (_, false) => "Branch"@,
        (_, true) => "Branch / Pipeline"@,
    }
}

/// The heading of the subject column: once a group is open the column carries both kinds
/// of value, so the heading names both.
pub fn pipe_subject_heading(g: PipeGroup, any_open: bool) -> (r: &'static str)
    ensures
        r@ == subject_heading_spec(g, any_open),
{
    match (g, any_open) {
        (PipeGroup::Off, _) | (PipeGroup::Pipeline, false) => "Pipeline",
        (PipeGroup::Pipeline, true) => "Pipeline / Branch",
        (_, false) => "Branch",
        (_, true) => "Branch / Pipeline",
    }
}

/// Whether some run of `pipes` falls under group `k` in mode `g`.
pub open spec fn live_group(pipes: Seq<PipeRow>, g: PipeGroup, k: Seq<char>) -> bool {
    exists|i: int| 0 <= i < pipes.len() && #[trigger] group_key_spec(g, pipes[i]) == k
}

/// Drops the expand state of groups that no longer exist, so a group that disappears and
/// comes back arrives collapsed. The kept keys stay in order.
pub fn prune_pipe_expanded(expanded: &mut Vec<String>, pipes: &[PipeRow], g: PipeGroup)
    ensures
        string_views(final(expanded)@) == string_views(old(expanded)@).filter(|k: Seq<char>| live_group(pipes@, g, k)),
{
    let ghost keep = |k: Seq<char>| live_group(pipes@, g, k);
    if expanded.len() == 0 {
        assert(string_views(expanded@).filter(keep) =~= seq![]);
        return;
    }
    let mut live: Vec<String> = Vec::new();
    let mut i: usize = 0;
    while i < pipes.len()
        invariant
            i <= pipes@.len(),
            live@.len() == i,
            forall|j: int| 0 <= j < i ==> (#[trigger] live@[j])@ == group_key_spec(g, pipes@[j]),
        decreases pipes@.len() - i,
    {
        live.push(pipe_group_key(g, &pipes[i]));
        i += 1;
    }
    let ghost orig = string_views(expanded@);
    let mut kept: Vec<String> = Vec::new();
    let mut j: usize = 0;
    while j < expanded.len()
        invariant
            orig == string_views(expanded@),
            live@.len() == pipes@.len(),
            forall|q: int| 0 <= q < live@.len() ==> (#[trigger] live@[q])@ == group_key_spec(g, pipes@[q]),
            j <= expanded@.len(),
            keep == (|k: Seq<char>| live_group(pipes@, g, k)),
            string_views(kept@) == orig.take(j as int).filter(keep),
        decreases expanded@.len() - j,
    {
        let k = &expanded[j];
        let found = holds_text_exec(&live, k);
        assert(found == live_group(pipes@, g, k@)) by {
            if found {
                let w = choose|w: int| 0 <= w < live@.len() && #[trigger] live@[w]@ == k@;
                assert(group_key_spec(g, pipes@[w]) == k@);
            }
            if live_group(pipes@, g, k@) {
                let w = choose|w: int| 0 <= w < pipes@.len() && #[trigger] group_key_spec(g, pipes@[w]) == k@;
                assert(live@[w]@ == k@);
            }
        }
        assert(orig.take(j + 1).drop_last() =~= orig.take(j as int));
        assert(orig.take(j + 1).last() == k@);
        reveal(Seq::filter);
        if found {
            kept.push(k.clone());
            assert(string_views(kept@) =~= orig.take(j as int).filter(keep).push(k@));
        }
        j += 1;
    }
    assert(orig.take(j as int) =~= orig);
    *expanded = kept;
}


/// `after` holds the texts of `before` with `k` flipped: added when absent, dropped (every
/// copy) when present.
pub open spec fn texts_toggled(before: Seq<String>, after: Seq<String>, k: Seq<char>) -> bool {
    forall|x: Seq<char>| #[trigger] holds_text(after, x) <==> (if x == k {
        !holds_text(before, k)
    } else {
        holds_text(before, x)
    })
}

/// Expands or collapses one group.
pub fn toggle_pipe_group(expanded: &mut Vec<String>, key: &str)
    ensures
        texts_toggled(old(expanded)@, final(expanded)@, key@),
{
    let k = key.to_owned();
    let ghost orig = expanded@;
    let mut kept: Vec<String> = Vec::new();
    let mut found = false;
    let mut i: usize = 0;
    while i < expanded.len()
        invariant
            expanded@ == orig,
            k@ == key@,
            i <= orig.len(),
            found == exists|j: int| 0 <= j < i && #[trigger] orig[j]@ == key@,
            forall|x: Seq<char>| #[trigger] holds_text(kept@, x) <==> (x != key@ && exists|j: int| 0 <= j < i && #[trigger] orig[j]@ == x),
        decreases orig.len() - i,
    {
        let ghost prev = kept@;
        if expanded[i] == k {
            found = true;
        } else {
            kept.push(expanded[i].clone());
        }
        assert forall|x: Seq<char>| #[trigger] holds_text(kept@, x) <==> (x != key@ && exists|j: int| 0 <= j < i + 1 && #[trigger] orig[j]@ == x) by {
            if holds_text(kept@, x) {
                let w = choose|w: int| 0 <= w < kept@.len() && #[trigger] kept@[w]@ == x;
                if w < prev.len() {
                    assert(prev[w]@ == x);
                    assert(holds_text(prev, x));
                }
            }
            if x != key@ && exists|j: int| 0 <= j < i + 1 && #[trigger] orig[j]@ == x {
                let j = choose|j: int| 0 <= j < i + 1 && #[trigger] orig[j]@ == x;
                if j < i {
                    assert(holds_text(prev, x));
                    let w = choose|w: int| 0 <= w < prev.len() && #[trigger] prev[w]@ == x;
                    assert(kept@[w]@ == x);
                } else {
                    assert(kept@[prev.len() as int]@ == x);
                }
            }
        }
        i += 1;
    }
    if !found {
        let ghost prev = kept@;
        kept.push(k);
        assert forall|x: Seq<char>| #[trigger] holds_text(kept@, x) <==> (x == key@ || holds_text(prev, x)) by {
            if holds_text(kept@, x) {
                let w = choose|w: int| 0 <= w < kept@.len() && #[trigger] kept@[w]@ == x;
                if w < prev.len() {
                    assert(prev[w]@ == x);
                }
            }
            if holds_text(prev, x) {
                let w = choose|w: int| 0 <= w < prev.len() && #[trigger] prev[w]@ == x;
                assert(kept@[w]@ == x);
            }
            if x == key@ {
                assert(kept@[prev.len() as int]@ == x);
            }
        }
    }
    assert forall|x: Seq<char>| #[trigger] holds_text(orig, x) <==> exists|j: int| 0 <= j < orig.len() && #[trigger] orig[j]@ == x by {
    }
    *expanded = kept;
}

/// Expands (every group of the list `rows` under mode `g`) or collapses every group at
/// once. Ungrouped, there is nothing to do.
pub fn set_all_pipe_groups(expanded: &mut Vec<String>, pipes: &[PipeRow], rows: &Vec<usize>, g: PipeGroup, expand: bool)
    requires
        forall|i: int| 0 <= i < rows@.len() ==> (#[trigger] rows@[i]) < pipes@.len(),
    ensures
        g == PipeGroup::Off ==> final(expanded)@ == old(expanded)@,
        g != PipeGroup::Off && expand ==> string_views(final(expanded)@) == grouped(pipes@, rows@, g).0,
        g != PipeGroup::Off && !expand ==> final(expanded)@.len() == 0,
{
    if g == PipeGroup::Off {
        return;
    }
    if expand {
        let (keys, _members) = pipe_groups(pipes, rows, g);
        *expanded = keys;
    } else {
        *expanded = Vec::new();
    }
}

/// Applies a persisted grouping: a saved spelling sets it (unknown spellings give the
/// default), nothing saved keeps the current one.
pub fn apply_pipe_group(current: PipeGroup, saved: Option<String>) -> (r: PipeGroup)
    ensures
        r == match saved {
            Some(s) => pipe_group_parse(s@),
            None => current,
        },
{
    match saved {
        Some(s) => PipeGroup::parse(s.as_str()),
        None => current,
    }
}


/// Opening and closing a group again leaves the expanded groups as they were.
pub proof fn lemma_toggle_group_twice(a: Seq<String>, b: Seq<String>, c: Seq<String>, k: Seq<char>)
    requires
        texts_toggled(a, b, k),
        texts_toggled(b, c, k),
    ensures
        forall|x: Seq<char>| #[trigger] holds_text(c, x) == holds_text(a, x),
{
    assert forall|x: Seq<char>| #[trigger] holds_text(c, x) == holds_text(a, x) by {
        assert(holds_text(c, x) <==> (if x == k { !holds_text(b, k) } else { holds_text(b, x) }));
        assert(holds_text(b, x) <==> (if x == k { !holds_text(a, k) } else { holds_text(a, x) }));
        assert(holds_text(b, k) <==> !holds_text(a, k));
    }
}

/// Whether row `r` is a member of some group of `ms`.
pub open spec fn in_some_group(ms: Seq<Seq<usize>>, r: usize) -> bool {
    exists|j: int, m: int| 0 <= j < ms.len() && 0 <= m < ms[j].len() && #[trigger] ms[j][m] == r
}

/// How many rows the groups of `ms` hold together.
pub open spec fn members_total(ms: Seq<Seq<usize>>) -> int
    decreases ms.len(),
{
    if ms.len() == 0 {
        0
    } else {
        members_total(ms.drop_last()) + ms.last().len()
    }
}

proof fn lemma_members_total_update(ms: Seq<Seq<usize>>, j: int, v: Seq<usize>)
    requires
        0 <= j < ms.len(),
    ensures
        members_total(ms.update(j, v)) == members_total(ms) - ms[j].len() + v.len(),
    decreases ms.len(),
{
    if j < ms.len() - 1 {
        lemma_members_total_update(ms.drop_last(), j, v);
        assert(ms.update(j, v).drop_last() =~= ms.drop_last().update(j, v));
    } else {
        assert(ms.update(j, v).drop_last() =~= ms.drop_last());
    }
}

/// Grouping is a view over the same rows: every row of the list sits in a group, every
/// member of a group is a row of the list, and the groups hold as many rows as the list.
pub proof fn lemma_grouping_keeps_every_row(pipes: Seq<PipeRow>, rows: Seq<usize>, g: PipeGroup)
    requires
        forall|i: int| 0 <= i < rows.len() ==> (#[trigger] rows[i]) < pipes.len(),
    ensures
        forall|r: usize| #[trigger] in_some_group(grouped(pipes, rows, g).1, r) <==> rows.contains(r),
        members_total(grouped(pipes, rows, g).1) == rows.len(),
    decreases rows.len(),
{
    if rows.len() == 0 {
        return;
    }
    let prev_rows = rows.drop_last();
    lemma_grouping_keeps_every_row(pipes, prev_rows, g);
    lemma_grouped(pipes, prev_rows, g);
    let (ks, ms) = grouped(pipes, prev_rows, g);
    let r = rows.last();
    let k = group_key_spec(g, pipes[r as int]);
    lemma_key_index(ks, k);
    let j = key_index(ks, k);
    let ms2 = grouped(pipes, rows, g).1;
    if j < ks.len() {
        assert(ms2 == ms.update(j, ms[j].push(r)));
        lemma_members_total_update(ms, j, ms[j].push(r));
        assert forall|x: usize| #[trigger] in_some_group(ms2, x) <==> rows.contains(x) by {
            if in_some_group(ms2, x) {
                let (a, b) = choose|a: int, b: int| 0 <= a < ms2.len() && 0 <= b < ms2[a].len() && #[trigger] ms2[a][b] == x;
                if a == j && b == ms[j].len() {
                    assert(rows[rows.len() - 1] == x);
                } else {
                    if a == j {
                        assert(ms2[a] == ms[j].push(r));
                        assert(ms[j].push(r)[b] == ms[j][b]);
                    } else {
                        assert(ms2[a] == ms[a]);
                    }
                    assert(ms[a][b] == x);
                    assert(in_some_group(ms, x));
                    let w = choose|w: int| 0 <= w < prev_rows.len() && prev_rows[w] == x;
                    assert(rows[w] == x);
                }
            }
            if rows.contains(x) {
                let w = choose|w: int| 0 <= w < rows.len() && rows[w] == x;
                if w == rows.len() - 1 {
                    assert(ms2[j][ms[j].len() as int] == x);
                } else {
                    assert(prev_rows[w] == x);
                    assert(prev_rows.contains(x));
                    assert(in_some_group(ms, x));
                    let (a, b) = choose|a: int, b: int| 0 <= a < ms.len() && 0 <= b < ms[a].len() && #[trigger] ms[a][b] == x;
                    if a == j {
                        assert(ms2[a] == ms[j].push(r));
                        assert(ms[j].push(r)[b] == ms[j][b]);
                    } else {
                        assert(ms2[a] == ms[a]);
                    }
                    assert(ms2[a][b] == x);
                }
            }
        }
    } else {
        assert(ms2 == ms.push(seq![r]));
        assert(ms2.drop_last() =~= ms);
        assert forall|x: usize| #[trigger] in_some_group(ms2, x) <==> rows.contains(x) by {
            if in_some_group(ms2, x) {
                let (a, b) = choose|a: int, b: int| 0 <= a < ms2.len() && 0 <= b < ms2[a].len() && #[trigger] ms2[a][b] == x;
                if a == ms.len() {
                    assert(rows[rows.len() - 1] == x);
                } else {
                    assert(ms[a][b] == x);
                    assert(in_some_group(ms, x));
                    let w = choose|w: int| 0 <= w < prev_rows.len() && prev_rows[w] == x;
                    assert(rows[w] == x);
                }
            }
            if rows.contains(x) {
                let w = choose|w: int| 0 <= w < rows.len() && rows[w] == x;
                if w == rows.len() - 1 {
                    assert(ms2[ms.len() as int][0] == x);
                } else {
                    assert(prev_rows[w] == x);
                    assert(prev_rows.contains(x));
                    assert(in_some_group(ms, x));
                    let (a, b) = choose|a: int, b: int| 0 <= a < ms.len() && 0 <= b < ms[a].len() && #[trigger] ms[a][b] == x;
                    assert(ms2[a][b] == x);
                }
            }
        }
    }
}


/// The line under the cursor of the Pipelines list (section 2), if any.
pub open spec fn line_at(active: usize, sel: Option<usize>, lines: Seq<PipeLine>) -> Option<PipeLine> {
    if active != 2 {
        None
    } else {
        match sel {
            Some(s) => if s < lines.len() {
                Some(lines[s as int])
            } else {
                None
            },
            None => None,
        }
    }
}

/// `i` when it indexes a run of `pipes`.
pub open spec fn run_at(pipes: Seq<PipeRow>, i: usize) -> Option<usize> {
    if i < pipes.len() {
        Some(i)
    } else {
        None
    }
}

/// The rows of `rows` whose group key in mode `g` is `key`, in order.
pub open spec fn key_members(pipes: Seq<PipeRow>, rows: Seq<usize>, g: PipeGroup, key: Seq<char>) -> Seq<usize>
    decreases rows.len(),
{
    if rows.len() == 0 {
        seq![]
    } else {
        let prev = key_members(pipes, rows.drop_last(), g, key);
        if group_key_spec(g, pipes[rows.last() as int]) == key {
            prev.push(rows.last())
        } else {
            prev
        }
    }
}

proof fn lemma_key_members_in(pipes: Seq<PipeRow>, rows: Seq<usize>, g: PipeGroup, key: Seq<char>)
    requires
        forall|i: int| 0 <= i < rows.len() ==> (#[trigger] rows[i]) < pipes.len(),
    ensures
        forall|m: int|
            0 <= m < key_members(pipes, rows, g, key).len() ==> (#[trigger] key_members(
                pipes,
                rows,
                g,
                key,
            )[m]) < pipes.len(),
    decreases rows.len(),
{
    if rows.len() > 0 {
        let prev = rows.drop_last();
        assert forall|i: int| 0 <= i < prev.len() implies (#[trigger] prev[i]) < pipes.len() by {
            assert(prev[i] == rows[i]);
        }
        lemma_key_members_in(pipes, prev, g, key);
        assert(rows[rows.len() - 1] < pipes.len());
        let pm = key_members(pipes, prev, g, key);
        let km = key_members(pipes, rows, g, key);
        assert forall|m: int| 0 <= m < km.len() implies (#[trigger] km[m]) < pipes.len() by {
            if m < pm.len() {
                assert(km[m] == pm[m]);
            } else {
                assert(km[m] == rows.last());
            }
        }
    }
}

fn line_under_cursor(active: usize, sel: Option<usize>, lines: &Vec<PipeLine>) -> (r: Option<&PipeLine>)
    ensures
        r matches Some(l) ==> line_at(active, sel, lines@) == Some(*l),
        r is None ==> line_at(active, sel, lines@) is None,
{
    if active != 2 {
        return None;
    }
    match sel {
        Some(s) => if s < lines.len() {
            Some(&lines[s])
        } else {
            None
        },
        None => None,
    }
}

/// The run under the cursor (an index into `pipes`), or `None` when the cursor is on a
/// group header or the Pipelines list is not up.
pub fn selected_pipe(active: usize, sel: Option<usize>, lines: &Vec<PipeLine>, pipes: &[PipeRow]) -> (r: Option<usize>)
    ensures
        r == (match line_at(active, sel, lines@) {
            Some(PipeLine::Run(i)) => run_at(pipes@, i),
            _ => None,
        }),
{
    match line_under_cursor(active, sel, lines) {
        Some(PipeLine::Run(i)) => if *i < pipes.len() {
            Some(*i)
        } else {
            None
        },
        _ => None,
    }
}

/// The run the preview shows for the selected line: the run itself, or a group's most
/// recent run, the one its header describes.
pub fn preview_pipe(active: usize, sel: Option<usize>, lines: &Vec<PipeLine>, pipes: &[PipeRow]) -> (r: Option<usize>)
    ensures
        r == (match line_at(active, sel, lines@) {
            Some(PipeLine::Run(i)) => run_at(pipes@, i),
            Some(PipeLine::Head(h)) => run_at(pipes@, h.latest),
            None => None,
        }),
{
    match line_under_cursor(active, sel, lines) {
        Some(PipeLine::Run(i)) => if *i < pipes.len() {
            Some(*i)
        } else {
            None
        },
        Some(PipeLine::Head(h)) => if h.latest < pipes.len() {
            Some(h.latest)
        } else {
            None
        },
        None => None,
    }
}

/// The run an action key acts on: the selected run, or, when the cursor is on a group
/// header, the most recent of the filtered `rows` under that header's key.
pub fn pipe_for_action(
    active: usize,
    sel: Option<usize>,
    lines: &Vec<PipeLine>,
    pipes: &[PipeRow],
    rows: &Vec<usize>,
    g: PipeGroup,
) -> (r: Option<usize>)
    requires
        forall|i: int| 0 <= i < rows@.len() ==> (#[trigger] rows@[i]) < pipes@.len(),
    ensures
        r == (match line_at(active, sel, lines@) {
            Some(PipeLine::Run(i)) => run_at(pipes@, i),
            Some(PipeLine::Head(h)) => {
                let ms = key_members(pipes@, rows@, g, h.key@);
                if ms.len() == 0 {
                    None
                } else {
                    Some(latest_of(pipes@, ms))
                }
            },
            None => None,
        }),
{
    match line_under_cursor(active, sel, lines) {
        Some(PipeLine::Run(i)) => if *i < pipes.len() {
            Some(*i)
        } else {
            None
        },
        Some(PipeLine::Head(h)) => {
            let mut ms: Vec<usize> = Vec::new();
            let mut i: usize = 0;
            while i < rows.len()
                invariant
                    i <= rows@.len(),
                    forall|q: int| 0 <= q < rows@.len() ==> (#[trigger] rows@[q]) < pipes@.len(),
                    ms@ == key_members(pipes@, rows@.take(i as int), g, h.key@),
                decreases rows@.len() - i,
            {
                let r = rows[i];
                let k = pipe_group_key(g, &pipes[r]);
                assert(rows@.take(i + 1).drop_last() =~= rows@.take(i as int));
                if str_eq(k.as_str(), h.key.as_str()) {
                    ms.push(r);
                }
                i += 1;
            }
            assert(rows@.take(rows@.len() as int) =~= rows@);
            if ms.len() == 0 {
                None
            } else {
                proof {
                    lemma_key_members_in(pipes@, rows@, g, h.key@);
                }
                Some(latest_run(pipes, &ms))
            }
        },
        None => None,
    }
}

/// Whether `r` is run `run_id` of connection `conn_id`.
pub open spec fn is_run(r: PipeRow, conn_id: Seq<char>, run_id: Seq<char>) -> bool {
    r.connection_id@ == conn_id && r.run.id@ == run_id
}

/// The rows of run `run_id` on connection `conn_id` no longer await the user: the last gate
/// that wanted them was decided. Every other row, and every other field, stays.
pub fn clear_awaiting(pipes: &mut Vec<PipeRow>, conn_id: &str, run_id: &str)
    ensures
        final(pipes)@.len() == old(pipes)@.len(),
        forall|i: int|
            0 <= i < old(pipes)@.len() ==> #[trigger] final(pipes)@[i] == (if is_run(old(pipes)@[i], conn_id@, run_id@) {
                PipeRow { awaiting_approval: false, ..old(pipes)@[i] }
            } else {
                old(pipes)@[i]
            }),
{
    let mut i: usize = 0;
    while i < pipes.len()
        invariant
            i <= pipes@.len(),
            pipes@.len() == old(pipes)@.len(),
            forall|j: int|
                0 <= j < i ==> #[trigger] pipes@[j] == (if is_run(old(pipes)@[j], conn_id@, run_id@) {
                    PipeRow { awaiting_approval: false, ..old(pipes)@[j] }
                } else {
                    old(pipes)@[j]
                }),
            forall|j: int| i <= j < pipes@.len() ==> #[trigger] pipes@[j] == old(pipes)@[j],
        decreases pipes@.len() - i,
    {
        if str_eq(pipes[i].connection_id.as_str(), conn_id) && str_eq(pipes[i].run.id.as_str(), run_id) {
            pipes[i].awaiting_approval = false;
        }
        i += 1;
    }
}

/// Each run id with its status, the last row first: a lookup by id finds the last row
/// with that id, as a map collected from the rows keeps the last.
pub open spec fn status_list(pipes: Seq<PipeRow>) -> Seq<(String, PipelineRunStatus)> {
    Seq::new(pipes.len(), |k: int| (pipes[pipes.len() - 1 - k].run.id, pipes[pipes.len() - 1 - k].run.status))
}

/// The (connection id, run id) pairs of the runs awaiting the user, in order.
pub open spec fn awaiting_pairs(pipes: Seq<PipeRow>) -> Seq<(String, String)>
    decreases pipes.len(),
{
    if pipes.len() == 0 {
        seq![]
    } else {
        awaiting_pairs(pipes.drop_last()) + if pipes.last().awaiting_approval {
            seq![(pipes.last().connection_id, pipes.last().run.id)]
        } else {
            seq![]
        }
    }
}

/// What the pipeline notifications carry from one refresh to the next.
pub struct PipeWatch {
    /// Each run id the last refresh saw, with its status.
    pub pipe_seen: Vec<(String, PipelineRunStatus)>,
    pub pipe_seeded: bool,
    /// The runs the last refresh saw awaiting the user.
    pub approval_seen: Vec<(String, String)>,
    pub approval_seeded: bool,
}

impl PipeWatch {
    /// Nothing seen: the first refresh seeds silently.
    pub fn new() -> (r: PipeWatch)
        ensures
            r.pipe_seen@.len() == 0,
            !r.pipe_seeded,
            r.approval_seen@.len() == 0,
            !r.approval_seeded,
    {
        PipeWatch { pipe_seen: Vec::new(), pipe_seeded: false, approval_seen: Vec::new(), approval_seeded: false }
    }

    /// The runs to report as newly failed (none on the first refresh, or when the event is
    /// not watched); then remembers every run's status for the next refresh.
    pub fn failures<'a>(&mut self, watched: bool, pipes: &'a [PipeRow]) -> (out: Vec<&'a PipeRow>)
        ensures
            (watched && old(self).pipe_seeded) ==> (out@.len() == new_failures(old(self).pipe_seen@, pipes@).len()
                && forall|i: int| 0 <= i < out@.len() ==> *out@[i] == new_failures(old(self).pipe_seen@, pipes@)[i]),
            !(watched && old(self).pipe_seeded) ==> out@.len() == 0,
            final(self).pipe_seen@ == status_list(pipes@),
            final(self).pipe_seeded,
            final(self).approval_seen@ == old(self).approval_seen@,
            final(self).approval_seeded == old(self).approval_seeded,
    {
        let out = if watched && self.pipe_seeded {
            new_pipeline_failures(&self.pipe_seen, pipes)
        } else {
            Vec::new()
        };
        let mut seen: Vec<(String, PipelineRunStatus)> = Vec::new();
        let n = pipes.len();
        let mut k: usize = 0;
        while k < n
            invariant
                k <= n,
                n == pipes@.len(),
                seen@.len() == k,
                forall|j: int| 0 <= j < k ==> #[trigger] seen@[j] == status_list(pipes@)[j],
            decreases n - k,
        {
            let r = &pipes[n - 1 - k];
            seen.push((r.run.id.clone(), r.run.status));
            k += 1;
        }
        assert(seen@ =~= status_list(pipes@));
        self.pipe_seen = seen;
        self.pipe_seeded = true;
        out
    }

    /// The runs to report as newly awaiting the user (none on the first refresh, or when the
    /// event is not watched); then remembers which runs await the user.
    pub fn approvals<'a>(&mut self, watched: bool, pipes: &'a [PipeRow]) -> (out: Vec<&'a PipeRow>)
        ensures
            (watched && old(self).approval_seeded) ==> (out@.len() == new_approvals(old(self).approval_seen@, pipes@).len()
                && forall|i: int| 0 <= i < out@.len() ==> *out@[i] == new_approvals(old(self).approval_seen@, pipes@)[i]),
            !(watched && old(self).approval_seeded) ==> out@.len() == 0,
            final(self).approval_seen@ == awaiting_pairs(pipes@),
            final(self).approval_seeded,
            final(self).pipe_seen@ == old(self).pipe_seen@,
            final(self).pipe_seeded == old(self).pipe_seeded,
    {
        let out = if watched && self.approval_seeded {
            new_pending_approvals(&self.approval_seen, pipes)
        } else {
            Vec::new()
        };
        let mut seen: Vec<(String, String)> = Vec::new();
        let mut i: usize = 0;
        while i < pipes.len()
            invariant
                i <= pipes@.len(),
                seen@ == awaiting_pairs(pipes@.take(i as int)),
            decreases pipes@.len() - i,
        {
            assert(pipes@.take(i + 1).drop_last() == pipes@.take(i as int));
            assert(pipes@.take(i + 1).last() == pipes@[i as int]);
            if pipes[i].awaiting_approval {
                seen.push((pipes[i].connection_id.clone(), pipes[i].run.id.clone()));
            }
            i += 1;
        }
        assert(pipes@.take(i as int) == pipes@);
        self.approval_seen = seen;
        self.approval_seeded = true;
        out
    }

    /// The preferences changed: the next refresh seeds silently, so an event just switched
    /// on does not fire for what was already there.
    pub fn reseed(&mut self)
        ensures
            !final(self).pipe_seeded,
            !final(self).approval_seeded,
            final(self).pipe_seen@ == old(self).pipe_seen@,
            final(self).approval_seen@ == old(self).approval_seen@,
    {
        self.pipe_seeded = false;
        self.approval_seeded = false;
    }
}

/// Rows with the same run id carry the same status.
pub open spec fn one_status_per_run(pipes: Seq<PipeRow>) -> bool {
    forall|a: int, b: int|
        0 <= a < pipes.len() && 0 <= b < pipes.len() && #[trigger] pipes[a].run.id@ == #[trigger] pipes[b].run.id@
            ==> pipes[a].run.status == pipes[b].run.status
}

proof fn lemma_seen_status_finds(prev: Seq<(String, PipelineRunStatus)>, k: int, id: Seq<char>)
    requires
        0 <= k < prev.len(),
        prev[k].0@ == id,
    ensures
        exists|j: int| 0 <= j < prev.len() && prev[j].0@ == id && seen_status(prev, id) == Some(#[trigger] prev[j].1),
    decreases prev.len(),
{
    if prev[0].0@ == id {
        assert(seen_status(prev, id) == Some(prev[0].1));
    } else {
        let t = prev.drop_first();
        assert(t[k - 1] == prev[k]);
        lemma_seen_status_finds(t, k - 1, id);
        let j = choose|j: int| 0 <= j < t.len() && t[j].0@ == id && seen_status(t, id) == Some(#[trigger] t[j].1);
        assert(prev[j + 1] == t[j]);
    }
}

proof fn lemma_no_new_failures(prev: Seq<(String, PipelineRunStatus)>, pipes: Seq<PipeRow>, all: Seq<PipeRow>)
    requires
        forall|i: int| 0 <= i < pipes.len() ==> #[trigger] pipes[i].run.status == PipelineRunStatus::Failed
            ==> seen_status(prev, pipes[i].run.id@) == Some(PipelineRunStatus::Failed),
    ensures
        new_failures(prev, pipes).len() == 0,
    decreases pipes.len(),
{
    if pipes.len() > 0 {
        let t = pipes.drop_last();
        assert forall|i: int| 0 <= i < t.len() && #[trigger] t[i].run.status == PipelineRunStatus::Failed
            implies seen_status(prev, t[i].run.id@) == Some(PipelineRunStatus::Failed) by {
            assert(t[i] == pipes[i]);
        }
        lemma_no_new_failures(prev, t, all);
        assert(pipes.last() == pipes[pipes.len() - 1]);
    }
}

/// A failure is reported once: after a refresh remembers the runs, the same runs report no
/// new failure (each run id carrying one status).
pub proof fn lemma_failures_fire_once(pipes: Seq<PipeRow>)
    requires
        one_status_per_run(pipes),
    ensures
        new_failures(status_list(pipes), pipes).len() == 0,
{
    let prev = status_list(pipes);
    let n = pipes.len() as int;
    assert forall|i: int| 0 <= i < pipes.len() && #[trigger] pipes[i].run.status == PipelineRunStatus::Failed
        implies seen_status(prev, pipes[i].run.id@) == Some(PipelineRunStatus::Failed) by {
        let k = n - 1 - i;
        assert(prev[k] == (pipes[i].run.id, pipes[i].run.status));
        lemma_seen_status_finds(prev, k, pipes[i].run.id@);
        let j = choose|j: int| 0 <= j < prev.len() && prev[j].0@ == pipes[i].run.id@ && seen_status(prev, pipes[i].run.id@) == Some(#[trigger] prev[j].1);
        assert(prev[j] == (pipes[n - 1 - j].run.id, pipes[n - 1 - j].run.status));
        assert(pipes[n - 1 - j].run.id@ == pipes[i].run.id@);
    }
    lemma_no_new_failures(prev, pipes, pipes);
}

proof fn lemma_awaiting_pairs_cover(pipes: Seq<PipeRow>)
    ensures
        forall|i: int| 0 <= i < pipes.len() && #[trigger] pipes[i].awaiting_approval ==> seen_pair(
            awaiting_pairs(pipes),
            pipes[i].connection_id@,
            pipes[i].run.id@,
        ),
    decreases pipes.len(),
{
    if pipes.len() > 0 {
        let t = pipes.drop_last();
        lemma_awaiting_pairs_cover(t);
        let a = awaiting_pairs(t);
        let full = awaiting_pairs(pipes);
        assert forall|i: int| 0 <= i < pipes.len() && #[trigger] pipes[i].awaiting_approval implies seen_pair(
            full,
            pipes[i].connection_id@,
            pipes[i].run.id@,
        ) by {
            if i < t.len() {
                assert(t[i] == pipes[i]);
                let w = choose|w: int| 0 <= w < a.len() && #[trigger] a[w].0@ == t[i].connection_id@ && a[w].1@ == t[i].run.id@;
                assert(full[w] == a[w]);
            } else {
                assert(full[a.len() as int] == (pipes.last().connection_id, pipes.last().run.id));
                assert(full[a.len() as int].0@ == pipes[i].connection_id@);
            }
        }
    }
}

proof fn lemma_no_new_approvals(prev: Seq<(String, String)>, pipes: Seq<PipeRow>)
    requires
        forall|i: int| 0 <= i < pipes.len() && #[trigger] pipes[i].awaiting_approval ==> seen_pair(
            prev,
            pipes[i].connection_id@,
            pipes[i].run.id@,
        ),
    ensures
        new_approvals(prev, pipes).len() == 0,
    decreases pipes.len(),
{
    if pipes.len() > 0 {
        let t = pipes.drop_last();
        assert forall|i: int| 0 <= i < t.len() && #[trigger] t[i].awaiting_approval implies seen_pair(
            prev,
            t[i].connection_id@,
            t[i].run.id@,
        ) by {
            assert(t[i] == pipes[i]);
        }
        lemma_no_new_approvals(prev, t);
        assert(pipes.last() == pipes[pipes.len() - 1]);
    }
}

/// A pending approval is reported once: after a refresh remembers the waiting runs, the
/// same runs report nothing new.
pub proof fn lemma_approvals_fire_once(pipes: Seq<PipeRow>)
    ensures
        new_approvals(awaiting_pairs(pipes), pipes).len() == 0,
{
    lemma_awaiting_pairs_cover(pipes);
    lemma_no_new_approvals(awaiting_pairs(pipes), pipes);
}

/// Grouping partitions the rows by key: the headers' keys are pairwise distinct, and every
/// row of a group has that group's key (with `lemma_grouping_keeps_every_row`, every row
/// lands in exactly the groups' total).
pub proof fn lemma_groups_partition(pipes: Seq<PipeRow>, rows: Seq<usize>, g: PipeGroup)
    requires
        forall|i: int| 0 <= i < rows.len() ==> (#[trigger] rows[i]) < pipes.len(),
    ensures
        ({
            let (ks, ms) = grouped(pipes, rows, g);
            &&& forall|i: int, j: int| 0 <= i < j < ks.len() ==> #[trigger] ks[i] != #[trigger] ks[j]
            &&& forall|j: int, m: int|
                0 <= j < ms.len() && 0 <= m < ms[j].len() ==> group_key_spec(g, pipes[#[trigger] ms[j][m] as int])
                    == ks[j]
        }),
    decreases rows.len(),
{
    lemma_grouped(pipes, rows, g);
    if rows.len() > 0 {
        let prev = rows.drop_last();
        lemma_groups_partition(pipes, prev, g);
        lemma_grouped(pipes, prev, g);
        let (ks, ms) = grouped(pipes, prev, g);
        let r = rows.last();
        let k = group_key_spec(g, pipes[r as int]);
        lemma_key_index(ks, k);
        let j = key_index(ks, k);
        let (ks2, ms2) = grouped(pipes, rows, g);
        if j < ks.len() {
            assert forall|a: int, m: int| 0 <= a < ms2.len() && 0 <= m < ms2[a].len() implies group_key_spec(
                g,
                pipes[#[trigger] ms2[a][m] as int],
            ) == ks2[a] by {
                if a == j && m == ms[j].len() {
                    assert(ms2[a][m] == r);
                } else {
                    assert(ms2[a][m] == ms[a][m]);
                }
            }
        } else {
            assert forall|a: int, b: int| 0 <= a < b < ks2.len() implies #[trigger] ks2[a] != #[trigger] ks2[b] by {
                if b == ks.len() {
                    assert(ks2[b] == k);
                    assert(ks2[a] == ks[a]);
                } else {
                    assert(ks2[a] == ks[a] && ks2[b] == ks[b]);
                }
            }
            assert forall|a: int, m: int| 0 <= a < ms2.len() && 0 <= m < ms2[a].len() implies group_key_spec(
                g,
                pipes[#[trigger] ms2[a][m] as int],
            ) == ks2[a] by {
                if a < ms.len() {
                    assert(ms2[a] == ms[a]);
                } else {
                    assert(ms2[a] == seq![r]);
                }
            }
        }
    }
}

/// Ungrouped by a sort, the groups run newest first: each group's newest start is no older
/// than the next group's, and groups whose newest starts compare equal keep the order in
/// which the rows first showed them.
pub proof fn lemma_groups_newest_first(pipes: Seq<PipeRow>, ms: Seq<Seq<usize>>, order: Seq<usize>)
    requires
        groups_ordered(pipes, ms, None, order),
    ensures
        forall|i: int, j: int|
            0 <= i < j < order.len() ==> {
                let a = pipes[latest_of(pipes, ms[#[trigger] order[i] as int]) as int].run.started_at;
                let b = pipes[latest_of(pipes, ms[#[trigger] order[j] as int]) as int].run.started_at;
                time_sign(a, b) > 0 || (time_sign(a, b) == 0 && order[i] < order[j])
            },
{
}

/// A desktop notification: its title and body.
pub open spec fn note_view(n: (String, String)) -> (Seq<char>, Seq<char>) {
    (n.0@, n.1@)
}

/// The notification for a run that has just failed: `connection · label on branch` (`—`
/// for a run with no branch).
pub open spec fn failure_note_spec(p: PipeRow) -> (Seq<char>, Seq<char>) {
    (
        "Pipeline failed"@,
        p.connection@ + " \u{b7} "@ + pipe_label_spec(p) + " on "@ + match p.run.branch {
            Some(b) => b@,
            None => "\u{2014}"@,
        },
    )
}

/// The notification for a run that has just started waiting for the user.
pub open spec fn approval_note_spec(p: PipeRow) -> (Seq<char>, Seq<char>) {
    ("Approval needed"@, p.connection@ + " \u{b7} "@ + pipe_label_spec(p) + " is awaiting your approval"@)
}

pub fn failure_note(p: &PipeRow) -> (n: (String, String))
    ensures
        note_view(n) == failure_note_spec(*p),
{
    let mut title = String::new();
    push_str(&mut title, "Pipeline failed");
    let mut body = p.connection.clone();
    push_str(&mut body, " \u{b7} ");
    let label = pipe_label(p);
    push_str(&mut body, label.as_str());
    push_str(&mut body, " on ");
    match &p.run.branch {
        Some(b) => push_str(&mut body, b.as_str()),
        None => push_str(&mut body, "\u{2014}"),
    }
    proof {
        reveal_strlit("Pipeline failed");
    }
    (title, body)
}

pub fn approval_note(p: &PipeRow) -> (n: (String, String))
    ensures
        note_view(n) == approval_note_spec(*p),
{
    let mut title = String::new();
    push_str(&mut title, "Approval needed");
    let mut body = p.connection.clone();
    push_str(&mut body, " \u{b7} ");
    let label = pipe_label(p);
    push_str(&mut body, label.as_str());
    push_str(&mut body, " is awaiting your approval");
    proof {
        reveal_strlit("Approval needed");
    }
    (title, body)
}

impl PipeWatch {
    /// The notifications to send for the runs that have newly failed (see `failures`), in
    /// the rows' order; the watch then remembers every run's status.
    pub fn failure_notes(&mut self, watched: bool, pipes: &[PipeRow]) -> (out: Vec<(String, String)>)
        ensures
            (watched && old(self).pipe_seeded) ==> (out@.len() == new_failures(old(self).pipe_seen@, pipes@).len()
                && forall|i: int| 0 <= i < out@.len() ==> note_view(#[trigger] out@[i]) == failure_note_spec(
                new_failures(old(self).pipe_seen@, pipes@)[i],
            )),
            !(watched && old(self).pipe_seeded) ==> out@.len() == 0,
            final(self).pipe_seen@ == status_list(pipes@),
            final(self).pipe_seeded,
            final(self).approval_seen@ == old(self).approval_seen@,
            final(self).approval_seeded == old(self).approval_seeded,
    {
        let rows = self.failures(watched, pipes);
        let mut out: Vec<(String, String)> = Vec::new();
        let mut i: usize = 0;
        while i < rows.len()
            invariant
                i <= rows@.len(),
                out@.len() == i,
                forall|j: int| 0 <= j < i ==> note_view(#[trigger] out@[j]) == failure_note_spec(*rows@[j]),
            decreases rows@.len() - i,
        {
            out.push(failure_note(rows[i]));
            i += 1;
        }
        out
    }

    /// The notifications to send for the runs that newly wait for the user (see
    /// `approvals`), in the rows' order; the watch then remembers which runs wait.
    pub fn approval_notes(&mut self, watched: bool, pipes: &[PipeRow]) -> (out: Vec<(String, String)>)
        ensures
            (watched && old(self).approval_seeded) ==> (out@.len() == new_approvals(old(self).approval_seen@, pipes@).len()
                && forall|i: int| 0 <= i < out@.len() ==> note_view(#[trigger] out@[i]) == approval_note_spec(
                new_approvals(old(self).approval_seen@, pipes@)[i],
            )),
            !(watched && old(self).approval_seeded) ==> out@.len() == 0,
            final(self).approval_seen@ == awaiting_pairs(pipes@),
            final(self).approval_seeded,
            final(self).pipe_seen@ == old(self).pipe_seen@,
            final(self).pipe_seeded == old(self).pipe_seeded,
    {
        let rows = self.approvals(watched, pipes);
        let mut out: Vec<(String, String)> = Vec::new();
        let mut i: usize = 0;
        while i < rows.len()
            invariant
                i <= rows@.len(),
                out@.len() == i,
                forall|j: int| 0 <= j < i ==> note_view(#[trigger] out@[j]) == approval_note_spec(*rows@[j]),
            decreases rows@.len() - i,
        {
            out.push(approval_note(rows[i]));
            i += 1;
        }
        out
    }
}

} // verus!
