//! Pipeline runs and the drill-in tree (stages → jobs → steps) with its log pane.
use vstd::prelude::*;

use crate::cursor::{clamp_index, wrap_add, wrapped};
use crate::logs::{opened_pane, LogView};
use crate::text::{dec_nat, push_char, push_str, push_u64};
use crate::time::{fmt_duration, fmt_duration_spec, time_lt, time_lt_exec, UtcTime};

verus! {

// ---------------------------------------------------------------------------
// Runs
// ---------------------------------------------------------------------------

/// Where a pipeline run (or one of its stages, jobs or steps) stands.
#[derive(Debug, Clone, Copy, PartialEq, Eq, Structural)]
pub enum PipelineRunStatus {
    Queued,
    Running,
    Succeeded,
    PartiallySucceeded,
    Failed,
    Canceled,
}

pub struct PipelineStep {
    pub name: String,
    pub status: PipelineRunStatus,
    pub started_at: Option<UtcTime>,
    pub finished_at: Option<UtcTime>,
}

pub struct PipelineJob {
    pub id: String,
    pub name: String,
    pub status: PipelineRunStatus,
    pub started_at: Option<UtcTime>,
    pub finished_at: Option<UtcTime>,
    pub steps: Vec<PipelineStep>,
    pub url: Option<String>,
    /// Short failure summary (provider-specific).
    pub problem: Option<String>,
}

pub struct PipelineStage {
    pub name: String,
    pub status: PipelineRunStatus,
    pub jobs: Vec<PipelineJob>,
}

pub struct PipelineRun {
    pub repository: Option<String>,
    pub id: String,
    pub definition_id: String,
    pub number: Option<u64>,
    pub name: Option<String>,
    pub title: Option<String>,
    pub status: PipelineRunStatus,
    pub triggered_by: Option<String>,
    pub branch: Option<String>,
    pub commit_sha: Option<String>,
    pub started_at: Option<UtcTime>,
    pub finished_at: Option<UtcTime>,
    pub url: Option<String>,
    pub stages: Vec<PipelineStage>,
}

/// A gate on a run awaiting a decision.
#[derive(Debug, Clone, PartialEq, Eq)]
pub struct PipelineApproval {
    pub id: String,
    pub name: String,
    /// The authenticated user may approve or reject it.
    pub can_respond: bool,
}

/// Whether a run is still in flight (only these can be waiting on an approval gate).
pub open spec fn is_active_spec(status: PipelineRunStatus) -> bool {
    status == PipelineRunStatus::Queued || status == PipelineRunStatus::Running
}

/// Whether a run is still in flight (only these can be waiting on an approval gate).
pub fn is_active(status: PipelineRunStatus) -> (r: bool)
    ensures
        r == is_active_spec(status),
{
    match status {
        PipelineRunStatus::Queued | PipelineRunStatus::Running => true,
        _ => false,
    }
}

pub fn clone_opt_string(o: &Option<String>) -> (r: Option<String>)
    ensures
        r == *o,
{
    match o {
        Some(s) => Some(s.clone()),
        None => None,
    }
}

// ---------------------------------------------------------------------------
// Stage durations
// ---------------------------------------------------------------------------

/// The earliest start among the first `n` jobs.
pub open spec fn min_start(jobs: Seq<PipelineJob>, n: int) -> Option<UtcTime>
    decreases n,
{
    if n <= 0 {
        None
    } else {
        let p = min_start(jobs, n - 1);
        match jobs[n - 1].started_at {
            None => p,
            Some(t) => match p {
                None => Some(t),
                Some(q) => if time_lt(t, q) {
                    Some(t)
                } else {
                    Some(q)
                },
            },
        }
    }
}

/// The latest finish among the first `n` jobs.
pub open spec fn max_finish(jobs: Seq<PipelineJob>, n: int) -> Option<UtcTime>
    decreases n,
{
    if n <= 0 {
        None
    } else {
        let p = max_finish(jobs, n - 1);
        match jobs[n - 1].finished_at {
            None => p,
            Some(t) => match p {
                None => Some(t),
                Some(q) => if time_lt(q, t) {
                    Some(t)
                } else {
                    Some(q)
                },
            },
        }
    }
}

pub open spec fn all_finished(jobs: Seq<PipelineJob>) -> bool {
    forall|i: int| 0 <= i < jobs.len() ==> (#[trigger] jobs[i]).finished_at is Some
}

/// The elapsed span of a whole stage: earliest start to latest finish, and nothing while any
/// job is unfinished.
pub open spec fn stage_duration_spec(jobs: Seq<PipelineJob>) -> Option<Seq<char>> {
    let finish = if all_finished(jobs) {
        max_finish(jobs, jobs.len() as int)
    } else {
        None
    };
    fmt_duration_spec(min_start(jobs, jobs.len() as int), finish)
}

/// The elapsed span of a whole stage, or `None` if any job is still unfinished.
pub fn stage_duration(jobs: &[PipelineJob]) -> (r: Option<String>)
    ensures
        r matches Some(t) ==> stage_duration_spec(jobs@) == Some(t@),
        r is None ==> stage_duration_spec(jobs@) is None,
{
    let mut start: Option<UtcTime> = None;
    let mut finish: Option<UtcTime> = None;
    let mut all = true;
    let mut i: usize = 0;
    while i < jobs.len()
        invariant
            i <= jobs.len(),
            start == min_start(jobs@, i as int),
            finish == max_finish(jobs@, i as int),
            all == forall|k: int| 0 <= k < i ==> (#[trigger] jobs@[k]).finished_at is Some,
        decreases jobs.len() - i,
    {
        let j = &jobs[i];
        if let Some(t) = j.started_at {
            start = match start {
                None => Some(t),
                Some(q) => if time_lt_exec(t, q) {
                    Some(t)
                } else {
                    Some(q)
                },
            };
        }
        match j.finished_at {
            Some(t) => {
                finish = match finish {
                    None => Some(t),
                    Some(q) => if time_lt_exec(q, t) {
                        Some(t)
                    } else {
                        Some(q)
                    },
                };
            },
            None => {
                all = false;
            },
        }
        i += 1;
    }
    let fin = if all {
        finish
    } else {
        None
    };
    fmt_duration(start, fin)
}

// ---------------------------------------------------------------------------
// The flattened tree
// ---------------------------------------------------------------------------

/// The identity of a node with children, used as its collapse key.
#[derive(Debug, Clone, Copy, PartialEq, Eq, Structural)]
pub enum NodeKey {
    Stage(usize),
    Job(usize, usize),
}

/// A row of the tree: a stage, a job of a stage, or a step of a job.
#[derive(Debug, Clone, Copy, PartialEq, Eq, Structural)]
pub enum NodeRef {
    Stage(usize),
    Job(usize, usize),
    Step(usize, usize, usize),
}

/// The spelling of a collapse key: `s3` for a stage, `s3.j1` for a job.
pub open spec fn key_text(k: NodeKey) -> Seq<char> {
    match k {
        NodeKey::Stage(s) => seq!['s'] + dec_nat(s as nat),
        NodeKey::Job(s, j) => seq!['s'] + dec_nat(s as nat) + seq!['.', 'j'] + dec_nat(j as nat),
    }
}

fn key_string(k: NodeKey) -> (r: String)
    ensures
        r@ == key_text(k),
{
    let mut r = String::new();
    match k {
        NodeKey::Stage(s) => {
            push_char(&mut r, 's');
            push_u64(&mut r, s as u64);
            assert(r@ =~= key_text(k));
        },
        NodeKey::Job(s, j) => {
            push_char(&mut r, 's');
            push_u64(&mut r, s as u64);
            push_char(&mut r, '.');
            push_char(&mut r, 'j');
            push_u64(&mut r, j as u64);
            assert(r@ =~= key_text(k));
        },
    }
    r
}

/// One row of the flattened, collapsible pipeline tree.
pub struct FlatNode {
    pub depth: usize,
    pub label: String,
    pub status: PipelineRunStatus,
    /// Collapse key when the node has children; `None` for leaf steps.
    pub key: Option<String>,
    pub expanded: bool,
    /// Elapsed time (only for completed nodes), pre-formatted e.g. `3m12s`.
    pub duration: Option<String>,
    /// Short failure summary for failed jobs (provider-specific).
    pub problem: Option<String>,
    /// Deep link to the job (for `o`); steps inherit their job's link.
    pub url: Option<String>,
    /// The job id whose logs this node maps to (for `L`); `None` for stages.
    pub job_id: Option<String>,
}

pub open spec fn opt_view(o: Option<String>) -> Option<Seq<char>> {
    match o {
        Some(s) => Some(s@),
        None => None,
    }
}

/// The rows of one job: the job, then its steps unless it is collapsed.
pub open spec fn job_refs(steps: int, c: Seq<NodeKey>, si: usize, ji: usize) -> Seq<NodeRef> {
    seq![NodeRef::Job(si, ji)] + if !c.contains(NodeKey::Job(si, ji)) {
        Seq::new(steps as nat, |k: int| NodeRef::Step(si, ji, k as usize))
    } else {
        seq![]
    }
}

/// The rows of the first `n` jobs of stage `si`.
pub open spec fn jobs_refs(jobs: Seq<PipelineJob>, c: Seq<NodeKey>, si: usize, n: int) -> Seq<NodeRef>
    decreases n,
{
    if n <= 0 {
        seq![]
    } else {
        jobs_refs(jobs, c, si, n - 1) + job_refs(
            jobs[n - 1].steps@.len() as int,
            c,
            si,
            (n - 1) as usize,
        )
    }
}

/// The rows of stage `si`: the stage, then its jobs unless it is collapsed.
pub open spec fn stage_refs(stage: PipelineStage, c: Seq<NodeKey>, si: usize) -> Seq<NodeRef> {
    seq![NodeRef::Stage(si)] + if !c.contains(NodeKey::Stage(si)) {
        jobs_refs(stage.jobs@, c, si, stage.jobs@.len() as int)
    } else {
        seq![]
    }
}

/// The rows of the first `n` stages.
pub open spec fn stages_refs(stages: Seq<PipelineStage>, c: Seq<NodeKey>, n: int) -> Seq<NodeRef>
    decreases n,
{
    if n <= 0 {
        seq![]
    } else {
        stages_refs(stages, c, n - 1) + stage_refs(stages[n - 1], c, (n - 1) as usize)
    }
}

/// The visible rows of the tree, in order.
pub open spec fn visible_refs(run: PipelineRun, c: Seq<NodeKey>) -> Seq<NodeRef> {
    stages_refs(run.stages@, c, run.stages@.len() as int)
}

/// What row `n` shows for node `r` of `run` with collapsed keys `c`.
pub open spec fn node_matches(n: FlatNode, run: PipelineRun, c: Seq<NodeKey>, r: NodeRef) -> bool {
    match r {
        NodeRef::Stage(si) => {
            let stage = run.stages@[si as int];
            &&& n.depth == 0
            &&& n.label@ == stage.name@
            &&& n.status == stage.status
            &&& opt_view(n.key) == (if stage.jobs@.len() > 0 {
                Some(key_text(NodeKey::Stage(si)))
            } else {
                None
            })
            &&& n.expanded == !c.contains(NodeKey::Stage(si))
            &&& opt_view(n.duration) == stage_duration_spec(stage.jobs@)
            &&& n.problem is None
            &&& n.url is None
            &&& n.job_id is None
        },
        NodeRef::Job(si, ji) => {
            let job = run.stages@[si as int].jobs@[ji as int];
            &&& n.depth == 1
            &&& n.label@ == job.name@
            &&& n.status == job.status
            &&& opt_view(n.key) == (if job.steps@.len() > 0 {
                Some(key_text(NodeKey::Job(si, ji)))
            } else {
                None
            })
            &&& n.expanded == !c.contains(NodeKey::Job(si, ji))
            &&& opt_view(n.duration) == fmt_duration_spec(job.started_at, job.finished_at)
            &&& n.problem == job.problem
            &&& n.url == job.url
            &&& opt_view(n.job_id) == Some(job.id@)
        },
        NodeRef::Step(si, ji, k) => {
            let job = run.stages@[si as int].jobs@[ji as int];
            let step = job.steps@[k as int];
            &&& n.depth == 2
            &&& n.label@ == step.name@
            &&& n.status == step.status
            &&& n.key is None
            &&& !n.expanded
            &&& opt_view(n.duration) == fmt_duration_spec(step.started_at, step.finished_at)
            &&& n.problem is None
            &&& n.url == job.url
            &&& opt_view(n.job_id) == Some(job.id@)
        },
    }
}

/// The rows of `run` with collapsed keys `c`: one per visible node, in order.
pub open spec fn flattened(nodes: Seq<FlatNode>, run: PipelineRun, c: Seq<NodeKey>) -> bool {
    let refs = visible_refs(run, c);
    &&& nodes.len() == refs.len()
    &&& forall|i: int| 0 <= i < nodes.len() ==> node_matches(#[trigger] nodes[i], run, c, refs[i])
}

fn contains_key(c: &Vec<NodeKey>, k: NodeKey) -> (r: bool)
    ensures
        r == c@.contains(k),
{
    let mut i: usize = 0;
    while i < c.len()
        invariant
            i <= c.len(),
            forall|j: int| 0 <= j < i ==> c@[j] != k,
        decreases c.len() - i,
    {
        if c[i] == k {
            return true;
        }
        i += 1;
    }
    false
}

/// Flattens stages/jobs/steps into visible rows, honouring collapsed nodes.
pub fn flatten_tree(run: &PipelineRun, collapsed: &Vec<NodeKey>) -> (out: Vec<FlatNode>)
    ensures
        flattened(out@, *run, collapsed@),
{
    let ghost c = collapsed@;
    let ghost stages = run.stages@;
    let mut out: Vec<FlatNode> = Vec::new();
    let ghost mut refs: Seq<NodeRef> = seq![];
    let mut si: usize = 0;
    while si < run.stages.len()
        invariant
            c == collapsed@,
            stages == run.stages@,
            si <= stages.len(),
            refs == stages_refs(stages, c, si as int),
            out@.len() == refs.len(),
            forall|i: int| 0 <= i < out@.len() ==> node_matches(#[trigger] out@[i], *run, c, refs[i]),
        decreases stages.len() - si,
    {
        let stage = &run.stages[si];
        let skey = NodeKey::Stage(si);
        let expanded = !contains_key(collapsed, skey);
        let key = if stage.jobs.len() > 0 {
            Some(key_string(skey))
        } else {
            None
        };
        let node = FlatNode {
            depth: 0,
            label: stage.name.clone(),
            status: stage.status,
            key,
            expanded,
            duration: stage_duration(stage.jobs.as_slice()),
            problem: None,
            url: None,
            job_id: None,
        };
        assert(node_matches(node, *run, c, NodeRef::Stage(si)));
        out.push(node);
        let ghost base = refs;
        proof {
            refs = refs.push(NodeRef::Stage(si));
        }
        assert forall|i: int| 0 <= i < out@.len() implies node_matches(
            #[trigger] out@[i],
            *run,
            c,
            refs[i],
        ) by {
            if i < base.len() {
                assert(refs[i] == base[i]);
            }
        }
        if expanded {
            let mut ji: usize = 0;
            while ji < stage.jobs.len()
                invariant
                    c == collapsed@,
                    stages == run.stages@,
                    si < stages.len(),
                    *stage == stages[si as int],
                    !c.contains(NodeKey::Stage(si)),
                    base == stages_refs(stages, c, si as int),
                    ji <= stage.jobs@.len(),
                    refs == base + seq![NodeRef::Stage(si)] + jobs_refs(
                        stage.jobs@,
                        c,
                        si,
                        ji as int,
                    ),
                    out@.len() == refs.len(),
                    forall|i: int|
                        0 <= i < out@.len() ==> node_matches(#[trigger] out@[i], *run, c, refs[i]),
                decreases stage.jobs@.len() - ji,
            {
                let job = &stage.jobs[ji];
                let jkey = NodeKey::Job(si, ji);
                let jexpanded = !contains_key(collapsed, jkey);
                let key = if job.steps.len() > 0 {
                    Some(key_string(jkey))
                } else {
                    None
                };
                let node = FlatNode {
                    depth: 1,
                    label: job.name.clone(),
                    status: job.status,
                    key,
                    expanded: jexpanded,
                    duration: fmt_duration(job.started_at, job.finished_at),
                    problem: clone_opt_string(&job.problem),
                    url: clone_opt_string(&job.url),
                    job_id: Some(job.id.clone()),
                };
                assert(node_matches(node, *run, c, NodeRef::Job(si, ji)));
                out.push(node);
                let ghost before_job = refs;
                proof {
                    refs = refs.push(NodeRef::Job(si, ji));
                }
                assert forall|i: int| 0 <= i < out@.len() implies node_matches(
                    #[trigger] out@[i],
                    *run,
                    c,
                    refs[i],
                ) by {
                    if i < before_job.len() {
                        assert(refs[i] == before_job[i]);
                    }
                }
                if jexpanded {
                    let mut k: usize = 0;
                    while k < job.steps.len()
                        invariant
                            c == collapsed@,
                            stages == run.stages@,
                            si < stages.len(),
                            *stage == stages[si as int],
                            ji < stage.jobs@.len(),
                            *job == stage.jobs@[ji as int],
                            k <= job.steps@.len(),
                            refs == before_job + seq![NodeRef::Job(si, ji)] + Seq::new(
                                k as nat,
                                |q: int| NodeRef::Step(si, ji, q as usize),
                            ),
                            out@.len() == refs.len(),
                            forall|i: int|
                                0 <= i < out@.len() ==> node_matches(
                                    #[trigger] out@[i],
                                    *run,
                                    c,
                                    refs[i],
                                ),
                        decreases job.steps@.len() - k,
                    {
                        let step = &job.steps[k];
                        let node = FlatNode {
                            depth: 2,
                            label: step.name.clone(),
                            status: step.status,
                            key: None,
                            expanded: false,
                            duration: fmt_duration(step.started_at, step.finished_at),
                            problem: None,
                            url: clone_opt_string(&job.url),
                            job_id: Some(job.id.clone()),
                        };
                        assert(node_matches(node, *run, c, NodeRef::Step(si, ji, k)));
                        out.push(node);
                        let ghost before_step = refs;
                        proof {
                            refs = refs.push(NodeRef::Step(si, ji, k));
                        }
                        assert forall|i: int| 0 <= i < out@.len() implies node_matches(
                            #[trigger] out@[i],
                            *run,
                            c,
                            refs[i],
                        ) by {
                            if i < before_step.len() {
                                assert(refs[i] == before_step[i]);
                            }
                        }
                        k += 1;
                        assert(refs =~= before_job + seq![NodeRef::Job(si, ji)] + Seq::new(
                            k as nat,
                            |q: int| NodeRef::Step(si, ji, q as usize),
                        ));
                    }
                }
                assert(refs =~= before_job + job_refs(
                    job.steps@.len() as int,
                    c,
                    si,
                    ji,
                ));
                ji += 1;
                assert(refs =~= base + seq![NodeRef::Stage(si)] + jobs_refs(
                    stage.jobs@,
                    c,
                    si,
                    ji as int,
                ));
            }
        }
        si += 1;
        assert(refs =~= stages_refs(stages, c, si as int));
    }
    out
}

} // verus!

verus! {

pub proof fn lemma_jobs_refs_prefix(
    jobs: Seq<PipelineJob>,
    c: Seq<NodeKey>,
    si: usize,
    n: int,
    m: int,
)
    requires
        0 <= n <= m,
    ensures
        jobs_refs(jobs, c, si, n).len() <= jobs_refs(jobs, c, si, m).len(),
        forall|i: int|
            0 <= i < jobs_refs(jobs, c, si, n).len() ==> #[trigger] jobs_refs(jobs, c, si, m)[i]
                == jobs_refs(jobs, c, si, n)[i],
    decreases m - n,
{
    if n < m {
        lemma_jobs_refs_prefix(jobs, c, si, n, m - 1);
    }
}

pub proof fn lemma_stages_refs_prefix(stages: Seq<PipelineStage>, c: Seq<NodeKey>, n: int, m: int)
    requires
        0 <= n <= m,
    ensures
        stages_refs(stages, c, n).len() <= stages_refs(stages, c, m).len(),
        forall|i: int|
            0 <= i < stages_refs(stages, c, n).len() ==> #[trigger] stages_refs(stages, c, m)[i]
                == stages_refs(stages, c, n)[i],
    decreases m - n,
{
    if n < m {
        lemma_stages_refs_prefix(stages, c, n, m - 1);
    }
}

/// The position of node `target` in the tree, when its stage (and, for a step, its job) is
/// expanded.
pub proof fn lemma_node_position(run: PipelineRun, c: Seq<NodeKey>, si: usize, ji: usize, off: int)
    requires
        si < run.stages@.len(),
        ji < run.stages@[si as int].jobs@.len(),
        !c.contains(NodeKey::Stage(si)),
        0 <= off,
        off == 0 || (off - 1 < run.stages@[si as int].jobs@[ji as int].steps@.len() && !c.contains(
            NodeKey::Job(si, ji),
        )),
    ensures
        ({
            let jobs = run.stages@[si as int].jobs@;
            let p = stages_refs(run.stages@, c, si as int).len() + 1 + jobs_refs(
                jobs,
                c,
                si,
                ji as int,
            ).len() + off;
            &&& p < stages_refs(run.stages@, c, si + 1).len()
            &&& p < visible_refs(run, c).len()
            &&& visible_refs(run, c)[p] == (if off == 0 {
                NodeRef::Job(si, ji)
            } else {
                NodeRef::Step(si, ji, (off - 1) as usize)
            })
        }),
{
    let stages = run.stages@;
    let jobs = stages[si as int].jobs@;
    let a = stages_refs(stages, c, si as int);
    let jr = jobs_refs(jobs, c, si, ji as int);
    let jr1 = jobs_refs(jobs, c, si, ji + 1);
    let all_j = jobs_refs(jobs, c, si, jobs.len() as int);
    let jref = job_refs(jobs[ji as int].steps@.len() as int, c, si, ji);
    assert(jr1 == jr + jref);
    lemma_jobs_refs_prefix(jobs, c, si, ji + 1, jobs.len() as int);
    let target = if off == 0 {
        NodeRef::Job(si, ji)
    } else {
        NodeRef::Step(si, ji, (off - 1) as usize)
    };
    assert(jref[off] == target);
    assert(jr1[jr.len() + off] == target);
    assert(all_j[jr.len() + off] == target);
    let sr = stage_refs(stages[si as int], c, si);
    assert(sr == seq![NodeRef::Stage(si)] + all_j);
    assert(sr[1 + jr.len() + off] == target);
    assert(stages_refs(stages, c, si + 1) == a + sr);
    assert(stages_refs(stages, c, si + 1)[a.len() + 1 + jr.len() + off] == target);
    lemma_stages_refs_prefix(stages, c, si + 1, stages.len() as int);
}

/// The visible rows of the tree, as node references.
pub fn visible_node_refs(run: &PipelineRun, collapsed: &Vec<NodeKey>) -> (out: Vec<NodeRef>)
    ensures
        out@ == visible_refs(*run, collapsed@),
{
    let ghost c = collapsed@;
    let ghost stages = run.stages@;
    let mut out: Vec<NodeRef> = Vec::new();
    let mut si: usize = 0;
    while si < run.stages.len()
        invariant
            c == collapsed@,
            stages == run.stages@,
            si <= stages.len(),
            out@ == stages_refs(stages, c, si as int),
        decreases stages.len() - si,
    {
        let stage = &run.stages[si];
        let ghost base = out@;
        out.push(NodeRef::Stage(si));
        if !contains_key(collapsed, NodeKey::Stage(si)) {
            let mut ji: usize = 0;
            while ji < stage.jobs.len()
                invariant
                    c == collapsed@,
                    stages == run.stages@,
                    si < stages.len(),
                    *stage == stages[si as int],
                    ji <= stage.jobs@.len(),
                    out@ == base + seq![NodeRef::Stage(si)] + jobs_refs(stage.jobs@, c, si, ji as int),
                decreases stage.jobs@.len() - ji,
            {
                let job = &stage.jobs[ji];
                let ghost before_job = out@;
                out.push(NodeRef::Job(si, ji));
                if !contains_key(collapsed, NodeKey::Job(si, ji)) {
                    let mut k: usize = 0;
                    while k < job.steps.len()
                        invariant
                            k <= job.steps@.len(),
                            out@ == before_job + seq![NodeRef::Job(si, ji)] + Seq::new(
                                k as nat,
                                |q: int| NodeRef::Step(si, ji, q as usize),
                            ),
                        decreases job.steps@.len() - k,
                    {
                        out.push(NodeRef::Step(si, ji, k));
                        k += 1;
                        assert(out@ =~= before_job + seq![NodeRef::Job(si, ji)] + Seq::new(
                            k as nat,
                            |q: int| NodeRef::Step(si, ji, q as usize),
                        ));
                    }
                }
                assert(out@ =~= before_job + job_refs(job.steps@.len() as int, c, si, ji));
                ji += 1;
                assert(out@ =~= base + seq![NodeRef::Stage(si)] + jobs_refs(
                    stage.jobs@,
                    c,
                    si,
                    ji as int,
                ));
            }
        }
        si += 1;
        assert(out@ =~= stages_refs(stages, c, si as int));
    }
    out
}

// ---------------------------------------------------------------------------
// Failed nodes and job lookup
// ---------------------------------------------------------------------------

/// The first failed step of `steps` at or after `k`.
pub open spec fn first_failed_step_from(steps: Seq<PipelineStep>, k: int) -> Option<int>
    decreases steps.len() - k,
{
    if k < 0 || k >= steps.len() {
        None
    } else if steps[k].status == PipelineRunStatus::Failed {
        Some(k)
    } else {
        first_failed_step_from(steps, k + 1)
    }
}

/// Why a job counts as failed: its first failed step, or (lacking one) its own status.
pub open spec fn job_failure(job: PipelineJob) -> Option<Option<int>> {
    match first_failed_step_from(job.steps@, 0) {
        Some(k) => Some(Some(k)),
        None => if job.status == PipelineRunStatus::Failed {
            Some(None)
        } else {
            None
        },
    }
}

pub open spec fn first_failed_in_jobs(jobs: Seq<PipelineJob>, si: int, j: int) -> Option<
    (int, int, Option<int>),
>
    decreases jobs.len() - j,
{
    if j < 0 || j >= jobs.len() {
        None
    } else {
        match job_failure(jobs[j]) {
            Some(step) => Some((si, j, step)),
            None => first_failed_in_jobs(jobs, si, j + 1),
        }
    }
}

pub open spec fn first_failed_in_stages(stages: Seq<PipelineStage>, s: int) -> Option<
    (int, int, Option<int>),
>
    decreases stages.len() - s,
{
    if s < 0 || s >= stages.len() {
        None
    } else {
        match first_failed_in_jobs(stages[s].jobs@, s, 0) {
            Some(x) => Some(x),
            None => first_failed_in_stages(stages, s + 1),
        }
    }
}

/// The first failed node of a run as `(stage, job, step)`, in tree order.
pub open spec fn first_failed_spec(run: PipelineRun) -> Option<(int, int, Option<int>)> {
    first_failed_in_stages(run.stages@, 0)
}

pub open spec fn opt_int(o: Option<usize>) -> Option<int> {
    match o {
        Some(k) => Some(k as int),
        None => None,
    }
}

pub proof fn lemma_first_failed_step_bounds(steps: Seq<PipelineStep>, k: int)
    requires
        0 <= k,
    ensures
        first_failed_step_from(steps, k) matches Some(x) ==> k <= x < steps.len()
            && steps[x].status == PipelineRunStatus::Failed,
    decreases steps.len() - k,
{
    if k < steps.len() && steps[k].status != PipelineRunStatus::Failed {
        lemma_first_failed_step_bounds(steps, k + 1);
    }
}

pub proof fn lemma_first_failed_jobs_bounds(jobs: Seq<PipelineJob>, si: int, j: int)
    requires
        0 <= j,
    ensures
        first_failed_in_jobs(jobs, si, j) matches Some(x) ==> x.0 == si && j <= x.1 < jobs.len()
            && job_failure(jobs[x.1]) == Some(x.2),
    decreases jobs.len() - j,
{
    if j < jobs.len() && job_failure(jobs[j]) is None {
        lemma_first_failed_jobs_bounds(jobs, si, j + 1);
    }
}

pub proof fn lemma_first_failed_bounds(stages: Seq<PipelineStage>, s: int)
    requires
        0 <= s,
    ensures
        first_failed_in_stages(stages, s) matches Some(x) ==> s <= x.0 < stages.len() && 0 <= x.1
            < stages[x.0].jobs@.len() && job_failure(stages[x.0].jobs@[x.1]) == Some(x.2),
    decreases stages.len() - s,
{
    if s < stages.len() {
        lemma_first_failed_jobs_bounds(stages[s].jobs@, s, 0);
        if first_failed_in_jobs(stages[s].jobs@, s, 0) is None {
            lemma_first_failed_bounds(stages, s + 1);
        }
    }
}

/// The first failed node of a run as `(stage, job, step)`: a failed step when a job has one
/// (its log names the failure most precisely), else a failed job.
pub fn first_failed_node(run: &PipelineRun) -> (r: Option<(usize, usize, Option<usize>)>)
    ensures
        r matches Some(x) ==> first_failed_spec(*run) == Some((x.0 as int, x.1 as int, opt_int(x.2))),
        r is None ==> first_failed_spec(*run) is None,
{
    let ghost stages = run.stages@;
    let mut si: usize = 0;
    while si < run.stages.len()
        invariant
            stages == run.stages@,
            si <= stages.len(),
            first_failed_in_stages(stages, 0) == first_failed_in_stages(stages, si as int),
        decreases stages.len() - si,
    {
        let stage = &run.stages[si];
        let mut ji: usize = 0;
        while ji < stage.jobs.len()
            invariant
                stages == run.stages@,
                si < stages.len(),
                *stage == stages[si as int],
                ji <= stage.jobs@.len(),
                first_failed_in_jobs(stage.jobs@, si as int, 0) == first_failed_in_jobs(
                    stage.jobs@,
                    si as int,
                    ji as int,
                ),
                first_failed_in_stages(stages, 0) == first_failed_in_stages(stages, si as int),
            decreases stage.jobs@.len() - ji,
        {
            let job = &stage.jobs[ji];
            let mut k: usize = 0;
            while k < job.steps.len()
                invariant
                    stages == run.stages@,
                    si < stages.len(),
                    *stage == stages[si as int],
                    ji < stage.jobs@.len(),
                    *job == stage.jobs@[ji as int],
                    first_failed_in_jobs(stage.jobs@, si as int, 0) == first_failed_in_jobs(
                        stage.jobs@,
                        si as int,
                        ji as int,
                    ),
                    first_failed_in_stages(stages, 0) == first_failed_in_stages(stages, si as int),
                    k <= job.steps@.len(),
                    first_failed_step_from(job.steps@, 0) == first_failed_step_from(
                        job.steps@,
                        k as int,
                    ),
                decreases job.steps@.len() - k,
            {
                if job.steps[k].status == PipelineRunStatus::Failed {
                    return Some((si, ji, Some(k)));
                }
                k += 1;
            }
            if job.status == PipelineRunStatus::Failed {
                return Some((si, ji, None));
            }
            ji += 1;
        }
        si += 1;
    }
    None
}

/// The first job (in tree order) at or after stage `s` whose id is `id`.
pub open spec fn find_job_in_jobs(jobs: Seq<PipelineJob>, id: Seq<char>, j: int) -> Option<int>
    decreases jobs.len() - j,
{
    if j < 0 || j >= jobs.len() {
        None
    } else if jobs[j].id@ == id {
        Some(j)
    } else {
        find_job_in_jobs(jobs, id, j + 1)
    }
}

pub open spec fn find_job_from(stages: Seq<PipelineStage>, id: Seq<char>, s: int) -> Option<(int, int)>
    decreases stages.len() - s,
{
    if s < 0 || s >= stages.len() {
        None
    } else {
        match find_job_in_jobs(stages[s].jobs@, id, 0) {
            Some(j) => Some((s, j)),
            None => find_job_from(stages, id, s + 1),
        }
    }
}

/// The first job of `run` (in tree order) whose id is `id`.
pub open spec fn find_job(run: PipelineRun, id: Seq<char>) -> Option<(int, int)> {
    find_job_from(run.stages@, id, 0)
}

pub proof fn lemma_find_job_bounds(stages: Seq<PipelineStage>, id: Seq<char>, s: int)
    requires
        0 <= s,
    ensures
        find_job_from(stages, id, s) matches Some(p) ==> s <= p.0 < stages.len() && 0 <= p.1
            < stages[p.0].jobs@.len() && stages[p.0].jobs@[p.1].id@ == id,
    decreases stages.len() - s,
{
    if s < stages.len() {
        lemma_find_job_in_jobs_bounds(stages[s].jobs@, id, 0);
        if find_job_in_jobs(stages[s].jobs@, id, 0) is None {
            lemma_find_job_bounds(stages, id, s + 1);
        }
    }
}

pub proof fn lemma_find_job_in_jobs_bounds(jobs: Seq<PipelineJob>, id: Seq<char>, j: int)
    requires
        0 <= j,
    ensures
        find_job_in_jobs(jobs, id, j) matches Some(p) ==> j <= p < jobs.len() && jobs[p].id@ == id,
    decreases jobs.len() - j,
{
    if j < jobs.len() && jobs[j].id@ != id {
        lemma_find_job_in_jobs_bounds(jobs, id, j + 1);
    }
}

/// The status of the job `id` names, or the run's own when no job has that id.
pub open spec fn job_status_or_run(run: PipelineRun, id: Seq<char>) -> PipelineRunStatus {
    match find_job(run, id) {
        Some((s, j)) => run.stages@[s].jobs@[j].status,
        None => run.status,
    }
}

/// Looks up the job `id` names, in tree order.
pub fn find_job_exec(run: &PipelineRun, id: &String) -> (r: Option<(usize, usize)>)
    ensures
        r matches Some(p) ==> find_job(*run, id@) == Some((p.0 as int, p.1 as int)),
        r is None ==> find_job(*run, id@) is None,
{
    let ghost stages = run.stages@;
    let mut si: usize = 0;
    while si < run.stages.len()
        invariant
            stages == run.stages@,
            si <= stages.len(),
            find_job_from(stages, id@, 0) == find_job_from(stages, id@, si as int),
        decreases stages.len() - si,
    {
        let stage = &run.stages[si];
        let mut ji: usize = 0;
        while ji < stage.jobs.len()
            invariant
                stages == run.stages@,
                si < stages.len(),
                *stage == stages[si as int],
                ji <= stage.jobs@.len(),
                find_job_in_jobs(stage.jobs@, id@, 0) == find_job_in_jobs(stage.jobs@, id@, ji as int),
                find_job_from(stages, id@, 0) == find_job_from(stages, id@, si as int),
            decreases stage.jobs@.len() - ji,
        {
            if stage.jobs[ji].id == *id {
                return Some((si, ji));
            }
            ji += 1;
        }
        si += 1;
    }
    None
}

} // verus!

verus! {

/// Removes every occurrence of `k`; answers whether it was there.
fn remove_key(c: &mut Vec<NodeKey>, k: NodeKey) -> (was: bool)
    ensures
        was == old(c)@.contains(k),
        forall|x: NodeKey| #[trigger] final(c)@.contains(x) <==> (old(c)@.contains(x) && x != k),
{
    let ghost orig = c@;
    let mut out: Vec<NodeKey> = Vec::new();
    let mut was = false;
    let mut i: usize = 0;
    while i < c.len()
        invariant
            c@ == orig,
            i <= c.len(),
            was == exists|j: int| 0 <= j < i && orig[j] == k,
            forall|x: NodeKey| #[trigger] out@.contains(x) <==> (exists|j: int| 0 <= j < i && orig[j] == x) && x != k,
        decreases c.len() - i,
    {
        let x = c[i];
        let ghost prev = out@;
        if x == k {
            was = true;
        } else {
            out.push(x);
        }
        assert forall|y: NodeKey| #[trigger] out@.contains(y) <==> (exists|j: int| 0 <= j < i + 1 && orig[j] == y) && y != k by {
            if out@.contains(y) {
                if !prev.contains(y) {
                    assert(out@[prev.len() as int] == y);
                    let w = choose|w: int| 0 <= w < out@.len() && out@[w] == y;
                    if w < prev.len() {
                        assert(prev[w] == y);
                    }
                }
            }
            if (exists|j: int| 0 <= j < i + 1 && orig[j] == y) && y != k {
                let j = choose|j: int| 0 <= j < i + 1 && orig[j] == y;
                if j == i {
                    assert(out@[prev.len() as int] == y);
                } else {
                    assert(prev.contains(y));
                    let w = choose|w: int| 0 <= w < prev.len() && prev[w] == y;
                    assert(out@[w] == y);
                }
            }
        }
        i += 1;
    }
    *c = out;
    was
}

/// Flips whether `k` is collapsed.
fn toggle_key(c: &mut Vec<NodeKey>, k: NodeKey)
    ensures
        forall|x: NodeKey| #[trigger] final(c)@.contains(x) <==> (if x == k {
            !old(c)@.contains(k)
        } else {
            old(c)@.contains(x)
        }),
{
    if !remove_key(c, k) {
        let ghost mid = c@;
        c.push(k);
        assert forall|x: NodeKey| #[trigger] c@.contains(x) <==> (mid.contains(x) || x == k) by {
            if c@.contains(x) && x != k {
                let w = choose|w: int| 0 <= w < c@.len() && c@[w] == x;
                assert(mid[w] == x);
            }
            if mid.contains(x) {
                let w = choose|w: int| 0 <= w < mid.len() && mid[w] == x;
                assert(c@[w] == x);
            }
            if x == k {
                assert(c@[mid.len() as int] == k);
            }
        }
    }
}

/// The refs of the tree depend on the collapsed keys only through membership.
pub proof fn lemma_refs_congruent(run: PipelineRun, c1: Seq<NodeKey>, c2: Seq<NodeKey>)
    requires
        forall|x: NodeKey| c1.contains(x) == c2.contains(x),
    ensures
        visible_refs(run, c1) == visible_refs(run, c2),
{
    assert forall|n: int| 0 <= n <= run.stages@.len() implies stages_refs(run.stages@, c1, n)
        == stages_refs(run.stages@, c2, n) by {
        lemma_stages_refs_congruent(run.stages@, c1, c2, n);
    }
}

proof fn lemma_jobs_refs_congruent(
    jobs: Seq<PipelineJob>,
    c1: Seq<NodeKey>,
    c2: Seq<NodeKey>,
    si: usize,
    n: int,
)
    requires
        forall|x: NodeKey| c1.contains(x) == c2.contains(x),
    ensures
        jobs_refs(jobs, c1, si, n) == jobs_refs(jobs, c2, si, n),
    decreases n,
{
    if n > 0 {
        lemma_jobs_refs_congruent(jobs, c1, c2, si, n - 1);
        assert(c1.contains(NodeKey::Job(si, (n - 1) as usize)) == c2.contains(
            NodeKey::Job(si, (n - 1) as usize),
        ));
    }
}

proof fn lemma_stages_refs_congruent(
    stages: Seq<PipelineStage>,
    c1: Seq<NodeKey>,
    c2: Seq<NodeKey>,
    n: int,
)
    requires
        forall|x: NodeKey| c1.contains(x) == c2.contains(x),
    ensures
        stages_refs(stages, c1, n) == stages_refs(stages, c2, n),
    decreases n,
{
    if n > 0 {
        lemma_stages_refs_congruent(stages, c1, c2, n - 1);
        let si = (n - 1) as usize;
        assert(c1.contains(NodeKey::Stage(si)) == c2.contains(NodeKey::Stage(si)));
        lemma_jobs_refs_congruent(stages[n - 1].jobs@, c1, c2, si, stages[n - 1].jobs@.len() as int);
    }
}

/// State for the full-screen pipeline drill-in (stages → jobs → steps).
pub struct PipelineView {
    pub title: String,
    pub run: PipelineRun,
    pub connection_id: String,
    /// The provider's name, as `ProviderType::as_str` spells it.
    pub provider: String,
    pub definition_id: String,
    pub branch: Option<String>,
    /// The collapsed stages and jobs.
    pub collapsed: Vec<NodeKey>,
    pub selected: usize,
    /// Open log pane over a selected job, if any.
    pub logs: Option<LogView>,
    /// Whether keys drive the log pane (true) or the tree beside it, while logs are open.
    pub log_focus: bool,
    /// Whether the last frame had room to draw the tree beside the logs. Written by the
    /// renderer; when false the logs fill the pane and always have the keys.
    pub log_split: bool,
    /// The user has moved the tree cursor, so no automatic selection may override it.
    pub user_moved: bool,
    /// The first-load jump to a failed node has been decided (made, or found unnecessary).
    pub auto_checked: bool,
    /// The first load selected a failed node whose logs should open once this view is the
    /// screen (never while it only sits in the preview).
    pub auto_logs: bool,
    /// Whether this run's provider can surface pending approvals.
    pub supports_approvals: bool,
    /// Whether the app can actually submit an approve/reject here (false = view-only).
    pub can_respond_approvals: bool,
    /// Gates on this run currently awaiting a decision.
    pub approvals: Vec<PipelineApproval>,
    /// True when `run` is a cache-seeded guess, not yet confirmed by a live fetch.
    pub stale: bool,
}

/// The node a failure points at: the job, or its step.
pub open spec fn failed_ref(x: (int, int, Option<int>)) -> NodeRef {
    match x.2 {
        Some(k) => NodeRef::Step(x.0 as usize, x.1 as usize, k as usize),
        None => NodeRef::Job(x.0 as usize, x.1 as usize),
    }
}

impl PipelineView {
    /// The visible rows of the tree, in order.
    pub open spec fn visible(&self) -> Seq<NodeRef> {
        visible_refs(self.run, self.collapsed@)
    }

    pub fn new(
        title: String,
        run: PipelineRun,
        connection_id: String,
        provider: String,
        definition_id: String,
        branch: Option<String>,
    ) -> (v: Self)
        ensures
            v == (PipelineView {
                title,
                run,
                connection_id,
                provider,
                definition_id,
                branch,
                collapsed: v.collapsed,
                selected: 0,
                logs: None,
                log_focus: true,
                log_split: true,
                user_moved: false,
                auto_checked: false,
                auto_logs: false,
                supports_approvals: false,
                can_respond_approvals: false,
                approvals: v.approvals,
                stale: false,
            }),
            v.collapsed@ == Seq::<NodeKey>::empty(),
            v.approvals@ == Seq::<PipelineApproval>::empty(),
    {
        PipelineView {
            title,
            run,
            connection_id,
            provider,
            definition_id,
            branch,
            collapsed: Vec::new(),
            selected: 0,
            logs: None,
            log_focus: true,
            log_split: true,
            user_moved: false,
            auto_checked: false,
            auto_logs: false,
            supports_approvals: false,
            can_respond_approvals: false,
            approvals: Vec::new(),
            stale: false,
        }
    }

    /// Flattens stages/jobs/steps into visible rows, honouring collapsed nodes.
    pub fn flatten(&self) -> (out: Vec<FlatNode>)
        ensures
            flattened(out@, self.run, self.collapsed@),
            out@.len() == self.visible().len(),
    {
        flatten_tree(&self.run, &self.collapsed)
    }

    /// Row of a job (or one of its steps) in [`PipelineView::flatten`]'s order, assuming its
    /// stage (and, for a step, the job) is expanded.
    fn node_index(&self, si: usize, ji: usize, step: Option<usize>) -> (r: usize)
        requires
            si < self.run.stages@.len(),
            ji < self.run.stages@[si as int].jobs@.len(),
            !self.collapsed@.contains(NodeKey::Stage(si)),
            step matches Some(k) ==> k < self.run.stages@[si as int].jobs@[ji as int].steps@.len()
                && !self.collapsed@.contains(NodeKey::Job(si, ji)),
            self.visible().len() <= usize::MAX,
        ensures
            r < self.visible().len(),
            self.visible()[r as int] == (match step {
                Some(k) => NodeRef::Step(si, ji, k),
                None => NodeRef::Job(si, ji),
            }),
    {
        let ghost c = self.collapsed@;
        let ghost stages = self.run.stages@;
        let ghost total = self.visible();
        let ghost off: int = match step {
            Some(k) => k + 1,
            None => 0,
        };
        proof {
            lemma_node_position(self.run, c, si, ji, off);
            lemma_stages_refs_prefix(stages, c, si + 1, stages.len() as int);
        }
        let mut idx: usize = 0;
        let mut s: usize = 0;
        while s < self.run.stages.len()
            invariant
                c == self.collapsed@,
                stages == self.run.stages@,
                total == visible_refs(self.run, c),
                total.len() <= usize::MAX,
                si < stages.len(),
                ji < stages[si as int].jobs@.len(),
                !c.contains(NodeKey::Stage(si)),
                off == (match step {
                    Some(k) => k + 1,
                    None => 0,
                }),
                ({
                    let p = stages_refs(stages, c, si as int).len() + 1 + jobs_refs(
                        stages[si as int].jobs@,
                        c,
                        si,
                        ji as int,
                    ).len() + off;
                    &&& p < stages_refs(stages, c, si + 1).len()
                    &&& p < total.len()
                    &&& total[p] == (match step {
                        Some(k) => NodeRef::Step(si, ji, k),
                        None => NodeRef::Job(si, ji),
                    })
                }),
                stages_refs(stages, c, si + 1).len() <= total.len(),
                s <= si,
                idx as int == stages_refs(stages, c, s as int).len(),
            decreases stages.len() - s,
        {
            proof {
                lemma_stages_refs_prefix(stages, c, s + 1, si + 1);
            }
            idx += 1;
            let stage = &self.run.stages[s];
            if s < si && contains_key(&self.collapsed, NodeKey::Stage(s)) {
                s += 1;
                continue;
            }
            let mut j: usize = 0;
            while j < stage.jobs.len()
                invariant
                    c == self.collapsed@,
                    stages == self.run.stages@,
                    total == visible_refs(self.run, c),
                    total.len() <= usize::MAX,
                    s <= si,
                    s < stages.len(),
                    *stage == stages[s as int],
                    s < si ==> !c.contains(NodeKey::Stage(s)),
                    s == si ==> !c.contains(NodeKey::Stage(si)),
                    si < stages.len(),
                    ji < stages[si as int].jobs@.len(),
                    off == (match step {
                        Some(k) => k + 1,
                        None => 0,
                    }),
                    ({
                        let p = stages_refs(stages, c, si as int).len() + 1 + jobs_refs(
                            stages[si as int].jobs@,
                            c,
                            si,
                            ji as int,
                        ).len() + off;
                        &&& p < total.len()
                        &&& total[p] == (match step {
                            Some(k) => NodeRef::Step(si, ji, k),
                            None => NodeRef::Job(si, ji),
                        })
                    }),
                    stages_refs(stages, c, s + 1).len() <= total.len(),
                    j <= stage.jobs@.len(),
                    s == si ==> j <= ji,
                    idx as int == stages_refs(stages, c, s as int).len() + 1 + jobs_refs(
                        stage.jobs@,
                        c,
                        s,
                        j as int,
                    ).len(),
                decreases stage.jobs@.len() - j,
            {
                if s == si && j == ji {
                    assert(stage.jobs@ == stages[si as int].jobs@);
                    let r = match step {
                        Some(k) => idx + k + 1,
                        None => idx,
                    };
                    return r;
                }
                proof {
                    lemma_jobs_refs_prefix(stage.jobs@, c, s, j + 1, stage.jobs@.len() as int);
                    assert(stage_refs(stages[s as int], c, s) == seq![NodeRef::Stage(s)]
                        + jobs_refs(stage.jobs@, c, s, stage.jobs@.len() as int));
                    assert(stages_refs(stages, c, s + 1) == stages_refs(stages, c, s as int)
                        + stage_refs(stages[s as int], c, s));
                }
                idx += 1;
                if !contains_key(&self.collapsed, NodeKey::Job(s, j)) {
                    idx += stage.jobs[j].steps.len();
                }
                j += 1;
            }
            proof {
                assert(stage_refs(stages[s as int], c, s) == seq![NodeRef::Stage(s)] + jobs_refs(
                    stage.jobs@,
                    c,
                    s,
                    stage.jobs@.len() as int,
                ));
                assert(stages_refs(stages, c, s + 1) == stages_refs(stages, c, s as int)
                    + stage_refs(stages[s as int], c, s));
            }
            s += 1;
        }
        idx
    }
}


/// Whether a row names a node that exists in `run`.
pub open spec fn ref_valid(run: PipelineRun, r: NodeRef) -> bool {
    match r {
        NodeRef::Stage(si) => si < run.stages@.len(),
        NodeRef::Job(si, ji) => si < run.stages@.len() && ji < run.stages@[si as int].jobs@.len(),
        NodeRef::Step(si, ji, k) => si < run.stages@.len() && ji < run.stages@[si as int].jobs@.len()
            && k < run.stages@[si as int].jobs@[ji as int].steps@.len(),
    }
}

proof fn lemma_jobs_refs_valid(run: PipelineRun, c: Seq<NodeKey>, si: usize, n: int)
    requires
        si < run.stages@.len(),
        n <= run.stages@[si as int].jobs@.len(),
    ensures
        forall|i: int|
            0 <= i < jobs_refs(run.stages@[si as int].jobs@, c, si, n).len() ==> ref_valid(
                run,
                #[trigger] jobs_refs(run.stages@[si as int].jobs@, c, si, n)[i],
            ),
    decreases n,
{
    if n > 0 {
        lemma_jobs_refs_valid(run, c, si, n - 1);
        let jobs = run.stages@[si as int].jobs@;
        assert(jobs.len() == run.stages@[si as int].jobs.len());
        assert(jobs[n - 1].steps@.len() == jobs[n - 1].steps.len());
        let ji = (n - 1) as usize;
        assert(ji as int == n - 1);
        let a = jobs_refs(jobs, c, si, n - 1);
        let b = job_refs(jobs[n - 1].steps@.len() as int, c, si, ji);
        assert forall|i: int| 0 <= i < (a + b).len() implies ref_valid(run, #[trigger] (a + b)[i]) by {
            if i >= a.len() {
                assert((a + b)[i] == b[i - a.len()]);
                if i - a.len() >= 1 {
                    assert(b[i - a.len()] == NodeRef::Step(si, ji, (i - a.len() - 1) as usize));
                }
            } else {
                assert((a + b)[i] == a[i]);
            }
        }
    }
}

proof fn lemma_stages_refs_valid(run: PipelineRun, c: Seq<NodeKey>, n: int)
    requires
        n <= run.stages@.len(),
    ensures
        forall|i: int|
            0 <= i < stages_refs(run.stages@, c, n).len() ==> ref_valid(
                run,
                #[trigger] stages_refs(run.stages@, c, n)[i],
            ),
    decreases n,
{
    if n > 0 {
        lemma_stages_refs_valid(run, c, n - 1);
        assert(run.stages@.len() == run.stages.len());
        let si = (n - 1) as usize;
        assert(si as int == n - 1);
        lemma_jobs_refs_valid(run, c, si, run.stages@[n - 1].jobs@.len() as int);
        let a = stages_refs(run.stages@, c, n - 1);
        let b = stage_refs(run.stages@[n - 1], c, si);
        assert forall|i: int| 0 <= i < (a + b).len() implies ref_valid(run, #[trigger] (a + b)[i]) by {
            if i >= a.len() {
                assert((a + b)[i] == b[i - a.len()]);
                if i - a.len() >= 1 {
                    assert(b[i - a.len()] == jobs_refs(
                        run.stages@[n - 1].jobs@,
                        c,
                        si,
                        run.stages@[n - 1].jobs@.len() as int,
                    )[i - a.len() - 1]);
                }
            } else {
                assert((a + b)[i] == a[i]);
            }
        }
    }
}

/// Every visible row names a node of the run.
pub proof fn lemma_visible_refs_valid(run: PipelineRun, c: Seq<NodeKey>)
    ensures
        forall|i: int|
            0 <= i < visible_refs(run, c).len() ==> ref_valid(run, #[trigger] visible_refs(run, c)[i]),
{
    lemma_stages_refs_valid(run, c, run.stages@.len() as int);
}

/// The collapse key of a row that has children.
pub open spec fn row_key(run: PipelineRun, r: NodeRef) -> Option<NodeKey> {
    match r {
        NodeRef::Stage(si) => if run.stages@[si as int].jobs@.len() > 0 {
            Some(NodeKey::Stage(si))
        } else {
            None
        },
        NodeRef::Job(si, ji) => if run.stages@[si as int].jobs@[ji as int].steps@.len() > 0 {
            Some(NodeKey::Job(si, ji))
        } else {
            None
        },
        NodeRef::Step(..) => None,
    }
}

fn row_key_exec(run: &PipelineRun, r: NodeRef) -> (k: Option<NodeKey>)
    requires
        ref_valid(*run, r),
    ensures
        k == row_key(*run, r),
{
    match r {
        NodeRef::Stage(si) => if run.stages[si].jobs.len() > 0 {
            Some(NodeKey::Stage(si))
        } else {
            None
        },
        NodeRef::Job(si, ji) => if run.stages[si].jobs[ji].steps.len() > 0 {
            Some(NodeKey::Job(si, ji))
        } else {
            None
        },
        NodeRef::Step(..) => None,
    }
}

/// `c2` is `c1` with `k` flipped.
pub open spec fn keys_toggled(c1: Seq<NodeKey>, c2: Seq<NodeKey>, k: NodeKey) -> bool {
    forall|x: NodeKey| #[trigger] c2.contains(x) <==> (if x == k {
        !c1.contains(k)
    } else {
        c1.contains(x)
    })
}

/// What a first-load jump to the failure leaves behind (see `auto_select_failed`).
pub open spec fn auto_selected(pre: PipelineView, post: PipelineView) -> bool {
    if pre.auto_checked || pre.user_moved {
        post == pre
    } else if pre.run.status == PipelineRunStatus::Failed && first_failed_spec(pre.run) is Some {
        let x = first_failed_spec(pre.run)->0;
        &&& forall|k: NodeKey| #[trigger]
            post.collapsed@.contains(k) <==> (pre.collapsed@.contains(k) && k != NodeKey::Stage(
                x.0 as usize,
            ) && !(x.2 is Some && k == NodeKey::Job(x.0 as usize, x.1 as usize)))
        &&& post.selected < post.visible().len()
        &&& post.visible()[post.selected as int] == failed_ref(x)
        &&& post == (PipelineView {
            collapsed: post.collapsed,
            selected: post.selected,
            auto_logs: true,
            auto_checked: true,
            ..pre
        })
    } else {
        post == (PipelineView { auto_checked: pre.auto_checked || !pre.stale, ..pre })
    }
}

/// The approvals that are left after a fetch: a confirmed list replaces them, a failed
/// call keeps them.
pub open spec fn approvals_after(
    kept: Vec<PipelineApproval>,
    fetched: Option<Vec<PipelineApproval>>,
) -> Vec<PipelineApproval> {
    match fetched {
        Some(a) => a,
        None => kept,
    }
}

/// What moving the cursor by `delta` leaves (see `PipelineView::move_sel`).
pub open spec fn sel_moved(o: PipelineView, n: PipelineView, delta: int) -> bool {
    &&& o.visible().len() == 0 ==> n == o
    &&& o.visible().len() > 0 ==> n == (PipelineView {
        selected: wrapped(o.selected as int, delta, o.visible().len() as int) as usize,
        user_moved: true,
        ..o
    })
}

/// What expanding/collapsing the node under the cursor leaves (see `PipelineView::toggle_selected`).
pub open spec fn sel_toggled(o: PipelineView, n: PipelineView) -> bool {
    &&& ({
        let target = if o.selected < o.visible().len() {
            row_key(o.run, o.visible()[o.selected as int])
        } else {
            None
        };
        match target {
            Some(k) => {
                &&& keys_toggled(o.collapsed@, n.collapsed@, k)
                &&& n.selected == clamp_index(
                    o.selected as int,
                    n.visible().len() as int,
                )
                &&& n == (PipelineView {
                    collapsed: n.collapsed,
                    selected: n.selected,
                    ..o
                })
            },
            None => n == o,
        }
    })
}

/// What pointing the log pane at the selected row's job leaves (see `PipelineView::open_logs_for_selection`).
pub open spec fn logs_retargeted(o: PipelineView, n: PipelineView, opened: bool) -> bool {
    &&& ({
        let refs = o.visible();
        let target = if o.selected < refs.len() {
            row_job(refs[o.selected as int])
        } else {
            None
        };
        match target {
            None => !opened && n == o,
            Some((si, ji)) => {
                let id = o.run.stages@[si].jobs@[ji].id@;
                let same = match o.logs {
                    Some(l) => l.job_id@ == id,
                    None => false,
                };
                let label = match find_job(o.run, id) {
                    Some((s, j)) => o.run.stages@[s].jobs@[j].name@,
                    None => row_label(o.run, refs[o.selected as int]),
                };
                &&& opened
                &&& same ==> n == o
                &&& !same ==> {
                    &&& n.logs matches Some(l) && opened_pane(
                        l,
                        lit_logs_title() + label,
                        id,
                        is_active_spec(job_status_or_run(o.run, id)),
                    ) && l.query == match o.logs {
                        Some(p) => p.query,
                        None => None,
                    }
                    &&& n == (PipelineView { logs: n.logs, ..o })
                }
            },
        }
    })
}

impl PipelineView {
    /// Moves the cursor by `delta` rows, wrapping at both ends.
    pub fn move_sel(&mut self, delta: isize)
        requires
            old(self).selected <= isize::MAX,
            isize::MIN <= old(self).selected + delta <= isize::MAX,
        ensures
            sel_moved(*old(self), *final(self), delta as int),
    {
        let rows = self.flatten();
        let len = rows.len();
        if len == 0 {
            return;
        }
        self.selected = wrap_add(self.selected, delta, len);
        self.user_moved = true;
    }

    /// Keeps the cursor in range after the tree is refreshed.
    pub fn clamp_selection(&mut self)
        ensures
            *final(self) == (PipelineView {
                selected: clamp_index(old(self).selected as int, old(self).visible().len() as int) as usize,
                ..*old(self)
            }),
    {
        let len = self.flatten().len();
        if self.selected >= len {
            self.selected = if len == 0 {
                0
            } else {
                len - 1
            };
        }
    }

    /// Expands/collapses the node under the cursor (no-op on leaf steps).
    pub fn toggle_selected(&mut self)
        ensures
            sel_toggled(*old(self), *final(self)),
    {
        let refs = visible_node_refs(&self.run, &self.collapsed);
        if self.selected >= refs.len() {
            return;
        }
        proof {
            lemma_visible_refs_valid(self.run, self.collapsed@);
        }
        let r = refs[self.selected];
        if let Some(k) = row_key_exec(&self.run, r) {
            toggle_key(&mut self.collapsed, k);
            self.clamp_selection();
        }
    }

    /// Applies gates that a `pending_approvals` call confirmed: `Some` is authoritative
    /// (an empty list clears the gates on screen), `None` means the call failed and the
    /// view keeps what it had.
    pub fn apply_confirmed_approvals(&mut self, approvals: Option<Vec<PipelineApproval>>)
        ensures
            *final(self) == (PipelineView {
                approvals: approvals_after(old(self).approvals, approvals),
                ..*old(self)
            }),
    {
        if let Some(approvals) = approvals {
            self.approvals = approvals;
        }
    }

    /// First load of a failed run: selects its first failed step (or, lacking one, its
    /// first failed job), expanding the parents, and asks for its logs to open. Runs until
    /// the first load has decided, and never once the user has moved the cursor.
    pub fn auto_select_failed(&mut self)
        ensures
            auto_selected(*old(self), *final(self)),
    {
        if self.auto_checked || self.user_moved {
            return;
        }
        if self.run.status == PipelineRunStatus::Failed {
            if let Some((si, ji, step)) = first_failed_node(&self.run) {
                proof {
                    lemma_first_failed_bounds(self.run.stages@, 0);
                    let x = first_failed_spec(self.run)->0;
                    if let Some(k) = step {
                        lemma_first_failed_step_bounds(
                            self.run.stages@[si as int].jobs@[ji as int].steps@,
                            0,
                        );
                    }
                }
                let ghost pre = *self;
                let _ = remove_key(&mut self.collapsed, NodeKey::Stage(si));
                if step.is_some() {
                    let _ = remove_key(&mut self.collapsed, NodeKey::Job(si, ji));
                }
                let rows = self.flatten();
                let nrows = rows.len();
                assert(nrows == self.visible().len());
                self.selected = self.node_index(si, ji, step);
                self.auto_logs = true;
                self.auto_checked = true;
                return;
            }
        }
        if !self.stale {
            self.auto_checked = true;
        }
    }

    /// Patches in a freshly fetched run, keeping what the user is doing: the log pane and
    /// the collapsed nodes stay, the cursor is clamped rather than reset, and `stale`
    /// clears. `approvals` is `None` when the approvals call failed; the gates on screen
    /// then stay as they are.
    pub fn apply_fresh_run(&mut self, run: PipelineRun, approvals: Option<Vec<PipelineApproval>>)
        ensures
            auto_selected(
                PipelineView {
                    run,
                    approvals: approvals_after(old(self).approvals, approvals),
                    stale: false,
                    selected: clamp_index(
                        old(self).selected as int,
                        visible_refs(run, old(self).collapsed@).len() as int,
                    ) as usize,
                    ..*old(self)
                },
                *final(self),
            ),
    {
        self.run = run;
        self.apply_confirmed_approvals(approvals);
        self.stale = false;
        self.clamp_selection();
        self.auto_select_failed();
    }

    /// Whether the job the log pane follows is still running: the run's own status when
    /// the job isn't in the tree (yet).
    pub fn log_target_active(&self) -> (r: bool)
        ensures
            r == match self.logs {
                Some(l) => is_active_spec(job_status_or_run(self.run, l.job_id@)),
                None => false,
            },
    {
        match &self.logs {
            None => false,
            Some(log) => {
                proof {
                    lemma_find_job_bounds(self.run.stages@, log.job_id@, 0);
                }
                let status = match find_job_exec(&self.run, &log.job_id) {
                    Some((s, j)) => self.run.stages[s].jobs[j].status,
                    None => self.run.status,
                };
                is_active(status)
            },
        }
    }

    /// Whether keys go to the log pane: it is open, and either focused or alone on screen.
    pub fn logs_have_keys(&self) -> (r: bool)
        ensures
            r == (self.logs is Some && (self.log_focus || !self.log_split)),
    {
        self.logs.is_some() && (self.log_focus || !self.log_split)
    }
}


/// The job a row belongs to: its own for a job, its parent's for a step.
pub open spec fn row_job(r: NodeRef) -> Option<(int, int)> {
    match r {
        NodeRef::Stage(_) => None,
        NodeRef::Job(si, ji) => Some((si as int, ji as int)),
        NodeRef::Step(si, ji, _) => Some((si as int, ji as int)),
    }
}

/// The name a row shows.
pub open spec fn row_label(run: PipelineRun, r: NodeRef) -> Seq<char> {
    match r {
        NodeRef::Stage(si) => run.stages@[si as int].name@,
        NodeRef::Job(si, ji) => run.stages@[si as int].jobs@[ji as int].name@,
        NodeRef::Step(si, ji, k) => run.stages@[si as int].jobs@[ji as int].steps@[k as int].name@,
    }
}

/// `Logs · `, the start of a log pane's title.
pub open spec fn lit_logs_title() -> Seq<char> {
    seq!['L', 'o', 'g', 's', ' ', '\u{b7}', ' ']
}

/// The pending gates the user may act on, in order.
pub open spec fn actionable(s: Seq<PipelineApproval>) -> Seq<PipelineApproval>
    decreases s.len(),
{
    if s.len() == 0 {
        seq![]
    } else {
        actionable(s.drop_last()) + if s.last().can_respond {
            seq![s.last()]
        } else {
            seq![]
        }
    }
}

impl PipelineView {
    /// Pending gates the authenticated user is allowed to act on.
    pub fn actionable_approvals(&self) -> (out: Vec<&PipelineApproval>)
        ensures
            out@.len() == actionable(self.approvals@).len(),
            forall|i: int| 0 <= i < out@.len() ==> *out@[i] == actionable(self.approvals@)[i],
    {
        let mut out: Vec<&PipelineApproval> = Vec::new();
        let mut i: usize = 0;
        while i < self.approvals.len()
            invariant
                i <= self.approvals@.len(),
                out@.len() == actionable(self.approvals@.take(i as int)).len(),
                forall|j: int|
                    0 <= j < out@.len() ==> *out@[j] == actionable(self.approvals@.take(i as int))[j],
            decreases self.approvals@.len() - i,
        {
            let a = &self.approvals[i];
            assert(self.approvals@.take(i + 1).drop_last() == self.approvals@.take(i as int));
            assert(self.approvals@.take(i + 1).last() == self.approvals@[i as int]);
            if a.can_respond {
                out.push(a);
            }
            i += 1;
        }
        assert(self.approvals@.take(i as int) == self.approvals@);
        out
    }

    /// Opens (or re-targets) the log pane on the selected node's job. Steps share their
    /// job's log, so moving between a job and its steps keeps the pane as it is; a search
    /// carries over to the next job. Returns false when the row has no job (a stage).
    pub fn open_logs_for_selection(&mut self) -> (opened: bool)
        ensures
            logs_retargeted(*old(self), *final(self), opened),
    {
        let nodes = self.flatten();
        if self.selected >= nodes.len() {
            return false;
        }
        proof {
            lemma_visible_refs_valid(self.run, self.collapsed@);
        }
        let node = &nodes[self.selected];
        let job_id = match &node.job_id {
            Some(j) => j.clone(),
            None => {
                return false;
            },
        };
        if let Some(l) = &self.logs {
            if l.job_id == job_id {
                return true;
            }
        }
        proof {
            lemma_find_job_bounds(self.run.stages@, job_id@, 0);
        }
        let (name, status) = match find_job_exec(&self.run, &job_id) {
            Some((s, j)) => (self.run.stages[s].jobs[j].name.clone(), self.run.stages[s].jobs[j].status),
            None => (node.label.clone(), self.run.status),
        };
        let live = is_active(status);
        let query = match &self.logs {
            Some(l) => clone_opt_string(&l.query),
            None => None,
        };
        let mut title = String::new();
        push_str(&mut title, "Logs · ");
        proof {
            reveal_strlit("Logs · ");
            assert(title@ =~= lit_logs_title());
        }
        push_str(&mut title, name.as_str());
        let mut log = LogView::new(title, job_id, live);
        log.query = query;
        self.logs = Some(log);
        true
    }
}

} // verus!
