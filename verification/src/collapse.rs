//! Where the rows of the pipeline tree sit, and what expanding a node and collapsing it
//! again leaves behind.
use vstd::prelude::*;

use crate::pipeline::{
    job_refs, jobs_refs, lemma_jobs_refs_prefix, lemma_node_position, lemma_refs_congruent,
    lemma_stages_refs_prefix, row_key, sel_toggled, stage_refs, stages_refs, visible_refs,
    NodeKey, NodeRef, PipelineJob, PipelineRun, PipelineStage, PipelineView,
};

verus! {

/// The stage a row belongs to.
pub open spec fn ref_stage(r: NodeRef) -> int {
    match r {
        NodeRef::Stage(s) => s as int,
        NodeRef::Job(s, _) => s as int,
        NodeRef::Step(s, _, _) => s as int,
    }
}

/// The job a row belongs to (`-1` for a stage row).
pub open spec fn ref_job(r: NodeRef) -> int {
    match r {
        NodeRef::Stage(_) => -1,
        NodeRef::Job(_, j) => j as int,
        NodeRef::Step(_, j, _) => j as int,
    }
}

/// The stage a collapse key belongs to.
pub open spec fn key_stage(k: NodeKey) -> int {
    match k {
        NodeKey::Stage(s) => s as int,
        NodeKey::Job(s, _) => s as int,
    }
}

proof fn lemma_job_refs_shape(steps: int, c: Seq<NodeKey>, si: usize, ji: usize)
    ensures
        job_refs(steps, c, si, ji).len() >= 1,
        job_refs(steps, c, si, ji)[0] == NodeRef::Job(si, ji),
        forall|j: int|
            0 <= j < job_refs(steps, c, si, ji).len() ==> {
                let x = #[trigger] job_refs(steps, c, si, ji)[j];
                &&& ref_stage(x) == si
                &&& ref_job(x) == ji
                &&& x !is Stage
                &&& j > 0 ==> x is Step
            },
{
}

proof fn lemma_jobs_refs_shape(jobs: Seq<PipelineJob>, c: Seq<NodeKey>, si: usize, n: int)
    ensures
        forall|j: int|
            0 <= j < jobs_refs(jobs, c, si, n).len() ==> {
                let x = #[trigger] jobs_refs(jobs, c, si, n)[j];
                &&& ref_stage(x) == si
                &&& 0 <= ref_job(x) < n
                &&& x !is Stage
            },
    decreases n,
{
    if n > 0 {
        lemma_jobs_refs_shape(jobs, c, si, n - 1);
        let a = jobs_refs(jobs, c, si, n - 1);
        let b = job_refs(jobs[n - 1].steps@.len() as int, c, si, (n - 1) as usize);
        lemma_job_refs_shape(jobs[n - 1].steps@.len() as int, c, si, (n - 1) as usize);
        assert(jobs_refs(jobs, c, si, n) == a + b);
        assert forall|j: int| 0 <= j < jobs_refs(jobs, c, si, n).len() implies {
            let x = #[trigger] jobs_refs(jobs, c, si, n)[j];
            &&& ref_stage(x) == si
            &&& 0 <= ref_job(x) < n
            &&& x !is Stage
        } by {
            if j < a.len() {
                assert(jobs_refs(jobs, c, si, n)[j] == a[j]);
            } else {
                assert(jobs_refs(jobs, c, si, n)[j] == b[j - a.len()]);
            }
        }
    }
}

proof fn lemma_jobs_refs_tail(jobs: Seq<PipelineJob>, c: Seq<NodeKey>, si: usize, n: int, m: int)
    requires
        0 <= n <= m <= usize::MAX,
    ensures
        forall|j: int|
            jobs_refs(jobs, c, si, n).len() <= j < jobs_refs(jobs, c, si, m).len() ==> ref_job(
                #[trigger] jobs_refs(jobs, c, si, m)[j],
            ) >= n,
    decreases m - n,
{
    if n < m {
        lemma_jobs_refs_tail(jobs, c, si, n, m - 1);
        lemma_jobs_refs_prefix(jobs, c, si, n, m - 1);
        let a = jobs_refs(jobs, c, si, m - 1);
        let b = job_refs(jobs[m - 1].steps@.len() as int, c, si, (m - 1) as usize);
        lemma_job_refs_shape(jobs[m - 1].steps@.len() as int, c, si, (m - 1) as usize);
        assert(jobs_refs(jobs, c, si, m) == a + b);
        assert forall|j: int|
            jobs_refs(jobs, c, si, n).len() <= j < jobs_refs(jobs, c, si, m).len() implies ref_job(
            #[trigger] jobs_refs(jobs, c, si, m)[j],
        ) >= n by {
            if j < a.len() {
                assert(jobs_refs(jobs, c, si, m)[j] == a[j]);
            } else {
                assert(jobs_refs(jobs, c, si, m)[j] == b[j - a.len()]);
            }
        }
    }
}

proof fn lemma_stage_refs_shape(stage: PipelineStage, c: Seq<NodeKey>, si: usize)
    ensures
        stage_refs(stage, c, si).len() >= 1,
        stage_refs(stage, c, si)[0] == NodeRef::Stage(si),
        forall|j: int|
            0 <= j < stage_refs(stage, c, si).len() ==> {
                let x = #[trigger] stage_refs(stage, c, si)[j];
                &&& ref_stage(x) == si
                &&& j > 0 ==> x !is Stage
            },
{
    let jr = jobs_refs(stage.jobs@, c, si, stage.jobs@.len() as int);
    lemma_jobs_refs_shape(stage.jobs@, c, si, stage.jobs@.len() as int);
    assert forall|j: int| 0 <= j < stage_refs(stage, c, si).len() implies {
        let x = #[trigger] stage_refs(stage, c, si)[j];
        &&& ref_stage(x) == si
        &&& j > 0 ==> x !is Stage
    } by {
        if j > 0 {
            assert(!c.contains(NodeKey::Stage(si)));
            assert(stage_refs(stage, c, si)[j] == jr[j - 1]);
        }
    }
}

proof fn lemma_stages_refs_shape(stages: Seq<PipelineStage>, c: Seq<NodeKey>, n: int)
    ensures
        forall|j: int|
            0 <= j < stages_refs(stages, c, n).len() ==> 0 <= ref_stage(
                #[trigger] stages_refs(stages, c, n)[j],
            ) < n,
    decreases n,
{
    if n > 0 {
        lemma_stages_refs_shape(stages, c, n - 1);
        let a = stages_refs(stages, c, n - 1);
        let b = stage_refs(stages[n - 1], c, (n - 1) as usize);
        lemma_stage_refs_shape(stages[n - 1], c, (n - 1) as usize);
        assert(stages_refs(stages, c, n) == a + b);
        assert forall|j: int| 0 <= j < stages_refs(stages, c, n).len() implies 0 <= ref_stage(
            #[trigger] stages_refs(stages, c, n)[j],
        ) < n by {
            if j < a.len() {
                assert(stages_refs(stages, c, n)[j] == a[j]);
            } else {
                assert(stages_refs(stages, c, n)[j] == b[j - a.len()]);
            }
        }
    }
}

proof fn lemma_stages_refs_tail(stages: Seq<PipelineStage>, c: Seq<NodeKey>, n: int, m: int)
    requires
        0 <= n <= m <= usize::MAX,
    ensures
        forall|j: int|
            stages_refs(stages, c, n).len() <= j < stages_refs(stages, c, m).len() ==> ref_stage(
                #[trigger] stages_refs(stages, c, m)[j],
            ) >= n,
    decreases m - n,
{
    if n < m {
        lemma_stages_refs_tail(stages, c, n, m - 1);
        lemma_stages_refs_prefix(stages, c, n, m - 1);
        let a = stages_refs(stages, c, m - 1);
        let b = stage_refs(stages[m - 1], c, (m - 1) as usize);
        lemma_stage_refs_shape(stages[m - 1], c, (m - 1) as usize);
        assert(stages_refs(stages, c, m) == a + b);
        assert forall|j: int|
            stages_refs(stages, c, n).len() <= j < stages_refs(stages, c, m).len() implies ref_stage(
            #[trigger] stages_refs(stages, c, m)[j],
        ) >= n by {
            if j < a.len() {
                assert(stages_refs(stages, c, m)[j] == a[j]);
            } else {
                assert(stages_refs(stages, c, m)[j] == b[j - a.len()]);
            }
        }
    }
}

/// Row `i` lies in the block of its own stage.
proof fn lemma_row_in_stage_block(run: PipelineRun, c: Seq<NodeKey>, i: int)
    requires
        0 <= i < visible_refs(run, c).len(),
    ensures
        ({
            let s = ref_stage(visible_refs(run, c)[i]);
            let p = stages_refs(run.stages@, c, s).len();
            &&& 0 <= s < run.stages@.len()
            &&& p <= i < stages_refs(run.stages@, c, s + 1).len()
            &&& stages_refs(run.stages@, c, s + 1) == stages_refs(run.stages@, c, s) + stage_refs(
                run.stages@[s],
                c,
                s as usize,
            )
            &&& visible_refs(run, c)[i] == stage_refs(run.stages@[s], c, s as usize)[i - p]
        }),
{
    let stages = run.stages@;
    let n = stages.len() as int;
    assert(n == run.stages.len());
    let refs = visible_refs(run, c);
    lemma_stages_refs_shape(stages, c, n);
    let s = ref_stage(refs[i]);
    lemma_stages_refs_prefix(stages, c, s, n);
    lemma_stages_refs_prefix(stages, c, s + 1, n);
    lemma_stages_refs_shape(stages, c, s);
    lemma_stages_refs_tail(stages, c, s + 1, n);
    let a = stages_refs(stages, c, s);
    let b = stage_refs(stages[s], c, s as usize);
    assert(stages_refs(stages, c, s + 1) == a + b);
    if i < a.len() {
        assert(refs[i] == a[i]);
    }
    if i >= stages_refs(stages, c, s + 1).len() {
        assert(ref_stage(refs[i]) >= s + 1);
    }
    assert(refs[i] == stages_refs(stages, c, s + 1)[i]);
}

/// A stage row sits right after the rows of the stages before it.
pub proof fn lemma_stage_row_position(run: PipelineRun, c: Seq<NodeKey>, i: int, si: usize)
    requires
        0 <= i < visible_refs(run, c).len(),
        visible_refs(run, c)[i] == NodeRef::Stage(si),
    ensures
        si < run.stages@.len(),
        i == stages_refs(run.stages@, c, si as int).len(),
{
    lemma_row_in_stage_block(run, c, i);
    let p = stages_refs(run.stages@, c, si as int).len();
    lemma_stage_refs_shape(run.stages@[si as int], c, si);
    if i > p {
        assert(stage_refs(run.stages@[si as int], c, si)[i - p] !is Stage);
    }
}

/// A job row sits after its stage row and the rows of the jobs before it, under an
/// expanded stage.
pub proof fn lemma_job_row_position(run: PipelineRun, c: Seq<NodeKey>, i: int, si: usize, ji: usize)
    requires
        0 <= i < visible_refs(run, c).len(),
        visible_refs(run, c)[i] == NodeRef::Job(si, ji),
    ensures
        si < run.stages@.len(),
        ji < run.stages@[si as int].jobs@.len(),
        !c.contains(NodeKey::Stage(si)),
        i == stages_refs(run.stages@, c, si as int).len() + 1 + jobs_refs(
            run.stages@[si as int].jobs@,
            c,
            si,
            ji as int,
        ).len(),
{
    lemma_row_in_stage_block(run, c, i);
    let stage = run.stages@[si as int];
    let jobs = stage.jobs@;
    let nj = jobs.len() as int;
    assert(nj == stage.jobs.len());
    let p = stages_refs(run.stages@, c, si as int).len();
    lemma_stage_refs_shape(stage, c, si);
    assert(i > p);
    assert(!c.contains(NodeKey::Stage(si)));
    let all_j = jobs_refs(jobs, c, si, nj);
    assert(stage_refs(stage, c, si) == seq![NodeRef::Stage(si)] + all_j);
    let q = i - p - 1;
    assert(all_j[q] == NodeRef::Job(si, ji));
    lemma_jobs_refs_shape(jobs, c, si, nj);
    assert(ji < nj);
    lemma_jobs_refs_prefix(jobs, c, si, ji as int, nj);
    lemma_jobs_refs_prefix(jobs, c, si, ji + 1, nj);
    lemma_jobs_refs_shape(jobs, c, si, ji as int);
    lemma_jobs_refs_tail(jobs, c, si, ji + 1, nj);
    let a = jobs_refs(jobs, c, si, ji as int);
    let b = job_refs(jobs[ji as int].steps@.len() as int, c, si, ji);
    lemma_job_refs_shape(jobs[ji as int].steps@.len() as int, c, si, ji);
    assert(jobs_refs(jobs, c, si, ji + 1) == a + b);
    if q < a.len() {
        assert(all_j[q] == a[q]);
    }
    if q >= a.len() + b.len() {
        assert(ref_job(all_j[q]) >= ji + 1);
    }
    if q > a.len() {
        assert(all_j[q] == jobs_refs(jobs, c, si, ji + 1)[q]);
        assert(jobs_refs(jobs, c, si, ji + 1)[q] == b[q - a.len()]);
    }
}

proof fn lemma_jobs_refs_agree(
    jobs: Seq<PipelineJob>,
    c1: Seq<NodeKey>,
    c2: Seq<NodeKey>,
    si: usize,
    n: int,
)
    requires
        forall|j: usize| j < n ==> #[trigger] c1.contains(NodeKey::Job(si, j)) == c2.contains(NodeKey::Job(si, j)),
    ensures
        jobs_refs(jobs, c1, si, n) == jobs_refs(jobs, c2, si, n),
    decreases n,
{
    if n > 0 {
        lemma_jobs_refs_agree(jobs, c1, c2, si, n - 1);
        assert(c1.contains(NodeKey::Job(si, (n - 1) as usize)) == c2.contains(
            NodeKey::Job(si, (n - 1) as usize),
        ));
    }
}

proof fn lemma_stages_refs_agree(stages: Seq<PipelineStage>, c1: Seq<NodeKey>, c2: Seq<NodeKey>, n: int)
    requires
        forall|k: NodeKey| key_stage(k) < n ==> c1.contains(k) == c2.contains(k),
    ensures
        stages_refs(stages, c1, n) == stages_refs(stages, c2, n),
    decreases n,
{
    if n > 0 {
        lemma_stages_refs_agree(stages, c1, c2, n - 1);
        let si = (n - 1) as usize;
        assert(key_stage(NodeKey::Stage(si)) < n);
        assert(c1.contains(NodeKey::Stage(si)) == c2.contains(NodeKey::Stage(si)));
        assert forall|j: usize| j < stages[n - 1].jobs@.len() implies #[trigger] c1.contains(
            NodeKey::Job(si, j),
        ) == c2.contains(NodeKey::Job(si, j)) by {
            assert(key_stage(NodeKey::Job(si, j)) < n);
        }
        lemma_jobs_refs_agree(stages[n - 1].jobs@, c1, c2, si, stages[n - 1].jobs@.len() as int);
    }
}

/// Flipping the node under the cursor leaves that node on the cursor's row.
proof fn lemma_toggled_row_stays(o: PipelineView, n: PipelineView, k: NodeKey)
    requires
        o.selected < o.visible().len(),
        row_key(o.run, o.visible()[o.selected as int]) == Some(k),
        n.run == o.run,
        forall|x: NodeKey| #[trigger] n.collapsed@.contains(x) <==> (if x == k {
            !o.collapsed@.contains(k)
        } else {
            o.collapsed@.contains(x)
        }),
    ensures
        o.selected < n.visible().len(),
        n.visible()[o.selected as int] == o.visible()[o.selected as int],
{
    let run = o.run;
    let c0 = o.collapsed@;
    let c1 = n.collapsed@;
    let i = o.selected as int;
    let r = o.visible()[i];
    match r {
        NodeRef::Stage(si) => {
            lemma_stage_row_position(run, c0, i, si);
            assert forall|x: NodeKey| key_stage(x) < si implies c0.contains(x) == c1.contains(x) by {
                assert(x != k);
            }
            lemma_stages_refs_agree(run.stages@, c0, c1, si as int);
            let p = stages_refs(run.stages@, c1, si as int);
            let b = stage_refs(run.stages@[si as int], c1, si);
            lemma_stage_refs_shape(run.stages@[si as int], c1, si);
            assert(stages_refs(run.stages@, c1, si + 1) == p + b);
            assert(stages_refs(run.stages@, c1, si + 1)[p.len() as int] == NodeRef::Stage(si));
            lemma_stages_refs_prefix(run.stages@, c1, si + 1, run.stages@.len() as int);
        },
        NodeRef::Job(si, ji) => {
            lemma_job_row_position(run, c0, i, si, ji);
            assert forall|x: NodeKey| key_stage(x) < si implies c0.contains(x) == c1.contains(x) by {
                assert(x != k);
            }
            lemma_stages_refs_agree(run.stages@, c0, c1, si as int);
            assert forall|j: usize| j < ji implies #[trigger] c0.contains(NodeKey::Job(si, j))
                == c1.contains(NodeKey::Job(si, j)) by {
                assert(NodeKey::Job(si, j) != k);
            }
            lemma_jobs_refs_agree(run.stages@[si as int].jobs@, c0, c1, si, ji as int);
            assert(c1.contains(NodeKey::Stage(si)) == c0.contains(NodeKey::Stage(si)));
            lemma_node_position(run, c1, si, ji, 0);
        },
        NodeRef::Step(..) => {},
    }
}

/// Expanding or collapsing the node under the cursor and then doing it again restores the
/// tree: the same nodes are collapsed, the same rows show, and the cursor is back where it
/// was.
pub proof fn lemma_toggle_selected_twice(v0: PipelineView, v1: PipelineView, v2: PipelineView)
    requires
        sel_toggled(v0, v1),
        sel_toggled(v1, v2),
    ensures
        forall|k: NodeKey| #[trigger] v2.collapsed@.contains(k) == v0.collapsed@.contains(k),
        v2.visible() == v0.visible(),
        v2.selected == v0.selected,
        v2 == (PipelineView { collapsed: v2.collapsed, ..v0 }),
{
    let target = if v0.selected < v0.visible().len() {
        row_key(v0.run, v0.visible()[v0.selected as int])
    } else {
        None
    };
    match target {
        Some(k) => {
            lemma_toggled_row_stays(v0, v1, k);
            let i = v0.selected as int;
            assert(v1.selected == i);
            assert(v1.visible()[i] == v0.visible()[i]);
            assert(row_key(v1.run, v1.visible()[i]) == Some(k));
            assert forall|x: NodeKey| #[trigger] v2.collapsed@.contains(x) == v0.collapsed@.contains(x) by {
                if x == k {
                    assert(v1.collapsed@.contains(k) == !v0.collapsed@.contains(k));
                } else {
                    assert(v1.collapsed@.contains(x) == v0.collapsed@.contains(x));
                }
            }
            lemma_refs_congruent(v0.run, v2.collapsed@, v0.collapsed@);
            assert(v2.visible() == v0.visible());
        },
        None => {},
    }
}

} // verus!
