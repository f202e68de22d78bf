//! The execution plan of a stored workflow: its jobs refer to each other by
//! id, and its actions name jobs by id.

use vstd::prelude::*;
use crate::chars::views;
use crate::plan::graph::graph_view;
use crate::plan::names::{has_name, strings_view, to_strings};
use crate::plan::stages::{
    AllocView, AllocationsFor, ExecutionPlan, ExecutionStage, PlanError, PlanFailure,
    SchedulerAllocation, StageView, alloc_views, level_stage, level_stages, plan_stages,
    stage_has_work, stage_views, start_stage, describe_trigger, ready_lists,
    lemma_plan_stages_follow_levels, lemma_level_stages_ok,
};
use crate::plan::topo::{
    job_levels, topological_levels, levels_cover, levels_follow, lemma_levels_follow_dependencies,
    lemma_levels_place_every_job, lemma_levels_place_jobs_once, lemma_ranked_graph_has_levels, ranked,
};
use crate::text::{append_str, opt_chars, string_from};

verus! {

/// A stored job, as far as the plan reads it.
pub struct JobModel {
    pub id: Option<i64>,
    pub name: String,
    pub blocked_by_job_ids: Option<Vec<i64>>,
}

/// A stored action, as far as the plan reads it; the scheduler type and the
/// number of allocations come from its configuration.
pub struct WorkflowActionModel {
    pub trigger_type: String,
    pub action_type: String,
    pub scheduler_type: Option<String>,
    pub num_allocations: Option<i64>,
    pub job_ids: Option<Vec<i64>>,
}

/// A stored job, as plain values; a missing list is an empty one.
pub struct StoredJob {
    pub id: Option<i64>,
    pub name: Seq<char>,
    pub blocked_by: Seq<i64>,
}

/// A stored action, as plain values; a missing list is an empty one.
pub struct StoredAction {
    pub trigger_type: Seq<char>,
    pub action_type: Seq<char>,
    pub scheduler_type: Option<Seq<char>>,
    pub num_allocations: Option<i64>,
    pub job_ids: Seq<i64>,
}

/// The ids of an optional list; a missing list has none.
pub open spec fn opt_ids(o: Option<Vec<i64>>) -> Seq<i64> {
    match o {
        Some(v) => v@,
        None => Seq::empty(),
    }
}

impl View for JobModel {
    type V = StoredJob;

    open spec fn view(&self) -> StoredJob {
        StoredJob { id: self.id, name: self.name@, blocked_by: opt_ids(self.blocked_by_job_ids) }
    }
}

impl View for WorkflowActionModel {
    type V = StoredAction;

    open spec fn view(&self) -> StoredAction {
        StoredAction {
            trigger_type: self.trigger_type@,
            action_type: self.action_type@,
            scheduler_type: opt_chars(self.scheduler_type),
            num_allocations: self.num_allocations,
            job_ids: opt_ids(self.job_ids),
        }
    }
}

/// The stored jobs' views, in order.
pub open spec fn stored_jobs(v: Seq<JobModel>) -> Seq<StoredJob> {
    Seq::new(v.len(), |i: int| v[i]@)
}

/// The stored actions' views, in order.
pub open spec fn stored_actions(v: Seq<WorkflowActionModel>) -> Seq<StoredAction> {
    Seq::new(v.len(), |i: int| v[i]@)
}

/// Whether every job has an id.
pub open spec fn all_have_ids(jobs: Seq<StoredJob>) -> bool {
    forall|i: int| 0 <= i < jobs.len() ==> (#[trigger] jobs[i]).id is Some
}

/// The index of the last job with id `id`, or -1.
pub open spec fn last_with_id(jobs: Seq<StoredJob>, id: i64) -> int
    decreases jobs.len(),
{
    if jobs.len() == 0 {
        -1
    } else if jobs.last().id == Some(id) {
        jobs.len() - 1
    } else {
        last_with_id(jobs.drop_last(), id)
    }
}

/// The name recorded for id `id`: that of the last job with it.
pub open spec fn name_of_id(jobs: Seq<StoredJob>, id: i64) -> Option<Seq<char>> {
    let i = last_with_id(jobs, id);
    if 0 <= i < jobs.len() {
        Some(jobs[i].name)
    } else {
        None
    }
}

/// The dependencies recorded for id `id`: those of the last job with it.
pub open spec fn deps_of_id(jobs: Seq<StoredJob>, id: i64) -> Seq<i64> {
    let i = last_with_id(jobs, id);
    if 0 <= i < jobs.len() {
        jobs[i].blocked_by
    } else {
        Seq::empty()
    }
}

/// The names of the ids, in order, leaving out ids of no job.
pub open spec fn names_of_ids(jobs: Seq<StoredJob>, ids: Seq<i64>) -> Seq<Seq<char>>
    decreases ids.len(),
{
    if ids.len() == 0 {
        Seq::empty()
    } else {
        let prev = names_of_ids(jobs, ids.drop_last());
        match name_of_id(jobs, ids.last()) {
            Some(n) => prev.push(n),
            None => prev,
        }
    }
}

/// The jobs' names, in order.
pub open spec fn stored_names(jobs: Seq<StoredJob>) -> Seq<Seq<char>> {
    Seq::new(jobs.len(), |i: int| jobs[i].name)
}

/// Each job's dependencies by name: those recorded for its id.
pub open spec fn stored_graph(jobs: Seq<StoredJob>) -> Seq<Seq<Seq<char>>> {
    Seq::new(jobs.len(), |i: int| names_of_ids(jobs, deps_of_id(jobs, jobs[i].id.unwrap())))
}

/// The name of the first job with id `id`.
pub open spec fn first_with_id(jobs: Seq<StoredJob>, id: i64) -> Option<Seq<char>>
    decreases jobs.len(),
{
    if jobs.len() == 0 {
        None
    } else {
        match first_with_id(jobs.drop_last(), id) {
            Some(n) => Some(n),
            None => if jobs.last().id == Some(id) {
                Some(jobs.last().name)
            } else {
                None
            },
        }
    }
}

/// The names of the jobs an action lists by id, in order, leaving out ids
/// of no job.
pub open spec fn action_job_names(jobs: Seq<StoredJob>, ids: Seq<i64>) -> Seq<Seq<char>>
    decreases ids.len(),
{
    if ids.len() == 0 {
        Seq::empty()
    } else {
        let prev = action_job_names(jobs, ids.drop_last());
        match first_with_id(jobs, ids.last()) {
            Some(n) => prev.push(n),
            None => prev,
        }
    }
}

/// The allocation a stored `schedule_nodes` action asks for: its scheduler
/// is named after its type; none for other actions.
pub open spec fn stored_allocation(jobs: Seq<StoredJob>, a: StoredAction) -> Result<Option<AllocView>, PlanFailure> {
    if a.action_type != "schedule_nodes"@ {
        Ok(None)
    } else {
        match a.scheduler_type {
            None => Err(PlanFailure::MissingSchedulerTypeConfig),
            Some(t) => Ok(
                Some(
                    AllocView {
                        scheduler_name: t + "_scheduler"@,
                        scheduler_type: t,
                        num_allocations: match a.num_allocations {
                            Some(n) => n,
                            None => 1,
                        },
                        job_names: action_job_names(jobs, a.job_ids),
                    },
                ),
            ),
        }
    }
}

/// The allocations of the stored `on_workflow_start` actions, in order.
pub open spec fn stored_start_allocations(jobs: Seq<StoredJob>, actions: Seq<StoredAction>) -> Result<
    Seq<AllocView>,
    PlanFailure,
>
    decreases actions.len(),
{
    if actions.len() == 0 {
        Ok(Seq::empty())
    } else {
        match stored_start_allocations(jobs, actions.drop_last()) {
            Err(e) => Err(e),
            Ok(prev) => {
                let a = actions.last();
                if a.trigger_type == "on_workflow_start"@ {
                    match stored_allocation(jobs, a) {
                        Err(e) => Err(e),
                        Ok(Some(x)) => Ok(prev.push(x)),
                        Ok(None) => Ok(prev),
                    }
                } else {
                    Ok(prev)
                }
            },
        }
    }
}

/// The id recorded for a name: that of the last job with it.
pub open spec fn id_of_name(jobs: Seq<StoredJob>, name: Seq<char>) -> Option<i64>
    decreases jobs.len(),
{
    if jobs.len() == 0 {
        None
    } else if jobs.last().name == name {
        jobs.last().id
    } else {
        id_of_name(jobs.drop_last(), name)
    }
}

/// Whether an action lists the id of one of the jobs becoming ready.
pub open spec fn lists_ready_job(jobs: Seq<StoredJob>, ids: Seq<i64>, ready: Seq<Seq<char>>) -> bool {
    exists|i: int, j: int|
        0 <= i < ids.len() && 0 <= j < ready.len() && id_of_name(jobs, #[trigger] ready[j]) == Some(
            #[trigger] ids[i],
        )
}

/// The allocations of the stored `on_jobs_ready` actions that list one of
/// the jobs becoming ready, in order.
pub open spec fn stored_ready_allocations(
    jobs: Seq<StoredJob>,
    actions: Seq<StoredAction>,
    ready: Seq<Seq<char>>,
) -> Result<Seq<AllocView>, PlanFailure>
    decreases actions.len(),
{
    if actions.len() == 0 {
        Ok(Seq::empty())
    } else {
        match stored_ready_allocations(jobs, actions.drop_last(), ready) {
            Err(e) => Err(e),
            Ok(prev) => {
                let a = actions.last();
                if a.trigger_type == "on_jobs_ready"@ && lists_ready_job(jobs, a.job_ids, ready) {
                    match stored_allocation(jobs, a) {
                        Err(e) => Err(e),
                        Ok(Some(x)) => Ok(prev.push(x)),
                        Ok(None) => Ok(prev),
                    }
                } else {
                    Ok(prev)
                }
            },
        }
    }
}

/// What the stage after a level asks for in a stored workflow.
pub open spec fn stored_allocations(jobs: Seq<StoredJob>, actions: Seq<StoredAction>) -> AllocationsFor {
    |ready: Seq<Seq<char>>| stored_ready_allocations(jobs, actions, ready)
}

/// The plan of a stored workflow: an error when a job has no id; its
/// levels by the dependencies recorded for each job's id (an error for
/// circular dependencies); the allocations of its start actions; then its
/// stages.
pub open spec fn stored_plan(jobs: Seq<StoredJob>, actions: Seq<StoredAction>) -> Result<Seq<StageView>, PlanFailure> {
    if !all_have_ids(jobs) {
        Err(PlanFailure::JobMissingId)
    } else {
        let names = stored_names(jobs);
        let graph = stored_graph(jobs);
        match job_levels(names, graph) {
            None => Err(PlanFailure::CircularDependency),
            Some(levels) => match stored_start_allocations(jobs, actions) {
                Err(e) => Err(e),
                Ok(sa) => plan_stages(names, graph, levels, sa, stored_allocations(jobs, actions)),
            },
        }
    }
}

// ---------------------------------------------------------------------------
// Building the plan
// ---------------------------------------------------------------------------

fn last_with_id_exec(jobs: &[JobModel], id: i64) -> (r: Option<usize>)
    ensures
        match r {
            Some(i) => i as int == last_with_id(stored_jobs(jobs@), id) && i < jobs@.len(),
            None => last_with_id(stored_jobs(jobs@), id) == -1,
        },
{
    let ghost jv = stored_jobs(jobs@);
    let mut k: usize = jobs.len();
    assert(jv.take(k as int) =~= jv);
    while k > 0
        invariant
            jv == stored_jobs(jobs@),
            k <= jobs@.len(),
            last_with_id(jv, id) == last_with_id(jv.take(k as int), id),
        decreases k,
    {
        let ghost t = jv.take(k as int);
        assert(t.drop_last() =~= jv.take(k - 1));
        assert(t.last() == jobs@[k - 1]@);
        if jobs[k - 1].id == Some(id) {
            return Some(k - 1);
        }
        k = k - 1;
    }
    None
}

fn names_of_ids_exec(jobs: &[JobModel], ids: &Vec<i64>) -> (r: Vec<Vec<char>>)
    ensures
        views(r@) == names_of_ids(stored_jobs(jobs@), ids@),
{
    let ghost jv = stored_jobs(jobs@);
    let mut out: Vec<Vec<char>> = Vec::new();
    let mut k: usize = 0;
    while k < ids.len()
        invariant
            jv == stored_jobs(jobs@),
            k <= ids@.len(),
            views(out@) == names_of_ids(jv, ids@.take(k as int)),
        decreases ids@.len() - k,
    {
        let ghost t = ids@.take(k + 1);
        assert(t.drop_last() =~= ids@.take(k as int));
        assert(t.last() == ids@[k as int]);
        match last_with_id_exec(jobs, ids[k]) {
            Some(i) => {
                assert(jv[i as int] == jobs@[i as int]@);
                let c = crate::text::chars_of(jobs[i].name.as_str());
                let ghost before = views(out@);
                out.push(c);
                assert(views(out@) =~= before.push(jv[i as int].name));
            },
            None => {},
        }
        k = k + 1;
    }
    assert(ids@.take(ids@.len() as int) =~= ids@);
    out
}

fn stored_graph_exec(jobs: &[JobModel]) -> (r: Vec<Vec<Vec<char>>>)
    requires
        all_have_ids(stored_jobs(jobs@)),
    ensures
        graph_view(r@) == stored_graph(stored_jobs(jobs@)),
{
    let ghost jv = stored_jobs(jobs@);
    let mut out: Vec<Vec<Vec<char>>> = Vec::new();
    let mut i: usize = 0;
    while i < jobs.len()
        invariant
            jv == stored_jobs(jobs@),
            all_have_ids(jv),
            i <= jobs@.len(),
            out@.len() == i,
            forall|k: int| 0 <= k < i ==> views(#[trigger] out@[k]@) == stored_graph(jv)[k],
        decreases jobs@.len() - i,
    {
        assert(jv[i as int] == jobs@[i as int]@);
        assert(jv[i as int].id is Some);
        let id = match jobs[i].id {
            Some(x) => x,
            None => 0,
        };
        let deps = match last_with_id_exec(jobs, id) {
            Some(j) => {
                assert(jv[j as int] == jobs@[j as int]@);
                match &jobs[j].blocked_by_job_ids {
                    Some(v) => names_of_ids_exec(jobs, v),
                    None => {
                        let e: Vec<i64> = Vec::new();
                        assert(e@ =~= Seq::<i64>::empty());
                        names_of_ids_exec(jobs, &e)
                    },
                }
            },
            None => {
                let e: Vec<i64> = Vec::new();
                assert(e@ =~= Seq::<i64>::empty());
                names_of_ids_exec(jobs, &e)
            },
        };
        out.push(deps);
        i = i + 1;
    }
    assert(graph_view(out@) =~= stored_graph(jv));
    out
}

fn stored_name_lists(jobs: &[JobModel]) -> (r: Vec<Vec<char>>)
    ensures
        views(r@) == stored_names(stored_jobs(jobs@)),
{
    let ghost jv = stored_jobs(jobs@);
    let mut out: Vec<Vec<char>> = Vec::new();
    let mut i: usize = 0;
    while i < jobs.len()
        invariant
            jv == stored_jobs(jobs@),
            i <= jobs@.len(),
            out@.len() == i,
            views(out@) =~= stored_names(jv).take(i as int),
        decreases jobs@.len() - i,
    {
        assert(jv[i as int] == jobs@[i as int]@);
        let c = crate::text::chars_of(jobs[i].name.as_str());
        out.push(c);
        assert(views(out@)[i as int] == stored_names(jv)[i as int]);
        assert(views(out@) =~= stored_names(jv).take(i + 1));
        i = i + 1;
    }
    assert(stored_names(jv).take(jobs@.len() as int) =~= stored_names(jv));
    out
}

fn first_with_id_exec(jobs: &[JobModel], id: i64) -> (r: Option<String>)
    ensures
        opt_chars(r) == first_with_id(stored_jobs(jobs@), id),
{
    let ghost jv = stored_jobs(jobs@);
    let mut k: usize = 0;
    while k < jobs.len()
        invariant
            jv == stored_jobs(jobs@),
            k <= jobs@.len(),
            first_with_id(jv.take(k as int), id) is None,
        decreases jobs@.len() - k,
    {
        let ghost t = jv.take(k + 1);
        assert(t.drop_last() =~= jv.take(k as int));
        assert(t.last() == jobs@[k as int]@);
        if jobs[k].id == Some(id) {
            proof {
                lemma_first_with_id_extends(jv, k as int + 1, id);
            }
            return Some(string_from(jobs[k].name.as_str()));
        }
        k = k + 1;
    }
    assert(jv.take(jobs@.len() as int) =~= jv);
    None
}

proof fn lemma_first_with_id_extends(jobs: Seq<StoredJob>, n: int, id: i64)
    requires
        0 <= n <= jobs.len(),
        first_with_id(jobs.take(n), id) is Some,
    ensures
        first_with_id(jobs, id) == first_with_id(jobs.take(n), id),
    decreases jobs.len() - n,
{
    if n < jobs.len() {
        let t = jobs.take(n + 1);
        assert(t.drop_last() =~= jobs.take(n));
        lemma_first_with_id_extends(jobs, n + 1, id);
    } else {
        assert(jobs.take(n) =~= jobs);
    }
}

fn action_job_names_exec(jobs: &[JobModel], ids: &Vec<i64>) -> (r: Vec<String>)
    ensures
        strings_view(r@) == action_job_names(stored_jobs(jobs@), ids@),
{
    let ghost jv = stored_jobs(jobs@);
    let mut out: Vec<String> = Vec::new();
    let mut k: usize = 0;
    while k < ids.len()
        invariant
            jv == stored_jobs(jobs@),
            k <= ids@.len(),
            strings_view(out@) == action_job_names(jv, ids@.take(k as int)),
        decreases ids@.len() - k,
    {
        let ghost t = ids@.take(k + 1);
        assert(t.drop_last() =~= ids@.take(k as int));
        assert(t.last() == ids@[k as int]);
        match first_with_id_exec(jobs, ids[k]) {
            Some(n) => {
                let ghost before = strings_view(out@);
                let ghost nv = n@;
                out.push(n);
                assert(strings_view(out@) =~= before.push(nv));
            },
            None => {},
        }
        k = k + 1;
    }
    assert(ids@.take(ids@.len() as int) =~= ids@);
    out
}

fn stored_allocation_exec(jobs: &[JobModel], a: &WorkflowActionModel) -> (r: Result<Option<SchedulerAllocation>, PlanError>)
    ensures
        match stored_allocation(stored_jobs(jobs@), a@) {
            Ok(Some(x)) => r matches Ok(Some(y)) && y@ == x,
            Ok(None) => r matches Ok(None),
            Err(e) => r matches Err(y) && y@ == e,
        },
{
    let kind = crate::text::chars_of(a.action_type.as_str());
    if !crate::chars::chars_eq_str(kind.as_slice(), "schedule_nodes") {
        return Ok(None);
    }
    let t = match &a.scheduler_type {
        Some(t) => t,
        None => return Err(PlanError::MissingSchedulerTypeConfig),
    };
    let mut name = string_from(t.as_str());
    append_str(&mut name, "_scheduler");
    let num = match a.num_allocations {
        Some(n) => n,
        None => 1,
    };
    let names = match &a.job_ids {
        Some(ids) => action_job_names_exec(jobs, ids),
        None => {
            let e: Vec<i64> = Vec::new();
            assert(e@ =~= Seq::<i64>::empty());
            action_job_names_exec(jobs, &e)
        },
    };
    Ok(Some(SchedulerAllocation {
        scheduler_name: name,
        scheduler_type: string_from(t.as_str()),
        num_allocations: num,
        job_names: names,
    }))
}

fn trigger_is(a: &WorkflowActionModel, t: &str) -> (b: bool)
    ensures
        b == (a@.trigger_type == t@),
{
    let v = crate::text::chars_of(a.trigger_type.as_str());
    crate::chars::chars_eq_str(v.as_slice(), t)
}

proof fn lemma_start_err_sticks(jobs: Seq<StoredJob>, actions: Seq<StoredAction>, n: int, e: PlanFailure)
    requires
        0 <= n <= actions.len(),
        stored_start_allocations(jobs, actions.take(n)) == Err::<Seq<AllocView>, PlanFailure>(e),
    ensures
        stored_start_allocations(jobs, actions) == Err::<Seq<AllocView>, PlanFailure>(e),
    decreases actions.len() - n,
{
    if n < actions.len() {
        let t = actions.take(n + 1);
        assert(t.drop_last() =~= actions.take(n));
        lemma_start_err_sticks(jobs, actions, n + 1, e);
    } else {
        assert(actions.take(n) =~= actions);
    }
}

fn stored_start_allocations_exec(jobs: &[JobModel], actions: &[WorkflowActionModel]) -> (r: Result<Vec<SchedulerAllocation>, PlanError>)
    ensures
        match stored_start_allocations(stored_jobs(jobs@), stored_actions(actions@)) {
            Ok(v) => r matches Ok(x) && alloc_views(x@) == v,
            Err(e) => r matches Err(x) && x@ == e,
        },
{
    let ghost jv = stored_jobs(jobs@);
    let ghost av = stored_actions(actions@);
    let mut out: Vec<SchedulerAllocation> = Vec::new();
    assert(av.take(0) =~= Seq::<StoredAction>::empty());
    assert(alloc_views(out@) =~= Seq::<AllocView>::empty());
    let mut k: usize = 0;
    while k < actions.len()
        invariant
            jv == stored_jobs(jobs@),
            av == stored_actions(actions@),
            k <= actions@.len(),
            stored_start_allocations(jv, av.take(k as int)) == Ok::<Seq<AllocView>, PlanFailure>(
                alloc_views(out@),
            ),
        decreases actions@.len() - k,
    {
        let ghost t = av.take(k + 1);
        assert(t.drop_last() =~= av.take(k as int));
        assert(t.last() == actions@[k as int]@);
        let ghost before = alloc_views(out@);
        if trigger_is(&actions[k], "on_workflow_start") {
            match stored_allocation_exec(jobs, &actions[k]) {
                Ok(Some(x)) => {
                    let ghost xv = x@;
                    out.push(x);
                    assert(alloc_views(out@) =~= before.push(xv));
                },
                Ok(None) => {},
                Err(e) => {
                    proof {
                        lemma_start_err_sticks(jv, av, k as int + 1, e@);
                    }
                    return Err(e);
                },
            }
        }
        k = k + 1;
    }
    assert(av.take(actions@.len() as int) =~= av);
    Ok(out)
}

fn id_of_name_exec(jobs: &[JobModel], name: &[char]) -> (r: Option<i64>)
    ensures
        r == id_of_name(stored_jobs(jobs@), name@),
{
    let ghost jv = stored_jobs(jobs@);
    let mut k: usize = jobs.len();
    assert(jv.take(k as int) =~= jv);
    while k > 0
        invariant
            jv == stored_jobs(jobs@),
            k <= jobs@.len(),
            id_of_name(jv, name@) == id_of_name(jv.take(k as int), name@),
        decreases k,
    {
        let ghost t = jv.take(k as int);
        assert(t.drop_last() =~= jv.take(k - 1));
        assert(t.last() == jobs@[k - 1]@);
        let n = crate::text::chars_of(jobs[k - 1].name.as_str());
        if crate::chars::chars_eq(n.as_slice(), name) {
            return jobs[k - 1].id;
        }
        k = k - 1;
    }
    None
}

fn lists_ready_job_exec(jobs: &[JobModel], job_ids: &Option<Vec<i64>>, ready: &Vec<Vec<char>>) -> (b: bool)
    ensures
        b == lists_ready_job(stored_jobs(jobs@), opt_ids(*job_ids), views(ready@)),
{
    let ghost jv = stored_jobs(jobs@);
    let ghost rv = views(ready@);
    let ids = match job_ids {
        Some(v) => v,
        None => {
            return false;
        },
    };
    let mut j: usize = 0;
    while j < ready.len()
        invariant
            jv == stored_jobs(jobs@),
            rv == views(ready@),
            opt_ids(*job_ids) == ids@,
            j <= ready@.len(),
            forall|i: int, jj: int|
                0 <= i < ids@.len() && 0 <= jj < j ==> id_of_name(jv, #[trigger] rv[jj]) != Some(
                    #[trigger] ids@[i],
                ),
        decreases ready@.len() - j,
    {
        assert(rv[j as int] == ready@[j as int]@);
        let found = id_of_name_exec(jobs, ready[j].as_slice());
        let mut i: usize = 0;
        while i < ids.len()
            invariant
                i <= ids@.len(),
                j < ready@.len(),
                jv == stored_jobs(jobs@),
                rv == views(ready@),
                opt_ids(*job_ids) == ids@,
                found == id_of_name(jv, rv[j as int]),
                forall|ii: int| 0 <= ii < i ==> found != Some(#[trigger] ids@[ii]),
            decreases ids@.len() - i,
        {
            if found == Some(ids[i]) {
                assert(id_of_name(jv, rv[j as int]) == Some(ids@[i as int]));
                return true;
            }
            i = i + 1;
        }
        j = j + 1;
    }
    false
}

proof fn lemma_ready_err_sticks(
    jobs: Seq<StoredJob>,
    actions: Seq<StoredAction>,
    ready: Seq<Seq<char>>,
    n: int,
    e: PlanFailure,
)
    requires
        0 <= n <= actions.len(),
        stored_ready_allocations(jobs, actions.take(n), ready) == Err::<Seq<AllocView>, PlanFailure>(e),
    ensures
        stored_ready_allocations(jobs, actions, ready) == Err::<Seq<AllocView>, PlanFailure>(e),
    decreases actions.len() - n,
{
    if n < actions.len() {
        let t = actions.take(n + 1);
        assert(t.drop_last() =~= actions.take(n));
        lemma_ready_err_sticks(jobs, actions, ready, n + 1, e);
    } else {
        assert(actions.take(n) =~= actions);
    }
}

fn stored_ready_allocations_exec(
    jobs: &[JobModel],
    actions: &[WorkflowActionModel],
    ready: &Vec<Vec<char>>,
) -> (r: Result<Vec<SchedulerAllocation>, PlanError>)
    ensures
        match stored_ready_allocations(stored_jobs(jobs@), stored_actions(actions@), views(ready@)) {
            Ok(v) => r matches Ok(x) && alloc_views(x@) == v,
            Err(e) => r matches Err(x) && x@ == e,
        },
{
    let ghost jv = stored_jobs(jobs@);
    let ghost av = stored_actions(actions@);
    let ghost rv = views(ready@);
    let mut out: Vec<SchedulerAllocation> = Vec::new();
    assert(av.take(0) =~= Seq::<StoredAction>::empty());
    assert(alloc_views(out@) =~= Seq::<AllocView>::empty());
    let mut k: usize = 0;
    while k < actions.len()
        invariant
            jv == stored_jobs(jobs@),
            av == stored_actions(actions@),
            rv == views(ready@),
            k <= actions@.len(),
            stored_ready_allocations(jv, av.take(k as int), rv) == Ok::<Seq<AllocView>, PlanFailure>(
                alloc_views(out@),
            ),
        decreases actions@.len() - k,
    {
        let ghost t = av.take(k + 1);
        assert(t.drop_last() =~= av.take(k as int));
        assert(t.last() == actions@[k as int]@);
        let ghost before = alloc_views(out@);
        if trigger_is(&actions[k], "on_jobs_ready") && lists_ready_job_exec(jobs, &actions[k].job_ids, ready) {
            match stored_allocation_exec(jobs, &actions[k]) {
                Ok(Some(x)) => {
                    let ghost xv = x@;
                    out.push(x);
                    assert(alloc_views(out@) =~= before.push(xv));
                },
                Ok(None) => {},
                Err(e) => {
                    proof {
                        lemma_ready_err_sticks(jv, av, rv, k as int + 1, e@);
                    }
                    return Err(e);
                },
            }
        }
        k = k + 1;
    }
    assert(av.take(actions@.len() as int) =~= av);
    Ok(out)
}

fn check_ids(jobs: &[JobModel]) -> (b: bool)
    ensures
        b == all_have_ids(stored_jobs(jobs@)),
{
    let ghost jv = stored_jobs(jobs@);
    let mut i: usize = 0;
    while i < jobs.len()
        invariant
            jv == stored_jobs(jobs@),
            i <= jobs@.len(),
            forall|k: int| 0 <= k < i ==> (#[trigger] jv[k]).id is Some,
        decreases jobs@.len() - i,
    {
        assert(jv[i as int] == jobs@[i as int]@);
        if jobs[i].id.is_none() {
            return false;
        }
        i = i + 1;
    }
    true
}

fn stored_level_stage_exec(
    jobs: &[JobModel],
    actions: &[WorkflowActionModel],
    levels: &Vec<Vec<Vec<char>>>,
    idx: usize,
    number: usize,
) -> (r: Result<ExecutionStage, PlanError>)
    requires
        idx < levels@.len(),
    ensures
        match level_stage(
            graph_view(levels@),
            idx as int,
            number as int,
            stored_allocations(stored_jobs(jobs@), stored_actions(actions@)),
        ) {
            Ok(st) => r matches Ok(x) && x@ == st,
            Err(e) => r matches Err(x) && x@ == e,
        },
{
    let ready = crate::plan::stages::next_ready(levels, idx);
    match stored_ready_allocations_exec(jobs, actions, &ready) {
        Ok(a) => Ok(crate::plan::stages::stage_of(levels, idx, number, a, &ready)),
        Err(e) => Err(e),
    }
}

impl ExecutionPlan {
    /// Builds the plan of a stored workflow from its jobs and actions: each
    /// job waits for the jobs whose ids it is blocked by; stages are built
    /// as for a specification.
    pub fn from_database_models(jobs: &[JobModel], actions: &[WorkflowActionModel]) -> (r: Result<ExecutionPlan, PlanError>)
        ensures
            match stored_plan(stored_jobs(jobs@), stored_actions(actions@)) {
                Ok(st) => r matches Ok(p) && stage_views(p.stages@) == st,
                Err(e) => r matches Err(x) && x@ == e,
            },
    {
        let ghost jv = stored_jobs(jobs@);
        let ghost av = stored_actions(actions@);
        if !check_ids(jobs) {
            return Err(PlanError::JobMissingId);
        }
        let names = stored_name_lists(jobs);
        let graph = stored_graph_exec(jobs);
        let ghost nv = views(names@);
        let ghost gv = graph_view(graph@);
        assert(gv.len() == graph@.len() && nv.len() == names@.len());
        let levels = match topological_levels(&names, &graph) {
            Some(l) => l,
            None => return Err(PlanError::CircularDependency),
        };
        let ghost lv = graph_view(levels@);
        let start_allocs = match stored_start_allocations_exec(jobs, actions) {
            Ok(a) => a,
            Err(e) => return Err(e),
        };
        let ghost sa = alloc_views(start_allocs@);
        let free = crate::plan::stages::free_jobs_exec(&names, &graph);
        let start = ExecutionStage {
            stage_number: 0,
            trigger_description: string_from("Workflow Start"),
            scheduler_allocations: start_allocs,
            jobs_becoming_ready: to_strings(&free),
        };
        let ghost start_view = start@;
        let mut stages: Vec<ExecutionStage> = Vec::new();
        if start.scheduler_allocations.len() > 0 || start.jobs_becoming_ready.len() > 0 {
            stages.push(start);
        }
        let ghost first = stage_views(stages@);
        let ghost fa = stored_allocations(jv, av);
        assert(start_view == start_stage(nv, gv, sa));
        assert(first =~= (if stage_has_work(start_view) {
            seq![start_view]
        } else {
            Seq::empty()
        }));
        assert(stored_plan(jv, av) == level_stages(lv, lv.len(), first, fa));
        let mut idx: usize = 0;
        while idx < levels.len()
            invariant
                jv == stored_jobs(jobs@),
                av == stored_actions(actions@),
                lv == graph_view(levels@),
                idx <= levels@.len(),
                fa == stored_allocations(jv, av),
                level_stages(lv, idx as nat, first, fa) == Ok::<Seq<StageView>, PlanFailure>(
                    stage_views(stages@),
                ),
                stored_plan(jv, av) == level_stages(lv, lv.len(), first, fa),
            decreases levels@.len() - idx,
        {
            let number = stages.len();
            let ghost before = stage_views(stages@);
            match stored_level_stage_exec(jobs, actions, &levels, idx, number) {
                Ok(st) => {
                    if st.scheduler_allocations.len() > 0 || st.jobs_becoming_ready.len() > 0 {
                        let ghost sv = st@;
                        stages.push(st);
                        assert(stage_views(stages@) =~= before.push(sv));
                    }
                },
                Err(e) => {
                    assert(level_stages(lv, (idx + 1) as nat, first, fa) == Err::<
                        Seq<StageView>,
                        PlanFailure,
                    >(e@));
                    proof {
                        crate::plan::stages::lemma_stages_err_sticks(
                            lv,
                            (idx + 1) as nat,
                            lv.len(),
                            first,
                            fa,
                            e@,
                        );
                    }
                    return Err(e);
                },
            }
            idx = idx + 1;
        }
        Ok(ExecutionPlan { stages })
    }
}

/// Every plan of a stored workflow numbers its stages by position, and
/// none of its stages is idle.
pub proof fn lemma_stored_plan_numbered(jobs: Seq<StoredJob>, actions: Seq<StoredAction>)
    ensures
        stored_plan(jobs, actions) matches Ok(st) ==> crate::plan::stages::stages_well_numbered(st),
{
    if all_have_ids(jobs) {
        let names = stored_names(jobs);
        let graph = stored_graph(jobs);
        if let Some(levels) = job_levels(names, graph) {
            if let Ok(sa) = stored_start_allocations(jobs, actions) {
                let start = start_stage(names, graph, sa);
                let first = if stage_has_work(start) {
                    seq![start]
                } else {
                    Seq::empty()
                };
                crate::plan::stages::lemma_level_stages_numbered(
                    levels,
                    levels.len(),
                    first,
                    stored_allocations(jobs, actions),
                );
            }
        }
    }
}

/// In every plan of a stored workflow the stages make the jobs ready level
/// by level, so each job becomes ready in exactly one stage, and only in a
/// stage after those where its dependencies became ready.
pub proof fn lemma_stored_plan_places_jobs(jobs: Seq<StoredJob>, actions: Seq<StoredAction>)
    ensures
        stored_plan(jobs, actions) matches Ok(st) ==> {
            let names = stored_names(jobs);
            let graph = stored_graph(jobs);
            let r = ready_lists(st);
            &&& r == job_levels(names, graph)->0
            &&& levels_cover(names, r)
            &&& levels_follow(names, graph, r)
            &&& forall|k1: int, k2: int, x: Seq<char>|
                0 <= k1 < k2 < r.len() && #[trigger] r[k1].contains(x) ==> !(#[trigger] r[k2]).contains(x)
        },
{
    if all_have_ids(jobs) {
        let names = stored_names(jobs);
        let graph = stored_graph(jobs);
        if let Some(levels) = job_levels(names, graph) {
            if let Ok(sa) = stored_start_allocations(jobs, actions) {
                lemma_plan_stages_follow_levels(names, graph, levels, sa, stored_allocations(jobs, actions));
                lemma_levels_place_every_job(names, graph);
                lemma_levels_follow_dependencies(names, graph);
                lemma_levels_place_jobs_once(names, graph);
            }
        }
    }
}

/// A stored workflow without cycles gets a plan: where every job has an id,
/// the dependencies name jobs and follow a ranking, and the actions'
/// allocations can be made, building the plan succeeds.
pub proof fn lemma_ranked_stored_plan_succeeds(
    jobs: Seq<StoredJob>,
    actions: Seq<StoredAction>,
    rank: spec_fn(Seq<char>) -> nat,
)
    requires
        all_have_ids(jobs),
        ranked(stored_names(jobs), stored_graph(jobs), rank),
        stored_start_allocations(jobs, actions) is Ok,
        forall|r: Seq<Seq<char>>| #[trigger] (stored_allocations(jobs, actions))(r) is Ok,
    ensures
        stored_plan(jobs, actions) is Ok,
{
    let names = stored_names(jobs);
    let graph = stored_graph(jobs);
    lemma_ranked_graph_has_levels(names, graph, rank);
    let levels = job_levels(names, graph)->0;
    let sa = stored_start_allocations(jobs, actions)->Ok_0;
    let allocs = stored_allocations(jobs, actions);
    let start = start_stage(names, graph, sa);
    let first = if stage_has_work(start) {
        seq![start]
    } else {
        Seq::empty()
    };
    lemma_level_stages_ok(levels, levels.len(), first, allocs);
}

} // verus!
