//! The stages of an execution plan: what starts the workflow, and what each
//! level of completed jobs makes ready and asks Slurm for.

use vstd::prelude::*;
use crate::chars::views;
use crate::plan::graph::{
    JobLists, JobSpec, JobView, add_all_pattern_matches, add_pattern_list_matches, all_job_lists,
    dependency_graph, dependency_lists, first_bad_job_pattern, first_bad_pattern, graph_view,
    job_names, job_views, lists_of, matched_by, matched_by_any, lemma_all_pattern_matches_hold,
    lemma_first_bad_pattern,
};
use crate::plan::pattern::{regex_compiles, regex_matches};
use crate::plan::names::{has_name, opt_char_lists, opt_names, strings_view, to_strings};
use crate::plan::topo::{
    deps_for, is_ready, job_levels, lemma_levels_follow_dependencies, lemma_levels_place_every_job,
    lemma_levels_place_jobs_once, lemma_ranked_graph_has_levels, levels_cover, levels_follow, pending_count,
    ranked, ready_level, ready_names, topo_levels, topological_levels,
};
use crate::text::{append_chars, append_str, decimal, opt_chars, string_from, string_of, u64_to_string};

verus! {

// ---------------------------------------------------------------------------
// Specifications, actions and plans
// ---------------------------------------------------------------------------

/// An action of a workflow specification, as far as the plan reads it.
pub struct WorkflowActionSpec {
    pub trigger_type: String,
    pub action_type: String,
    pub job_names: Option<Vec<String>>,
    pub job_name_regexes: Option<Vec<String>>,
    pub scheduler_name: Option<String>,
    pub scheduler_type: Option<String>,
    pub num_allocations: Option<i64>,
}

/// What an action says, as plain values; a missing list is an empty one.
pub struct ActionView {
    pub trigger_type: Seq<char>,
    pub action_type: Seq<char>,
    pub job_names: Seq<Seq<char>>,
    pub job_name_patterns: Seq<Seq<char>>,
    pub scheduler_name: Option<Seq<char>>,
    pub scheduler_type: Option<Seq<char>>,
    pub num_allocations: Option<i64>,
}

impl View for WorkflowActionSpec {
    type V = ActionView;

    open spec fn view(&self) -> ActionView {
        ActionView {
            trigger_type: self.trigger_type@,
            action_type: self.action_type@,
            job_names: opt_names(self.job_names),
            job_name_patterns: opt_names(self.job_name_regexes),
            scheduler_name: opt_chars(self.scheduler_name),
            scheduler_type: opt_chars(self.scheduler_type),
            num_allocations: self.num_allocations,
        }
    }
}

/// The actions' views, in order.
pub open spec fn action_views(v: Seq<WorkflowActionSpec>) -> Seq<ActionView> {
    Seq::new(v.len(), |i: int| v[i]@)
}

/// A workflow specification, as far as the plan reads it.
pub struct WorkflowSpec {
    pub jobs: Vec<JobSpec>,
    pub actions: Option<Vec<WorkflowActionSpec>>,
}

/// The specification's actions; none when it lists none.
pub open spec fn spec_actions(spec: WorkflowSpec) -> Seq<ActionView> {
    match spec.actions {
        Some(v) => action_views(v@),
        None => Seq::empty(),
    }
}

/// Why no plan can be made.
pub enum PlanError {
    /// A job name pattern that does not compile.
    InvalidRegex(String),
    /// Jobs are left whose dependencies are never all placed.
    CircularDependency,
    /// A `schedule_nodes` action without a scheduler name.
    MissingSchedulerName,
    /// A `schedule_nodes` action without a scheduler type.
    MissingSchedulerType,
    /// A stored job without an id.
    JobMissingId,
    /// A stored `schedule_nodes` action whose configuration has no scheduler
    /// type.
    MissingSchedulerTypeConfig,
}

/// Why no plan can be made, as plain values.
pub enum PlanFailure {
    InvalidRegex(Seq<char>),
    CircularDependency,
    MissingSchedulerName,
    MissingSchedulerType,
    JobMissingId,
    MissingSchedulerTypeConfig,
}

impl View for PlanError {
    type V = PlanFailure;

    open spec fn view(&self) -> PlanFailure {
        match self {
            PlanError::InvalidRegex(p) => PlanFailure::InvalidRegex(p@),
            PlanError::CircularDependency => PlanFailure::CircularDependency,
            PlanError::MissingSchedulerName => PlanFailure::MissingSchedulerName,
            PlanError::MissingSchedulerType => PlanFailure::MissingSchedulerType,
            PlanError::JobMissingId => PlanFailure::JobMissingId,
            PlanError::MissingSchedulerTypeConfig => PlanFailure::MissingSchedulerTypeConfig,
        }
    }
}

impl PlanError {
    /// The message shown for the error.
    pub fn message(&self) -> (r: String)
        ensures
            r@ == match self@ {
                PlanFailure::InvalidRegex(p) => "Invalid job name regex: "@ + p,
                PlanFailure::CircularDependency => "Circular dependency detected in job graph"@,
                PlanFailure::MissingSchedulerName => "schedule_nodes action missing scheduler_name"@,
                PlanFailure::MissingSchedulerType => "schedule_nodes action missing scheduler_type"@,
                PlanFailure::JobMissingId => "Job missing ID"@,
                PlanFailure::MissingSchedulerTypeConfig => "Action config missing scheduler_type"@,
            },
    {
        match self {
            PlanError::InvalidRegex(p) => {
                let mut s = string_from("Invalid job name regex: ");
                append_str(&mut s, p.as_str());
                s
            },
            PlanError::CircularDependency => string_from("Circular dependency detected in job graph"),
            PlanError::MissingSchedulerName => string_from("schedule_nodes action missing scheduler_name"),
            PlanError::MissingSchedulerType => string_from("schedule_nodes action missing scheduler_type"),
            PlanError::JobMissingId => string_from("Job missing ID"),
            PlanError::MissingSchedulerTypeConfig => string_from("Action config missing scheduler_type"),
        }
    }
}

/// The Slurm allocations an action asks for, and the jobs they serve.
pub struct SchedulerAllocation {
    pub scheduler_name: String,
    pub scheduler_type: String,
    pub num_allocations: i64,
    pub job_names: Vec<String>,
}

/// An allocation, as plain values.
pub struct AllocView {
    pub scheduler_name: Seq<char>,
    pub scheduler_type: Seq<char>,
    pub num_allocations: i64,
    pub job_names: Seq<Seq<char>>,
}

impl View for SchedulerAllocation {
    type V = AllocView;

    open spec fn view(&self) -> AllocView {
        AllocView {
            scheduler_name: self.scheduler_name@,
            scheduler_type: self.scheduler_type@,
            num_allocations: self.num_allocations,
            job_names: strings_view(self.job_names@),
        }
    }
}

/// The allocations' views, in order.
pub open spec fn alloc_views(v: Seq<SchedulerAllocation>) -> Seq<AllocView> {
    Seq::new(v.len(), |i: int| v[i]@)
}

/// A stage of the plan: what sets it off, the allocations it asks for, and
/// the jobs that become ready.
pub struct ExecutionStage {
    pub stage_number: usize,
    pub trigger_description: String,
    pub scheduler_allocations: Vec<SchedulerAllocation>,
    pub jobs_becoming_ready: Vec<String>,
}

/// A stage, as plain values.
pub struct StageView {
    pub stage_number: int,
    pub trigger_description: Seq<char>,
    pub allocations: Seq<AllocView>,
    pub ready: Seq<Seq<char>>,
}

impl View for ExecutionStage {
    type V = StageView;

    open spec fn view(&self) -> StageView {
        StageView {
            stage_number: self.stage_number as int,
            trigger_description: self.trigger_description@,
            allocations: alloc_views(self.scheduler_allocations@),
            ready: strings_view(self.jobs_becoming_ready@),
        }
    }
}

/// The stages' views, in order.
pub open spec fn stage_views(v: Seq<ExecutionStage>) -> Seq<StageView> {
    Seq::new(v.len(), |i: int| v[i]@)
}

/// The plan of a workflow: its stages in order.
pub struct ExecutionPlan {
    pub stages: Vec<ExecutionStage>,
}

// ---------------------------------------------------------------------------
// What the plan is
// ---------------------------------------------------------------------------

/// The jobs an action selects: the names it lists, then, pattern by
/// pattern, the jobs whose names a pattern matches and that are not
/// selected yet.
pub open spec fn matching_jobs(jobs: Seq<JobView>, a: ActionView) -> Result<Seq<Seq<char>>, PlanFailure> {
    match first_bad_pattern(a.job_name_patterns) {
        Some(p) => Err(PlanFailure::InvalidRegex(p)),
        None => Ok(add_all_pattern_matches(a.job_names, a.job_name_patterns, jobs)),
    }
}

/// An action selects exactly the jobs it names and every job whose name one
/// of its patterns matches; the selection fails only when one of its
/// patterns does not compile, and then names such a pattern.
pub proof fn lemma_action_selects_matching_jobs(jobs: Seq<JobView>, a: ActionView)
    ensures
        matching_jobs(jobs, a) is Ok <==> forall|i: int| 0 <= i < a.job_name_patterns.len()
            ==> #[trigger] regex_compiles(a.job_name_patterns[i]),
        matching_jobs(jobs, a) matches Err(PlanFailure::InvalidRegex(p)) ==> a.job_name_patterns.contains(p)
            && !regex_compiles(p),
        matching_jobs(jobs, a) matches Ok(selected) ==> forall|x: Seq<char>| #[trigger] selected.contains(x)
            <==> (a.job_names.contains(x) || matched_by_any(a.job_name_patterns, jobs, x)),
{
    lemma_first_bad_pattern(a.job_name_patterns);
    lemma_all_pattern_matches_hold(a.job_names, a.job_name_patterns, jobs);
}

/// A `schedule_nodes` action triggered when jobs become ready asks for its
/// allocation in the stage where a job that one of its patterns matches
/// becomes ready, and that job is among the jobs of the allocation.
pub proof fn lemma_pattern_selected_job_gets_allocation(
    jobs: Seq<JobView>,
    a: ActionView,
    ready: Seq<Seq<char>>,
    k: int,
    i: int,
)
    requires
        a.trigger_type == "on_jobs_ready"@,
        a.action_type == "schedule_nodes"@,
        a.scheduler_name is Some,
        a.scheduler_type is Some,
        forall|j: int| 0 <= j < a.job_name_patterns.len() ==> #[trigger] regex_compiles(a.job_name_patterns[j]),
        0 <= k < jobs.len(),
        0 <= i < a.job_name_patterns.len(),
        regex_matches(a.job_name_patterns[i], jobs[k].name),
        ready.contains(jobs[k].name),
    ensures
        ready_allocations(jobs, seq![a], ready) matches Ok(allocs) && allocs.len() == 1
            && allocs[0].scheduler_name == a.scheduler_name->0 && allocs[0].job_names.contains(jobs[k].name),
{
    lemma_action_selects_matching_jobs(jobs, a);
    let n = jobs[k].name;
    assert(matched_by(a.job_name_patterns[i], jobs, n));
    assert(matched_by_any(a.job_name_patterns, jobs, n));
    let selected = matching_jobs(jobs, a)->Ok_0;
    assert(selected.contains(n));
    let w = choose|w: int| 0 <= w < selected.len() && selected[w] == n;
    assert(ready.contains(selected[w]));
    assert(any_among(selected, ready));
    let one = seq![a];
    assert(one.drop_last() =~= Seq::<ActionView>::empty());
    assert(one.last() == a);
    assert(ready_allocations(jobs, one.drop_last(), ready) == Ok::<Seq<AllocView>, PlanFailure>(Seq::empty()));
    let x = AllocView {
        scheduler_name: a.scheduler_name.unwrap(),
        scheduler_type: a.scheduler_type.unwrap(),
        num_allocations: match a.num_allocations {
            Some(n) => n,
            None => 1,
        },
        job_names: selected,
    };
    assert(allocation_for(jobs, a) == Ok::<Option<AllocView>, PlanFailure>(Some(x)));
    assert(ready_allocations(jobs, one, ready) == Ok::<Seq<AllocView>, PlanFailure>(Seq::<AllocView>::empty().push(x)));
    assert(Seq::<AllocView>::empty().push(x)[0] == x);
}

/// The allocation a `schedule_nodes` action asks for (one when it names no
/// count); none for other actions.
pub open spec fn allocation_for(jobs: Seq<JobView>, a: ActionView) -> Result<Option<AllocView>, PlanFailure> {
    if a.action_type != "schedule_nodes"@ {
        Ok(None)
    } else if a.scheduler_name is None {
        Err(PlanFailure::MissingSchedulerName)
    } else if a.scheduler_type is None {
        Err(PlanFailure::MissingSchedulerType)
    } else {
        match matching_jobs(jobs, a) {
            Err(e) => Err(e),
            Ok(js) => Ok(
                Some(
                    AllocView {
                        scheduler_name: a.scheduler_name.unwrap(),
                        scheduler_type: a.scheduler_type.unwrap(),
                        num_allocations: match a.num_allocations {
                            Some(n) => n,
                            None => 1,
                        },
                        job_names: js,
                    },
                ),
            ),
        }
    }
}

/// The allocations of the `on_workflow_start` actions, in order.
pub open spec fn start_allocations(jobs: Seq<JobView>, actions: Seq<ActionView>) -> Result<Seq<AllocView>, PlanFailure>
    decreases actions.len(),
{
    if actions.len() == 0 {
        Ok(Seq::empty())
    } else {
        match start_allocations(jobs, actions.drop_last()) {
            Err(e) => Err(e),
            Ok(prev) => {
                let a = actions.last();
                if a.trigger_type == "on_workflow_start"@ {
                    match allocation_for(jobs, a) {
                        Err(e) => Err(e),
                        Ok(Some(x)) => Ok(prev.push(x)),
                        Ok(None) => Ok(prev),
                    }
                } else {
                    Ok(prev)
                }
            },
        }
    }
}

/// Whether some name of `xs` is among `ys`.
pub open spec fn any_among(xs: Seq<Seq<char>>, ys: Seq<Seq<char>>) -> bool {
    exists|i: int| 0 <= i < xs.len() && ys.contains(#[trigger] xs[i])
}

/// The allocations of the `on_jobs_ready` actions that select one of the
/// jobs becoming ready, in order.
pub open spec fn ready_allocations(
    jobs: Seq<JobView>,
    actions: Seq<ActionView>,
    ready: Seq<Seq<char>>,
) -> Result<Seq<AllocView>, PlanFailure>
    decreases actions.len(),
{
    if actions.len() == 0 {
        Ok(Seq::empty())
    } else {
        match ready_allocations(jobs, actions.drop_last(), ready) {
            Err(e) => Err(e),
            Ok(prev) => {
                let a = actions.last();
                if a.trigger_type == "on_jobs_ready"@ {
                    match matching_jobs(jobs, a) {
                        Err(e) => Err(e),
                        Ok(selected) => if any_among(selected, ready) {
                            match allocation_for(jobs, a) {
                                Err(e) => Err(e),
                                Ok(Some(x)) => Ok(prev.push(x)),
                                Ok(None) => Ok(prev),
                            }
                        } else {
                            Ok(prev)
                        },
                    }
                } else {
                    Ok(prev)
                }
            },
        }
    }
}

/// The jobs, among `prefix`, that depend on nothing.
pub open spec fn free_jobs(prefix: Seq<Seq<char>>, names: Seq<Seq<char>>, graph: Seq<Seq<Seq<char>>>) -> Seq<
    Seq<char>,
>
    decreases prefix.len(),
{
    if prefix.len() == 0 {
        Seq::empty()
    } else {
        let prev = free_jobs(prefix.drop_last(), names, graph);
        if deps_for(names, graph, prefix.last()).len() == 0 {
            prev.push(prefix.last())
        } else {
            prev
        }
    }
}

/// The names, each in single quotes, separated by `, `.
pub open spec fn quoted_list(names: Seq<Seq<char>>) -> Seq<char>
    decreases names.len(),
{
    if names.len() == 0 {
        Seq::empty()
    } else if names.len() == 1 {
        "'"@ + names[0] + "'"@
    } else {
        quoted_list(names.drop_last()) + ", '"@ + names.last() + "'"@
    }
}

/// What sets off the stage after a level of jobs: the one job, up to three
/// jobs by name, or the count of jobs and the first two names.
pub open spec fn trigger_description(level: Seq<Seq<char>>) -> Seq<char> {
    if level.len() == 1 {
        "When job '"@ + level[0] + "' completes"@
    } else if level.len() <= 3 {
        "When jobs "@ + quoted_list(level) + " complete"@
    } else {
        "When "@ + decimal(level.len()) + " jobs complete ("@ + quoted_list(level.take(2)) + "...)"@
    }
}

/// Whether a stage asks for allocations or makes jobs ready.
pub open spec fn stage_has_work(st: StageView) -> bool {
    st.allocations.len() > 0 || st.ready.len() > 0
}

/// What a stage asks Slurm for, given the jobs it makes ready.
pub type AllocationsFor = spec_fn(Seq<Seq<char>>) -> Result<Seq<AllocView>, PlanFailure>;

/// The stage after level `idx` completes, numbered `number`: the next
/// level becomes ready, and `allocs` says what that asks for.
pub open spec fn level_stage(
    levels: Seq<Seq<Seq<char>>>,
    idx: int,
    number: int,
    allocs: AllocationsFor,
) -> Result<StageView, PlanFailure> {
    let ready = if idx + 1 < levels.len() {
        levels[idx + 1]
    } else {
        Seq::empty()
    };
    match allocs(ready) {
        Err(e) => Err(e),
        Ok(a) => Ok(
            StageView {
                stage_number: number,
                trigger_description: trigger_description(levels[idx]),
                allocations: a,
                ready,
            },
        ),
    }
}

/// The stages of the first `n` levels after the `first` ones; a stage
/// without work is left out, and each is numbered by its position.
pub open spec fn level_stages(
    levels: Seq<Seq<Seq<char>>>,
    n: nat,
    first: Seq<StageView>,
    allocs: AllocationsFor,
) -> Result<Seq<StageView>, PlanFailure>
    decreases n,
{
    if n == 0 {
        Ok(first)
    } else {
        match level_stages(levels, (n - 1) as nat, first, allocs) {
            Err(e) => Err(e),
            Ok(prev) => match level_stage(levels, n - 1, prev.len() as int, allocs) {
                Err(e) => Err(e),
                Ok(st) => if stage_has_work(st) {
                    Ok(prev.push(st))
                } else {
                    Ok(prev)
                },
            },
        }
    }
}

/// The `Workflow Start` stage: the start allocations, and the jobs that
/// depend on nothing.
pub open spec fn start_stage(
    names: Seq<Seq<char>>,
    graph: Seq<Seq<Seq<char>>>,
    start_allocs: Seq<AllocView>,
) -> StageView {
    StageView {
        stage_number: 0,
        trigger_description: "Workflow Start"@,
        allocations: start_allocs,
        ready: free_jobs(names, names, graph),
    }
}

/// The plan from a job graph: the `Workflow Start` stage (when it has work)
/// and the stage after each level.
pub open spec fn plan_stages(
    names: Seq<Seq<char>>,
    graph: Seq<Seq<Seq<char>>>,
    levels: Seq<Seq<Seq<char>>>,
    start_allocs: Seq<AllocView>,
    allocs: AllocationsFor,
) -> Result<Seq<StageView>, PlanFailure> {
    let start = start_stage(names, graph, start_allocs);
    let first = if stage_has_work(start) {
        seq![start]
    } else {
        Seq::empty()
    };
    level_stages(levels, levels.len(), first, allocs)
}

/// What the stage after a level asks for in a workflow specification.
pub open spec fn spec_allocations(jobs: Seq<JobView>, actions: Seq<ActionView>) -> AllocationsFor {
    |ready: Seq<Seq<char>>| ready_allocations(jobs, actions, ready)
}

/// The plan of a workflow specification: its dependency graph (an error
/// for a pattern that does not compile), its levels (an error for circular
/// dependencies), the allocations of its start actions, then its stages.
pub open spec fn spec_plan(jobs: Seq<JobView>, actions: Seq<ActionView>) -> Result<Seq<StageView>, PlanFailure> {
    match first_bad_job_pattern(jobs) {
        Some(p) => Err(PlanFailure::InvalidRegex(p)),
        None => {
            let names = job_names(jobs);
            let graph = dependency_lists(jobs);
            match job_levels(names, graph) {
                None => Err(PlanFailure::CircularDependency),
                Some(levels) => match start_allocations(jobs, actions) {
                    Err(e) => Err(e),
                    Ok(sa) => plan_stages(names, graph, levels, sa, spec_allocations(jobs, actions)),
                },
            }
        },
    }
}

// ---------------------------------------------------------------------------
// Building the plan
// ---------------------------------------------------------------------------

fn matching_jobs_exec(a: &WorkflowActionSpec, lists: &Vec<JobLists>, Ghost(jobs): Ghost<Seq<JobView>>) -> (r: Result<Vec<Vec<char>>, PlanError>)
    requires
        lists@.len() == jobs.len(),
        forall|i: int| 0 <= i < jobs.len() ==> lists_of(#[trigger] lists@[i], jobs[i]),
    ensures
        match matching_jobs(jobs, a@) {
            Ok(js) => r matches Ok(v) && views(v@) == js,
            Err(e) => r matches Err(x) && x@ == e,
        },
{
    let mut selected = opt_char_lists(&a.job_names);
    match add_pattern_list_matches(&mut selected, &a.job_name_regexes, lists, Ghost(jobs)) {
        Ok(()) => Ok(selected),
        Err(p) => Err(PlanError::InvalidRegex(p)),
    }
}

fn clone_str(s: &String) -> (r: String)
    ensures
        r@ == s@,
{
    string_from(s.as_str())
}

fn allocation_exec(a: &WorkflowActionSpec, lists: &Vec<JobLists>, Ghost(jobs): Ghost<Seq<JobView>>) -> (r: Result<Option<SchedulerAllocation>, PlanError>)
    requires
        lists@.len() == jobs.len(),
        forall|i: int| 0 <= i < jobs.len() ==> lists_of(#[trigger] lists@[i], jobs[i]),
    ensures
        match allocation_for(jobs, a@) {
            Ok(Some(x)) => r matches Ok(Some(y)) && y@ == x,
            Ok(None) => r matches Ok(None),
            Err(e) => r matches Err(y) && y@ == e,
        },
{
    let kind = crate::text::chars_of(a.action_type.as_str());
    if !crate::chars::chars_eq_str(kind.as_slice(), "schedule_nodes") {
        return Ok(None);
    }
    let name = match &a.scheduler_name {
        Some(n) => clone_str(n),
        None => return Err(PlanError::MissingSchedulerName),
    };
    let stype = match &a.scheduler_type {
        Some(t) => clone_str(t),
        None => return Err(PlanError::MissingSchedulerType),
    };
    let num = match a.num_allocations {
        Some(n) => n,
        None => 1,
    };
    match matching_jobs_exec(a, lists, Ghost(jobs)) {
        Ok(js) => {
            let names = to_strings(&js);
            Ok(Some(SchedulerAllocation { scheduler_name: name, scheduler_type: stype, num_allocations: num, job_names: names }))
        },
        Err(e) => Err(e),
    }
}

fn trigger_is(a: &WorkflowActionSpec, t: &str) -> (b: bool)
    ensures
        b == (a@.trigger_type == t@),
{
    let v = crate::text::chars_of(a.trigger_type.as_str());
    crate::chars::chars_eq_str(v.as_slice(), t)
}

fn start_allocations_exec(actions: &Vec<WorkflowActionSpec>, lists: &Vec<JobLists>, Ghost(jobs): Ghost<Seq<JobView>>) -> (r: Result<Vec<SchedulerAllocation>, PlanError>)
    requires
        lists@.len() == jobs.len(),
        forall|i: int| 0 <= i < jobs.len() ==> lists_of(#[trigger] lists@[i], jobs[i]),
    ensures
        match start_allocations(jobs, action_views(actions@)) {
            Ok(v) => r matches Ok(x) && alloc_views(x@) == v,
            Err(e) => r matches Err(x) && x@ == e,
        },
{
    let ghost av = action_views(actions@);
    let mut out: Vec<SchedulerAllocation> = Vec::new();
    assert(av.take(0) =~= Seq::<ActionView>::empty());
    assert(alloc_views(out@) =~= Seq::<AllocView>::empty());
    let mut k: usize = 0;
    while k < actions.len()
        invariant
            lists@.len() == jobs.len(),
            forall|i: int| 0 <= i < jobs.len() ==> lists_of(#[trigger] lists@[i], jobs[i]),
            av == action_views(actions@),
            k <= actions@.len(),
            start_allocations(jobs, av.take(k as int)) == Ok::<Seq<AllocView>, PlanFailure>(alloc_views(out@)),
        decreases actions@.len() - k,
    {
        let ghost t = av.take(k + 1);
        assert(t.drop_last() =~= av.take(k as int));
        assert(t.last() == actions@[k as int]@);
        let ghost before = alloc_views(out@);
        if trigger_is(&actions[k], "on_workflow_start") {
            match allocation_exec(&actions[k], lists, Ghost(jobs)) {
                Ok(Some(x)) => {
                    let ghost xv = x@;
                    out.push(x);
                    assert(alloc_views(out@) =~= before.push(xv));
                },
                Ok(None) => {},
                Err(e) => {
                    proof {
                        lemma_start_err_sticks(jobs, av, k as int + 1, e@);
                    }
                    return Err(e);
                },
            }
        }
        k = k + 1;
    }
    assert(av.take(actions@.len() as int) =~= av);
    Ok(out)
}

proof fn lemma_start_err_sticks(jobs: Seq<JobView>, actions: Seq<ActionView>, n: int, e: PlanFailure)
    requires
        0 <= n <= actions.len(),
        start_allocations(jobs, actions.take(n)) == Err::<Seq<AllocView>, PlanFailure>(e),
    ensures
        start_allocations(jobs, actions) == Err::<Seq<AllocView>, PlanFailure>(e),
    decreases actions.len() - n,
{
    if n < actions.len() {
        let t = actions.take(n + 1);
        assert(t.drop_last() =~= actions.take(n));
        lemma_start_err_sticks(jobs, actions, n + 1, e);
    } else {
        assert(actions.take(n) =~= actions);
    }
}

fn any_among_exec(xs: &Vec<Vec<char>>, ys: &Vec<Vec<char>>) -> (b: bool)
    ensures
        b == any_among(views(xs@), views(ys@)),
{
    let mut i: usize = 0;
    while i < xs.len()
        invariant
            i <= xs@.len(),
            forall|j: int| 0 <= j < i ==> !views(ys@).contains(#[trigger] views(xs@)[j]),
        decreases xs@.len() - i,
    {
        assert(views(xs@)[i as int] == xs@[i as int]@);
        if has_name(ys, xs[i].as_slice()) {
            return true;
        }
        i = i + 1;
    }
    false
}

proof fn lemma_ready_err_sticks(
    jobs: Seq<JobView>,
    actions: Seq<ActionView>,
    ready: Seq<Seq<char>>,
    n: int,
    e: PlanFailure,
)
    requires
        0 <= n <= actions.len(),
        ready_allocations(jobs, actions.take(n), ready) == Err::<Seq<AllocView>, PlanFailure>(e),
    ensures
        ready_allocations(jobs, actions, ready) == Err::<Seq<AllocView>, PlanFailure>(e),
    decreases actions.len() - n,
{
    if n < actions.len() {
        let t = actions.take(n + 1);
        assert(t.drop_last() =~= actions.take(n));
        lemma_ready_err_sticks(jobs, actions, ready, n + 1, e);
    } else {
        assert(actions.take(n) =~= actions);
    }
}

fn ready_allocations_exec(
    actions: &Vec<WorkflowActionSpec>,
    lists: &Vec<JobLists>,
    ready: &Vec<Vec<char>>,
    Ghost(jobs): Ghost<Seq<JobView>>,
) -> (r: Result<Vec<SchedulerAllocation>, PlanError>)
    requires
        lists@.len() == jobs.len(),
        forall|i: int| 0 <= i < jobs.len() ==> lists_of(#[trigger] lists@[i], jobs[i]),
    ensures
        match ready_allocations(jobs, action_views(actions@), views(ready@)) {
            Ok(v) => r matches Ok(x) && alloc_views(x@) == v,
            Err(e) => r matches Err(x) && x@ == e,
        },
{
    let ghost av = action_views(actions@);
    let ghost rv = views(ready@);
    let mut out: Vec<SchedulerAllocation> = Vec::new();
    assert(av.take(0) =~= Seq::<ActionView>::empty());
    assert(alloc_views(out@) =~= Seq::<AllocView>::empty());
    let mut k: usize = 0;
    while k < actions.len()
        invariant
            lists@.len() == jobs.len(),
            forall|i: int| 0 <= i < jobs.len() ==> lists_of(#[trigger] lists@[i], jobs[i]),
            av == action_views(actions@),
            rv == views(ready@),
            k <= actions@.len(),
            ready_allocations(jobs, av.take(k as int), rv) == Ok::<Seq<AllocView>, PlanFailure>(
                alloc_views(out@),
            ),
        decreases actions@.len() - k,
    {
        let ghost t = av.take(k + 1);
        assert(t.drop_last() =~= av.take(k as int));
        assert(t.last() == actions@[k as int]@);
        let ghost before = alloc_views(out@);
        if trigger_is(&actions[k], "on_jobs_ready") {
            match matching_jobs_exec(&actions[k], lists, Ghost(jobs)) {
                Err(e) => {
                    proof {
                        lemma_ready_err_sticks(jobs, av, rv, k as int + 1, e@);
                    }
                    return Err(e);
                },
                Ok(selected) => {
                    if any_among_exec(&selected, ready) {
                        match allocation_exec(&actions[k], lists, Ghost(jobs)) {
                            Ok(Some(x)) => {
                                let ghost xv = x@;
                                out.push(x);
                                assert(alloc_views(out@) =~= before.push(xv));
                            },
                            Ok(None) => {},
                            Err(e) => {
                                proof {
                                    lemma_ready_err_sticks(jobs, av, rv, k as int + 1, e@);
                                }
                                return Err(e);
                            },
                        }
                    }
                },
            }
        }
        k = k + 1;
    }
    assert(av.take(actions@.len() as int) =~= av);
    Ok(out)
}

pub(crate) fn free_jobs_exec(names: &Vec<Vec<char>>, graph: &Vec<Vec<Vec<char>>>) -> (r: Vec<Vec<char>>)
    requires
        graph@.len() == names@.len(),
    ensures
        views(r@) == free_jobs(views(names@), views(names@), graph_view(graph@)),
{
    let ghost nv = views(names@);
    let ghost gv = graph_view(graph@);
    let mut out: Vec<Vec<char>> = Vec::new();
    let mut i: usize = 0;
    while i < names.len()
        invariant
            nv == views(names@),
            gv == graph_view(graph@),
            graph@.len() == names@.len(),
            i <= names@.len(),
            views(out@) == free_jobs(nv.take(i as int), nv, gv),
        decreases names@.len() - i,
    {
        let ghost t = nv.take(i + 1);
        assert(t.drop_last() =~= nv.take(i as int));
        assert(t.last() == names@[i as int]@);
        let free = match crate::plan::topo::last_index_named(names, names[i].as_slice()) {
            Some(j) => {
                assert(gv[j as int] == views(graph@[j as int]@));
                graph[j].len() == 0
            },
            None => true,
        };
        if free {
            let c = crate::chars::slice_chars(names[i].as_slice(), 0, names[i].len());
            assert(c@ =~= names@[i as int]@);
            let ghost before = views(out@);
            out.push(c);
            assert(views(out@) =~= before.push(names@[i as int]@));
        }
        i = i + 1;
    }
    assert(nv.take(names@.len() as int) =~= nv);
    out
}

fn quoted_list_exec(names: &Vec<Vec<char>>, n: usize) -> (r: String)
    requires
        n <= names@.len(),
    ensures
        r@ == quoted_list(views(names@).take(n as int)),
{
    let ghost nv = views(names@);
    let mut out = String::new();
    assert(nv.take(0) =~= Seq::<Seq<char>>::empty());
    let mut i: usize = 0;
    while i < n
        invariant
            nv == views(names@),
            n <= names@.len(),
            i <= n,
            out@ == quoted_list(nv.take(i as int)),
        decreases n - i,
    {
        let ghost t = nv.take(i + 1);
        assert(t.drop_last() =~= nv.take(i as int));
        assert(t.last() == names@[i as int]@);
        if i == 0 {
            assert(t[0] == names@[0]@);
            let mut s = string_from("'");
            append_chars(&mut s, names[0].as_slice());
            append_str(&mut s, "'");
            out = s;
        } else {
            append_str(&mut out, ", '");
            append_chars(&mut out, names[i].as_slice());
            append_str(&mut out, "'");
        }
        i = i + 1;
    }
    out
}

/// Describes what sets off the stage after a level of jobs completes.
pub fn describe_trigger(level: &Vec<Vec<char>>) -> (r: String)
    ensures
        r@ == trigger_description(views(level@)),
{
    let ghost lv = views(level@);
    let n = level.len();
    if n == 1 {
        assert(lv[0] == level@[0]@);
        let mut s = string_from("When job '");
        append_chars(&mut s, level[0].as_slice());
        append_str(&mut s, "' completes");
        s
    } else if n <= 3 {
        let mut s = string_from("When jobs ");
        let q = quoted_list_exec(level, n);
        assert(lv.take(n as int) =~= lv);
        append_str(&mut s, q.as_str());
        append_str(&mut s, " complete");
        s
    } else {
        let mut s = string_from("When ");
        let c = u64_to_string(n as u64);
        append_str(&mut s, c.as_str());
        append_str(&mut s, " jobs complete (");
        let q = quoted_list_exec(level, 2);
        append_str(&mut s, q.as_str());
        append_str(&mut s, "...)");
        s
    }
}

/// The jobs that become ready after level `idx`: the next level, if any.
pub(crate) fn next_ready(levels: &Vec<Vec<Vec<char>>>, idx: usize) -> (r: Vec<Vec<char>>)
    requires
        idx < levels@.len(),
    ensures
        views(r@) == (if idx + 1 < levels@.len() {
            graph_view(levels@)[idx + 1]
        } else {
            Seq::<Seq<char>>::empty()
        }),
{
    if levels.len() - idx > 1 {
        assert(graph_view(levels@)[idx + 1] == views(levels@[idx + 1]@));
        crate::plan::names::copy_lists(&levels[idx + 1])
    } else {
        let v: Vec<Vec<char>> = Vec::new();
        assert(views(v@) =~= Seq::<Seq<char>>::empty());
        v
    }
}

/// The stage after level `idx`, numbered `number`, with the allocations
/// and ready jobs already found.
pub(crate) fn stage_of(
    levels: &Vec<Vec<Vec<char>>>,
    idx: usize,
    number: usize,
    allocs: Vec<SchedulerAllocation>,
    ready: &Vec<Vec<char>>,
) -> (r: ExecutionStage)
    requires
        idx < levels@.len(),
    ensures
        r@ == (StageView {
            stage_number: number as int,
            trigger_description: trigger_description(graph_view(levels@)[idx as int]),
            allocations: alloc_views(allocs@),
            ready: views(ready@),
        }),
{
    assert(graph_view(levels@)[idx as int] == views(levels@[idx as int]@));
    let trigger = describe_trigger(&levels[idx]);
    let names = to_strings(ready);
    ExecutionStage {
        stage_number: number,
        trigger_description: trigger,
        scheduler_allocations: allocs,
        jobs_becoming_ready: names,
    }
}

fn level_stage_exec(
    actions: &Vec<WorkflowActionSpec>,
    lists: &Vec<JobLists>,
    levels: &Vec<Vec<Vec<char>>>,
    idx: usize,
    number: usize,
    Ghost(jobs): Ghost<Seq<JobView>>,
) -> (r: Result<ExecutionStage, PlanError>)
    requires
        lists@.len() == jobs.len(),
        forall|i: int| 0 <= i < jobs.len() ==> lists_of(#[trigger] lists@[i], jobs[i]),
        idx < levels@.len(),
    ensures
        match level_stage(
            graph_view(levels@),
            idx as int,
            number as int,
            spec_allocations(jobs, action_views(actions@)),
        ) {
            Ok(st) => r matches Ok(x) && x@ == st,
            Err(e) => r matches Err(x) && x@ == e,
        },
{
    let ready = next_ready(levels, idx);
    match ready_allocations_exec(actions, lists, &ready, Ghost(jobs)) {
        Ok(a) => Ok(stage_of(levels, idx, number, a, &ready)),
        Err(e) => Err(e),
    }
}

pub(crate) proof fn lemma_stages_err_sticks(
    levels: Seq<Seq<Seq<char>>>,
    n: nat,
    m: nat,
    first: Seq<StageView>,
    allocs: AllocationsFor,
    e: PlanFailure,
)
    requires
        n <= m,
        level_stages(levels, n, first, allocs) == Err::<Seq<StageView>, PlanFailure>(e),
    ensures
        level_stages(levels, m, first, allocs) == Err::<Seq<StageView>, PlanFailure>(e),
    decreases m - n,
{
    if n < m {
        lemma_stages_err_sticks(levels, n, (m - 1) as nat, first, allocs, e);
    }
}

fn name_lists(lists: &Vec<JobLists>, Ghost(jobs): Ghost<Seq<JobView>>) -> (r: Vec<Vec<char>>)
    requires
        lists@.len() == jobs.len(),
        forall|i: int| 0 <= i < jobs.len() ==> lists_of(#[trigger] lists@[i], jobs[i]),
    ensures
        views(r@) == job_names(jobs),
{
    let mut out: Vec<Vec<char>> = Vec::new();
    let mut i: usize = 0;
    while i < lists.len()
        invariant
            lists@.len() == jobs.len(),
            forall|k: int| 0 <= k < jobs.len() ==> lists_of(#[trigger] lists@[k], jobs[k]),
            i <= lists@.len(),
            out@.len() == i,
            views(out@) =~= job_names(jobs).take(i as int),
        decreases lists@.len() - i,
    {
        assert(lists_of(lists@[i as int], jobs[i as int]));
        let c = crate::chars::slice_chars(lists[i].name_chars.as_slice(), 0, lists[i].name_chars.len());
        assert(c@ =~= jobs[i as int].name);
        out.push(c);
        assert(views(out@)[i as int] == job_names(jobs)[i as int]);
        assert(views(out@) =~= job_names(jobs).take(i + 1));
        i = i + 1;
    }
    assert(job_names(jobs).take(lists@.len() as int) =~= job_names(jobs));
    out
}

impl ExecutionPlan {
    /// Builds the plan of a workflow specification: the dependency graph,
    /// the levels it sorts the jobs into, a `Workflow Start` stage, and one
    /// stage for each level whose completion asks for allocations or makes
    /// jobs ready.
    pub fn from_spec(spec: &WorkflowSpec) -> (r: Result<ExecutionPlan, PlanError>)
        ensures
            match spec_plan(job_views(spec.jobs@), spec_actions(*spec)) {
                Ok(st) => r matches Ok(p) && stage_views(p.stages@) == st,
                Err(e) => r matches Err(x) && x@ == e,
            },
    {
        let ghost jv = job_views(spec.jobs@);
        let no_actions: Vec<WorkflowActionSpec> = Vec::new();
        let actions = match &spec.actions {
            Some(a) => a,
            None => &no_actions,
        };
        let ghost av = action_views(actions@);
        assert(av == spec_actions(*spec)) by {
            if spec.actions is None {
                assert(av =~= Seq::<ActionView>::empty());
            }
        }
        let graph = match dependency_graph(spec.jobs.as_slice()) {
            Ok(g) => g,
            Err(p) => return Err(PlanError::InvalidRegex(p)),
        };
        let ghost gv = graph_view(graph@);
        assert(gv.len() == graph@.len());
        let lists = all_job_lists(spec.jobs.as_slice());
        assert(forall|i: int| 0 <= i < jv.len() ==> lists_of(#[trigger] lists@[i], jv[i]));
        let names = name_lists(&lists, Ghost(jv));
        let ghost nv = views(names@);
        assert(nv.len() == names@.len());
        assert(graph@.len() == names@.len());
        let levels = match topological_levels(&names, &graph) {
            Some(l) => l,
            None => return Err(PlanError::CircularDependency),
        };
        let ghost lv = graph_view(levels@);
        let start_allocs = match start_allocations_exec(actions, &lists, Ghost(jv)) {
            Ok(a) => a,
            Err(e) => return Err(e),
        };
        let ghost sa = alloc_views(start_allocs@);
        let free = free_jobs_exec(&names, &graph);
        let start = ExecutionStage {
            stage_number: 0,
            trigger_description: string_from("Workflow Start"),
            scheduler_allocations: start_allocs,
            jobs_becoming_ready: to_strings(&free),
        };
        let ghost start_view = start@;
        let mut stages: Vec<ExecutionStage> = Vec::new();
        if start.scheduler_allocations.len() > 0 || start.jobs_becoming_ready.len() > 0 {
            stages.push(start);
        }
        let ghost first = stage_views(stages@);
        let ghost fa = spec_allocations(jv, av);
        assert(start_view == start_stage(nv, gv, sa));
        assert(first =~= (if stage_has_work(start_view) {
            seq![start_view]
        } else {
            Seq::empty()
        }));
        assert(spec_plan(jv, av) == level_stages(lv, lv.len(), first, fa));
        let mut idx: usize = 0;
        while idx < levels.len()
            invariant
                lists@.len() == jv.len(),
                forall|i: int| 0 <= i < jv.len() ==> lists_of(#[trigger] lists@[i], jv[i]),
                av == action_views(actions@),
                lv == graph_view(levels@),
                idx <= levels@.len(),
                fa == spec_allocations(jv, av),
                level_stages(lv, idx as nat, first, fa) == Ok::<Seq<StageView>, PlanFailure>(
                    stage_views(stages@),
                ),
                spec_plan(jv, av) == level_stages(lv, lv.len(), first, fa),
                jv == job_views(spec.jobs@),
                av == spec_actions(*spec),
            decreases levels@.len() - idx,
        {
            let number = stages.len();
            let ghost before = stage_views(stages@);
            match level_stage_exec(actions, &lists, &levels, idx, number, Ghost(jv)) {
                Ok(st) => {
                    if st.scheduler_allocations.len() > 0 || st.jobs_becoming_ready.len() > 0 {
                        let ghost sv = st@;
                        stages.push(st);
                        assert(stage_views(stages@) =~= before.push(sv));
                    }
                },
                Err(e) => {
                    assert(level_stages(lv, (idx + 1) as nat, first, fa) == Err::<
                        Seq<StageView>,
                        PlanFailure,
                    >(e@));
                    proof {
                        lemma_stages_err_sticks(lv, (idx + 1) as nat, lv.len(), first, fa, e@);
                    }
                    return Err(e);
                },
            }
            idx = idx + 1;
        }
        Ok(ExecutionPlan { stages })
    }
}

// ---------------------------------------------------------------------------
// What every plan promises
// ---------------------------------------------------------------------------

/// Stages are numbered by their position, and each asks for allocations or
/// makes jobs ready.
pub open spec fn stages_well_numbered(st: Seq<StageView>) -> bool {
    forall|i: int| 0 <= i < st.len() ==> (#[trigger] st[i]).stage_number == i && stage_has_work(st[i])
}

pub(crate) proof fn lemma_level_stages_numbered(
    levels: Seq<Seq<Seq<char>>>,
    n: nat,
    first: Seq<StageView>,
    allocs: AllocationsFor,
)
    requires
        stages_well_numbered(first),
    ensures
        level_stages(levels, n, first, allocs) matches Ok(st) ==> stages_well_numbered(st),
    decreases n,
{
    if n > 0 {
        lemma_level_stages_numbered(levels, (n - 1) as nat, first, allocs);
    }
}

/// Every plan of a workflow specification numbers its stages by position,
/// and none of its stages is idle.
pub proof fn lemma_spec_plan_numbered(jobs: Seq<JobView>, actions: Seq<ActionView>)
    ensures
        spec_plan(jobs, actions) matches Ok(st) ==> stages_well_numbered(st),
{
    if first_bad_job_pattern(jobs) is None {
        let names = job_names(jobs);
        let graph = dependency_lists(jobs);
        if let Some(levels) = job_levels(names, graph) {
            if let Ok(sa) = start_allocations(jobs, actions) {
                let start = start_stage(names, graph, sa);
                let first = if stage_has_work(start) {
                    seq![start]
                } else {
                    Seq::empty()
                };
                lemma_level_stages_numbered(levels, levels.len(), first, spec_allocations(jobs, actions));
            }
        }
    }
}

/// The jobs that the stages make ready, stage by stage, leaving out stages
/// that make none ready.
pub open spec fn ready_lists(stages: Seq<StageView>) -> Seq<Seq<Seq<char>>>
    decreases stages.len(),
{
    if stages.len() == 0 {
        Seq::empty()
    } else {
        ready_lists(stages.drop_last()) + if stages.last().ready.len() > 0 {
            seq![stages.last().ready]
        } else {
            Seq::empty()
        }
    }
}

proof fn lemma_ready_lists_push(stages: Seq<StageView>, st: StageView)
    ensures
        ready_lists(stages.push(st)) == ready_lists(stages) + if st.ready.len() > 0 {
            seq![st.ready]
        } else {
            Seq::<Seq<Seq<char>>>::empty()
        },
{
    assert(stages.push(st).drop_last() =~= stages);
}

/// Where every allocation can be made, every level gets its stage.
pub proof fn lemma_level_stages_ok(levels: Seq<Seq<Seq<char>>>, n: nat, first: Seq<StageView>, allocs: AllocationsFor)
    requires
        forall|r: Seq<Seq<char>>| #[trigger] allocs(r) is Ok,
    ensures
        level_stages(levels, n, first, allocs) is Ok,
    decreases n,
{
    if n > 0 {
        lemma_level_stages_ok(levels, (n - 1) as nat, first, allocs);
        let prev = level_stages(levels, (n - 1) as nat, first, allocs)->Ok_0;
        let ready = if n < levels.len() {
            levels[n as int]
        } else {
            Seq::empty()
        };
        assert(allocs(ready) is Ok);
    }
}

/// The levels after the first that the first `n` level stages make ready.
pub open spec fn later_levels(levels: Seq<Seq<Seq<char>>>, n: nat) -> Seq<Seq<Seq<char>>> {
    if levels.len() == 0 {
        Seq::empty()
    } else if n + 1 < levels.len() {
        levels.subrange(1, (n + 1) as int)
    } else {
        levels.subrange(1, levels.len() as int)
    }
}

proof fn lemma_level_stages_ready(
    levels: Seq<Seq<Seq<char>>>,
    n: nat,
    first: Seq<StageView>,
    allocs: AllocationsFor,
)
    requires
        forall|k: int| 0 <= k < levels.len() ==> (#[trigger] levels[k]).len() > 0,
        level_stages(levels, n, first, allocs) is Ok,
    ensures
        ready_lists(level_stages(levels, n, first, allocs)->Ok_0) == ready_lists(first) + later_levels(levels, n),
    decreases n,
{
    if n == 0 {
        assert(later_levels(levels, 0) =~= Seq::<Seq<Seq<char>>>::empty());
    } else {
        let m = (n - 1) as nat;
        lemma_level_stages_ready(levels, m, first, allocs);
        let prev = level_stages(levels, m, first, allocs)->Ok_0;
        let st = level_stage(levels, m as int, prev.len() as int, allocs)->Ok_0;
        if stage_has_work(st) {
            lemma_ready_lists_push(prev, st);
        }
        if n < levels.len() {
            assert(st.ready == levels[n as int]);
            assert(later_levels(levels, n) =~= later_levels(levels, m).push(levels[n as int]));
        } else {
            assert(st.ready.len() == 0);
            assert(later_levels(levels, n) =~= later_levels(levels, m));
        }
    }
}

proof fn lemma_free_jobs_ready(prefix: Seq<Seq<char>>, names: Seq<Seq<char>>, graph: Seq<Seq<Seq<char>>>)
    ensures
        free_jobs(prefix, names, graph) == ready_names(prefix, names, graph, Seq::empty()),
    decreases prefix.len(),
{
    if prefix.len() > 0 {
        lemma_free_jobs_ready(prefix.drop_last(), names, graph);
        let x = prefix.last();
        let ds = deps_for(names, graph, x);
        if ds.len() > 0 {
            assert(!Seq::<Seq<char>>::empty().contains(ds[0]));
            assert(!is_ready(names, graph, Seq::empty(), x));
        }
    }
}

/// The stages built from the levels of a dependency graph make the jobs
/// ready level by level: the jobs that the stages make ready, stage by stage,
/// are exactly the levels.
pub proof fn lemma_plan_stages_follow_levels(
    names: Seq<Seq<char>>,
    graph: Seq<Seq<Seq<char>>>,
    levels: Seq<Seq<Seq<char>>>,
    sa: Seq<AllocView>,
    allocs: AllocationsFor,
)
    requires
        job_levels(names, graph) == Some(levels),
    ensures
        plan_stages(names, graph, levels, sa, allocs) matches Ok(st) ==> ready_lists(st) == levels,
{
    lemma_levels_place_jobs_once(names, graph);
    let start = start_stage(names, graph, sa);
    let first = if stage_has_work(start) {
        seq![start]
    } else {
        Seq::empty()
    };
    lemma_free_jobs_ready(names, names, graph);
    if levels.len() > 0 {
        assert(pending_count(names, Seq::empty()) > 0 || levels.len() == 0);
        assert(levels[0] == ready_level(names, graph, Seq::empty()));
        assert(start.ready == levels[0]);
        assert(start.ready.len() > 0);
        assert(first == seq![start]);
        assert(ready_lists(first) =~= seq![levels[0]]) by {
            assert(first.drop_last() =~= Seq::<StageView>::empty());
            assert(first.last() == start);
            assert(ready_lists(Seq::<StageView>::empty()) =~= Seq::<Seq<Seq<char>>>::empty());
        }
        assert(seq![levels[0]] + later_levels(levels, levels.len()) =~= levels);
    } else {
        assert(pending_count(names, Seq::empty()) == 0);
        assert(start.ready.len() == 0) by {
            lemma_pending_empty_free(names, graph);
        }
        assert(ready_lists(first) =~= Seq::<Seq<Seq<char>>>::empty()) by {
            if stage_has_work(start) {
                assert(first == seq![start]);
                assert(first.drop_last() =~= Seq::<StageView>::empty());
                assert(first.last() == start);
                assert(ready_lists(Seq::<StageView>::empty()) =~= Seq::<Seq<Seq<char>>>::empty());
            }
        }
        assert(later_levels(levels, levels.len()) =~= Seq::<Seq<Seq<char>>>::empty());
    }
    if plan_stages(names, graph, levels, sa, allocs) is Ok {
        assert(job_levels(names, graph).unwrap() == levels);
        assert forall|k: int| 0 <= k < levels.len() implies (#[trigger] levels[k]).len() > 0 by {
            assert(job_levels(names, graph).unwrap()[k].len() > 0);
        }
        lemma_level_stages_ready(levels, levels.len(), first, allocs);
    }
}

/// The stages of a specification's plan make the jobs ready level by level:
/// the jobs that the stages make ready, stage by stage, are exactly the
/// levels of the dependency graph.
pub proof fn lemma_spec_plan_follows_levels(jobs: Seq<JobView>, actions: Seq<ActionView>)
    ensures
        spec_plan(jobs, actions) matches Ok(st) ==> ready_lists(st) == job_levels(
            job_names(jobs),
            dependency_lists(jobs),
        )->0,
{
    if first_bad_job_pattern(jobs) is None {
        let names = job_names(jobs);
        let graph = dependency_lists(jobs);
        if let Some(levels) = job_levels(names, graph) {
            if let Ok(sa) = start_allocations(jobs, actions) {
                lemma_plan_stages_follow_levels(names, graph, levels, sa, spec_allocations(jobs, actions));
            }
        }
    }
}

proof fn lemma_pending_empty_free(names: Seq<Seq<char>>, graph: Seq<Seq<Seq<char>>>)
    requires
        pending_count(names, Seq::empty()) == 0,
    ensures
        free_jobs(names, names, graph).len() == 0,
{
    lemma_pending_none(names);
    lemma_free_jobs_len(names, names, graph);
}

proof fn lemma_pending_none(prefix: Seq<Seq<char>>)
    ensures
        pending_count(prefix, Seq::empty()) == prefix.len(),
    decreases prefix.len(),
{
    if prefix.len() > 0 {
        lemma_pending_none(prefix.drop_last());
    }
}

proof fn lemma_free_jobs_len(prefix: Seq<Seq<char>>, names: Seq<Seq<char>>, graph: Seq<Seq<Seq<char>>>)
    ensures
        free_jobs(prefix, names, graph).len() <= prefix.len(),
    decreases prefix.len(),
{
    if prefix.len() > 0 {
        lemma_free_jobs_len(prefix.drop_last(), names, graph);
    }
}

/// A specification without cycles gets a plan: where its patterns compile,
/// its dependencies name jobs and follow a ranking, and its actions' allocations
/// can be made, building the plan succeeds.
pub proof fn lemma_ranked_spec_plan_succeeds(
    jobs: Seq<JobView>,
    actions: Seq<ActionView>,
    rank: spec_fn(Seq<char>) -> nat,
)
    requires
        first_bad_job_pattern(jobs) is None,
        ranked(job_names(jobs), dependency_lists(jobs), rank),
        start_allocations(jobs, actions) is Ok,
        forall|r: Seq<Seq<char>>| #[trigger] ready_allocations(jobs, actions, r) is Ok,
    ensures
        spec_plan(jobs, actions) is Ok,
{
    let names = job_names(jobs);
    let graph = dependency_lists(jobs);
    lemma_ranked_graph_has_levels(names, graph, rank);
    let levels = job_levels(names, graph)->0;
    let sa = start_allocations(jobs, actions)->Ok_0;
    let allocs = spec_allocations(jobs, actions);
    assert forall|r: Seq<Seq<char>>| #[trigger] allocs(r) is Ok by {
        assert(ready_allocations(jobs, actions, r) is Ok);
    }
    let start = start_stage(names, graph, sa);
    let first = if stage_has_work(start) {
        seq![start]
    } else {
        Seq::empty()
    };
    lemma_level_stages_ok(levels, levels.len(), first, allocs);
}

/// In every plan of a specification each job becomes ready in exactly one
/// stage, and only in a stage after those where its dependencies became
/// ready.
pub proof fn lemma_spec_plan_places_jobs(jobs: Seq<JobView>, actions: Seq<ActionView>)
    ensures
        spec_plan(jobs, actions) matches Ok(st) ==> {
            let names = job_names(jobs);
            let graph = dependency_lists(jobs);
            let r = ready_lists(st);
            &&& levels_cover(names, r)
            &&& levels_follow(names, graph, r)
            &&& forall|k1: int, k2: int, x: Seq<char>|
                0 <= k1 < k2 < r.len() && #[trigger] r[k1].contains(x) ==> !(#[trigger] r[k2]).contains(x)
        },
{
    lemma_spec_plan_follows_levels(jobs, actions);
    if spec_plan(jobs, actions) is Ok {
        let names = job_names(jobs);
        let graph = dependency_lists(jobs);
        lemma_levels_place_every_job(names, graph);
        lemma_levels_follow_dependencies(names, graph);
        lemma_levels_place_jobs_once(names, graph);
    }
}

} // verus!
