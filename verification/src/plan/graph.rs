//! The dependency graph of a workflow specification: each job waits for the
//! jobs it names, the jobs its name patterns select, and the jobs that
//! produce the files and user data it reads.

use vstd::prelude::*;
use crate::chars::views;
use crate::plan::names::{has_name, opt_char_lists, opt_names, strings_view};
use crate::plan::pattern::{compile, is_match, regex_compiles, regex_matches};
use crate::text::string_from;

verus! {

/// A job of a workflow specification, as far as the plan reads it.
pub struct JobSpec {
    pub name: String,
    pub blocked_by_job_names: Option<Vec<String>>,
    pub blocked_by_job_name_regexes: Option<Vec<String>>,
    pub input_file_names: Option<Vec<String>>,
    pub output_file_names: Option<Vec<String>>,
    pub input_user_data_names: Option<Vec<String>>,
    pub output_data_names: Option<Vec<String>>,
}

/// What a job says about its dependencies, as plain values; a missing list
/// is an empty one.
pub struct JobView {
    pub name: Seq<char>,
    pub after: Seq<Seq<char>>,
    pub after_patterns: Seq<Seq<char>>,
    pub inputs: Seq<Seq<char>>,
    pub outputs: Seq<Seq<char>>,
    pub input_data: Seq<Seq<char>>,
    pub output_data: Seq<Seq<char>>,
}

impl View for JobSpec {
    type V = JobView;

    open spec fn view(&self) -> JobView {
        JobView {
            name: self.name@,
            after: opt_names(self.blocked_by_job_names),
            after_patterns: opt_names(self.blocked_by_job_name_regexes),
            inputs: opt_names(self.input_file_names),
            outputs: opt_names(self.output_file_names),
            input_data: opt_names(self.input_user_data_names),
            output_data: opt_names(self.output_data_names),
        }
    }
}

/// The jobs' views, in order.
pub open spec fn job_views(v: Seq<JobSpec>) -> Seq<JobView> {
    Seq::new(v.len(), |i: int| v[i]@)
}

/// The jobs' names, in order.
pub open spec fn job_names(jobs: Seq<JobView>) -> Seq<Seq<char>> {
    Seq::new(jobs.len(), |i: int| jobs[i].name)
}

/// The list with `n` added at the end, unless it already holds it.
pub open spec fn add_new(deps: Seq<Seq<char>>, n: Seq<char>) -> Seq<Seq<char>> {
    if deps.contains(n) {
        deps
    } else {
        deps.push(n)
    }
}

/// Adds, in job order, the names that `pattern` matches.
pub open spec fn add_pattern_matches(deps: Seq<Seq<char>>, pattern: Seq<char>, jobs: Seq<JobView>) -> Seq<
    Seq<char>,
>
    decreases jobs.len(),
{
    if jobs.len() == 0 {
        deps
    } else {
        let d = add_pattern_matches(deps, pattern, jobs.drop_last());
        if regex_matches(pattern, jobs.last().name) {
            add_new(d, jobs.last().name)
        } else {
            d
        }
    }
}

/// Adds the names each pattern matches, pattern by pattern.
pub open spec fn add_all_pattern_matches(
    deps: Seq<Seq<char>>,
    patterns: Seq<Seq<char>>,
    jobs: Seq<JobView>,
) -> Seq<Seq<char>>
    decreases patterns.len(),
{
    if patterns.len() == 0 {
        deps
    } else {
        add_pattern_matches(
            add_all_pattern_matches(deps, patterns.drop_last(), jobs),
            patterns.last(),
            jobs,
        )
    }
}

/// What a job produces: its output files, or its output user data.
pub open spec fn products(job: JobView, data: bool) -> Seq<Seq<char>> {
    if data {
        job.output_data
    } else {
        job.outputs
    }
}

/// Adds, in job order, the jobs that produce `item`.
pub open spec fn add_producers(deps: Seq<Seq<char>>, item: Seq<char>, jobs: Seq<JobView>, data: bool) -> Seq<
    Seq<char>,
>
    decreases jobs.len(),
{
    if jobs.len() == 0 {
        deps
    } else {
        let d = add_producers(deps, item, jobs.drop_last(), data);
        if products(jobs.last(), data).contains(item) {
            add_new(d, jobs.last().name)
        } else {
            d
        }
    }
}

/// Adds the producers of each item, item by item.
pub open spec fn add_all_producers(
    deps: Seq<Seq<char>>,
    items: Seq<Seq<char>>,
    jobs: Seq<JobView>,
    data: bool,
) -> Seq<Seq<char>>
    decreases items.len(),
{
    if items.len() == 0 {
        deps
    } else {
        add_producers(add_all_producers(deps, items.drop_last(), jobs, data), items.last(), jobs, data)
    }
}

/// The jobs `job` waits for, in the order they are found: the names it
/// lists, then the jobs its patterns match, then the producers of its input
/// files, then those of its input user data; found jobs are not repeated.
pub open spec fn job_deps(job: JobView, jobs: Seq<JobView>) -> Seq<Seq<char>> {
    let d1 = add_all_pattern_matches(job.after, job.after_patterns, jobs);
    let d2 = add_all_producers(d1, job.inputs, jobs, false);
    add_all_producers(d2, job.input_data, jobs, true)
}

/// The dependencies of every job, in job order.
pub open spec fn dependency_lists(jobs: Seq<JobView>) -> Seq<Seq<Seq<char>>> {
    Seq::new(jobs.len(), |i: int| job_deps(jobs[i], jobs))
}

/// Whether `pattern` matches the name of one of the jobs, and that name is `x`.
pub open spec fn matched_by(pattern: Seq<char>, jobs: Seq<JobView>, x: Seq<char>) -> bool {
    exists|k: int| 0 <= k < jobs.len() && #[trigger] jobs[k].name == x && regex_matches(pattern, x)
}

/// Whether one of the patterns matches the name of one of the jobs, and
/// that name is `x`.
pub open spec fn matched_by_any(patterns: Seq<Seq<char>>, jobs: Seq<JobView>, x: Seq<char>) -> bool {
    exists|i: int| 0 <= i < patterns.len() && #[trigger] matched_by(patterns[i], jobs, x)
}

/// Adding a name keeps what was there and adds that name, nothing else.
pub proof fn lemma_add_new_holds(deps: Seq<Seq<char>>, n: Seq<char>)
    ensures
        forall|x: Seq<char>| #[trigger] add_new(deps, n).contains(x) <==> (deps.contains(x) || x == n),
{
    if !deps.contains(n) {
        assert forall|x: Seq<char>| #[trigger] deps.push(n).contains(x) <==> (deps.contains(x) || x == n) by {
            if deps.contains(x) {
                let k = choose|k: int| 0 <= k < deps.len() && deps[k] == x;
                assert(deps.push(n)[k] == x);
            }
            if x == n {
                assert(deps.push(n)[deps.len() as int] == n);
            }
            if deps.push(n).contains(x) {
                let k = choose|k: int| 0 <= k < deps.push(n).len() && deps.push(n)[k] == x;
                if k < deps.len() {
                    assert(deps[k] == x);
                }
            }
        }
    }
}

/// Adding the jobs a pattern matches keeps the names there and adds exactly
/// the names of the jobs the pattern matches.
pub proof fn lemma_pattern_matches_hold(deps: Seq<Seq<char>>, pattern: Seq<char>, jobs: Seq<JobView>)
    ensures
        forall|x: Seq<char>| #[trigger] add_pattern_matches(deps, pattern, jobs).contains(x) <==> (
        deps.contains(x) || matched_by(pattern, jobs, x)),
    decreases jobs.len(),
{
    if jobs.len() > 0 {
        let init = jobs.drop_last();
        let last = jobs.last();
        lemma_pattern_matches_hold(deps, pattern, init);
        let d = add_pattern_matches(deps, pattern, init);
        lemma_add_new_holds(d, last.name);
        assert forall|x: Seq<char>| matched_by(pattern, jobs, x) <==> (matched_by(pattern, init, x) || (
        x == last.name && regex_matches(pattern, x))) by {
            if matched_by(pattern, jobs, x) {
                let k = choose|k: int| 0 <= k < jobs.len() && #[trigger] jobs[k].name == x && regex_matches(pattern, x);
                if k < init.len() {
                    assert(init[k] == jobs[k]);
                }
            }
            if matched_by(pattern, init, x) {
                let k = choose|k: int| 0 <= k < init.len() && #[trigger] init[k].name == x && regex_matches(pattern, x);
                assert(jobs[k] == init[k]);
            }
            if x == last.name && regex_matches(pattern, x) {
                assert(jobs[jobs.len() - 1].name == x);
            }
        }
    }
}

/// Adding the jobs each pattern matches keeps the names there and adds
/// exactly the names of the jobs one of the patterns matches.
pub proof fn lemma_all_pattern_matches_hold(deps: Seq<Seq<char>>, patterns: Seq<Seq<char>>, jobs: Seq<JobView>)
    ensures
        forall|x: Seq<char>| #[trigger] add_all_pattern_matches(deps, patterns, jobs).contains(x) <==> (
        deps.contains(x) || matched_by_any(patterns, jobs, x)),
    decreases patterns.len(),
{
    if patterns.len() > 0 {
        let init = patterns.drop_last();
        let p = patterns.last();
        lemma_all_pattern_matches_hold(deps, init, jobs);
        lemma_pattern_matches_hold(add_all_pattern_matches(deps, init, jobs), p, jobs);
        assert forall|x: Seq<char>| matched_by_any(patterns, jobs, x) <==> (matched_by_any(init, jobs, x)
            || matched_by(p, jobs, x)) by {
            if matched_by_any(patterns, jobs, x) {
                let i = choose|i: int| 0 <= i < patterns.len() && #[trigger] matched_by(patterns[i], jobs, x);
                if i < init.len() {
                    assert(init[i] == patterns[i]);
                }
            }
            if matched_by_any(init, jobs, x) {
                let i = choose|i: int| 0 <= i < init.len() && #[trigger] matched_by(init[i], jobs, x);
                assert(patterns[i] == init[i]);
            }
            if matched_by(p, jobs, x) {
                assert(patterns[patterns.len() - 1] == p);
            }
        }
    }
}

/// A list of patterns has no bad pattern exactly when every pattern
/// compiles, and a bad one it names is one of them that does not.
pub proof fn lemma_first_bad_pattern(patterns: Seq<Seq<char>>)
    ensures
        first_bad_pattern(patterns) is None <==> forall|i: int| 0 <= i < patterns.len() ==> #[trigger] regex_compiles(
            patterns[i],
        ),
        first_bad_pattern(patterns) matches Some(p) ==> patterns.contains(p) && !regex_compiles(p),
    decreases patterns.len(),
{
    if patterns.len() > 0 {
        let rest = patterns.drop_first();
        lemma_first_bad_pattern(rest);
        assert forall|i: int| 0 <= i < rest.len() implies #[trigger] rest[i] == patterns[i + 1] by {}
        if regex_compiles(patterns[0]) && first_bad_pattern(rest) is None {
            assert forall|i: int| 0 <= i < patterns.len() implies #[trigger] regex_compiles(patterns[i]) by {
                if i > 0 {
                    assert(rest[i - 1] == patterns[i]);
                    assert(regex_compiles(rest[i - 1]));
                }
            }
        }
        if first_bad_pattern(rest) is Some {
            let i = choose|i: int| 0 <= i < rest.len() && !#[trigger] regex_compiles(rest[i]);
            assert(!regex_compiles(patterns[i + 1]));
        }
        if first_bad_pattern(patterns) is Some {
            let p = first_bad_pattern(patterns)->0;
            if regex_compiles(patterns[0]) {
                let k = choose|k: int| 0 <= k < rest.len() && rest[k] == p;
                assert(patterns[k + 1] == p);
            } else {
                assert(patterns[0] == p);
            }
        }
    }
}

/// The first pattern of the list that does not compile.
pub open spec fn first_bad_pattern(patterns: Seq<Seq<char>>) -> Option<Seq<char>>
    decreases patterns.len(),
{
    if patterns.len() == 0 {
        None
    } else if !regex_compiles(patterns[0]) {
        Some(patterns[0])
    } else {
        first_bad_pattern(patterns.drop_first())
    }
}

/// The first pattern, in job order, that does not compile.
pub open spec fn first_bad_job_pattern(jobs: Seq<JobView>) -> Option<Seq<char>>
    decreases jobs.len(),
{
    if jobs.len() == 0 {
        None
    } else {
        match first_bad_pattern(jobs[0].after_patterns) {
            Some(p) => Some(p),
            None => first_bad_job_pattern(jobs.drop_first()),
        }
    }
}

/// The lists of lists of names, as plain values.
pub open spec fn graph_view(g: Seq<Vec<Vec<char>>>) -> Seq<Seq<Seq<char>>> {
    Seq::new(g.len(), |i: int| views(g[i]@))
}

/// A job's lists as character vectors, for repeated lookups.
pub struct JobLists {
    pub name: String,
    pub name_chars: Vec<char>,
    pub after: Vec<Vec<char>>,
    pub inputs: Vec<Vec<char>>,
    pub outputs: Vec<Vec<char>>,
    pub input_data: Vec<Vec<char>>,
    pub output_data: Vec<Vec<char>>,
}

/// Whether the lists hold what the job says.
pub open spec fn lists_of(l: JobLists, j: JobView) -> bool {
    &&& l.name@ == j.name
    &&& l.name_chars@ == j.name
    &&& views(l.after@) == j.after
    &&& views(l.inputs@) == j.inputs
    &&& views(l.outputs@) == j.outputs
    &&& views(l.input_data@) == j.input_data
    &&& views(l.output_data@) == j.output_data
}

/// The jobs' lists as character vectors.
pub fn all_job_lists(jobs: &[JobSpec]) -> (r: Vec<JobLists>)
    ensures
        r@.len() == jobs@.len(),
        forall|i: int| 0 <= i < jobs@.len() ==> lists_of(#[trigger] r@[i], jobs@[i]@),
{
    let mut out: Vec<JobLists> = Vec::new();
    let mut i: usize = 0;
    while i < jobs.len()
        invariant
            i <= jobs@.len(),
            out@.len() == i,
            forall|k: int| 0 <= k < i ==> lists_of(#[trigger] out@[k], jobs@[k]@),
        decreases jobs@.len() - i,
    {
        let j = &jobs[i];
        let l = JobLists {
            name: string_from(j.name.as_str()),
            name_chars: crate::text::chars_of(j.name.as_str()),
            after: opt_char_lists(&j.blocked_by_job_names),
            inputs: opt_char_lists(&j.input_file_names),
            outputs: opt_char_lists(&j.output_file_names),
            input_data: opt_char_lists(&j.input_user_data_names),
            output_data: opt_char_lists(&j.output_data_names),
        };
        out.push(l);
        i = i + 1;
    }
    out
}

fn push_new(deps: &mut Vec<Vec<char>>, n: &Vec<char>)
    ensures
        views(final(deps)@) == add_new(views(old(deps)@), n@),
{
    if !has_name(deps, n.as_slice()) {
        let c = crate::chars::slice_chars(n.as_slice(), 0, n.len());
        assert(c@ =~= n@);
        deps.push(c);
        assert(views(deps@) =~= views(old(deps)@).push(n@));
    }
}

fn add_pattern_matches_exec(deps: &mut Vec<Vec<char>>, p: &crate::plan::pattern::Pattern, lists: &Vec<JobLists>, Ghost(jobs): Ghost<Seq<JobView>>)
    requires
        lists@.len() == jobs.len(),
        forall|i: int| 0 <= i < jobs.len() ==> lists_of(#[trigger] lists@[i], jobs[i]),
    ensures
        views(final(deps)@) == add_pattern_matches(views(old(deps)@), p.source(), jobs),
{
    let ghost start = views(deps@);
    let mut k: usize = 0;
    while k < lists.len()
        invariant
            lists@.len() == jobs.len(),
            forall|i: int| 0 <= i < jobs.len() ==> lists_of(#[trigger] lists@[i], jobs[i]),
            k <= lists@.len(),
            views(deps@) == add_pattern_matches(start, p.source(), jobs.take(k as int)),
        decreases lists@.len() - k,
    {
        assert(jobs.take(k + 1).drop_last() =~= jobs.take(k as int));
        assert(jobs.take(k + 1).last() == jobs[k as int]);
        assert(lists_of(lists@[k as int], jobs[k as int]));
        if is_match(p, lists[k].name.as_str()) {
            push_new(deps, &lists[k].name_chars);
        }
        k = k + 1;
    }
    assert(jobs.take(lists@.len() as int) =~= jobs);
}

fn add_producers_exec(deps: &mut Vec<Vec<char>>, item: &Vec<char>, lists: &Vec<JobLists>, data: bool, Ghost(jobs): Ghost<Seq<JobView>>)
    requires
        lists@.len() == jobs.len(),
        forall|i: int| 0 <= i < jobs.len() ==> lists_of(#[trigger] lists@[i], jobs[i]),
    ensures
        views(final(deps)@) == add_producers(views(old(deps)@), item@, jobs, data),
{
    let ghost start = views(deps@);
    let mut k: usize = 0;
    while k < lists.len()
        invariant
            lists@.len() == jobs.len(),
            forall|i: int| 0 <= i < jobs.len() ==> lists_of(#[trigger] lists@[i], jobs[i]),
            k <= lists@.len(),
            views(deps@) == add_producers(start, item@, jobs.take(k as int), data),
        decreases lists@.len() - k,
    {
        assert(jobs.take(k + 1).drop_last() =~= jobs.take(k as int));
        assert(jobs.take(k + 1).last() == jobs[k as int]);
        assert(lists_of(lists@[k as int], jobs[k as int]));
        let produced = if data {
            has_name(&lists[k].output_data, item.as_slice())
        } else {
            has_name(&lists[k].outputs, item.as_slice())
        };
        if produced {
            push_new(deps, &lists[k].name_chars);
        }
        k = k + 1;
    }
    assert(jobs.take(lists@.len() as int) =~= jobs);
}

fn add_all_producers_exec(deps: &mut Vec<Vec<char>>, items: &Vec<Vec<char>>, lists: &Vec<JobLists>, data: bool, Ghost(jobs): Ghost<Seq<JobView>>)
    requires
        lists@.len() == jobs.len(),
        forall|i: int| 0 <= i < jobs.len() ==> lists_of(#[trigger] lists@[i], jobs[i]),
    ensures
        views(final(deps)@) == add_all_producers(views(old(deps)@), views(items@), jobs, data),
{
    let ghost start = views(deps@);
    let ghost iv = views(items@);
    let mut k: usize = 0;
    while k < items.len()
        invariant
            lists@.len() == jobs.len(),
            forall|i: int| 0 <= i < jobs.len() ==> lists_of(#[trigger] lists@[i], jobs[i]),
            iv == views(items@),
            k <= items@.len(),
            views(deps@) == add_all_producers(start, iv.take(k as int), jobs, data),
        decreases items@.len() - k,
    {
        assert(iv.take(k + 1).drop_last() =~= iv.take(k as int));
        assert(iv.take(k + 1).last() == items@[k as int]@);
        add_producers_exec(deps, &items[k], lists, data, Ghost(jobs));
        k = k + 1;
    }
    assert(iv.take(items@.len() as int) =~= iv);
}

/// Adds the names each pattern matches, pattern by pattern; the first
/// pattern that does not compile when there is one, with the list then
/// left unspecified.
pub fn add_pattern_list_matches(
    deps: &mut Vec<Vec<char>>,
    patterns: &Option<Vec<String>>,
    lists: &Vec<JobLists>,
    Ghost(jobs): Ghost<Seq<JobView>>,
) -> (r: Result<(), String>)
    requires
        lists@.len() == jobs.len(),
        forall|i: int| 0 <= i < jobs.len() ==> lists_of(#[trigger] lists@[i], jobs[i]),
    ensures
        match first_bad_pattern(opt_names(*patterns)) {
            Some(p) => r matches Err(e) && e@ == p,
            None => r is Ok && views(final(deps)@) == add_all_pattern_matches(
                views(old(deps)@),
                opt_names(*patterns),
                jobs,
            ),
        },
{
    let ghost start = views(deps@);
    match patterns {
        Some(ps) => {
            let ghost pv = strings_view(ps@);
            assert(pv.skip(0) =~= pv);
            assert(pv.take(0) =~= Seq::<Seq<char>>::empty());
            let mut k: usize = 0;
            while k < ps.len()
                invariant
                    lists@.len() == jobs.len(),
                    forall|i: int| 0 <= i < jobs.len() ==> lists_of(#[trigger] lists@[i], jobs[i]),
                    pv == strings_view(ps@),
                    pv == opt_names(*patterns),
                    k <= ps@.len(),
                    first_bad_pattern(pv) == first_bad_pattern(pv.skip(k as int)),
                    first_bad_pattern(pv.take(k as int)) is None,
                    views(deps@) == add_all_pattern_matches(start, pv.take(k as int), jobs),
                decreases ps@.len() - k,
            {
                assert(pv.take(k + 1).drop_last() =~= pv.take(k as int));
                assert(pv.take(k + 1).last() == pv[k as int]);
                assert(pv.skip(k as int).drop_first() =~= pv.skip(k + 1));
                assert(pv.skip(k as int)[0] == pv[k as int]);
                match compile(ps[k].as_str()) {
                    Some(p) => {
                        add_pattern_matches_exec(deps, &p, lists, Ghost(jobs));
                        proof {
                            lemma_first_bad_prefix(pv.take(k + 1));
                        }
                    },
                    None => {
                        assert(!regex_compiles(pv[k as int]));
                        return Err(string_from(ps[k].as_str()));
                    },
                }
                k = k + 1;
            }
            assert(pv.take(ps@.len() as int) =~= pv);
            assert(pv.skip(ps@.len() as int) =~= Seq::<Seq<char>>::empty());
            Ok(())
        },
        None => Ok(()),
    }
}

/// The dependencies of one job; the first of its patterns that does not
/// compile when there is one.
fn job_deps_exec(job: &JobSpec, lists: &Vec<JobLists>, Ghost(jobs): Ghost<Seq<JobView>>) -> (r: Result<Vec<Vec<char>>, String>)
    requires
        lists@.len() == jobs.len(),
        forall|i: int| 0 <= i < jobs.len() ==> lists_of(#[trigger] lists@[i], jobs[i]),
    ensures
        match first_bad_pattern(job@.after_patterns) {
            Some(p) => r matches Err(e) && e@ == p,
            None => r matches Ok(d) && views(d@) == job_deps(job@, jobs),
        },
{
    let mut deps = opt_char_lists(&job.blocked_by_job_names);
    match add_pattern_list_matches(&mut deps, &job.blocked_by_job_name_regexes, lists, Ghost(jobs)) {
        Ok(()) => {},
        Err(e) => {
            return Err(e);
        },
    }
    let inputs = opt_char_lists(&job.input_file_names);
    add_all_producers_exec(&mut deps, &inputs, lists, false, Ghost(jobs));
    let input_data = opt_char_lists(&job.input_user_data_names);
    add_all_producers_exec(&mut deps, &input_data, lists, true, Ghost(jobs));
    Ok(deps)
}

proof fn lemma_first_bad_prefix(patterns: Seq<Seq<char>>)
    requires
        patterns.len() > 0,
        first_bad_pattern(patterns.drop_last()) is None,
        regex_compiles(patterns.last()),
    ensures
        first_bad_pattern(patterns) is None,
    decreases patterns.len(),
{
    if patterns.len() == 1 {
        assert(patterns.drop_first() =~= Seq::<Seq<char>>::empty());
        assert(patterns[0] == patterns.last());
    } else {
        let dl = patterns.drop_last();
        assert(dl[0] == patterns[0]);
        assert(regex_compiles(patterns[0]));
        assert(patterns.drop_first().drop_last() =~= dl.drop_first());
        assert(patterns.drop_first().last() == patterns.last());
        lemma_first_bad_prefix(patterns.drop_first());
    }
}

/// The dependency lists of all jobs; the first pattern, in job order, that
/// does not compile when there is one.
pub fn dependency_graph(jobs: &[JobSpec]) -> (r: Result<Vec<Vec<Vec<char>>>, String>)
    ensures
        match first_bad_job_pattern(job_views(jobs@)) {
            Some(p) => r matches Err(e) && e@ == p,
            None => r matches Ok(g) && graph_view(g@) == dependency_lists(job_views(jobs@)),
        },
{
    let ghost jv = job_views(jobs@);
    let lists = all_job_lists(jobs);
    let mut graph: Vec<Vec<Vec<char>>> = Vec::new();
    assert(jv.skip(0) =~= jv);
    let mut i: usize = 0;
    while i < jobs.len()
        invariant
            jv == job_views(jobs@),
            lists@.len() == jv.len(),
            forall|k: int| 0 <= k < jv.len() ==> lists_of(#[trigger] lists@[k], jv[k]),
            i <= jobs@.len(),
            first_bad_job_pattern(jv) == first_bad_job_pattern(jv.skip(i as int)),
            graph@.len() == i,
            forall|k: int| 0 <= k < i ==> views(#[trigger] graph@[k]@) == job_deps(jv[k], jv),
        decreases jobs@.len() - i,
    {
        assert(jv.skip(i as int).drop_first() =~= jv.skip(i + 1));
        assert(jv.skip(i as int)[0] == jobs@[i as int]@);
        match job_deps_exec(&jobs[i], &lists, Ghost(jv)) {
            Ok(d) => {
                graph.push(d);
            },
            Err(e) => {
                return Err(e);
            },
        }
        i = i + 1;
    }
    assert(jv.skip(jobs@.len() as int) =~= Seq::<JobView>::empty());
    assert(graph_view(graph@) =~= dependency_lists(jv));
    Ok(graph)
}

} // verus!
