//! Sorting a workflow's jobs into levels: a level holds, in job order, the
//! jobs not yet placed whose dependencies all sit in earlier levels.

use vstd::prelude::*;
use crate::chars::views;
use crate::plan::graph::graph_view;
use crate::plan::names::has_name;

verus! {

/// The index of the last job named `n`, or -1.
pub open spec fn last_named(names: Seq<Seq<char>>, n: Seq<char>) -> int
    decreases names.len(),
{
    if names.len() == 0 {
        -1
    } else if names.last() == n {
        names.len() - 1
    } else {
        last_named(names.drop_last(), n)
    }
}

/// The dependencies recorded for name `n`: those of the last job with
/// that name, as a map keyed by name keeps them.
pub open spec fn deps_for(names: Seq<Seq<char>>, graph: Seq<Seq<Seq<char>>>, n: Seq<char>) -> Seq<
    Seq<char>,
> {
    let i = last_named(names, n);
    if 0 <= i < graph.len() {
        graph[i]
    } else {
        Seq::empty()
    }
}

/// Whether job `n` is not placed yet and all its dependencies are.
pub open spec fn is_ready(
    names: Seq<Seq<char>>,
    graph: Seq<Seq<Seq<char>>>,
    done: Seq<Seq<char>>,
    n: Seq<char>,
) -> bool {
    !done.contains(n) && forall|k: int|
        0 <= k < deps_for(names, graph, n).len() ==> done.contains(
            #[trigger] deps_for(names, graph, n)[k],
        )
}

/// The ready jobs among `prefix`, in order.
pub open spec fn ready_names(
    prefix: Seq<Seq<char>>,
    names: Seq<Seq<char>>,
    graph: Seq<Seq<Seq<char>>>,
    done: Seq<Seq<char>>,
) -> Seq<Seq<char>>
    decreases prefix.len(),
{
    if prefix.len() == 0 {
        Seq::empty()
    } else {
        let prev = ready_names(prefix.drop_last(), names, graph, done);
        if is_ready(names, graph, done, prefix.last()) {
            prev.push(prefix.last())
        } else {
            prev
        }
    }
}

/// The next level once the jobs in `done` are placed.
pub open spec fn ready_level(names: Seq<Seq<char>>, graph: Seq<Seq<Seq<char>>>, done: Seq<Seq<char>>) -> Seq<
    Seq<char>,
> {
    ready_names(names, names, graph, done)
}

/// How many entries of `prefix` are not placed yet.
pub open spec fn pending_count(prefix: Seq<Seq<char>>, done: Seq<Seq<char>>) -> nat
    decreases prefix.len(),
{
    if prefix.len() == 0 {
        0
    } else {
        pending_count(prefix.drop_last(), done) + if done.contains(prefix.last()) {
            0nat
        } else {
            1nat
        }
    }
}

/// A name is in a concatenation when it is in either part.
pub proof fn lemma_contains_concat(a: Seq<Seq<char>>, b: Seq<Seq<char>>, x: Seq<char>)
    ensures
        (a + b).contains(x) <==> (a.contains(x) || b.contains(x)),
{
    if a.contains(x) {
        let i = choose|i: int| 0 <= i < a.len() && a[i] == x;
        assert((a + b)[i] == x);
    }
    if b.contains(x) {
        let i = choose|i: int| 0 <= i < b.len() && b[i] == x;
        assert((a + b)[a.len() + i] == x);
    }
    if (a + b).contains(x) {
        let i = choose|i: int| 0 <= i < (a + b).len() && (a + b)[i] == x;
        if i < a.len() {
            assert(a[i] == x);
        } else {
            assert(b[i - a.len()] == x);
        }
    }
}

/// Every ready name of a prefix is one of its entries and not placed.
proof fn lemma_ready_names_members(
    prefix: Seq<Seq<char>>,
    names: Seq<Seq<char>>,
    graph: Seq<Seq<Seq<char>>>,
    done: Seq<Seq<char>>,
    x: Seq<char>,
)
    ensures
        ready_names(prefix, names, graph, done).contains(x) ==> prefix.contains(x) && is_ready(
            names,
            graph,
            done,
            x,
        ),
    decreases prefix.len(),
{
    if prefix.len() > 0 {
        let prev = ready_names(prefix.drop_last(), names, graph, done);
        lemma_ready_names_members(prefix.drop_last(), names, graph, done, x);
        if ready_names(prefix, names, graph, done).contains(x) {
            if prev.contains(x) {
                let i = choose|i: int| 0 <= i < prefix.drop_last().len() && prefix.drop_last()[i] == x;
                assert(prefix[i] == x);
            } else {
                let r = ready_names(prefix, names, graph, done);
                let i = choose|i: int| 0 <= i < r.len() && r[i] == x;
                if i < prev.len() {
                    assert(prev[i] == x);
                }
                assert(prefix[prefix.len() - 1] == x);
            }
        }
    }
}

/// Entries of a prefix that are ready appear among its ready names.
proof fn lemma_ready_names_complete(
    prefix: Seq<Seq<char>>,
    names: Seq<Seq<char>>,
    graph: Seq<Seq<Seq<char>>>,
    done: Seq<Seq<char>>,
    x: Seq<char>,
)
    requires
        prefix.contains(x),
        is_ready(names, graph, done, x),
    ensures
        ready_names(prefix, names, graph, done).contains(x),
    decreases prefix.len(),
{
    let prev = ready_names(prefix.drop_last(), names, graph, done);
    if prefix.last() == x {
        assert(ready_names(prefix, names, graph, done).last() == x);
    } else {
        let i = choose|i: int| 0 <= i < prefix.len() && prefix[i] == x;
        assert(prefix.drop_last()[i] == x);
        lemma_ready_names_complete(prefix.drop_last(), names, graph, done, x);
        let j = choose|j: int| 0 <= j < prev.len() && prev[j] == x;
        assert(ready_names(prefix, names, graph, done)[j] == x);
    }
}

/// Placing more jobs never adds to the pending count.
pub proof fn lemma_pending_mono(prefix: Seq<Seq<char>>, done: Seq<Seq<char>>, more: Seq<Seq<char>>)
    ensures
        pending_count(prefix, done + more) <= pending_count(prefix, done),
    decreases prefix.len(),
{
    if prefix.len() > 0 {
        lemma_pending_mono(prefix.drop_last(), done, more);
        lemma_contains_concat(done, more, prefix.last());
    }
}

/// Placing a level with a ready job of the prefix lowers its pending count.
pub proof fn lemma_pending_drops(
    prefix: Seq<Seq<char>>,
    names: Seq<Seq<char>>,
    graph: Seq<Seq<Seq<char>>>,
    done: Seq<Seq<char>>,
    lvl: Seq<Seq<char>>,
)
    requires
        ready_names(prefix, names, graph, done).len() > 0,
        forall|x: Seq<char>| ready_names(prefix, names, graph, done).contains(x) ==> lvl.contains(x),
    ensures
        pending_count(prefix, done + lvl) < pending_count(prefix, done),
    decreases prefix.len(),
{
    let last = prefix.last();
    let prev = ready_names(prefix.drop_last(), names, graph, done);
    lemma_contains_concat(done, lvl, last);
    if is_ready(names, graph, done, last) {
        let r = ready_names(prefix, names, graph, done);
        assert(r[r.len() - 1] == last);
        assert(lvl.contains(last));
        lemma_pending_mono(prefix.drop_last(), done, lvl);
    } else {
        assert forall|x: Seq<char>| prev.contains(x) implies lvl.contains(x) by {
            assert(ready_names(prefix, names, graph, done) == prev);
        }
        lemma_pending_drops(prefix.drop_last(), names, graph, done, lvl);
    }
}

/// The levels that follow once the jobs in `done` are placed; `None` when
/// jobs are left but none is ready: their dependencies form a cycle or
/// name no job.
pub open spec fn topo_levels(names: Seq<Seq<char>>, graph: Seq<Seq<Seq<char>>>, done: Seq<Seq<char>>) -> Option<
    Seq<Seq<Seq<char>>>,
>
    decreases pending_count(names, done),
{
    if pending_count(names, done) == 0 {
        Some(Seq::empty())
    } else {
        let lvl = ready_level(names, graph, done);
        if lvl.len() == 0 {
            None
        } else {
            proof {
                lemma_pending_drops(names, names, graph, done, lvl);
            }
            match topo_levels(names, graph, done + lvl) {
                Some(rest) => Some(seq![lvl] + rest),
                None => None,
            }
        }
    }
}

/// The levels of a workflow's jobs, from the first.
pub open spec fn job_levels(names: Seq<Seq<char>>, graph: Seq<Seq<Seq<char>>>) -> Option<
    Seq<Seq<Seq<char>>>,
> {
    topo_levels(names, graph, Seq::empty())
}

/// The index of the last job named `n`.
pub fn last_index_named(names: &Vec<Vec<char>>, n: &[char]) -> (r: Option<usize>)
    ensures
        match r {
            Some(i) => i as int == last_named(views(names@), n@) && i < names@.len(),
            None => last_named(views(names@), n@) == -1,
        },
{
    let ghost nv = views(names@);
    let mut k: usize = names.len();
    assert(nv.take(k as int) =~= nv);
    while k > 0
        invariant
            nv == views(names@),
            k <= names@.len(),
            last_named(nv, n@) == last_named(nv.take(k as int), n@),
        decreases k,
    {
        let ghost t = nv.take(k as int);
        assert(t.drop_last() =~= nv.take(k - 1));
        assert(t.last() == names@[k - 1]@);
        if crate::chars::chars_eq(names[k - 1].as_slice(), n) {
            return Some(k - 1);
        }
        k = k - 1;
    }
    None
}

fn all_placed(deps: &Vec<Vec<char>>, done: &Vec<Vec<char>>) -> (b: bool)
    ensures
        b == forall|k: int| 0 <= k < views(deps@).len() ==> views(done@).contains(#[trigger] views(deps@)[k]),
{
    let mut k: usize = 0;
    while k < deps.len()
        invariant
            k <= deps@.len(),
            forall|j: int| 0 <= j < k ==> views(done@).contains(#[trigger] views(deps@)[j]),
        decreases deps@.len() - k,
    {
        assert(views(deps@)[k as int] == deps@[k as int]@);
        if !has_name(done, deps[k].as_slice()) {
            return false;
        }
        k = k + 1;
    }
    true
}

fn ready_exec(names: &Vec<Vec<char>>, graph: &Vec<Vec<Vec<char>>>, done: &Vec<Vec<char>>, n: &[char]) -> (b: bool)
    requires
        graph@.len() == names@.len(),
    ensures
        b == is_ready(views(names@), graph_view(graph@), views(done@), n@),
{
    if has_name(done, n) {
        return false;
    }
    match last_index_named(names, n) {
        Some(i) => {
            assert(graph_view(graph@)[i as int] == views(graph@[i as int]@));
            assert(deps_for(views(names@), graph_view(graph@), n@) == views(graph@[i as int]@));
            all_placed(&graph[i], done)
        },
        None => true,
    }
}

fn next_level(names: &Vec<Vec<char>>, graph: &Vec<Vec<Vec<char>>>, done: &Vec<Vec<char>>) -> (r: Vec<Vec<char>>)
    requires
        graph@.len() == names@.len(),
    ensures
        views(r@) == ready_level(views(names@), graph_view(graph@), views(done@)),
{
    let ghost nv = views(names@);
    let mut out: Vec<Vec<char>> = Vec::new();
    let mut i: usize = 0;
    while i < names.len()
        invariant
            nv == views(names@),
            graph@.len() == names@.len(),
            i <= names@.len(),
            views(out@) == ready_names(nv.take(i as int), nv, graph_view(graph@), views(done@)),
        decreases names@.len() - i,
    {
        let ghost t = nv.take(i + 1);
        assert(t.drop_last() =~= nv.take(i as int));
        assert(t.last() == names@[i as int]@);
        if ready_exec(names, graph, done, names[i].as_slice()) {
            let c = crate::chars::slice_chars(names[i].as_slice(), 0, names[i].len());
            assert(c@ =~= names@[i as int]@);
            let ghost before = views(out@);
            out.push(c);
            assert(views(out@) =~= before.push(names@[i as int]@));
        }
        i = i + 1;
    }
    assert(nv.take(names@.len() as int) =~= nv);
    out
}

fn pending(names: &Vec<Vec<char>>, done: &Vec<Vec<char>>) -> (c: usize)
    ensures
        c == pending_count(views(names@), views(done@)),
{
    let ghost nv = views(names@);
    let mut c: usize = 0;
    let mut i: usize = 0;
    while i < names.len()
        invariant
            nv == views(names@),
            i <= names@.len(),
            c == pending_count(nv.take(i as int), views(done@)),
            c <= i,
        decreases names@.len() - i,
    {
        let ghost t = nv.take(i + 1);
        assert(t.drop_last() =~= nv.take(i as int));
        assert(t.last() == names@[i as int]@);
        if !has_name(done, names[i].as_slice()) {
            c = c + 1;
        }
        i = i + 1;
    }
    assert(nv.take(names@.len() as int) =~= nv);
    c
}

/// Sorts jobs into levels: each round takes, in job order, every job not
/// yet placed whose dependencies are all placed; `None` when a round finds
/// none while jobs are left (circular dependencies, or dependencies on jobs
/// that do not exist).
pub fn topological_levels(names: &Vec<Vec<char>>, graph: &Vec<Vec<Vec<char>>>) -> (r: Option<
    Vec<Vec<Vec<char>>>,
>)
    requires
        graph@.len() == names@.len(),
    ensures
        match job_levels(views(names@), graph_view(graph@)) {
            Some(l) => r matches Some(v) && graph_view(v@) == l,
            None => r is None,
        },
{
    let ghost nv = views(names@);
    let ghost gv = graph_view(graph@);
    let mut done: Vec<Vec<char>> = Vec::new();
    let mut levels: Vec<Vec<Vec<char>>> = Vec::new();
    assert(views(done@) =~= Seq::<Seq<char>>::empty());
    assert(graph_view(levels@) =~= Seq::<Seq<Seq<char>>>::empty());
    assert(Seq::<Seq<Seq<char>>>::empty() + Seq::<Seq<Seq<char>>>::empty() =~= Seq::<
        Seq<Seq<char>>,
    >::empty());
    loop
        invariant
            nv == views(names@),
            gv == graph_view(graph@),
            graph@.len() == names@.len(),
            job_levels(nv, gv) == match topo_levels(nv, gv, views(done@)) {
                Some(rest) => Some(graph_view(levels@) + rest),
                None => None,
            },
        decreases pending_count(nv, views(done@)),
    {
        let c = pending(names, &done);
        if c == 0 {
            assert(graph_view(levels@) + Seq::<Seq<Seq<char>>>::empty() =~= graph_view(levels@));
            return Some(levels);
        }
        let lvl = next_level(names, graph, &done);
        if lvl.len() == 0 {
            return None;
        }
        let ghost d0 = views(done@);
        let ghost l0 = graph_view(levels@);
        let ghost lv = views(lvl@);
        proof {
            lemma_pending_drops(nv, nv, gv, d0, lv);
        }
        let mut j: usize = 0;
        while j < lvl.len()
            invariant
                j <= lvl@.len(),
                lv == views(lvl@),
                views(done@) == d0 + lv.take(j as int),
                done@.len() == d0.len() + j,
            decreases lvl@.len() - j,
        {
            let cpy = crate::chars::slice_chars(lvl[j].as_slice(), 0, lvl[j].len());
            assert(cpy@ =~= lvl@[j as int]@);
            let ghost before = views(done@);
            done.push(cpy);
            assert(views(done@) =~= before.push(lv[j as int]));
            assert(d0 + lv.take(j + 1) =~= (d0 + lv.take(j as int)).push(lv[j as int]));
            j = j + 1;
        }
        assert(lv.take(lvl@.len() as int) =~= lv);
        levels.push(lvl);
        assert(graph_view(levels@) =~= l0.push(lv));
        proof {
            match topo_levels(nv, gv, d0 + lv) {
                Some(rest) => {
                    assert(l0 + (seq![lv] + rest) =~= l0.push(lv) + rest);
                },
                None => {},
            }
        }
    }
}

// ---------------------------------------------------------------------------
// What the levels promise
// ---------------------------------------------------------------------------

proof fn lemma_no_pending(prefix: Seq<Seq<char>>, done: Seq<Seq<char>>)
    requires
        pending_count(prefix, done) == 0,
    ensures
        forall|i: int| 0 <= i < prefix.len() ==> done.contains(#[trigger] prefix[i]),
    decreases prefix.len(),
{
    if prefix.len() > 0 {
        lemma_no_pending(prefix.drop_last(), done);
        assert forall|i: int| 0 <= i < prefix.len() implies done.contains(#[trigger] prefix[i]) by {
            if i < prefix.len() - 1 {
                assert(prefix.drop_last()[i] == prefix[i]);
            }
        }
    }
}

/// Unfolds one round of the sort.
proof fn lemma_topo_step(
    names: Seq<Seq<char>>,
    graph: Seq<Seq<Seq<char>>>,
    done: Seq<Seq<char>>,
    levels: Seq<Seq<Seq<char>>>,
)
    requires
        topo_levels(names, graph, done) == Some(levels),
        pending_count(names, done) > 0,
    ensures
        levels.len() > 0,
        levels[0] == ready_level(names, graph, done),
        levels[0].len() > 0,
        topo_levels(names, graph, done + levels[0]) == Some(levels.drop_first()),
        pending_count(names, done + levels[0]) < pending_count(names, done),
{
    let lvl = ready_level(names, graph, done);
    lemma_pending_drops(names, names, graph, done, lvl);
    let rest = topo_levels(names, graph, done + lvl).unwrap();
    assert(levels == seq![lvl] + rest);
    assert(levels.drop_first() =~= rest);
}

proof fn lemma_topo_deps(
    names: Seq<Seq<char>>,
    graph: Seq<Seq<Seq<char>>>,
    done: Seq<Seq<char>>,
    levels: Seq<Seq<Seq<char>>>,
)
    requires
        topo_levels(names, graph, done) == Some(levels),
    ensures
        forall|k: int, x: Seq<char>, d: Seq<char>|
            0 <= k < levels.len() && #[trigger] levels[k].contains(x) && #[trigger] deps_for(
                names,
                graph,
                x,
            ).contains(d) ==> done.contains(d) || exists|k2: int|
                0 <= k2 < k && #[trigger] levels[k2].contains(d),
    decreases pending_count(names, done),
{
    if pending_count(names, done) > 0 {
        lemma_topo_step(names, graph, done, levels);
        let lvl = levels[0];
        let rest = levels.drop_first();
        lemma_topo_deps(names, graph, done + lvl, rest);
        assert forall|k: int, x: Seq<char>, d: Seq<char>|
            0 <= k < levels.len() && #[trigger] levels[k].contains(x) && #[trigger] deps_for(
                names,
                graph,
                x,
            ).contains(d) implies done.contains(d) || exists|k2: int|
            0 <= k2 < k && #[trigger] levels[k2].contains(d) by {
            if k == 0 {
                lemma_ready_names_members(names, names, graph, done, x);
                let deps = deps_for(names, graph, x);
                let j = choose|j: int| 0 <= j < deps.len() && deps[j] == d;
                assert(done.contains(deps[j]));
            } else {
                assert(rest[k - 1] == levels[k]);
                lemma_contains_concat(done, lvl, d);
                if done.contains(d) {
                } else if lvl.contains(d) {
                    assert(levels[0].contains(d));
                } else {
                    let k3 = choose|k3: int| 0 <= k3 < k - 1 && #[trigger] rest[k3].contains(d);
                    assert(levels[k3 + 1] == rest[k3]);
                    assert(levels[k3 + 1].contains(d));
                }
            }
        }
    }
}

proof fn lemma_topo_covers(
    names: Seq<Seq<char>>,
    graph: Seq<Seq<Seq<char>>>,
    done: Seq<Seq<char>>,
    levels: Seq<Seq<Seq<char>>>,
)
    requires
        topo_levels(names, graph, done) == Some(levels),
    ensures
        forall|i: int|
            0 <= i < names.len() ==> done.contains(#[trigger] names[i]) || exists|k: int|
                0 <= k < levels.len() && #[trigger] levels[k].contains(names[i]),
    decreases pending_count(names, done),
{
    if pending_count(names, done) == 0 {
        lemma_no_pending(names, done);
    } else {
        lemma_topo_step(names, graph, done, levels);
        let lvl = levels[0];
        let rest = levels.drop_first();
        lemma_topo_covers(names, graph, done + lvl, rest);
        assert forall|i: int| 0 <= i < names.len() implies done.contains(#[trigger] names[i])
            || exists|k: int| 0 <= k < levels.len() && #[trigger] levels[k].contains(names[i]) by {
            lemma_contains_concat(done, lvl, names[i]);
            if done.contains(names[i]) {
            } else if lvl.contains(names[i]) {
                assert(levels[0].contains(names[i]));
            } else {
                let k3 = choose|k3: int| 0 <= k3 < rest.len() && #[trigger] rest[k3].contains(names[i]);
                assert(levels[k3 + 1] == rest[k3]);
            }
        }
    }
}

proof fn lemma_topo_fresh(
    names: Seq<Seq<char>>,
    graph: Seq<Seq<Seq<char>>>,
    done: Seq<Seq<char>>,
    levels: Seq<Seq<Seq<char>>>,
)
    requires
        topo_levels(names, graph, done) == Some(levels),
    ensures
        forall|k: int| 0 <= k < levels.len() ==> (#[trigger] levels[k]).len() > 0,
        forall|k: int, x: Seq<char>|
            0 <= k < levels.len() && #[trigger] levels[k].contains(x) ==> !done.contains(x)
                && names.contains(x),
        forall|k1: int, k2: int, x: Seq<char>|
            0 <= k1 < k2 < levels.len() && #[trigger] levels[k1].contains(x) ==> !(#[trigger] levels[k2]).contains(x),
    decreases pending_count(names, done),
{
    if pending_count(names, done) > 0 {
        lemma_topo_step(names, graph, done, levels);
        let lvl = levels[0];
        let rest = levels.drop_first();
        lemma_topo_fresh(names, graph, done + lvl, rest);
        assert forall|k: int| 0 <= k < levels.len() implies (#[trigger] levels[k]).len() > 0 by {
            if k > 0 {
                assert(levels[k] == rest[k - 1]);
            }
        }
        assert forall|k: int, x: Seq<char>|
            0 <= k < levels.len() && #[trigger] levels[k].contains(x) implies !done.contains(x)
            && names.contains(x) by {
            if k == 0 {
                lemma_ready_names_members(names, names, graph, done, x);
            } else {
                assert(levels[k] == rest[k - 1]);
                lemma_contains_concat(done, lvl, x);
            }
        }
        assert forall|k1: int, k2: int, x: Seq<char>|
            0 <= k1 < k2 < levels.len() && #[trigger] levels[k1].contains(x) implies !(
            #[trigger] levels[k2]).contains(x) by {
            assert(levels[k2] == rest[k2 - 1]);
            lemma_contains_concat(done, lvl, x);
            if k1 > 0 {
                assert(levels[k1] == rest[k1 - 1]);
            }
        }
    }
}

/// Each dependency of a job in a level sits in an earlier level.
pub open spec fn levels_follow(names: Seq<Seq<char>>, graph: Seq<Seq<Seq<char>>>, levels: Seq<Seq<Seq<char>>>) -> bool {
    forall|k: int, x: Seq<char>, d: Seq<char>|
        0 <= k < levels.len() && #[trigger] levels[k].contains(x) && #[trigger] deps_for(names, graph, x).contains(d)
            ==> exists|k2: int| 0 <= k2 < k && #[trigger] levels[k2].contains(d)
}

/// A job is placed only after everything it depends on: each dependency of
/// a job in a level sits in an earlier level.
pub proof fn lemma_levels_follow_dependencies(names: Seq<Seq<char>>, graph: Seq<Seq<Seq<char>>>)
    requires
        job_levels(names, graph) is Some,
    ensures
        levels_follow(names, graph, job_levels(names, graph).unwrap()),
{
    let levels = job_levels(names, graph).unwrap();
    lemma_topo_deps(names, graph, Seq::empty(), levels);
    assert forall|k: int, x: Seq<char>, d: Seq<char>|
        0 <= k < levels.len() && #[trigger] levels[k].contains(x) && #[trigger] deps_for(names, graph, x).contains(d)
            implies exists|k2: int| 0 <= k2 < k && #[trigger] levels[k2].contains(d) by {
        assert(!Seq::<Seq<char>>::empty().contains(d));
    }
}

/// Every job's name sits in some level.
pub open spec fn levels_cover(names: Seq<Seq<char>>, levels: Seq<Seq<Seq<char>>>) -> bool {
    forall|x: Seq<char>|
        #[trigger] names.contains(x) ==> exists|k: int| 0 <= k < levels.len() && #[trigger] levels[k].contains(x)
}

/// Every job is placed in some level.
pub proof fn lemma_levels_place_every_job(names: Seq<Seq<char>>, graph: Seq<Seq<Seq<char>>>)
    requires
        job_levels(names, graph) is Some,
    ensures
        levels_cover(names, job_levels(names, graph).unwrap()),
{
    let levels = job_levels(names, graph).unwrap();
    lemma_topo_covers(names, graph, Seq::empty(), levels);
    assert forall|x: Seq<char>| #[trigger] names.contains(x) implies exists|k: int|
        0 <= k < levels.len() && #[trigger] levels[k].contains(x) by {
        let i = choose|i: int| 0 <= i < names.len() && names[i] == x;
        assert(!Seq::<Seq<char>>::empty().contains(names[i]));
    }
}

/// Levels are never empty, hold only names of jobs, and no name sits in two
/// levels.
pub proof fn lemma_levels_place_jobs_once(names: Seq<Seq<char>>, graph: Seq<Seq<Seq<char>>>)
    requires
        job_levels(names, graph) is Some,
    ensures
        forall|k: int|
            0 <= k < job_levels(names, graph).unwrap().len() ==> (#[trigger] job_levels(
                names,
                graph,
            ).unwrap()[k]).len() > 0,
        forall|k: int, x: Seq<char>|
            0 <= k < job_levels(names, graph).unwrap().len() && #[trigger] job_levels(
                names,
                graph,
            ).unwrap()[k].contains(x) ==> names.contains(x),
        forall|k1: int, k2: int, x: Seq<char>|
            0 <= k1 < k2 < job_levels(names, graph).unwrap().len() && #[trigger] job_levels(
                names,
                graph,
            ).unwrap()[k1].contains(x) ==> !(#[trigger] job_levels(names, graph).unwrap()[k2]).contains(x),
{
    lemma_topo_fresh(names, graph, Seq::empty(), job_levels(names, graph).unwrap());
}

/// Whether the dependencies of the jobs are jobs and follow a ranking: each
/// dependency of a job ranks below the job. A dependency graph without
/// cycles, whose dependencies all name jobs, has such a ranking.
pub open spec fn ranked(names: Seq<Seq<char>>, graph: Seq<Seq<Seq<char>>>, rank: spec_fn(Seq<char>) -> nat) -> bool {
    forall|x: Seq<char>, d: Seq<char>|
        #[trigger] names.contains(x) && #[trigger] deps_for(names, graph, x).contains(d) ==> names.contains(d)
            && rank(d) < rank(x)
}

/// Below every job that is not placed yet sits a job that is ready.
proof fn lemma_some_ready(
    names: Seq<Seq<char>>,
    graph: Seq<Seq<Seq<char>>>,
    done: Seq<Seq<char>>,
    rank: spec_fn(Seq<char>) -> nat,
    x: Seq<char>,
)
    requires
        ranked(names, graph, rank),
        names.contains(x),
        !done.contains(x),
    ensures
        exists|y: Seq<char>| names.contains(y) && is_ready(names, graph, done, y),
    decreases rank(x),
{
    if is_ready(names, graph, done, x) {
        assert(names.contains(x) && is_ready(names, graph, done, x));
    } else {
        let k = choose|k: int|
            0 <= k < deps_for(names, graph, x).len() && !done.contains(
                #[trigger] deps_for(names, graph, x)[k],
            );
        let d = deps_for(names, graph, x)[k];
        assert(deps_for(names, graph, x).contains(d));
        lemma_some_ready(names, graph, done, rank, d);
    }
}

/// While jobs are left, some job is not placed yet.
proof fn lemma_pending_has_unplaced(names: Seq<Seq<char>>, done: Seq<Seq<char>>)
    requires
        pending_count(names, done) > 0,
    ensures
        exists|x: Seq<char>| names.contains(x) && !done.contains(x),
    decreases names.len(),
{
    if done.contains(names.last()) {
        lemma_pending_has_unplaced(names.drop_last(), done);
        let x = choose|x: Seq<char>| names.drop_last().contains(x) && !done.contains(x);
        let i = choose|i: int| 0 <= i < names.drop_last().len() && names.drop_last()[i] == x;
        assert(names[i] == x);
    } else {
        assert(names[names.len() - 1] == names.last());
    }
}

proof fn lemma_ranked_levels_from(
    names: Seq<Seq<char>>,
    graph: Seq<Seq<Seq<char>>>,
    done: Seq<Seq<char>>,
    rank: spec_fn(Seq<char>) -> nat,
)
    requires
        ranked(names, graph, rank),
    ensures
        topo_levels(names, graph, done) is Some,
    decreases pending_count(names, done),
{
    if pending_count(names, done) > 0 {
        lemma_pending_has_unplaced(names, done);
        let x = choose|x: Seq<char>| names.contains(x) && !done.contains(x);
        lemma_some_ready(names, graph, done, rank, x);
        let y = choose|y: Seq<char>| names.contains(y) && is_ready(names, graph, done, y);
        lemma_ready_names_complete(names, names, graph, done, y);
        let lvl = ready_level(names, graph, done);
        assert(lvl.len() > 0);
        lemma_pending_drops(names, names, graph, done, lvl);
        lemma_ranked_levels_from(names, graph, done + lvl, rank);
    }
}

/// A dependency graph without cycles sorts into levels: where every
/// dependency names a job and the dependencies follow a ranking, the levels
/// exist (and place every job once, after its dependencies).
pub proof fn lemma_ranked_graph_has_levels(
    names: Seq<Seq<char>>,
    graph: Seq<Seq<Seq<char>>>,
    rank: spec_fn(Seq<char>) -> nat,
)
    requires
        ranked(names, graph, rank),
    ensures
        job_levels(names, graph) is Some,
{
    lemma_ranked_levels_from(names, graph, Seq::empty(), rank);
}

} // verus!
