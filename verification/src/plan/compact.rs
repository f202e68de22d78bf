//! Compact lists of job names for display: names that share a prefix and end
//! in a number are grouped, and three or more consecutive numbers are written
//! as one range, `prefix{first-last}`; for instance `job_001`, `job_002`,
//! `job_003` become `job_{001-003}`.

use vstd::prelude::*;
use crate::plan::names::strings_view;
use crate::plan::pattern::{Pattern, captures, compile, regex_captures, regex_compiles};
use crate::chars::chars_eq_str;
use crate::text::{append_str, chars_of, parse_unsigned, parse_unsigned_chars, string_from};

verus! {

/// The pattern that splits a job name into a prefix and a numeric suffix.
pub open spec fn suffix_pattern() -> Seq<char> {
    "^(.+?)(\\d+)$"@
}

/// The largest number a suffix may hold: the largest `usize`.
pub open spec fn max_suffix() -> nat {
    usize::MAX as nat
}

/// Whether the pattern's match of a name, where there is one, holds a
/// prefix and a suffix that reads as a `usize`.
pub open spec fn suffix_fits(job: Seq<char>) -> bool {
    match regex_captures(suffix_pattern(), job) {
        Some(c) => c.len() >= 3 && c[1] is Some && c[2] is Some && parse_unsigned(
            c[2]->0,
            max_suffix(),
        ) is Some,
        None => true,
    }
}

/// The prefix and the digits of the numeric suffix of a name, where the
/// pattern matches it and the suffix reads as a `usize`; such names are
/// grouped, the others are listed as they are.
pub open spec fn split_name(job: Seq<char>) -> Option<(Seq<char>, Seq<char>)> {
    match regex_captures(suffix_pattern(), job) {
        Some(c) => if c.len() >= 3 && c[1] is Some && c[2] is Some && parse_unsigned(
            c[2]->0,
            max_suffix(),
        ) is Some {
            Some((c[1]->0, c[2]->0))
        } else {
            None
        },
        None => None,
    }
}

/// The number the digits of a suffix stand for.
pub open spec fn suffix_value(digits: Seq<char>) -> nat {
    match parse_unsigned(digits, max_suffix()) {
        Some(n) => n,
        None => 0,
    }
}

/// A group: a prefix and its members, each a number and its digits.
pub type Group = (Seq<char>, Seq<(nat, Seq<char>)>);

/// Whether no two groups share a prefix.
pub open spec fn distinct_prefixes(gs: Seq<Group>) -> bool {
    forall|i: int, j: int| 0 <= i < j < gs.len() ==> gs[i].0 != gs[j].0
}

/// Adds a member to the group of its prefix, or opens a new group for it at
/// the end.
pub open spec fn add_member(gs: Seq<Group>, p: Seq<char>, item: (nat, Seq<char>)) -> Seq<Group> {
    if exists|i: int| 0 <= i < gs.len() && gs[i].0 == p {
        let i = choose|i: int| 0 <= i < gs.len() && gs[i].0 == p;
        gs.update(i, (p, gs[i].1.push(item)))
    } else {
        gs.push((p, seq![item]))
    }
}

/// The groups of a list of names, in the order in which their prefixes first
/// occur; each group's members in the order of the names.
pub open spec fn groups_of(jobs: Seq<Seq<char>>) -> Seq<Group>
    decreases jobs.len(),
{
    if jobs.len() == 0 {
        seq![]
    } else {
        let g = groups_of(jobs.drop_last());
        match split_name(jobs.last()) {
            Some((p, d)) => add_member(g, p, (suffix_value(d), d)),
            None => g,
        }
    }
}

/// The names that the pattern does not match, in order.
pub open spec fn loose_names(jobs: Seq<Seq<char>>) -> Seq<Seq<char>>
    decreases jobs.len(),
{
    if jobs.len() == 0 {
        seq![]
    } else {
        loose_names(jobs.drop_last()) + if split_name(jobs.last()) is None {
            seq![jobs.last()]
        } else {
            seq![]
        }
    }
}

/// Inserts a member after all members whose number is not larger.
pub open spec fn insert_sorted(s: Seq<(nat, Seq<char>)>, x: (nat, Seq<char>)) -> Seq<(nat, Seq<char>)>
    decreases s.len(),
{
    if s.len() == 0 {
        seq![x]
    } else if x.0 < s[0].0 {
        seq![x] + s
    } else {
        seq![s[0]] + insert_sorted(s.drop_first(), x)
    }
}

/// The members sorted by number; members of equal number keep their order.
pub open spec fn sort_members(s: Seq<(nat, Seq<char>)>) -> Seq<(nat, Seq<char>)>
    decreases s.len(),
{
    if s.len() == 0 {
        s
    } else {
        insert_sorted(sort_members(s.drop_last()), s.last())
    }
}

/// The maximal runs of members whose numbers follow one another by one.
pub open spec fn runs_of(s: Seq<(nat, Seq<char>)>) -> Seq<Seq<(nat, Seq<char>)>>
    decreases s.len(),
{
    if s.len() == 0 {
        seq![]
    } else {
        let r = runs_of(s.drop_last());
        let x = s.last();
        if r.len() > 0 && r.last().len() > 0 && x.0 == r.last().last().0 + 1 {
            r.drop_last().push(r.last().push(x))
        } else {
            r.push(seq![x])
        }
    }
}

/// Each member written out as its prefix and digits.
pub open spec fn spelled(p: Seq<char>, s: Seq<(nat, Seq<char>)>) -> Seq<Seq<char>> {
    Seq::new(s.len(), |i: int| p + s[i].1)
}

/// A run written as one range `prefix{first-last}` when it has three or more
/// members, else member by member.
pub open spec fn run_items(p: Seq<char>, run: Seq<(nat, Seq<char>)>) -> Seq<Seq<char>> {
    if run.len() >= 3 {
        seq![p + "{"@ + run[0].1 + "-"@ + run.last().1 + "}"@]
    } else {
        spelled(p, run)
    }
}

/// The items of a group's runs, in order.
pub open spec fn runs_items(p: Seq<char>, rs: Seq<Seq<(nat, Seq<char>)>>) -> Seq<Seq<char>>
    decreases rs.len(),
{
    if rs.len() == 0 {
        seq![]
    } else {
        runs_items(p, rs.drop_last()) + run_items(p, rs.last())
    }
}

/// The items of a group: its members in order of their numbers, run by
/// run.
pub open spec fn group_items(g: Group) -> Seq<Seq<char>> {
    runs_items(g.0, runs_of(sort_members(g.1)))
}

/// The items of all groups, group by group.
pub open spec fn all_group_items(gs: Seq<Group>) -> Seq<Seq<char>>
    decreases gs.len(),
{
    if gs.len() == 0 {
        seq![]
    } else {
        all_group_items(gs.drop_last()) + group_items(gs.last())
    }
}

/// The compact form of a list of job names: the items of the groups, then
/// the names without a numeric suffix, in order.
pub open spec fn compacted(jobs: Seq<Seq<char>>) -> Seq<Seq<char>> {
    all_group_items(groups_of(jobs)) + loose_names(jobs)
}

/// Whether the members are in order of their numbers.
pub open spec fn sorted_by_number(s: Seq<(nat, Seq<char>)>) -> bool {
    forall|i: int, j: int| 0 <= i < j < s.len() ==> #[trigger] s[i].0 <= #[trigger] s[j].0
}

proof fn lemma_insert_sorted(s: Seq<(nat, Seq<char>)>, x: (nat, Seq<char>))
    requires
        sorted_by_number(s),
    ensures
        sorted_by_number(insert_sorted(s, x)),
        insert_sorted(s, x).to_multiset() =~= s.to_multiset().insert(x),
        forall|i: int| 0 <= i < insert_sorted(s, x).len() ==> #[trigger] insert_sorted(s, x)[i] == x
            || s.contains(insert_sorted(s, x)[i]),
        insert_sorted(s, x).len() == s.len() + 1,
    decreases s.len(),
{
    broadcast use vstd::seq_lib::group_to_multiset_ensures;
    broadcast use vstd::seq_lib::lemma_multiset_commutative;
    if s.len() == 0 {
        assert(seq![x] =~= Seq::<(nat, Seq<char>)>::empty().push(x));
    } else if x.0 < s[0].0 {
        let r = seq![x] + s;
        assert(seq![x] =~= Seq::<(nat, Seq<char>)>::empty().push(x));
        assert forall|i: int, j: int| 0 <= i < j < r.len() implies #[trigger] r[i].0 <= #[trigger] r[j].0 by {
            if i > 0 {
                assert(r[i] == s[i - 1] && r[j] == s[j - 1]);
            } else {
                assert(r[j] == s[j - 1]);
                if j > 1 {
                    assert(s[0].0 <= s[j - 1].0);
                }
            }
        }
        assert forall|i: int| 0 <= i < r.len() implies #[trigger] r[i] == x || s.contains(r[i]) by {
            if i > 0 {
                assert(r[i] == s[i - 1]);
            }
        }
    } else {
        let rest = s.drop_first();
        assert forall|i: int, j: int| 0 <= i < j < rest.len() implies #[trigger] rest[i].0 <= #[trigger] rest[j].0 by {
            assert(rest[i] == s[i + 1] && rest[j] == s[j + 1]);
        }
        lemma_insert_sorted(rest, x);
        let t = insert_sorted(rest, x);
        let r = seq![s[0]] + t;
        assert(seq![s[0]] =~= Seq::<(nat, Seq<char>)>::empty().push(s[0]));
        assert(s =~= seq![s[0]] + rest);
        assert forall|i: int| 0 <= i < t.len() implies s[0].0 <= #[trigger] t[i].0 by {
            if t[i] != x {
                assert(rest.contains(t[i]));
                let j = choose|j: int| 0 <= j < rest.len() && rest[j] == t[i];
                assert(rest[j] == s[j + 1]);
                assert(s[0].0 <= s[j + 1].0);
            }
        }
        assert forall|i: int, j: int| 0 <= i < j < r.len() implies #[trigger] r[i].0 <= #[trigger] r[j].0 by {
            assert(r[j] == t[j - 1]);
            if i > 0 {
                assert(r[i] == t[i - 1]);
            }
        }
        assert forall|i: int| 0 <= i < r.len() implies #[trigger] r[i] == x || s.contains(r[i]) by {
            if i > 0 {
                assert(r[i] == t[i - 1]);
                if t[i - 1] != x {
                    let j = choose|j: int| 0 <= j < rest.len() && rest[j] == t[i - 1];
                    assert(s[j + 1] == rest[j]);
                }
            } else {
                assert(s[0] == r[0]);
            }
        }
        assert(r.to_multiset() =~= seq![s[0]].to_multiset().add(t.to_multiset()));
        assert(s.to_multiset() =~= seq![s[0]].to_multiset().add(rest.to_multiset()));
    }
}

/// Sorting the members of a group puts them in order of their numbers and
/// keeps every member, as often as it occurs.
pub proof fn lemma_members_sorted(s: Seq<(nat, Seq<char>)>)
    ensures
        sorted_by_number(sort_members(s)),
        sort_members(s).to_multiset() =~= s.to_multiset(),
    decreases s.len(),
{
    broadcast use vstd::seq_lib::group_to_multiset_ensures;
    if s.len() > 0 {
        lemma_members_sorted(s.drop_last());
        lemma_insert_sorted(sort_members(s.drop_last()), s.last());
        assert(s.drop_last().push(s.last()) =~= s);
    }
}

/// The members of a list of runs, run after run.
pub open spec fn flat(rs: Seq<Seq<(nat, Seq<char>)>>) -> Seq<(nat, Seq<char>)>
    decreases rs.len(),
{
    if rs.len() == 0 {
        seq![]
    } else {
        flat(rs.drop_last()) + rs.last()
    }
}

/// Whether every run is non-empty, the numbers within a run follow one
/// another by one, and each run starts with a number that does not follow
/// the last number of the run before it.
pub open spec fn maximal_runs(rs: Seq<Seq<(nat, Seq<char>)>>) -> bool {
    &&& forall|k: int| 0 <= k < rs.len() ==> #[trigger] rs[k].len() > 0
    &&& forall|k: int, j: int| 0 <= k < rs.len() && 0 < j < rs[k].len() ==> #[trigger] rs[k][j].0 == rs[k][j - 1].0 + 1
    &&& forall|k: int| 0 < k < rs.len() ==> #[trigger] rs[k][0].0 != rs[k - 1].last().0 + 1
}

/// The runs of a list of members are its maximal stretches of numbers that
/// follow one another by one: read run after run they give back the list.
pub proof fn lemma_runs_are_maximal(s: Seq<(nat, Seq<char>)>)
    ensures
        flat(runs_of(s)) == s,
        maximal_runs(runs_of(s)),
    decreases s.len(),
{
    if s.len() > 0 {
        let init = s.drop_last();
        let x = s.last();
        lemma_runs_are_maximal(init);
        let r = runs_of(init);
        assert(init.push(x) =~= s);
        if r.len() > 0 && r.last().len() > 0 && x.0 == r.last().last().0 + 1 {
            let q = r.drop_last().push(r.last().push(x));
            assert(q.drop_last() =~= r.drop_last());
            assert(flat(r) == flat(r.drop_last()) + r.last());
            assert(flat(q) =~= flat(r).push(x));
            assert forall|k: int| 0 <= k < q.len() implies #[trigger] q[k].len() > 0 by {
                if k < q.len() - 1 {
                    assert(q[k] == r[k]);
                }
            }
            assert forall|k: int, j: int| 0 <= k < q.len() && 0 < j < q[k].len() implies #[trigger] q[k][j].0
                == q[k][j - 1].0 + 1 by {
                if k < q.len() - 1 {
                    assert(q[k] == r[k]);
                } else {
                    assert(q[k] == r[k].push(x));
                    if j < r[k].len() {
                        assert(r[k][j].0 == r[k][j - 1].0 + 1);
                    }
                }
            }
            assert forall|k: int| 0 < k < q.len() implies #[trigger] q[k][0].0 != q[k - 1].last().0 + 1 by {
                assert(q[k - 1] == r[k - 1]);
                assert(r[k][0].0 != r[k - 1].last().0 + 1);
                if k == q.len() - 1 {
                    assert(q[k] == r[k].push(x));
                    assert(q[k][0] == r[k][0]);
                } else {
                    assert(q[k] == r[k]);
                }
            }
        } else {
            let q = r.push(seq![x]);
            assert(q.drop_last() =~= r);
            assert(flat(q) =~= flat(r).push(x));
            assert forall|k: int| 0 <= k < q.len() implies #[trigger] q[k].len() > 0 by {
                if k < r.len() {
                    assert(q[k] == r[k]);
                }
            }
            assert forall|k: int, j: int| 0 <= k < q.len() && 0 < j < q[k].len() implies #[trigger] q[k][j].0
                == q[k][j - 1].0 + 1 by {
                if k < r.len() {
                    assert(q[k] == r[k]);
                }
            }
            assert forall|k: int| 0 < k < q.len() implies #[trigger] q[k][0].0 != q[k - 1].last().0 + 1 by {
                assert(q[k - 1] == r[k - 1]);
                if k < r.len() {
                    assert(q[k] == r[k]);
                    assert(r[k][0].0 != r[k - 1].last().0 + 1);
                } else {
                    assert(r.last().len() > 0);
                    assert(q[k][0] == x);
                }
            }
        }
    }
}

/// The range a run of three or more members is written as.
pub open spec fn range_item(p: Seq<char>, run: Seq<(nat, Seq<char>)>) -> Seq<char> {
    p + "{"@ + run[0].1 + "-"@ + run.last().1 + "}"@
}

/// The items of two lists of runs are those of the first list, then those
/// of the second.
pub proof fn lemma_runs_items_concatenate(p: Seq<char>, a: Seq<Seq<(nat, Seq<char>)>>, b: Seq<Seq<(nat, Seq<char>)>>)
    ensures
        runs_items(p, a + b) == runs_items(p, a) + runs_items(p, b),
    decreases b.len(),
{
    if b.len() == 0 {
        assert(a + b =~= a);
        assert(runs_items(p, a) + runs_items(p, b) =~= runs_items(p, a));
    } else {
        lemma_runs_items_concatenate(p, a, b.drop_last());
        assert((a + b).drop_last() =~= a + b.drop_last());
        assert((a + b).last() == b.last());
        assert(runs_items(p, a) + runs_items(p, b.drop_last()) + run_items(p, b.last()) =~= runs_items(p, a)
            + (runs_items(p, b.drop_last()) + run_items(p, b.last())));
    }
}

/// Every run of a group is written in its place, whatever its position
/// among the group's runs: the items of the runs before it, then its own
/// items, then those of the runs after it.
pub proof fn lemma_run_in_place(p: Seq<char>, rs: Seq<Seq<(nat, Seq<char>)>>, k: int)
    requires
        0 <= k < rs.len(),
    ensures
        runs_items(p, rs) == runs_items(p, rs.take(k)) + run_items(p, rs[k]) + runs_items(p, rs.skip(k + 1)),
{
    let one = seq![rs[k]];
    assert(one.drop_last() =~= Seq::<Seq<(nat, Seq<char>)>>::empty());
    assert(one.last() == rs[k]);
    assert(runs_items(p, one.drop_last()) == Seq::<Seq<char>>::empty());
    assert(runs_items(p, one) =~= run_items(p, rs[k]));
    assert(rs =~= rs.take(k) + one + rs.skip(k + 1));
    lemma_runs_items_concatenate(p, rs.take(k) + one, rs.skip(k + 1));
    lemma_runs_items_concatenate(p, rs.take(k), one);
}

/// Every group is written in its place among the items of all groups.
proof fn lemma_group_in_place(gs: Seq<Group>, g: int)
    requires
        0 <= g < gs.len(),
    ensures
        exists|before: Seq<Seq<char>>, after: Seq<Seq<char>>|
            #[trigger] all_group_items(gs) == before + group_items(gs[g]) + after,
    decreases gs.len(),
{
    if g == gs.len() - 1 {
        assert(gs.last() == gs[g]);
        assert(all_group_items(gs) =~= all_group_items(gs.drop_last()) + group_items(gs[g]) + Seq::<
            Seq<char>,
        >::empty());
    } else {
        lemma_group_in_place(gs.drop_last(), g);
        assert(gs.drop_last()[g] == gs[g]);
        let (before, after) = choose|before: Seq<Seq<char>>, after: Seq<Seq<char>>|
            #[trigger] all_group_items(gs.drop_last()) == before + group_items(gs[g]) + after;
        assert(all_group_items(gs) =~= before + group_items(gs[g]) + (after + group_items(gs.last())));
    }
}

/// In the compact form of a list of names, every maximal run of three or
/// more consecutive numbers of every prefix is one range
/// `prefix{first-last}`, and every member of a shorter run is written out
/// as its prefix and digits, whatever the run's place among its group's
/// runs and the group's place among the groups.
pub proof fn lemma_every_run_is_written(jobs: Seq<Seq<char>>, g: int, k: int)
    requires
        0 <= g < groups_of(jobs).len(),
        0 <= k < runs_of(sort_members(groups_of(jobs)[g].1)).len(),
    ensures
        ({
            let grp = groups_of(jobs)[g];
            let run = runs_of(sort_members(grp.1))[k];
            &&& run.len() >= 3 ==> compacted(jobs).contains(range_item(grp.0, run))
            &&& run.len() < 3 ==> forall|m: int| 0 <= m < run.len() ==> compacted(jobs).contains(
                #[trigger] (grp.0 + run[m].1),
            )
        }),
{
    let gs = groups_of(jobs);
    let grp = gs[g];
    let rs = runs_of(sort_members(grp.1));
    let run = rs[k];
    lemma_run_in_place(grp.0, rs, k);
    lemma_group_in_place(gs, g);
    let (before, after) = choose|before: Seq<Seq<char>>, after: Seq<Seq<char>>|
        #[trigger] all_group_items(gs) == before + group_items(gs[g]) + after;
    let out = compacted(jobs);
    let lo = runs_items(grp.0, rs.take(k));
    let items = run_items(grp.0, run);
    assert(out =~= before + lo + items + (runs_items(grp.0, rs.skip(k + 1)) + after + loose_names(jobs)));
    let off: int = before.len() as int + lo.len() as int;
    if run.len() >= 3 {
        assert(items[0] == range_item(grp.0, run));
        assert(out[off] == items[0]);
    } else {
        assert forall|m: int| 0 <= m < run.len() implies compacted(jobs).contains(#[trigger] (grp.0 + run[m].1)) by {
            assert(items[m] == grp.0 + run[m].1);
            assert(out[off + m] == items[m]);
        }
    }
}

// ---------------------------------------------------------------------------
// Grouping
// ---------------------------------------------------------------------------

/// The members of a group, as plain values.
pub open spec fn members_view(v: Seq<(u64, String)>) -> Seq<(nat, Seq<char>)> {
    Seq::new(v.len(), |i: int| (v[i].0 as nat, v[i].1@))
}

/// The groups, as plain values.
pub open spec fn groups_view(v: Seq<(String, Vec<(u64, String)>)>) -> Seq<Group> {
    Seq::new(v.len(), |i: int| (v[i].0@, members_view(v[i].1@)))
}

proof fn lemma_add_to_group(gs: Seq<Group>, p: Seq<char>, item: (nat, Seq<char>), k: int)
    requires
        distinct_prefixes(gs),
        0 <= k < gs.len(),
        gs[k].0 == p,
    ensures
        add_member(gs, p, item) == gs.update(k, (p, gs[k].1.push(item))),
        distinct_prefixes(add_member(gs, p, item)),
{
    let i = choose|i: int| 0 <= i < gs.len() && gs[i].0 == p;
    assert(i == k);
}

proof fn lemma_open_group(gs: Seq<Group>, p: Seq<char>, item: (nat, Seq<char>))
    requires
        distinct_prefixes(gs),
        forall|i: int| 0 <= i < gs.len() ==> gs[i].0 != p,
    ensures
        add_member(gs, p, item) == gs.push((p, seq![item])),
        distinct_prefixes(add_member(gs, p, item)),
{
}

fn find_group(groups: &Vec<(String, Vec<(u64, String)>)>, p: &str) -> (r: Option<usize>)
    ensures
        match r {
            Some(k) => k < groups@.len() && groups_view(groups@)[k as int].0 == p@,
            None => forall|i: int| 0 <= i < groups@.len() ==> groups_view(groups@)[i].0 != p@,
        },
{
    let mut k: usize = 0;
    while k < groups.len()
        invariant
            k <= groups@.len(),
            forall|i: int| 0 <= i < k ==> groups_view(groups@)[i].0 != p@,
        decreases groups@.len() - k,
    {
        let g = chars_of(groups[k].0.as_str());
        if chars_eq_str(g.as_slice(), p) {
            return Some(k);
        }
        k = k + 1;
    }
    None
}

/// The prefix, the digits and the number of a name's numeric suffix, where
/// the name is grouped.
fn split_of(re: &Pattern, job: &str) -> (r: Option<(String, String, u64)>)
    requires
        re.source() == suffix_pattern(),
    ensures
        match r {
            Some((p, d, n)) => split_name(job@) == Some((p@, d@)) && n as nat == suffix_value(d@),
            None => split_name(job@) is None,
        },
{
    match captures(re, job) {
        None => None,
        Some(c) => {
            if c.len() < 3 {
                return None;
            }
            match (&c[1], &c[2]) {
                (Some(p), Some(d)) => {
                    let dv = chars_of(d.as_str());
                    match parse_unsigned_chars(dv.as_slice(), usize::MAX as u64) {
                        Some(n) => Some((string_from(p.as_str()), string_from(d.as_str()), n)),
                        None => None,
                    }
                },
                _ => None,
            }
        },
    }
}

/// Sorts the names into groups by prefix, and the names without a numeric
/// suffix.
fn group_names(re: &Pattern, jobs: &Vec<String>) -> (r: (Vec<(String, Vec<(u64, String)>)>, Vec<String>))
    requires
        re.source() == suffix_pattern(),
    ensures
        groups_view(r.0@) == groups_of(strings_view(jobs@)),
        distinct_prefixes(groups_view(r.0@)),
        strings_view(r.1@) == loose_names(strings_view(jobs@)),
        forall|g: int, m: int| 0 <= g < r.0@.len() && 0 <= m < r.0@[g].1@.len()
            ==> #[trigger] r.0@[g].1@[m].0 <= max_suffix(),
{
    let ghost jv = strings_view(jobs@);
    let mut groups: Vec<(String, Vec<(u64, String)>)> = Vec::new();
    let mut loose: Vec<String> = Vec::new();
    let mut i: usize = 0;
    while i < jobs.len()
        invariant
            i <= jobs@.len(),
            jv == strings_view(jobs@),
            re.source() == suffix_pattern(),
            groups_view(groups@) == groups_of(jv.take(i as int)),
            distinct_prefixes(groups_view(groups@)),
            strings_view(loose@) == loose_names(jv.take(i as int)),
            forall|g: int, m: int| 0 <= g < groups@.len() && 0 <= m < groups@[g].1@.len()
                ==> #[trigger] groups@[g].1@[m].0 <= max_suffix(),
        decreases jobs@.len() - i,
    {
        let ghost before = jv.take(i as int);
        assert(jv.take(i + 1).drop_last() =~= before);
        assert(jv.take(i + 1).last() == jv[i as int]);
        let job = &jobs[i];
        match split_of(re, job.as_str()) {
            None => {
                let ghost old_loose = loose@;
                loose.push(string_from(job.as_str()));
                assert(strings_view(loose@) =~= strings_view(old_loose).push(job@));
            },
            Some((prefix, digits, n)) => {
                assert(n <= usize::MAX) by {
                    let c = regex_captures(suffix_pattern(), job@)->0;
                    assert(parse_unsigned(c[2]->0, max_suffix()) is Some);
                }
                let ghost gv = groups_view(groups@);
                match find_group(&groups, prefix.as_str()) {
                    Some(k) => {
                        proof {
                            lemma_add_to_group(gv, prefix@, (n as nat, digits@), k as int);
                        }
                        let ghost old_groups = groups@;
                        let (gp, mut ms) = groups.remove(k);
                        let ghost old_ms = ms@;
                        ms.push((n, digits));
                        assert(members_view(ms@) =~= members_view(old_ms).push((n as nat, digits@)));
                        groups.insert(k, (gp, ms));
                        assert(groups@ =~= old_groups.update(k as int, (gp, ms)));
                        assert(groups_view(groups@) =~= gv.update(
                            k as int,
                            (prefix@, gv[k as int].1.push((n as nat, digits@))),
                        ));
                    },
                    None => {
                        proof {
                            lemma_open_group(gv, prefix@, (n as nat, digits@));
                        }
                        let ghost old_groups = groups@;
                        let mut ms: Vec<(u64, String)> = Vec::new();
                        ms.push((n, digits));
                        assert(members_view(ms@) =~= seq![(n as nat, digits@)]);
                        groups.push((prefix, ms));
                        assert(groups_view(groups@) =~= gv.push((prefix@, seq![(n as nat, digits@)])));
                    },
                }
            },
        }
        i = i + 1;
    }
    assert(jv.take(jobs@.len() as int) =~= jv);
    (groups, loose)
}

// ---------------------------------------------------------------------------
// Sorting and runs
// ---------------------------------------------------------------------------

proof fn lemma_insert_at(s: Seq<(nat, Seq<char>)>, x: (nat, Seq<char>), j: int)
    requires
        0 <= j <= s.len(),
        forall|t: int| 0 <= t < j ==> s[t].0 <= x.0,
        j < s.len() ==> x.0 < s[j].0,
    ensures
        insert_sorted(s, x) == s.insert(j, x),
    decreases s.len(),
{
    if s.len() == 0 {
        assert(s.insert(0, x) =~= seq![x]);
    } else if j == 0 {
        assert(s.insert(0, x) =~= seq![x] + s);
    } else {
        lemma_insert_at(s.drop_first(), x, j - 1);
        assert(s.insert(j, x) =~= seq![s[0]] + s.drop_first().insert(j - 1, x));
    }
}

fn insert_member(s: &mut Vec<(u64, String)>, x: (u64, String))
    requires
        forall|t: int| 0 <= t < old(s)@.len() ==> #[trigger] old(s)@[t].0 <= max_suffix(),
        x.0 <= max_suffix(),
    ensures
        members_view(final(s)@) == insert_sorted(members_view(old(s)@), (x.0 as nat, x.1@)),
        forall|t: int| 0 <= t < final(s)@.len() ==> #[trigger] final(s)@[t].0 <= max_suffix(),
{
    let ghost mv = members_view(s@);
    let ghost xv = (x.0 as nat, x.1@);
    let mut j: usize = 0;
    while j < s.len() && s[j].0 <= x.0
        invariant
            j <= s@.len(),
            mv == members_view(s@),
            forall|t: int| 0 <= t < j ==> #[trigger] s@[t].0 <= x.0,
        decreases s@.len() - j,
    {
        j = j + 1;
    }
    assert forall|t: int| 0 <= t < j implies mv[t].0 <= xv.0 by {
        assert(s@[t].0 <= x.0);
    }
    assert(j < s@.len() ==> mv[j as int].0 == s@[j as int].0);
    proof {
        lemma_insert_at(mv, xv, j as int);
    }
    let ghost old_s = s@;
    s.insert(j, x);
    assert(members_view(s@) =~= mv.insert(j as int, xv));
    assert forall|t: int| 0 <= t < s@.len() implies #[trigger] s@[t].0 <= max_suffix() by {
        if t < j {
            assert(s@[t] == old_s[t]);
        } else if t > j {
            assert(s@[t] == old_s[t - 1]);
        }
    }
}

fn sort_group(ms: &Vec<(u64, String)>) -> (r: Vec<(u64, String)>)
    requires
        forall|t: int| 0 <= t < ms@.len() ==> #[trigger] ms@[t].0 <= max_suffix(),
    ensures
        members_view(r@) == sort_members(members_view(ms@)),
        forall|t: int| 0 <= t < r@.len() ==> #[trigger] r@[t].0 <= max_suffix(),
{
    let ghost mv = members_view(ms@);
    let mut r: Vec<(u64, String)> = Vec::new();
    let mut i: usize = 0;
    while i < ms.len()
        invariant
            i <= ms@.len(),
            mv == members_view(ms@),
            forall|t: int| 0 <= t < ms@.len() ==> #[trigger] ms@[t].0 <= max_suffix(),
            members_view(r@) == sort_members(mv.take(i as int)),
            forall|t: int| 0 <= t < r@.len() ==> #[trigger] r@[t].0 <= max_suffix(),
        decreases ms@.len() - i,
    {
        assert(mv.take(i + 1).drop_last() =~= mv.take(i as int));
        assert(mv.take(i + 1).last() == mv[i as int]);
        let x = (ms[i].0, string_from(ms[i].1.as_str()));
        insert_member(&mut r, x);
        i = i + 1;
    }
    assert(mv.take(ms@.len() as int) =~= mv);
    r
}

/// The runs, as plain values.
pub open spec fn runs_view(v: Seq<Vec<(u64, String)>>) -> Seq<Seq<(nat, Seq<char>)>> {
    Seq::new(v.len(), |i: int| members_view(v[i]@))
}

fn runs_of_sorted(s: &Vec<(u64, String)>) -> (r: Vec<Vec<(u64, String)>>)
    requires
        forall|t: int| 0 <= t < s@.len() ==> #[trigger] s@[t].0 <= max_suffix(),
    ensures
        runs_view(r@) == runs_of(members_view(s@)),
{
    let ghost mv = members_view(s@);
    let mut r: Vec<Vec<(u64, String)>> = Vec::new();
    let mut i: usize = 0;
    while i < s.len()
        invariant
            i <= s@.len(),
            mv == members_view(s@),
            forall|t: int| 0 <= t < s@.len() ==> #[trigger] s@[t].0 <= max_suffix(),
            runs_view(r@) == runs_of(mv.take(i as int)),
            forall|g: int, m: int| 0 <= g < r@.len() && 0 <= m < r@[g]@.len()
                ==> #[trigger] r@[g]@[m].0 <= max_suffix(),
        decreases s@.len() - i,
    {
        assert(mv.take(i + 1).drop_last() =~= mv.take(i as int));
        assert(mv.take(i + 1).last() == mv[i as int]);
        let ghost rv = runs_view(r@);
        let ghost old_r = r@;
        let x = (s[i].0, string_from(s[i].1.as_str()));
        let ghost xv = (x.0 as nat, x.1@);
        if r.len() > 0 {
            let mut last = r.pop().unwrap();
            assert(members_view(last@) == rv.last());
            let n = last.len();
            if n > 0 && last[n - 1].0 < x.0 && x.0 - last[n - 1].0 == 1 {
                last.push(x);
                assert(members_view(last@) =~= rv.last().push(xv));
                r.push(last);
                assert(runs_view(r@) =~= rv.drop_last().push(rv.last().push(xv)));
            } else {
                r.push(last);
                let mut run: Vec<(u64, String)> = Vec::new();
                run.push(x);
                assert(members_view(run@) =~= seq![xv]);
                r.push(run);
                assert(runs_view(r@) =~= rv.push(seq![xv]));
            }
        } else {
            let mut run: Vec<(u64, String)> = Vec::new();
            run.push(x);
            assert(members_view(run@) =~= seq![xv]);
            r.push(run);
            assert(runs_view(r@) =~= rv.push(seq![xv]));
        }
        assert forall|g: int, m: int| 0 <= g < r@.len() && 0 <= m < r@[g]@.len()
            implies #[trigger] r@[g]@[m].0 <= max_suffix() by {
            if g < old_r.len() - 1 {
                assert(r@[g] == old_r[g]);
            }
        }
        i = i + 1;
    }
    assert(mv.take(s@.len() as int) =~= mv);
    r
}

// ---------------------------------------------------------------------------
// Writing the items
// ---------------------------------------------------------------------------

fn push_item(out: &mut Vec<String>, p: &str, rest: &str)
    ensures
        strings_view(final(out)@) == strings_view(old(out)@).push(p@ + rest@),
{
    let ghost old_out = out@;
    let mut s = string_from(p);
    append_str(&mut s, rest);
    out.push(s);
    assert(strings_view(out@) =~= strings_view(old_out).push(p@ + rest@));
}

fn push_spelled(out: &mut Vec<String>, p: &str, s: &Vec<(u64, String)>)
    ensures
        strings_view(final(out)@) == strings_view(old(out)@) + spelled(p@, members_view(s@)),
{
    let ghost start = strings_view(out@);
    let ghost mv = members_view(s@);
    let mut i: usize = 0;
    while i < s.len()
        invariant
            i <= s@.len(),
            mv == members_view(s@),
            strings_view(out@) == start + spelled(p@, mv.take(i as int)),
        decreases s@.len() - i,
    {
        push_item(out, p, s[i].1.as_str());
        assert(spelled(p@, mv.take(i + 1)) =~= spelled(p@, mv.take(i as int)).push(p@ + mv[i as int].1));
        i = i + 1;
    }
    assert(mv.take(s@.len() as int) =~= mv);
}

fn push_run(out: &mut Vec<String>, p: &str, run: &Vec<(u64, String)>)
    ensures
        strings_view(final(out)@) == strings_view(old(out)@) + run_items(p@, members_view(run@)),
{
    let ghost old_out = strings_view(out@);
    let ghost mv = members_view(run@);
    if run.len() >= 3 {
        let mut s = string_from(p);
        append_str(&mut s, "{");
        append_str(&mut s, run[0].1.as_str());
        append_str(&mut s, "-");
        append_str(&mut s, run[run.len() - 1].1.as_str());
        append_str(&mut s, "}");
        out.push(s);
        assert(strings_view(out@) =~= old_out + run_items(p@, mv));
    } else {
        push_spelled(out, p, run);
    }
}

fn push_group(out: &mut Vec<String>, g: &(String, Vec<(u64, String)>))
    requires
        forall|m: int| 0 <= m < g.1@.len() ==> #[trigger] g.1@[m].0 <= max_suffix(),
    ensures
        strings_view(final(out)@) == strings_view(old(out)@) + group_items((g.0@, members_view(g.1@))),
{
    let ghost start = strings_view(out@);
    let sorted = sort_group(&g.1);
    {
        let runs = runs_of_sorted(&sorted);
        let ghost rv = runs_view(runs@);
        let mut k: usize = 0;
        while k < runs.len()
            invariant
                k <= runs@.len(),
                rv == runs_view(runs@),
                strings_view(out@) == start + runs_items(g.0@, rv.take(k as int)),
            decreases runs@.len() - k,
        {
            assert(rv.take(k + 1).drop_last() =~= rv.take(k as int));
            assert(rv.take(k + 1).last() == members_view(runs@[k as int]@));
            push_run(out, g.0.as_str(), &runs[k]);
            assert(strings_view(out@) =~= start + runs_items(g.0@, rv.take(k + 1)));
            k = k + 1;
        }
        assert(rv.take(runs@.len() as int) =~= rv);
    }
}

/// The compact form of a list of job names, with `re` the compiled suffix
/// pattern.
pub fn compact_with_pattern(re: &Pattern, jobs: &Vec<String>) -> (r: Vec<String>)
    requires
        re.source() == suffix_pattern(),
    ensures
        strings_view(r@) == compacted(strings_view(jobs@)),
{
    let mut out: Vec<String> = Vec::new();
    let (groups, loose) = group_names(re, jobs);
    let ghost gv = groups_view(groups@);
    let mut k: usize = 0;
    while k < groups.len()
        invariant
            k <= groups@.len(),
            gv == groups_view(groups@),
            strings_view(out@) == all_group_items(gv.take(k as int)),
            forall|g: int, m: int| 0 <= g < groups@.len() && 0 <= m < groups@[g].1@.len()
                ==> #[trigger] groups@[g].1@[m].0 <= max_suffix(),
        decreases groups@.len() - k,
    {
        assert(gv.take(k + 1).drop_last() =~= gv.take(k as int));
        assert(gv.take(k + 1).last() == (groups@[k as int].0@, members_view(groups@[k as int].1@)));
        push_group(&mut out, &groups[k]);
        k = k + 1;
    }
    assert(gv.take(groups@.len() as int) =~= gv);
    let ghost items = strings_view(out@);
    let mut i: usize = 0;
    while i < loose.len()
        invariant
            i <= loose@.len(),
            strings_view(out@) == items + strings_view(loose@).take(i as int),
        decreases loose@.len() - i,
    {
        let ghost old_out = out@;
        out.push(string_from(loose[i].as_str()));
        assert(strings_view(out@) =~= strings_view(old_out).push(loose@[i as int]@));
        assert(strings_view(out@) =~= items + strings_view(loose@).take(i + 1));
        i = i + 1;
    }
    assert(strings_view(loose@).take(loose@.len() as int) =~= strings_view(loose@));
    out
}

/// Whether the pattern's match of every name holds a suffix that reads as a
/// `usize`.
pub open spec fn all_suffixes_fit(jobs: Seq<Seq<char>>) -> bool {
    forall|j: int| 0 <= j < jobs.len() ==> suffix_fits(#[trigger] jobs[j])
}

fn fits_check(re: &Pattern, job: &str) -> (b: bool)
    requires
        re.source() == suffix_pattern(),
    ensures
        b == suffix_fits(job@),
{
    match captures(re, job) {
        None => true,
        Some(c) => {
            if c.len() < 3 {
                return false;
            }
            match (&c[1], &c[2]) {
                (Some(_), Some(d)) => {
                    let dv = chars_of(d.as_str());
                    parse_unsigned_chars(dv.as_slice(), usize::MAX as u64).is_some()
                },
                _ => false,
            }
        },
    }
}

/// Compacts a list of job names for display (see `compacted`). `None` where
/// the suffix pattern does not compile, and where a list of more than three
/// names holds a name whose numeric suffix does not read as a `usize` (such
/// a list stops the listing); in a shorter list such a name is listed as it
/// is.
pub fn compact_job_list(jobs: &Vec<String>) -> (r: Option<Vec<String>>)
    ensures
        r is None <==> (!regex_compiles(suffix_pattern()) || (jobs@.len() > 3 && !all_suffixes_fit(
            strings_view(jobs@),
        ))),
        r matches Some(v) ==> strings_view(v@) == compacted(strings_view(jobs@)),
{
    let re = match compile("^(.+?)(\\d+)$") {
        Some(re) => re,
        None => {
            return None;
        },
    };
    if jobs.len() > 3 {
        let mut i: usize = 0;
        while i < jobs.len()
            invariant
                i <= jobs@.len(),
                jobs@.len() > 3,
                re.source() == suffix_pattern(),
                forall|j: int| 0 <= j < i ==> suffix_fits(#[trigger] strings_view(jobs@)[j]),
            decreases jobs@.len() - i,
        {
            assert(strings_view(jobs@)[i as int] == jobs@[i as int]@);
            if !fits_check(&re, jobs[i].as_str()) {
                assert(!suffix_fits(strings_view(jobs@)[i as int]));
                assert(!all_suffixes_fit(strings_view(jobs@)));
                return None;
            }
            i = i + 1;
        }
    }
    assert(jobs@.len() > 3 ==> all_suffixes_fit(strings_view(jobs@)));
    Some(compact_with_pattern(&re, jobs))
}

} // verus!
