//! Lists of names: membership and the conversions between strings and
//! character vectors that the plan works with.

use vstd::prelude::*;
use crate::chars::{chars_eq, views};
use crate::text::{chars_of, string_of};

verus! {

/// The names of an optional list of strings; a missing list has none.
pub open spec fn opt_names(o: Option<Vec<String>>) -> Seq<Seq<char>> {
    match o {
        Some(v) => strings_view(v@),
        None => Seq::empty(),
    }
}

/// The characters of each string.
pub open spec fn strings_view(v: Seq<String>) -> Seq<Seq<char>> {
    Seq::new(v.len(), |i: int| v[i]@)
}

/// Whether the list holds the name.
pub fn has_name(list: &Vec<Vec<char>>, n: &[char]) -> (b: bool)
    ensures
        b == views(list@).contains(n@),
{
    let mut i: usize = 0;
    while i < list.len()
        invariant
            i <= list@.len(),
            forall|j: int| 0 <= j < i ==> views(list@)[j] != n@,
        decreases list@.len() - i,
    {
        assert(views(list@)[i as int] == list@[i as int]@);
        if chars_eq(list[i].as_slice(), n) {
            assert(views(list@)[i as int] == n@);
            return true;
        }
        i = i + 1;
    }
    false
}

/// The strings as character vectors.
pub fn to_char_lists(v: &Vec<String>) -> (r: Vec<Vec<char>>)
    ensures
        views(r@) == strings_view(v@),
{
    let mut out: Vec<Vec<char>> = Vec::new();
    let mut i: usize = 0;
    while i < v.len()
        invariant
            i <= v@.len(),
            out@.len() == i,
            views(out@) =~= strings_view(v@).take(i as int),
        decreases v@.len() - i,
    {
        let c = chars_of(v[i].as_str());
        out.push(c);
        assert(views(out@)[i as int] == strings_view(v@)[i as int]);
        assert(views(out@) =~= strings_view(v@).take(i + 1));
        i = i + 1;
    }
    assert(strings_view(v@).take(v@.len() as int) =~= strings_view(v@));
    out
}

/// The names of an optional list as character vectors.
pub fn opt_char_lists(o: &Option<Vec<String>>) -> (r: Vec<Vec<char>>)
    ensures
        views(r@) == opt_names(*o),
{
    match o {
        Some(v) => to_char_lists(v),
        None => Vec::new(),
    }
}

/// The character vectors as strings.
pub fn to_strings(v: &Vec<Vec<char>>) -> (r: Vec<String>)
    ensures
        strings_view(r@) == views(v@),
{
    let mut out: Vec<String> = Vec::new();
    let mut i: usize = 0;
    while i < v.len()
        invariant
            i <= v@.len(),
            out@.len() == i,
            strings_view(out@) =~= views(v@).take(i as int),
        decreases v@.len() - i,
    {
        assert(views(v@)[i as int] == v@[i as int]@);
        let s = string_of(v[i].as_slice());
        out.push(s);
        assert(strings_view(out@)[i as int] == views(v@)[i as int]);
        assert(strings_view(out@) =~= views(v@).take(i + 1));
        i = i + 1;
    }
    assert(views(v@).take(v@.len() as int) =~= views(v@));
    out
}

/// A copy of a list of character vectors.
pub fn copy_lists(v: &Vec<Vec<char>>) -> (r: Vec<Vec<char>>)
    ensures
        views(r@) == views(v@),
{
    let mut out: Vec<Vec<char>> = Vec::new();
    let mut i: usize = 0;
    while i < v.len()
        invariant
            i <= v@.len(),
            out@.len() == i,
            views(out@) =~= views(v@).take(i as int),
        decreases v@.len() - i,
    {
        assert(views(v@)[i as int] == v@[i as int]@);
        let c = crate::chars::slice_chars(v[i].as_slice(), 0, v[i].len());
        assert(c@ =~= v@[i as int]@);
        out.push(c);
        assert(views(out@)[i as int] == views(v@)[i as int]);
        assert(views(out@) =~= views(v@).take(i + 1));
        i = i + 1;
    }
    assert(views(v@).take(v@.len() as int) =~= views(v@));
    out
}

} // verus!
