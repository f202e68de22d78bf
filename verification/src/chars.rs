//! Splitting, trimming and searching character sequences, with the
//! meaning that `str`'s methods of the same names give them.

use vstd::prelude::*;

verus! {

/// The character sequences held by a sequence of character vectors.
pub open spec fn views(v: Seq<Vec<char>>) -> Seq<Seq<char>> {
    Seq::new(v.len(), |i: int| v[i]@)
}

/// `s` split at every occurrence of `sep`, as `str::split(sep)` splits it:
/// there is always at least one piece.
pub open spec fn split_char(s: Seq<char>, sep: char) -> Seq<Seq<char>>
    decreases s.len(),
{
    if s.len() == 0 {
        seq![Seq::<char>::empty()]
    } else {
        let prev = split_char(s.drop_last(), sep);
        if s.last() == sep {
            prev.push(Seq::<char>::empty())
        } else {
            prev.update(prev.len() - 1, prev.last().push(s.last()))
        }
    }
}

proof fn lemma_split_char_nonempty(s: Seq<char>, sep: char)
    ensures
        split_char(s, sep).len() >= 1,
    decreases s.len(),
{
    if s.len() > 0 {
        lemma_split_char_nonempty(s.drop_last(), sep);
    }
}

/// Splits `s` at every occurrence of `sep`.
pub fn split_chars(s: &[char], sep: char) -> (r: Vec<Vec<char>>)
    ensures
        views(r@) == split_char(s@, sep),
        r@.len() >= 1,
{
    let mut pieces: Vec<Vec<char>> = Vec::new();
    let mut cur: Vec<char> = Vec::new();
    let mut i: usize = 0;
    proof {
        lemma_split_char_nonempty(s@.take(0), sep);
        assert(s@.take(0) =~= Seq::<char>::empty());
    }
    while i < s.len()
        invariant
            i <= s@.len(),
            views(pieces@).push(cur@) == split_char(s@.take(i as int), sep),
        decreases s@.len() - i,
    {
        let c = s[i];
        let ghost before = views(pieces@).push(cur@);
        assert(s@.take(i + 1).drop_last() =~= s@.take(i as int));
        assert(s@.take(i + 1).last() == c);
        if c == sep {
            let done = cur;
            pieces.push(done);
            cur = Vec::new();
            assert(views(pieces@).push(cur@) =~= before.push(Seq::<char>::empty()));
        } else {
            cur.push(c);
            assert(views(pieces@).push(cur@) =~= before.update(
                before.len() - 1,
                before.last().push(c),
            ));
        }
        i = i + 1;
    }
    assert(s@.take(s@.len() as int) =~= s@);
    let ghost before = views(pieces@).push(cur@);
    pieces.push(cur);
    assert(views(pieces@) =~= before);
    pieces
}

/// The lines of `s` as `str::lines` gives them: pieces between `\n`, with
/// one `\r` removed before each `\n`, and no final empty piece.
pub open spec fn lines_of(s: Seq<char>) -> Seq<Seq<char>> {
    let parts = split_char(s, '\n');
    let kept = if parts.last().len() == 0 { parts.drop_last() } else { parts };
    Seq::new(
        kept.len(),
        |i: int|
            if i < parts.len() - 1 && kept[i].len() > 0 && kept[i].last() == '\r' {
                kept[i].drop_last()
            } else {
                kept[i]
            },
    )
}

/// The lines of `s`, as `str::lines` gives them.
pub fn lines(s: &[char]) -> (r: Vec<Vec<char>>)
    ensures
        views(r@) == lines_of(s@),
{
    let parts = split_chars(s, '\n');
    let n = parts.len();
    let kept_len: usize = if parts[n - 1].len() == 0 { n - 1 } else { n };
    let ghost pv = views(parts@);
    let ghost kept = if pv.last().len() == 0 { pv.drop_last() } else { pv };
    let mut out: Vec<Vec<char>> = Vec::new();
    let mut i: usize = 0;
    while i < kept_len
        invariant
            n == parts@.len(),
            n >= 1,
            pv == views(parts@),
            pv == split_char(s@, '\n'),
            kept_len == kept.len(),
            kept == (if pv.last().len() == 0 { pv.drop_last() } else { pv }),
            i <= kept_len,
            out@.len() == i,
            forall|k: int|
                0 <= k < i ==> #[trigger] out@[k]@ == (if k < pv.len() - 1
                    && kept[k].len() > 0 && kept[k].last() == '\r' {
                    kept[k].drop_last()
                } else {
                    kept[k]
                }),
        decreases kept_len - i,
    {
        let part = &parts[i];
        assert(part@ == kept[i as int]);
        let mut line: Vec<char> = Vec::new();
        let strip = i + 1 < n && part.len() > 0 && part[part.len() - 1] == '\r';
        let end = if strip { part.len() - 1 } else { part.len() };
        let mut j: usize = 0;
        while j < end
            invariant
                end <= part@.len(),
                j <= end,
                line@ == part@.take(j as int),
            decreases end - j,
        {
            line.push(part[j]);
            assert(line@ =~= part@.take(j + 1));
            j = j + 1;
        }
        assert(strip ==> line@ =~= part@.drop_last());
        assert(!strip ==> line@ =~= part@);
        let ghost old_out = out@;
        out.push(line);
        assert(forall|k: int| 0 <= k < i ==> out@[k] == old_out[k]);
        i = i + 1;
    }
    assert(views(out@) =~= lines_of(s@));
    out
}

/// A character with the Unicode `White_Space` property (what
/// `char::is_whitespace` tests).
pub open spec fn is_whitespace(c: char) -> bool {
    ||| ('\u{9}' <= c && c <= '\u{d}')
    ||| c == ' '
    ||| c == '\u{85}'
    ||| c == '\u{a0}'
    ||| c == '\u{1680}'
    ||| ('\u{2000}' <= c && c <= '\u{200a}')
    ||| c == '\u{2028}'
    ||| c == '\u{2029}'
    ||| c == '\u{202f}'
    ||| c == '\u{205f}'
    ||| c == '\u{3000}'
}

/// Tests a character for the Unicode `White_Space` property.
pub fn char_is_whitespace(c: char) -> (b: bool)
    ensures
        b == is_whitespace(c),
{
    ('\u{9}' <= c && c <= '\u{d}') || c == ' ' || c == '\u{85}' || c == '\u{a0}' || c
        == '\u{1680}' || ('\u{2000}' <= c && c <= '\u{200a}') || c == '\u{2028}' || c
        == '\u{2029}' || c == '\u{202f}' || c == '\u{205f}' || c == '\u{3000}'
}

/// `s` without trailing whitespace (`str::trim_end`).
pub open spec fn trim_end_of(s: Seq<char>) -> Seq<char>
    decreases s.len(),
{
    if s.len() > 0 && is_whitespace(s.last()) {
        trim_end_of(s.drop_last())
    } else {
        s
    }
}

/// `s` without leading whitespace (`str::trim_start`).
pub open spec fn trim_start_of(s: Seq<char>) -> Seq<char>
    decreases s.len(),
{
    if s.len() > 0 && is_whitespace(s[0]) {
        trim_start_of(s.drop_first())
    } else {
        s
    }
}

/// `s` without leading and trailing whitespace (`str::trim`).
pub open spec fn trim_of(s: Seq<char>) -> Seq<char> {
    trim_start_of(trim_end_of(s))
}

/// Removes leading and trailing whitespace, as `str::trim` does.
pub fn trim(s: &[char]) -> (r: Vec<char>)
    ensures
        r@ == trim_of(s@),
{
    let mut hi: usize = s.len();
    assert(s@.take(hi as int) =~= s@);
    while hi > 0 && char_is_whitespace(s[hi - 1])
        invariant
            hi <= s@.len(),
            trim_end_of(s@) == trim_end_of(s@.take(hi as int)),
        decreases hi,
    {
        assert(s@.take(hi as int).drop_last() =~= s@.take(hi - 1));
        hi = hi - 1;
    }
    let ghost e = s@.take(hi as int);
    assert(trim_end_of(e) == e);
    let mut lo: usize = 0;
    while lo < hi && char_is_whitespace(s[lo])
        invariant
            lo <= hi <= s@.len(),
            e == s@.take(hi as int),
            trim_start_of(e) == trim_start_of(s@.subrange(lo as int, hi as int)),
        decreases hi - lo,
    {
        assert(s@.subrange(lo as int, hi as int).drop_first() =~= s@.subrange(lo + 1, hi as int));
        lo = lo + 1;
    }
    assert(e =~= s@.subrange(0, hi as int));
    let mut r: Vec<char> = Vec::new();
    let mut k: usize = lo;
    while k < hi
        invariant
            lo <= k <= hi <= s@.len(),
            r@ == s@.subrange(lo as int, k as int),
        decreases hi - k,
    {
        r.push(s[k]);
        assert(r@ =~= s@.subrange(lo as int, k + 1));
        k = k + 1;
    }
    r
}

/// `p` occurs in `s` at position `i`.
pub open spec fn occurs_at(s: Seq<char>, p: Seq<char>, i: int) -> bool {
    0 <= i && i + p.len() <= s.len() && s.subrange(i, i + p.len()) == p
}

/// `p` occurs somewhere in `s` (`str::contains`).
pub open spec fn contains_seq(s: Seq<char>, p: Seq<char>) -> bool {
    exists|i: int| occurs_at(s, p, i)
}

fn matches_at(s: &[char], p: &[char], i: usize) -> (b: bool)
    requires
        i + p@.len() <= s@.len(),
    ensures
        b == occurs_at(s@, p@, i as int),
{
    let mut j: usize = 0;
    while j < p.len()
        invariant
            j <= p@.len(),
            i + p@.len() <= s@.len(),
            s@.len() == s.len(),
            forall|k: int| 0 <= k < j ==> s@[i + k] == p@[k],
        decreases p@.len() - j,
    {
        if s[i + j] != p[j] {
            assert(s@.subrange(i as int, i + p@.len())[j as int] != p@[j as int]);
            return false;
        }
        j = j + 1;
    }
    assert(s@.subrange(i as int, i + p@.len()) =~= p@);
    true
}

/// Tests whether `p` occurs in `s`, as `str::contains` does.
pub fn contains(s: &[char], p: &[char]) -> (b: bool)
    ensures
        b == contains_seq(s@, p@),
{
    if p.len() > s.len() {
        return false;
    }
    let last: usize = s.len() - p.len();
    let mut i: usize = 0;
    while i <= last
        invariant
            p@.len() <= s@.len(),
            last == s@.len() - p@.len(),
            i <= last + 1,
            forall|k: int| 0 <= k < i ==> !#[trigger] occurs_at(s@, p@, k),
        decreases last + 1 - i,
    {
        if matches_at(s, p, i) {
            return true;
        }
        if i == last {
            assert forall|k: int| !#[trigger] occurs_at(s@, p@, k) by {
                if k > last {
                }
            }
            return false;
        }
        i = i + 1;
    }
    false
}

/// Tests whether `s` begins with `p` (`str::starts_with`).
pub fn starts_with(s: &[char], p: &[char]) -> (b: bool)
    ensures
        b == p@.is_prefix_of(s@),
{
    if p.len() > s.len() {
        return false;
    }
    let b = matches_at(s, p, 0);
    assert(b ==> s@.subrange(0, p@.len() as int) =~= p@);
    assert(p@.is_prefix_of(s@) ==> s@.subrange(0, p@.len() as int) =~= p@);
    b
}

/// Tests whether `s` ends with `p` (`str::ends_with`).
pub fn ends_with(s: &[char], p: &[char]) -> (b: bool)
    ensures
        b == p@.is_suffix_of(s@),
{
    if p.len() > s.len() {
        return false;
    }
    let b = matches_at(s, p, s.len() - p.len());
    assert(b ==> s@.subrange(s@.len() - p@.len(), s@.len() as int) =~= p@);
    assert(p@.is_suffix_of(s@) ==> s@.subrange(s@.len() - p@.len(), s@.len() as int) =~= p@);
    b
}

/// `s` with every trailing repetition of the non-empty suffix `p` removed
/// (`str::trim_end_matches`).
pub open spec fn trim_end_matches_of(s: Seq<char>, p: Seq<char>) -> Seq<char>
    decreases s.len(),
{
    if p.len() > 0 && p.is_suffix_of(s) {
        trim_end_matches_of(s.subrange(0, s.len() - p.len()), p)
    } else {
        s
    }
}

/// Removes every trailing repetition of the non-empty pattern `p`.
pub fn trim_end_matches(s: &[char], p: &[char]) -> (r: Vec<char>)
    requires
        p@.len() > 0,
    ensures
        r@ == trim_end_matches_of(s@, p@),
{
    let mut hi: usize = s.len();
    assert(s@.take(hi as int) =~= s@);
    while p.len() <= hi && matches_at(s, p, hi - p.len())
        invariant
            hi <= s@.len(),
            p@.len() > 0,
            trim_end_matches_of(s@, p@) == trim_end_matches_of(s@.take(hi as int), p@),
        decreases hi,
    {
        let ghost t = s@.take(hi as int);
        assert(t.subrange(t.len() - p@.len(), t.len() as int) =~= s@.subrange(
            hi - p@.len(),
            hi as int,
        ));
        assert(t.subrange(0, t.len() - p@.len()) =~= s@.take(hi - p@.len()));
        hi = hi - p.len();
    }
    let ghost t = s@.take(hi as int);
    assert(p@.len() <= hi ==> t.subrange(t.len() - p@.len(), t.len() as int) =~= s@.subrange(
        hi - p@.len(),
        hi as int,
    ));
    let mut r: Vec<char> = Vec::new();
    let mut k: usize = 0;
    while k < hi
        invariant
            k <= hi <= s@.len(),
            r@ == s@.take(k as int),
        decreases hi - k,
    {
        r.push(s[k]);
        assert(r@ =~= s@.take(k + 1));
        k = k + 1;
    }
    r
}

/// The first position of `c` in `s`, if any.
pub open spec fn first_index_of(s: Seq<char>, c: char) -> Option<int> {
    if exists|i: int| 0 <= i < s.len() && s[i] == c {
        Some(choose|i: int| 0 <= i < s.len() && s[i] == c && forall|j: int| 0 <= j < i ==> s[j] != c)
    } else {
        None
    }
}

/// Finds the first position of `c` in `s`.
pub fn find_char(s: &[char], c: char) -> (r: Option<usize>)
    ensures
        match r {
            Some(i) => i < s@.len() && s@[i as int] == c && forall|j: int| 0 <= j < i ==> s@[j] != c,
            None => forall|j: int| 0 <= j < s@.len() ==> s@[j] != c,
        },
        r is Some == first_index_of(s@, c) is Some,
        r matches Some(i) ==> first_index_of(s@, c) == Some(i as int),
{
    let mut i: usize = 0;
    while i < s.len()
        invariant
            i <= s@.len(),
            forall|j: int| 0 <= j < i ==> s@[j] != c,
        decreases s@.len() - i,
    {
        if s[i] == c {
            let ghost w = choose|k: int| 0 <= k < s@.len() && s@[k] == c && forall|j: int| 0 <= j < k ==> s@[j] != c;
            assert(0 <= i < s@.len() && s@[i as int] == c && forall|j: int| 0 <= j < i ==> s@[j] != c);
            assert(w == i) by {
                if w < i {
                    assert(s@[w] != c);
                } else if w > i {
                }
            }
            return Some(i);
        }
        i = i + 1;
    }
    None
}

/// The characters `s[lo..hi]` as a new vector.
pub fn slice_chars(s: &[char], lo: usize, hi: usize) -> (r: Vec<char>)
    requires
        lo <= hi <= s@.len(),
    ensures
        r@ == s@.subrange(lo as int, hi as int),
{
    let mut r: Vec<char> = Vec::new();
    let mut k: usize = lo;
    while k < hi
        invariant
            lo <= k <= hi <= s@.len(),
            r@ == s@.subrange(lo as int, k as int),
        decreases hi - k,
    {
        r.push(s[k]);
        assert(r@ =~= s@.subrange(lo as int, k + 1));
        k = k + 1;
    }
    r
}

/// The maximal runs of non-whitespace characters of `s`, in order
/// (`str::split_whitespace`).
pub open spec fn words_of(s: Seq<char>) -> Seq<Seq<char>>
    decreases s.len(),
{
    if s.len() == 0 {
        Seq::empty()
    } else {
        let prev = words_of(s.drop_last());
        let c = s.last();
        if is_whitespace(c) {
            prev
        } else if s.len() >= 2 && !is_whitespace(s[s.len() - 2]) {
            prev.update(prev.len() - 1, prev.last().push(c))
        } else {
            prev.push(seq![c])
        }
    }
}

/// Splits `s` into its maximal runs of non-whitespace characters.
pub fn split_whitespace(s: &[char]) -> (r: Vec<Vec<char>>)
    ensures
        views(r@) == words_of(s@),
{
    let mut words: Vec<Vec<char>> = Vec::new();
    let mut cur: Vec<char> = Vec::new();
    let mut i: usize = 0;
    assert(s@.take(0) =~= Seq::<char>::empty());
    while i < s.len()
        invariant
            i <= s@.len(),
            cur@.len() > 0 ==> i > 0 && !is_whitespace(s@[i - 1]),
            cur@.len() == 0 ==> (i == 0 || is_whitespace(s@[i - 1])),
            (if cur@.len() > 0 { views(words@).push(cur@) } else { views(words@) }) == words_of(
                s@.take(i as int),
            ),
        decreases s@.len() - i,
    {
        let c = s[i];
        let ghost t = s@.take(i + 1);
        assert(t.drop_last() =~= s@.take(i as int));
        assert(t.last() == c);
        if char_is_whitespace(c) {
            if cur.len() > 0 {
                let w = cur;
                let ghost before = views(words@);
                words.push(w);
                assert(views(words@) =~= before.push(w@));
                cur = Vec::new();
            }
        } else {
            let ghost before = if cur@.len() > 0 { views(words@).push(cur@) } else { views(words@) };
            let had = cur.len() > 0;
            cur.push(c);
            if had {
                assert(t[t.len() - 2] == s@[i - 1]);
                assert(views(words@).push(cur@) =~= before.update(before.len() - 1, before.last().push(c)));
            } else {
                assert(i > 0 ==> t[t.len() - 2] == s@[i - 1]);
                assert(cur@ =~= seq![c]);
                assert(views(words@).push(cur@) =~= before.push(seq![c]));
            }
        }
        i = i + 1;
    }
    assert(s@.take(s@.len() as int) =~= s@);
    if cur.len() > 0 {
        let ghost before = views(words@);
        words.push(cur);
        assert(views(words@) =~= before.push(words@.last()@));
    }
    words
}

/// `s` with every `c` replaced by `r` (`str::replace` with a character pattern).
pub open spec fn replace_char_of(s: Seq<char>, c: char, r: Seq<char>) -> Seq<char>
    decreases s.len(),
{
    if s.len() == 0 {
        Seq::empty()
    } else {
        let prev = replace_char_of(s.drop_last(), c, r);
        if s.last() == c {
            prev + r
        } else {
            prev.push(s.last())
        }
    }
}

/// Replaces every `c` in `s` by `r`.
pub fn replace_char(s: &[char], c: char, r: &[char]) -> (out: Vec<char>)
    ensures
        out@ == replace_char_of(s@, c, r@),
{
    let mut out: Vec<char> = Vec::new();
    let mut i: usize = 0;
    assert(s@.take(0) =~= Seq::<char>::empty());
    while i < s.len()
        invariant
            i <= s@.len(),
            out@ == replace_char_of(s@.take(i as int), c, r@),
        decreases s@.len() - i,
    {
        let ghost t = s@.take(i + 1);
        assert(t.drop_last() =~= s@.take(i as int));
        if s[i] == c {
            let mut j: usize = 0;
            let ghost before = out@;
            while j < r.len()
                invariant
                    j <= r@.len(),
                    out@ == before + r@.take(j as int),
                decreases r@.len() - j,
            {
                out.push(r[j]);
                assert(out@ =~= before + r@.take(j + 1));
                j = j + 1;
            }
            assert(r@.take(r@.len() as int) =~= r@);
        } else {
            out.push(s[i]);
        }
        i = i + 1;
    }
    assert(s@.take(s@.len() as int) =~= s@);
    out
}

/// Whether `a` comes strictly before `b` in the lexicographic order of
/// their characters (the order `String`'s `Ord` gives).
pub open spec fn lex_lt(a: Seq<char>, b: Seq<char>) -> bool
    decreases a.len(),
{
    if a.len() == 0 {
        b.len() > 0
    } else if b.len() == 0 {
        false
    } else if a[0] != b[0] {
        a[0] < b[0]
    } else {
        lex_lt(a.drop_first(), b.drop_first())
    }
}

/// Compares two character sequences lexicographically.
/// No sequence comes before itself.
pub proof fn lemma_lex_irreflexive(a: Seq<char>)
    ensures
        !lex_lt(a, a),
    decreases a.len(),
{
    if a.len() > 0 {
        lemma_lex_irreflexive(a.drop_first());
    }
}

/// The order is transitive.
pub proof fn lemma_lex_transitive(a: Seq<char>, b: Seq<char>, c: Seq<char>)
    requires
        lex_lt(a, b),
        lex_lt(b, c),
    ensures
        lex_lt(a, c),
    decreases a.len(),
{
    if a.len() > 0 && b.len() > 0 && c.len() > 0 && a[0] == b[0] && b[0] == c[0] {
        lemma_lex_transitive(a.drop_first(), b.drop_first(), c.drop_first());
    }
}

/// Of two different sequences, one comes first.
pub proof fn lemma_lex_total(a: Seq<char>, b: Seq<char>)
    requires
        a != b,
    ensures
        lex_lt(a, b) || lex_lt(b, a),
    decreases a.len(),
{
    if a.len() > 0 && b.len() > 0 && a[0] == b[0] {
        if a.drop_first() == b.drop_first() {
            assert(a =~= seq![a[0]] + a.drop_first());
            assert(b =~= seq![b[0]] + b.drop_first());
        }
        lemma_lex_total(a.drop_first(), b.drop_first());
    } else if a.len() == 0 && b.len() == 0 {
        assert(a =~= b);
    }
}

/// Whether `a` comes before `b` in lexicographic order.
pub fn lex_less(a: &[char], b: &[char]) -> (r: bool)
    ensures
        r == lex_lt(a@, b@),
{
    let mut i: usize = 0;
    assert(a@.skip(0) =~= a@);
    assert(b@.skip(0) =~= b@);
    while i < a.len() && i < b.len()
        invariant
            i <= a@.len(),
            i <= b@.len(),
            a@.take(i as int) == b@.take(i as int),
            lex_lt(a@, b@) == lex_lt(a@.skip(i as int), b@.skip(i as int)),
        decreases a@.len() - i,
    {
        if a[i] != b[i] {
            assert(a@.skip(i as int)[0] == a@[i as int]);
            assert(b@.skip(i as int)[0] == b@[i as int]);
            return a[i] < b[i];
        }
        assert(a@.skip(i as int).drop_first() =~= a@.skip(i + 1));
        assert(b@.skip(i as int).drop_first() =~= b@.skip(i + 1));
        assert(a@.take(i + 1) =~= a@.take(i as int).push(a@[i as int]));
        assert(b@.take(i + 1) =~= b@.take(i as int).push(b@[i as int]));
        i = i + 1;
    }
    i < b.len()
}

/// Tests two character sequences for equality.
pub fn chars_eq(a: &[char], b: &[char]) -> (r: bool)
    ensures
        r == (a@ == b@),
{
    if a.len() != b.len() {
        return false;
    }
    let mut i: usize = 0;
    while i < a.len()
        invariant
            a@.len() == b@.len(),
            i <= a@.len(),
            forall|k: int| 0 <= k < i ==> a@[k] == b@[k],
        decreases a@.len() - i,
    {
        if a[i] != b[i] {
            return false;
        }
        i = i + 1;
    }
    assert(a@ =~= b@);
    true
}

/// Tests a character sequence against a string slice.
pub fn chars_eq_str(a: &[char], b: &str) -> (r: bool)
    ensures
        r == (a@ == b@),
{
    let v = crate::text::chars_of(b);
    chars_eq(a, v.as_slice())
}

} // verus!
