//! Character-level string operations on `str`, each stated over `Seq<char>`.

use vstd::prelude::*;
use vstd::string::*;

verus! {

/// `s` begins with `p`.
pub open spec fn has_prefix(s: Seq<char>, p: Seq<char>) -> bool {
    p.len() <= s.len() && s.take(p.len() as int) == p
}

/// `s` ends with `p`.
pub open spec fn has_suffix(s: Seq<char>, p: Seq<char>) -> bool {
    p.len() <= s.len() && s.skip(s.len() - p.len()) == p
}

/// `s` with every leading copy of `p` taken off, as `str::trim_start_matches` does.
pub open spec fn trim_start_all(s: Seq<char>, p: Seq<char>) -> Seq<char>
    decreases s.len(),
{
    if p.len() > 0 && has_prefix(s, p) {
        trim_start_all(s.skip(p.len() as int), p)
    } else {
        s
    }
}

/// `s` with every trailing copy of `p` taken off, as `str::trim_end_matches` does.
pub open spec fn trim_end_all(s: Seq<char>, p: Seq<char>) -> Seq<char>
    decreases s.len(),
{
    if p.len() > 0 && has_suffix(s, p) {
        trim_end_all(s.take(s.len() - p.len()), p)
    } else {
        s
    }
}

/// `s` without the prefix `p`, or `None` when `s` does not begin with `p`.
pub open spec fn without_prefix(s: Seq<char>, p: Seq<char>) -> Option<Seq<char>> {
    if has_prefix(s, p) {
        Some(s.skip(p.len() as int))
    } else {
        None
    }
}

/// `s` with every trailing `c` taken off.
pub open spec fn trim_end_char(s: Seq<char>, c: char) -> Seq<char>
    decreases s.len(),
{
    if s.len() > 0 && s.last() == c {
        trim_end_char(s.drop_last(), c)
    } else {
        s
    }
}

/// The part of `s` after its last `c`, or all of `s` when it holds no `c`:
/// the first item that `str::rsplit` yields.
pub open spec fn after_last(s: Seq<char>, c: char) -> Seq<char>
    decreases s.len(),
{
    if s.len() == 0 {
        s
    } else if s.last() == c {
        Seq::empty()
    } else {
        after_last(s.drop_last(), c).push(s.last())
    }
}

/// Taking trailing `c`s off leaves a sequence that does not end with `c`.
pub proof fn lemma_trimmed_has_no_trailing(s: Seq<char>, c: char)
    ensures
        trim_end_char(s, c).len() == 0 || trim_end_char(s, c).last() != c,
    decreases s.len(),
{
    if s.len() > 0 && s.last() == c {
        lemma_trimmed_has_no_trailing(s.drop_last(), c);
    }
}

/// Taking trailing `c`s off twice is the same as once.
pub proof fn lemma_trim_idempotent(s: Seq<char>, c: char)
    ensures
        trim_end_char(trim_end_char(s, c), c) == trim_end_char(s, c),
{
    lemma_trimmed_has_no_trailing(s, c);
}

/// What follows the last `c` holds no `c`.
pub proof fn lemma_after_last_has_none(s: Seq<char>, c: char)
    ensures
        !after_last(s, c).contains(c),
    decreases s.len(),
{
    if s.len() > 0 && s.last() != c {
        lemma_after_last_has_none(s.drop_last(), c);
        let r = after_last(s.drop_last(), c);
        assert forall|i: int| 0 <= i < r.push(s.last()).len() implies r.push(s.last())[i] != c by {
            if i < r.len() {
                assert(r.push(s.last())[i] == r[i]);
            }
        }
    }
}

/// What follows the last `c` is a suffix of `s`.
pub proof fn lemma_after_last_is_suffix(s: Seq<char>, c: char)
    ensures
        has_suffix(s, after_last(s, c)),
    decreases s.len(),
{
    if s.len() > 0 && s.last() != c {
        lemma_after_last_is_suffix(s.drop_last(), c);
        let r = after_last(s.drop_last(), c);
        assert(s.skip(s.len() - r.push(s.last()).len()) =~= s.drop_last().skip(
            s.drop_last().len() - r.len(),
        ).push(s.last()));
    } else {
        assert(s.skip(s.len() as int) =~= Seq::<char>::empty());
        assert(after_last(s, c) =~= Seq::<char>::empty());
    }
}

/// Whether the characters of `s` from `start` on begin with `p`.
fn prefix_at(s: &str, start: usize, p: &str) -> (res: bool)
    requires
        start <= s@.len(),
    ensures
        res == has_prefix(s@.skip(start as int), p@),
{
    let n = s.unicode_len();
    let m = p.unicode_len();
    if m > n - start {
        return false;
    }
    let mut j: usize = 0;
    while j < m
        invariant
            n == s@.len(),
            m == p@.len(),
            start + m <= n,
            j <= m,
            forall|k: int| 0 <= k < j ==> s@[start + k] == p@[k],
        decreases m - j,
    {
        if s.get_char(start + j) != p.get_char(j) {
            assert(s@.skip(start as int).take(m as int)[j as int] != p@[j as int]);
            return false;
        }
        j = j + 1;
    }
    assert(s@.skip(start as int).take(m as int) =~= p@);
    true
}

/// Whether the first `end` characters of `s` end with `p`.
fn suffix_at(s: &str, end: usize, p: &str) -> (res: bool)
    requires
        end <= s@.len(),
    ensures
        res == has_suffix(s@.take(end as int), p@),
{
    let m = p.unicode_len();
    if m > end {
        return false;
    }
    let start = end - m;
    let mut j: usize = 0;
    while j < m
        invariant
            m == p@.len(),
            start + m == end,
            end <= s@.len(),
            j <= m,
            forall|k: int| 0 <= k < j ==> s@[start + k] == p@[k],
        decreases m - j,
    {
        if s.get_char(start + j) != p.get_char(j) {
            assert(s@.take(end as int).skip(start as int)[j as int] != p@[j as int]);
            return false;
        }
        j = j + 1;
    }
    assert(s@.take(end as int).skip(start as int) =~= p@);
    true
}

/// `str::trim_start_matches` with a string pattern.
pub fn trim_start_matches<'a>(s: &'a str, p: &str) -> (res: &'a str)
    ensures
        res@ == trim_start_all(s@, p@),
{
    let n = s.unicode_len();
    let m = p.unicode_len();
    if m == 0 {
        return s;
    }
    let mut start: usize = 0;
    assert(s@.skip(0) =~= s@);
    while prefix_at(s, start, p)
        invariant
            n == s@.len(),
            m == p@.len(),
            m > 0,
            start <= n,
            trim_start_all(s@, p@) == trim_start_all(s@.skip(start as int), p@),
        decreases n - start,
    {
        assert(s@.skip(start as int).skip(m as int) =~= s@.skip(start + m));
        start = start + m;
    }
    let res = s.substring_char(start, n);
    assert(res@ =~= s@.skip(start as int));
    res
}

/// `str::trim_end_matches` with a string pattern.
pub fn trim_end_matches<'a>(s: &'a str, p: &str) -> (res: &'a str)
    ensures
        res@ == trim_end_all(s@, p@),
{
    let n = s.unicode_len();
    let m = p.unicode_len();
    if m == 0 {
        return s;
    }
    let mut end: usize = n;
    assert(s@.take(n as int) =~= s@);
    while suffix_at(s, end, p)
        invariant
            n == s@.len(),
            m == p@.len(),
            m > 0,
            end <= n,
            trim_end_all(s@, p@) == trim_end_all(s@.take(end as int), p@),
        decreases end,
    {
        assert(s@.take(end as int).take(end - m) =~= s@.take(end - m));
        end = end - m;
    }
    s.substring_char(0, end)
}

/// `str::strip_prefix`.
pub fn strip_prefix<'a>(s: &'a str, p: &str) -> (res: Option<&'a str>)
    ensures
        match res {
            Some(r) => without_prefix(s@, p@) == Some(r@),
            None => without_prefix(s@, p@) is None,
        },
{
    if prefix_at(s, 0, p) {
        assert(s@.skip(0) =~= s@);
        let n = s.unicode_len();
        let m = p.unicode_len();
        Some(s.substring_char(m, n))
    } else {
        assert(s@.skip(0) =~= s@);
        None
    }
}

/// `str::trim_end_matches` with a single character.
pub fn trim_end_char_matches<'a>(s: &'a str, c: char) -> (res: &'a str)
    ensures
        res@ == trim_end_char(s@, c),
{
    let n = s.unicode_len();
    let mut end: usize = n;
    assert(s@.take(n as int) =~= s@);
    while end > 0 && s.get_char(end - 1) == c
        invariant
            n == s@.len(),
            end <= n,
            trim_end_char(s@, c) == trim_end_char(s@.take(end as int), c),
        decreases end,
    {
        assert(s@.take(end as int).drop_last() =~= s@.take(end - 1));
        end = end - 1;
    }
    s.substring_char(0, end)
}

/// The first item of `s.rsplit(c)`: what follows the last `c`, or all of `s`.
pub fn after_last_char<'a>(s: &'a str, c: char) -> (res: &'a str)
    ensures
        res@ == after_last(s@, c),
{
    let n = s.unicode_len();
    let mut i: usize = n;
    assert(s@.take(n as int) =~= s@);
    assert(s@.skip(n as int) =~= Seq::<char>::empty());
    while i > 0 && s.get_char(i - 1) != c
        invariant
            n == s@.len(),
            i <= n,
            after_last(s@, c) == after_last(s@.take(i as int), c) + s@.skip(i as int),
        decreases i,
    {
        assert(s@.take(i as int).drop_last() =~= s@.take(i - 1));
        assert(s@.skip(i - 1) =~= seq![s@[i - 1]] + s@.skip(i as int));
        i = i - 1;
    }
    assert(s@.take(0) =~= Seq::<char>::empty());
    s.substring_char(i, n)
}

} // verus!

verus! {

/// The character sequences of a sequence of strings.
pub open spec fn views(v: Seq<String>) -> Seq<Seq<char>> {
    v.map_values(|s: String| s@)
}

/// `o` with its string taken by its characters.
pub open spec fn opt_view(o: Option<String>) -> Option<Seq<char>> {
    match o {
        Some(s) => Some(s@),
        None => None,
    }
}

/// The position of `key` in `v`, or `None` when `v` does not hold it.
pub fn find_string(v: &Vec<String>, key: &str) -> (res: Option<usize>)
    ensures
        match res {
            Some(i) => i < v@.len() && v@[i as int]@ == key@,
            None => !views(v@).contains(key@),
        },
{
    let wanted = key.to_owned();
    let mut i: usize = 0;
    while i < v.len()
        invariant
            i <= v@.len(),
            wanted@ == key@,
            forall|j: int| 0 <= j < i ==> v@[j]@ != key@,
        decreases v@.len() - i,
    {
        if v[i] == wanted {
            return Some(i);
        }
        i = i + 1;
    }
    assert forall|j: int| 0 <= j < views(v@).len() implies views(v@)[j] != key@ by {
        assert(views(v@)[j] == v@[j]@);
    }
    None
}

/// A copy of `o`.
pub fn clone_opt_string(o: &Option<String>) -> (res: Option<String>)
    ensures
        opt_view(res) == opt_view(*o),
{
    match o {
        Some(s) => Some(s.clone()),
        None => None,
    }
}

} // verus!
