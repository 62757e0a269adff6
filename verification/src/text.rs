//! Character- and byte-level helpers over strings: collecting the characters of
//! a string, and first-occurrence search of a pattern.
use vstd::prelude::*;
use vstd::utf8::*;

verus! {

/// The characters of `s`, in order.
pub fn str_chars(s: &str) -> (r: Vec<char>)
    ensures
        r@ == s@,
{
    let n = s.unicode_len();
    let mut r: Vec<char> = Vec::new();
    let mut i: usize = 0;
    while i < n
        invariant
            n == s@.len(),
            i <= n,
            r@ == s@.take(i as int),
        decreases n - i,
    {
        let c = s.get_char(i);
        r.push(c);
        i = i + 1;
        assert(r@ =~= s@.take(i as int));
    }
    assert(s@.take(n as int) =~= s@);
    r
}

/// `pat` occurs in `s` at position `i`.
pub open spec fn occurs_at<T>(s: Seq<T>, pat: Seq<T>, i: int) -> bool {
    0 <= i && i + pat.len() <= s.len() && s.subrange(i, i + pat.len()) == pat
}

/// Position of the first occurrence of `pat` in `s` at or after `from`
/// (what `windows(pat.len()).position(..)` finds when `from` is 0).
pub open spec fn first_occurrence_from<T>(s: Seq<T>, pat: Seq<T>, from: int) -> Option<int>
    decreases s.len() + 1 - from,
{
    if from < 0 || from + pat.len() > s.len() {
        None
    } else if occurs_at(s, pat, from) {
        Some(from)
    } else {
        first_occurrence_from(s, pat, from + 1)
    }
}

/// Position of the first occurrence of `pat` in `s`.
pub open spec fn first_occurrence<T>(s: Seq<T>, pat: Seq<T>) -> Option<int> {
    first_occurrence_from(s, pat, 0)
}

/// The first occurrence is an occurrence, and nothing earlier (from `from` on) is one;
/// when there is none, there is no occurrence at all from `from` on.
pub proof fn lemma_first_occurrence_from<T>(s: Seq<T>, pat: Seq<T>, from: int)
    requires
        0 <= from,
    ensures
        match first_occurrence_from(s, pat, from) {
            Some(k) => from <= k && occurs_at(s, pat, k) && forall|j: int|
                from <= j < k ==> !occurs_at(s, pat, j),
            None => forall|j: int| from <= j ==> !occurs_at(s, pat, j),
        },
    decreases s.len() + 1 - from,
{
    if from + pat.len() > s.len() {
    } else if occurs_at(s, pat, from) {
    } else {
        lemma_first_occurrence_from(s, pat, from + 1);
    }
}

/// Characterisation of the first occurrence: `k` is it exactly when `pat`
/// occurs at `k` and at no earlier position.
pub proof fn lemma_first_occurrence_is<T>(s: Seq<T>, pat: Seq<T>, k: int)
    requires
        occurs_at(s, pat, k),
        forall|j: int| 0 <= j < k ==> !occurs_at(s, pat, j),
    ensures
        first_occurrence(s, pat) == Some(k),
{
    lemma_first_occurrence_from(s, pat, 0);
}

/// Items that can be compared for equality in executable code, with the
/// comparison meaning equality of the values.
pub trait SearchItem: Sized {
    fn same(&self, other: &Self) -> (r: bool)
        ensures
            r == (*self == *other),
    ;
}

impl SearchItem for u8 {
    fn same(&self, other: &Self) -> (r: bool) {
        *self == *other
    }
}

impl SearchItem for char {
    fn same(&self, other: &Self) -> (r: bool) {
        *self == *other
    }
}

/// Whether `pat` occurs in `s` at `i`.
fn occurs_at_exec<T: SearchItem>(s: &[T], pat: &[T], i: usize) -> (r: bool)
    requires
        i + pat@.len() <= s@.len(),
    ensures
        r == occurs_at(s@, pat@, i as int),
{
    let n = s.len();
    let mut j: usize = 0;
    while j < pat.len()
        invariant
            n == s@.len(),
            i + pat@.len() <= s@.len(),
            j <= pat@.len(),
            forall|t: int| 0 <= t < j ==> s@[i + t] == pat@[t],
        decreases pat@.len() - j,
    {
        if !s[i + j].same(&pat[j]) {
            assert(s@.subrange(i as int, i + pat@.len())[j as int] != pat@[j as int]);
            return false;
        }
        j = j + 1;
    }
    assert(s@.subrange(i as int, i + pat@.len()) =~= pat@);
    true
}

/// First position at which `pat` occurs in `s` (what
/// `s.windows(pat.len()).position(|w| w == pat)` finds, and also finds for an
/// empty `pat`).
pub fn find_first<T: SearchItem>(s: &[T], pat: &[T]) -> (r: Option<usize>)
    ensures
        r matches Some(k) ==> first_occurrence(s@, pat@) == Some(k as int),
        r is None ==> first_occurrence(s@, pat@) is None,
{
    if pat.len() > s.len() {
        return None;
    }
    let last = s.len() - pat.len();
    let mut i: usize = 0;
    while i < last
        invariant
            last + pat@.len() == s@.len(),
            i <= last,
            first_occurrence(s@, pat@) == first_occurrence_from(s@, pat@, i as int),
        decreases last - i,
    {
        if occurs_at_exec(s, pat, i) {
            return Some(i);
        }
        i = i + 1;
    }
    if occurs_at_exec(s, pat, last) {
        Some(last)
    } else {
        assert(first_occurrence_from(s@, pat@, last + 1) is None);
        None
    }
}

/// The characters `v[from..to]`.
pub fn chars_between(v: &Vec<char>, from: usize, to: usize) -> (r: Vec<char>)
    requires
        from <= to <= v@.len(),
    ensures
        r@ == v@.subrange(from as int, to as int),
{
    let mut r: Vec<char> = Vec::new();
    let mut i = from;
    while i < to
        invariant
            from <= i <= to <= v@.len(),
            r@ == v@.subrange(from as int, i as int),
        decreases to - i,
    {
        r.push(v[i]);
        i = i + 1;
        assert(r@ =~= v@.subrange(from as int, i as int));
    }
    r
}

/// The string made of the characters `v[from..to]`.
pub fn chars_to_string(v: &Vec<char>, from: usize, to: usize) -> (r: String)
    requires
        from <= to <= v@.len(),
    ensures
        r@ == v@.subrange(from as int, to as int),
{
    let mut r = String::new();
    let mut i = from;
    while i < to
        invariant
            from <= i <= to <= v@.len(),
            r@ == v@.subrange(from as int, i as int),
        decreases to - i,
    {
        crate::number::push_char_to(&mut r, v[i]);
        i = i + 1;
        assert(r@ =~= v@.subrange(from as int, i as int));
    }
    r
}

/// `std::str::from_utf8`, followed by copying the text into a `String`.
/// Trusted: the bytes are accepted exactly when they are valid UTF-8, and the
/// text is then their UTF-8 decoding.
#[verifier::external_body]
pub fn utf8_to_string(bytes: &[u8]) -> (r: Option<String>)
    ensures
        r is Some <==> valid_utf8(bytes@),
        r matches Some(t) ==> t@ == decode_utf8(bytes@),
{
    std::str::from_utf8(bytes).ok().map(str::to_string)
}

} // verus!
