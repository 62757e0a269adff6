//! Path text: joining a component onto a path, the final segment of a path,
//! and replacing a path's extension.
use vstd::prelude::*;

verus! {

/// Joining `rel` onto `base`, as `PathBuf::push` does on Unix: an absolute `rel`
/// replaces `base`; otherwise a `/` is put between them unless `base` is empty
/// or already ends in `/`.
pub open spec fn join_path(base: Seq<char>, rel: Seq<char>) -> Seq<char> {
    if rel.len() > 0 && rel[0] == '/' {
        rel
    } else if base.len() > 0 && base.last() != '/' {
        base + seq!['/'] + rel
    } else {
        base + rel
    }
}

/// Joins `rel` onto `base` (see `join_path`).
pub fn join(base: &str, rel: &str) -> (r: String)
    ensures
        r@ == join_path(base@, rel@),
{
    let rel_len = rel.unicode_len();
    if rel_len > 0 && rel.get_char(0) == '/' {
        return rel.to_owned();
    }
    let base_len = base.unicode_len();
    let mut r = base.to_owned();
    if base_len > 0 && base.get_char(base_len - 1) != '/' {
        crate::number::push_char_to(&mut r, '/');
    }
    r.append(rel);
    r
}

/// Index just past the last `/` in `p` at or before position `n` (0 when there is none).
pub open spec fn segment_start(p: Seq<char>, n: int) -> int
    decreases n,
{
    if n <= 0 {
        0
    } else if p[n - 1] == '/' {
        n
    } else {
        segment_start(p, n - 1)
    }
}

/// The text after the last `/` of `p`: its file name, when `p` does not end in
/// `/` and its last segment is neither `.` nor `..`.
pub open spec fn final_segment(p: Seq<char>) -> Seq<char> {
    p.subrange(segment_start(p, p.len() as int), p.len() as int)
}

proof fn lemma_segment_start_bounds(p: Seq<char>, n: int)
    requires
        0 <= n <= p.len(),
    ensures
        0 <= segment_start(p, n) <= n,
    decreases n,
{
    if n > 0 && p[n - 1] != '/' {
        lemma_segment_start_bounds(p, n - 1);
    }
}

/// The final segment of `p` (see `final_segment`).
pub fn file_name(p: &str) -> (r: String)
    ensures
        r@ == final_segment(p@),
{
    let chars = crate::text::str_chars(p);
    let n = chars.len();
    let mut i = n;
    while i > 0 && chars[i - 1] != '/'
        invariant
            chars@ == p@,
            n == p@.len(),
            i <= n,
            segment_start(p@, n as int) == segment_start(p@, i as int),
        decreases i,
    {
        i = i - 1;
    }
    proof {
        lemma_segment_start_bounds(p@, n as int);
    }
    crate::text::chars_to_string(&chars, i, n)
}

/// The path that `Path::with_extension` makes of `path` and `extension`.
pub uninterp spec fn spec_with_extension(path: Seq<char>, extension: Seq<char>) -> Seq<char>;

/// `std::path::Path::with_extension`, with the result read back as text.
/// Trusted: the result depends only on the two arguments (it is named
/// `spec_with_extension`); nothing is stated of its form. An extension that
/// holds a path separator is refused: `with_extension` panics on it.
#[verifier::external_body]
pub fn path_with_extension(path: &str, extension: &str) -> (r: String)
    requires
        !extension@.contains('/'),
    ensures
        r@ == spec_with_extension(path@, extension@),
{
    std::path::Path::new(path).with_extension(extension).to_string_lossy().into_owned()
}


proof fn lemma_segment_start_after_slash(head: Seq<char>, t: Seq<char>, k: int)
    requires
        head.len() > 0,
        head.last() == '/',
        !t.contains('/'),
        0 <= k <= t.len(),
    ensures
        segment_start(head + t, head.len() + k) == head.len(),
    decreases k,
{
    let p = head + t;
    if k == 0 {
        assert(p[head.len() - 1] == '/');
    } else {
        assert(p[head.len() + k - 1] == t[k - 1]);
        if t[k - 1] == '/' {
            assert(t.contains('/'));
        }
        lemma_segment_start_after_slash(head, t, k - 1);
    }
}

/// The final segment of a path whose last `/` is followed by `t` is `t`.
pub proof fn law_final_segment_after_slash(head: Seq<char>, t: Seq<char>)
    requires
        head.len() > 0,
        head.last() == '/',
        !t.contains('/'),
    ensures
        final_segment(head + t) == t,
{
    lemma_segment_start_after_slash(head, t, t.len() as int);
    assert((head + t).subrange(head.len() as int, (head + t).len() as int) =~= t);
}

} // verus!
