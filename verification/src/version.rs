//! Reading a bootloader's version string out of its binary image.
use vstd::prelude::*;
use vstd::utf8::*;
use vstd::slice::slice_subrange;
use crate::text::{first_occurrence, find_first, lemma_first_occurrence_from, lemma_first_occurrence_is, occurs_at, utf8_to_string};

verus! {

/// The version text that `find_version` extracts: the bytes strictly between the
/// first occurrence of `start` and the first occurrence of `end` after it,
/// decoded as UTF-8; nothing when either marker is missing or the bytes are not
/// valid UTF-8.
pub open spec fn spec_find_version(content: Seq<u8>, start: Seq<u8>, end: Seq<u8>) -> Option<Seq<char>> {
    match first_occurrence(content, start) {
        None => None,
        Some(s) => {
            let rest = content.subrange(s + start.len(), content.len() as int);
            match first_occurrence(rest, end) {
                None => None,
                Some(e) => {
                    let v = rest.subrange(0, e);
                    if valid_utf8(v) {
                        Some(decode_utf8(v))
                    } else {
                        None
                    }
                },
            }
        },
    }
}

/// Finds the version text framed by `start_pattern` and `end_pattern` in `content`.
/// An empty marker is refused (searching for it would panic), unless the search
/// never reaches it: an empty end marker is fine when the start marker is absent.
pub fn find_version(content: &[u8], start_pattern: &[u8], end_pattern: &[u8]) -> (r: Option<String>)
    requires
        start_pattern@.len() > 0,
        end_pattern@.len() > 0 || first_occurrence(content@, start_pattern@) is None,
    ensures
        r is Some <==> spec_find_version(content@, start_pattern@, end_pattern@) is Some,
        r matches Some(v) ==> Some(v@) == spec_find_version(content@, start_pattern@, end_pattern@),
{
    let content_len = content.len();
    if let Some(start_pos) = find_first(content, start_pattern) {
        proof {
            lemma_first_occurrence_from(content@, start_pattern@, 0);
        }
        let version_start_pos = start_pos + start_pattern.len();
        let rest = slice_subrange(content, version_start_pos, content_len);
        if let Some(end_pos) = find_first(rest, end_pattern) {
            proof {
                lemma_first_occurrence_from(rest@, end_pattern@, 0);
            }
            let version_bytes = slice_subrange(rest, 0, end_pos);
            return utf8_to_string(version_bytes);
        }
    }
    None
}


/// A version written between the two markers is read back: in
/// `pre ++ start ++ v ++ end ++ rest`, when the `start` after `pre` is the first
/// one, the `end` after `v` is the first one after it, and `v` is valid UTF-8,
/// the version found is the text that `v` encodes.
pub proof fn law_find_version_reads_back(
    pre: Seq<u8>,
    start: Seq<u8>,
    v: Seq<u8>,
    end: Seq<u8>,
    rest: Seq<u8>,
)
    requires
        first_occurrence(pre + start, start) == Some(pre.len() as int),
        first_occurrence(v + end, end) == Some(v.len() as int),
        valid_utf8(v),
    ensures
        spec_find_version(pre + start + v + end + rest, start, end) == Some(decode_utf8(v)),
{
    let head = pre + start;
    let content = head + (v + end + rest);
    assert(pre + start + v + end + rest =~= content);
    let k = pre.len() as int;
    lemma_first_occurrence_from(head, start, 0);
    assert forall|j: int| 0 <= j < k implies !occurs_at(content, start, j) by {
        assert(!occurs_at(head, start, j));
        assert(content.subrange(j, j + start.len()) =~= head.subrange(j, j + start.len()));
    }
    assert(content.subrange(k, k + start.len()) =~= start);
    lemma_first_occurrence_is(content, start, k);
    let after = content.subrange(k + start.len(), content.len() as int);
    let ve = v + end;
    assert(after =~= ve + rest);
    let m = v.len() as int;
    lemma_first_occurrence_from(ve, end, 0);
    assert forall|j: int| 0 <= j < m implies !occurs_at(after, end, j) by {
        assert(!occurs_at(ve, end, j));
        assert(after.subrange(j, j + end.len()) =~= ve.subrange(j, j + end.len()));
    }
    assert(after.subrange(m, m + end.len()) =~= end);
    lemma_first_occurrence_is(after, end, m);
    assert(after.subrange(0, m) =~= v);
}

} // verus!
