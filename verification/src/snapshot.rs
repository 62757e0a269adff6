//! Identifying the root snapshot from the path of the subvolume mounted at
//! `/`, and recognising a transactional system from the type of `/etc`.
use vstd::prelude::*;
use crate::number::{decimal, is_digit, lemma_decimal_digits, law_decimal_parse_roundtrip, parse_u64_chars, spec_parse_u64};
use crate::boot::snapshot_root;
use crate::text::{first_occurrence, find_first, lemma_first_occurrence_from, lemma_first_occurrence_is, occurs_at, str_chars, chars_between, chars_to_string};

verus! {

/// Why the root snapshot could not be identified from the subvolume path.
#[derive(Debug, PartialEq, Eq, Structural)]
pub enum RootSnapshotError {
    /// The path does not contain `/.snapshots/`.
    SnapshotPartNotFound,
    /// The component after `/.snapshots/` is not a number that fits in a `u64`.
    InvalidSnapshotId,
}

/// The separator between the prefix of a snapshot path and its snapshot part.
pub open spec fn snapshots_separator() -> Seq<char> {
    "/.snapshots/"@
}

/// The root snapshot described by a subvolume path: the prefix before the first
/// `/.snapshots/`, the number in the path component right after it, and the
/// whole path.
pub open spec fn spec_root_snapshot_info(p: Seq<char>) -> Result<(Seq<char>, u64, Seq<char>), RootSnapshotError> {
    match first_occurrence(p, snapshots_separator()) {
        None => Err(RootSnapshotError::SnapshotPartNotFound),
        Some(k) => {
            let after = p.subrange(k + snapshots_separator().len(), p.len() as int);
            let id_text = match first_occurrence(after, seq!['/']) {
                Some(j) => after.subrange(0, j),
                None => after,
            };
            match spec_parse_u64(id_text) {
                Some(id) => Ok((p.subrange(0, k), id, p)),
                None => Err(RootSnapshotError::InvalidSnapshotId),
            }
        },
    }
}

/// The texts of a snapshot-info result.
pub open spec fn snapshot_info_view(r: Result<(String, u64, String), RootSnapshotError>) -> Result<(Seq<char>, u64, Seq<char>), RootSnapshotError> {
    match r {
        Ok((prefix, id, full)) => Ok((prefix@, id, full@)),
        Err(e) => Err(e),
    }
}

/// Splits the path of the root subvolume, such as `@/.snapshots/42/snapshot`,
/// into its prefix (`@`), its snapshot number (42) and the whole path.
pub fn get_root_snapshot_info(full_path: &str) -> (r: Result<(String, u64, String), RootSnapshotError>)
    ensures
        snapshot_info_view(r) == spec_root_snapshot_info(full_path@),
{
    proof {
        reveal_strlit("/.snapshots/");
        reveal_strlit("/");
    }
    let chars = str_chars(full_path);
    let separator = str_chars("/.snapshots/");
    let k = match find_first(chars.as_slice(), separator.as_slice()) {
        Some(k) => k,
        None => {
            return Err(RootSnapshotError::SnapshotPartNotFound);
        },
    };
    proof {
        crate::text::lemma_first_occurrence_from(chars@, separator@, 0);
    }
    let n = chars.len();
    let after_start = k + separator.len();
    let after = chars_between(&chars, after_start, n);
    let slash = str_chars("/");
    assert(slash@ =~= seq!['/']);
    let id_end = match find_first(after.as_slice(), slash.as_slice()) {
        Some(j) => {
            proof {
                crate::text::lemma_first_occurrence_from(after@, slash@, 0);
            }
            j
        },
        None => after.len(),
    };
    assert(id_end == after@.len() ==> after@.subrange(0, id_end as int) =~= after@);
    match parse_u64_chars(&after, 0, id_end) {
        Some(id) => {
            let prefix = chars_to_string(&chars, 0, k);
            Ok((prefix, id, full_path.to_owned()))
        },
        None => Err(RootSnapshotError::InvalidSnapshotId),
    }
}

/// Whether the file-system type reported for `/etc` (by `stat -f -c %T /etc`)
/// marks a transactional system: it is `overlayfs`.
pub fn is_transactional(filesystem_type: &str) -> (r: bool)
    ensures
        r == (filesystem_type@ == "overlayfs"@),
{
    filesystem_type.to_owned() == String::from_str("overlayfs")
}


/// A snapshot path `<prefix>/.snapshots/<n>/snapshot` is read back as the
/// prefix, the number `n` and the path itself, provided the `/.snapshots/` put
/// after the prefix is the first one in the path.
pub proof fn law_snapshot_path_roundtrip(prefix: Seq<char>, n: u64)
    requires
        first_occurrence(prefix + snapshots_separator(), snapshots_separator()) == Some(
            prefix.len() as int,
        ),
    ensures
        spec_root_snapshot_info(prefix + snapshots_separator() + decimal(n as nat) + "/snapshot"@)
            == Ok::<(Seq<char>, u64, Seq<char>), RootSnapshotError>((prefix, n, prefix + snapshots_separator() + decimal(n as nat) + "/snapshot"@)),
{
    reveal_strlit("/.snapshots/");
    reveal_strlit("/snapshot");
    let sep = snapshots_separator();
    let head = prefix + sep;
    let dec = decimal(n as nat);
    let tail = "/snapshot"@;
    let p = head + dec + tail;
    assert(prefix + sep + dec + tail == p);
    lemma_first_occurrence_from(head, sep, 0);
    let k = prefix.len() as int;
    // the separator after the prefix is the first occurrence in the whole path
    assert forall|j: int| 0 <= j < k implies !occurs_at(p, sep, j) by {
        assert(!occurs_at(head, sep, j));
        assert(p.subrange(j, j + sep.len()) =~= head.subrange(j, j + sep.len()));
    }
    assert(p.subrange(k, k + sep.len()) =~= head.subrange(k, k + sep.len()));
    assert(occurs_at(p, sep, k));
    lemma_first_occurrence_is(p, sep, k);
    // the component after it is the decimal number
    let after = p.subrange(k + sep.len(), p.len() as int);
    assert(after =~= dec + tail);
    lemma_decimal_digits(n as nat);
    let m = dec.len() as int;
    assert forall|j: int| 0 <= j < m implies !occurs_at(after, seq!['/'], j) by {
        assert(after[j] == dec[j]);
        assert(is_digit(dec[j]));
        assert(after.subrange(j, j + 1)[0] == after[j]);
    }
    assert(after.subrange(m, m + 1) =~= seq!['/']);
    lemma_first_occurrence_is(after, seq!['/'], m);
    assert(after.subrange(0, m) =~= dec);
    law_decimal_parse_roundtrip(n);
    assert(p.subrange(0, k) =~= prefix);
}

/// The root of snapshot `n` under the default `/.snapshots` directory, where
/// the bootloader binaries are looked for, is recognised as snapshot `n` with
/// an empty prefix.
pub proof fn law_default_snapshot_root_is_recognised(n: u64)
    ensures
        spec_root_snapshot_info(snapshot_root(n, None)) == Ok::<(Seq<char>, u64, Seq<char>), RootSnapshotError>((Seq::<char>::empty(), n, snapshot_root(n, None))),
{
    reveal_strlit("/.snapshots/");
    reveal_strlit("/.snapshots");
    reveal_strlit("/snapshot");
    reveal_strlit("snapshot");
    let prefix = Seq::<char>::empty();
    let sep = snapshots_separator();
    let dec = decimal(n as nat);
    lemma_decimal_digits(n as nat);
    assert(is_digit(dec[0]));
    assert(snapshot_root(n, None) =~= prefix + sep + dec + "/snapshot"@);
    assert(prefix + sep =~= sep);
    assert(sep.subrange(0, sep.len() as int) =~= sep);
    lemma_first_occurrence_is(prefix + sep, sep, 0);
    law_snapshot_path_roundtrip(prefix, n);
}

} // verus!
