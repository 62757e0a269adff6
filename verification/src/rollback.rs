//! Rollback items: files that were (re)written and may have a `.bak` backup
//! beside them. Cleaning an item up restores the backup, or removes the file
//! when there is no backup; resetting the items drops their backups.
//!
//! The functions here decide what is to be done and apply it to an `FsView`;
//! the caller carries out the returned actions on the real file system.
use vstd::prelude::*;
use crate::fsview::FsView;
use crate::path::{path_with_extension, spec_with_extension};

verus! {

/// A model of the files: existing paths and what is known of their contents.
pub type FsModel = Map<Seq<char>, Option<Seq<u8>>>;

/// An item subject to rollback actions: the path of the original file.
pub struct RollbackItem {
    original_path: String,
}

impl View for RollbackItem {
    type V = Seq<char>;

    closed spec fn view(&self) -> Seq<char> {
        self.original_path@
    }
}

/// The backup of `original`: the same path with the extension `bak`.
pub open spec fn backup_path_of(original: Seq<char>) -> Seq<char> {
    spec_with_extension(original, "bak"@)
}

/// What cleaning up one item does, as text.
pub enum CleanupStep {
    RestoreBackup { backup: Seq<char>, original: Seq<char> },
    RemoveOriginal { original: Seq<char> },
    ReportMissing { original: Seq<char> },
}

/// What cleaning up one item does: rename the backup over the original, remove
/// the original, or report that neither exists.
pub enum CleanupAction {
    RestoreBackup { backup: String, original: String },
    RemoveOriginal { original: String },
    ReportMissing { original: String },
}

impl View for CleanupAction {
    type V = CleanupStep;

    open spec fn view(&self) -> CleanupStep {
        match self {
            CleanupAction::RestoreBackup { backup, original } => CleanupStep::RestoreBackup {
                backup: backup@,
                original: original@,
            },
            CleanupAction::RemoveOriginal { original } => CleanupStep::RemoveOriginal {
                original: original@,
            },
            CleanupAction::ReportMissing { original } => CleanupStep::ReportMissing {
                original: original@,
            },
        }
    }
}

/// Cleanup of one item against the files `fs`: the step taken and the files after it.
pub open spec fn cleanup_step(original: Seq<char>, fs: FsModel) -> (CleanupStep, FsModel) {
    let backup = backup_path_of(original);
    if fs.dom().contains(backup) {
        (
            CleanupStep::RestoreBackup { backup, original },
            fs.remove(backup).insert(original, fs[backup]),
        )
    } else if fs.dom().contains(original) {
        (CleanupStep::RemoveOriginal { original }, fs.remove(original))
    } else {
        (CleanupStep::ReportMissing { original }, fs)
    }
}

/// Cleanup of the items in order: the steps taken and the files at the end.
pub open spec fn cleanup_run(items: Seq<Seq<char>>, fs: FsModel) -> (Seq<CleanupStep>, FsModel)
    decreases items.len(),
{
    if items.len() == 0 {
        (Seq::empty(), fs)
    } else {
        let (steps, mid) = cleanup_run(items.drop_last(), fs);
        let (step, after) = cleanup_step(items.last(), mid);
        (steps.push(step), after)
    }
}

/// Reset of one item: its backup, when it exists, is removed.
pub open spec fn reset_step(original: Seq<char>, fs: FsModel) -> (Option<Seq<char>>, FsModel) {
    let backup = backup_path_of(original);
    if fs.dom().contains(backup) {
        (Some(backup), fs.remove(backup))
    } else {
        (None, fs)
    }
}

/// Reset of the items in order: the backups removed and the files at the end.
pub open spec fn reset_run(items: Seq<Seq<char>>, fs: FsModel) -> (Seq<Seq<char>>, FsModel)
    decreases items.len(),
{
    if items.len() == 0 {
        (Seq::empty(), fs)
    } else {
        let (removed, mid) = reset_run(items.drop_last(), fs);
        let (r, after) = reset_step(items.last(), mid);
        match r {
            Some(b) => (removed.push(b), after),
            None => (removed, after),
        }
    }
}

/// The original paths of `items`.
pub open spec fn item_paths(items: Seq<RollbackItem>) -> Seq<Seq<char>> {
    items.map_values(|i: RollbackItem| i@)
}

/// The steps described by `actions`.
pub open spec fn action_steps(actions: Seq<CleanupAction>) -> Seq<CleanupStep> {
    actions.map_values(|a: CleanupAction| a@)
}

/// The texts of `paths`.
pub open spec fn string_views(paths: Seq<String>) -> Seq<Seq<char>> {
    paths.map_values(|s: String| s@)
}

impl RollbackItem {
    /// A rollback item for the file at `original_path`.
    pub fn new(original_path: String) -> (r: Self)
        ensures
            r@ == original_path@,
    {
        RollbackItem { original_path }
    }

    /// The path of the original file.
    pub fn original_path(&self) -> (r: &str)
        ensures
            r@ == self@,
    {
        self.original_path.as_str()
    }

    /// The path of the backup file (the original path with extension `bak`).
    pub fn backup_path(&self) -> (r: String)
        ensures
            r@ == backup_path_of(self@),
    {
        proof {
            reveal_strlit("bak");
        }
        path_with_extension(self.original_path.as_str(), "bak")
    }

    /// Cleans this item up in `fs`: restores the backup over the original when
    /// the backup exists; otherwise removes the original when it exists;
    /// otherwise reports that the file is missing.
    pub fn cleanup(&self, fs: &mut FsView) -> (r: CleanupAction)
        ensures
            (r@, final(fs)@) == cleanup_step(self@, old(fs)@),
    {
        let backup = self.backup_path();
        if fs.file_exists(backup.as_str()) {
            fs.rename(backup.as_str(), self.original_path.as_str());
            CleanupAction::RestoreBackup { backup, original: self.original_path.clone() }
        } else if fs.file_exists(self.original_path.as_str()) {
            fs.remove_file(self.original_path.as_str());
            CleanupAction::RemoveOriginal { original: self.original_path.clone() }
        } else {
            CleanupAction::ReportMissing { original: self.original_path.clone() }
        }
    }
}

impl CleanupAction {
    /// The informational message that goes with the action, if any.
    pub fn message(&self) -> (r: Option<String>)
        ensures
            match self@ {
                CleanupStep::RestoreBackup { original, .. } => r matches Some(m) && m@
                    == "restored "@ + original,
                CleanupStep::RemoveOriginal { .. } => r is None,
                CleanupStep::ReportMissing { original } => r matches Some(m) && m@
                    == "The following file doesn't exist and couldn't be removed: '"@ + original
                    + "'"@,
            },
    {
        match self {
            CleanupAction::RestoreBackup { original, .. } => {
                let mut m = String::from_str("restored ");
                m.append(original.as_str());
                Some(m)
            },
            CleanupAction::RemoveOriginal { .. } => None,
            CleanupAction::ReportMissing { original } => {
                let mut m = String::from_str(
                    "The following file doesn't exist and couldn't be removed: '",
                );
                m.append(original.as_str());
                m.append("'");
                Some(m)
            },
        }
    }
}

/// What is reported once a cleanup action has been carried out: on success
/// the action's informational message (if any) as information; on failure the
/// error, as an error, after which the remaining items are still cleaned up.
pub fn cleanup_report(action: &CleanupAction, outcome: &Result<(), String>) -> (r: (
    Option<String>,
    Option<String>,
))
    ensures
        match outcome {
            Ok(()) => r.1 is None && match (r.0, action@) {
                (Some(m), CleanupStep::RestoreBackup { original, .. }) => m@ == "restored "@
                    + original,
                (None, CleanupStep::RemoveOriginal { .. }) => true,
                (Some(m), CleanupStep::ReportMissing { original }) => m@
                    == "The following file doesn't exist and couldn't be removed: '"@ + original
                    + "'"@,
                _ => false,
            },
            Err(e) => r.0 is None && (r.1 matches Some(m) && m@ == "Error cleaning up item: "@
                + e@),
        },
{
    match outcome {
        Ok(()) => (action.message(), None),
        Err(e) => {
            let mut m = String::from_str("Error cleaning up item: ");
            m.append(e.as_str());
            (None, Some(m))
        },
    }
}

/// What is reported once the removal of a backup has been tried: `Ok` with an
/// informational message when it was removed, `Err` with an error message
/// when it could not be.
pub fn reset_report(backup: &str, outcome: &Result<(), String>) -> (r: Result<String, String>)
    ensures
        match outcome {
            Ok(()) => r matches Ok(m) && m@ == "Removed backup file "@ + backup@,
            Err(e) => r matches Err(m) && m@ == "Failed to remove backup file "@ + backup@ + ": "@
                + e@,
        },
{
    match outcome {
        Ok(()) => {
            let mut m = String::from_str("Removed backup file ");
            m.append(backup);
            Ok(m)
        },
        Err(e) => {
            let mut m = String::from_str("Failed to remove backup file ");
            m.append(backup);
            m.append(": ");
            m.append(e.as_str());
            Err(m)
        },
    }
}

/// Cleans up every item in order, applying each step to `fs`; the returned
/// actions are to be carried out in the same order.
pub fn cleanup_rollback_items(rollback_items: &[RollbackItem], fs: &mut FsView) -> (r: Vec<
    CleanupAction,
>)
    ensures
        (action_steps(r@), final(fs)@) == cleanup_run(item_paths(rollback_items@), old(fs)@),
{
    let mut actions: Vec<CleanupAction> = Vec::new();
    let n = rollback_items.len();
    let mut i: usize = 0;
    while i < n
        invariant
            n == rollback_items@.len(),
            i <= n,
            (action_steps(actions@), fs@) == cleanup_run(
                item_paths(rollback_items@.take(i as int)),
                old(fs)@,
            ),
        decreases n - i,
    {
        let a = rollback_items[i].cleanup(fs);
        let ghost prev = actions@;
        actions.push(a);
        i = i + 1;
        proof {
            let items = item_paths(rollback_items@.take(i as int));
            assert(items.drop_last() =~= item_paths(rollback_items@.take(i - 1)));
            assert(items.last() == rollback_items@[i - 1]@);
            assert(action_steps(actions@) =~= action_steps(prev).push(a@));
        }
    }
    assert(rollback_items@.take(n as int) =~= rollback_items@);
    actions
}

/// Removes the backups of all items from `fs` (each one that exists when its
/// turn comes) and empties the list; returns the backups removed, in order.
pub fn reset_rollback_items(rollback_items: &mut Vec<RollbackItem>, fs: &mut FsView) -> (r: Vec<
    String,
>)
    ensures
        final(rollback_items)@.len() == 0,
        (string_views(r@), final(fs)@) == reset_run(item_paths(old(rollback_items)@), old(fs)@),
{
    let mut removed: Vec<String> = Vec::new();
    let n = rollback_items.len();
    let mut i: usize = 0;
    while i < n
        invariant
            n == rollback_items@.len(),
            rollback_items@ == old(rollback_items)@,
            i <= n,
            (string_views(removed@), fs@) == reset_run(
                item_paths(rollback_items@.take(i as int)),
                old(fs)@,
            ),
        decreases n - i,
    {
        let backup = rollback_items[i].backup_path();
        let ghost prev = removed@;
        if fs.file_exists(backup.as_str()) {
            fs.remove_file(backup.as_str());
            removed.push(backup);
            proof {
                assert(string_views(removed@) =~= string_views(prev).push(backup@));
            }
        }
        i = i + 1;
        proof {
            let items = item_paths(rollback_items@.take(i as int));
            assert(items.drop_last() =~= item_paths(rollback_items@.take(i - 1)));
            assert(items.last() == rollback_items@[i - 1]@);
        }
    }
    assert(rollback_items@.take(n as int) =~= rollback_items@);
    rollback_items.clear();
    removed
}


/// The paths of distinct items do not meet: no backup is the original of any
/// item, and different items have different originals and different backups.
pub open spec fn paths_disjoint(items: Seq<Seq<char>>) -> bool {
    &&& forall|i: int, j: int|
        0 <= i < items.len() && 0 <= j < items.len() ==> backup_path_of(#[trigger] items[i])
            != #[trigger] items[j]
    &&& forall|i: int, j: int|
        0 <= i < items.len() && 0 <= j < items.len() && i != j ==> #[trigger] items[i]
            != #[trigger] items[j] && backup_path_of(items[i]) != backup_path_of(items[j])
}

/// `p` is the original or the backup of one of `items`.
pub open spec fn touches(items: Seq<Seq<char>>, p: Seq<char>) -> bool {
    exists|i: int| 0 <= i < items.len() && (p == #[trigger] items[i] || p == backup_path_of(items[i]))
}

/// Cleaning up one item whose backup path differs from its own path: afterwards
/// no backup remains, the original exists exactly when a backup existed before
/// (and then holds what the backup held), and no other file changes.
pub proof fn law_cleanup_restores_backup(original: Seq<char>, fs: FsModel)
    requires
        backup_path_of(original) != original,
    ensures
        ({
            let backup = backup_path_of(original);
            let after = cleanup_step(original, fs).1;
            &&& !after.dom().contains(backup)
            &&& after.dom().contains(original) == fs.dom().contains(backup)
            &&& fs.dom().contains(backup) ==> after[original] == fs[backup]
            &&& forall|p: Seq<char>|
                p != backup && p != original ==> (#[trigger] after.dom().contains(p)
                    == fs.dom().contains(p) && (fs.dom().contains(p) ==> after[p] == fs[p]))
        }),
{
}

/// Cleaning up items whose paths do not meet: afterwards, for every item, no
/// backup remains and the original exists exactly when its backup existed
/// before (holding what the backup held); files that belong to no item are
/// unchanged; one step is taken per item.
pub proof fn law_cleanup_all_restores_backups(items: Seq<Seq<char>>, fs: FsModel)
    requires
        paths_disjoint(items),
    ensures
        ({
            let (steps, after) = cleanup_run(items, fs);
            &&& steps.len() == items.len()
            &&& forall|i: int|
                0 <= i < items.len() ==> {
                    &&& !after.dom().contains(backup_path_of(#[trigger] items[i]))
                    &&& after.dom().contains(items[i]) == fs.dom().contains(backup_path_of(items[i]))
                    &&& fs.dom().contains(backup_path_of(items[i])) ==> after[items[i]]
                        == fs[backup_path_of(items[i])]
                }
            &&& forall|p: Seq<char>|
                !touches(items, p) ==> (#[trigger] after.dom().contains(p) == fs.dom().contains(p)
                    && (fs.dom().contains(p) ==> after[p] == fs[p]))
        }),
    decreases items.len(),
{
    if items.len() > 0 {
        let prefix = items.drop_last();
        let last = items.last();
        let n = items.len() - 1;
        assert(paths_disjoint(prefix)) by {
            assert forall|i: int, j: int|
                0 <= i < prefix.len() && 0 <= j < prefix.len() implies backup_path_of(
                #[trigger] prefix[i],
            ) != #[trigger] prefix[j] by {
                assert(prefix[i] == items[i] && prefix[j] == items[j]);
            }
            assert forall|i: int, j: int|
                0 <= i < prefix.len() && 0 <= j < prefix.len() && i != j implies #[trigger] prefix[i]
                != #[trigger] prefix[j] && backup_path_of(prefix[i]) != backup_path_of(prefix[j]) by {
                assert(prefix[i] == items[i] && prefix[j] == items[j]);
            }
        }
        law_cleanup_all_restores_backups(prefix, fs);
        let (steps0, mid) = cleanup_run(prefix, fs);
        let backup = backup_path_of(last);
        assert(items[n] == last);
        assert(backup != last) by {
            assert(backup_path_of(items[n]) != items[n]);
        }
        law_cleanup_restores_backup(last, mid);
        // the last item's paths belong to no earlier item
        assert(!touches(prefix, last)) by {
            if touches(prefix, last) {
                let i = choose|i: int|
                    0 <= i < prefix.len() && (last == #[trigger] prefix[i] || last
                        == backup_path_of(prefix[i]));
                assert(prefix[i] == items[i]);
                assert(items[i] != items[n]);
                assert(backup_path_of(items[i]) != items[n]);
            }
        }
        assert(!touches(prefix, backup)) by {
            if touches(prefix, backup) {
                let i = choose|i: int|
                    0 <= i < prefix.len() && (backup == #[trigger] prefix[i] || backup
                        == backup_path_of(prefix[i]));
                assert(prefix[i] == items[i]);
                assert(backup_path_of(items[n]) != items[i]);
                assert(backup_path_of(items[i]) != backup_path_of(items[n]));
            }
        }
        let after = cleanup_run(items, fs).1;
        assert forall|i: int| 0 <= i < items.len() implies {
            &&& !after.dom().contains(backup_path_of(#[trigger] items[i]))
            &&& after.dom().contains(items[i]) == fs.dom().contains(backup_path_of(items[i]))
            &&& fs.dom().contains(backup_path_of(items[i])) ==> after[items[i]]
                == fs[backup_path_of(items[i])]
        } by {
            if i < n {
                assert(prefix[i] == items[i]);
                assert(items[i] != last);
                assert(backup_path_of(items[i]) != last);
                assert(items[i] != backup);
                assert(backup_path_of(items[i]) != backup);
            }
        }
        assert forall|p: Seq<char>| !touches(items, p) implies (#[trigger] after.dom().contains(p)
            == fs.dom().contains(p) && (fs.dom().contains(p) ==> after[p] == fs[p])) by {
            assert(p != last) by {
                if p == last {
                    assert(items[n] == p);
                }
            }
            assert(p != backup) by {
                if p == backup {
                    assert(items[n] == last);
                }
            }
            assert(!touches(prefix, p)) by {
                if touches(prefix, p) {
                    let i = choose|i: int|
                        0 <= i < prefix.len() && (p == #[trigger] prefix[i] || p == backup_path_of(
                            prefix[i],
                        ));
                    assert(prefix[i] == items[i]);
                }
            }
        }
    }
}

/// Resetting items removes exactly their backups: afterwards a file exists
/// exactly when it existed before and is not the backup of any item, and the
/// files that remain hold what they held; every path reported as removed is
/// the backup of an item and existed before.
pub proof fn law_reset_removes_backups(items: Seq<Seq<char>>, fs: FsModel)
    ensures
        ({
            let (removed, after) = reset_run(items, fs);
            &&& forall|p: Seq<char>|
                #[trigger] after.dom().contains(p) <==> (fs.dom().contains(p) && !items.map_values(
                    |o: Seq<char>| backup_path_of(o),
                ).contains(p))
            &&& forall|p: Seq<char>| #[trigger] after.dom().contains(p) ==> after[p] == fs[p]
            &&& forall|k: int|
                0 <= k < removed.len() ==> fs.dom().contains(#[trigger] removed[k])
                    && items.map_values(|o: Seq<char>| backup_path_of(o)).contains(removed[k])
        }),
    decreases items.len(),
{
    if items.len() > 0 {
        let prefix = items.drop_last();
        law_reset_removes_backups(prefix, fs);
        let backups = items.map_values(|o: Seq<char>| backup_path_of(o));
        let prefix_backups = prefix.map_values(|o: Seq<char>| backup_path_of(o));
        assert(backups =~= prefix_backups.push(backup_path_of(items.last())));
        let (removed0, mid) = reset_run(prefix, fs);
        let (removed, after) = reset_run(items, fs);
        assert forall|p: Seq<char>|
            #[trigger] after.dom().contains(p) <==> (fs.dom().contains(p) && !backups.contains(p)) by {
            if prefix_backups.contains(p) {
                let k = choose|k: int| 0 <= k < prefix_backups.len() && prefix_backups[k] == p;
                assert(backups[k] == p);
            }
            if backups.contains(p) && p != backup_path_of(items.last()) {
                let k = choose|k: int| 0 <= k < backups.len() && backups[k] == p;
                assert(k < prefix_backups.len());
                assert(prefix_backups[k] == p);
            }
            if p == backup_path_of(items.last()) {
                assert(backups[backups.len() - 1] == p);
            }
        }
        assert forall|k: int| 0 <= k < removed.len() implies fs.dom().contains(#[trigger] removed[k])
            && backups.contains(removed[k]) by {
            if k < removed0.len() {
                assert(removed[k] == removed0[k]);
                let j = choose|j: int| 0 <= j < prefix_backups.len() && prefix_backups[j] == removed0[k];
                assert(backups[j] == removed0[k]);
            } else {
                assert(removed[k] == backup_path_of(items.last()));
                assert(backups[backups.len() - 1] == removed[k]);
                assert(!prefix_backups.contains(removed[k]) ==> mid.dom().contains(removed[k]));
                if prefix_backups.contains(removed[k]) {
                    // it was already removed by an earlier item, so it cannot be removed again
                    assert(!mid.dom().contains(removed[k]));
                }
            }
        }
    }
}


/// The original path named by a cleanup step.
pub open spec fn step_original(step: CleanupStep) -> Seq<char> {
    match step {
        CleanupStep::RestoreBackup { original, .. } => original,
        CleanupStep::RemoveOriginal { original } => original,
        CleanupStep::ReportMissing { original } => original,
    }
}

/// The action taken for an item names the item's own paths and fits the files:
/// a restore moves the item's backup onto the item's path and happens exactly
/// when the backup exists; a removal removes the item's path and happens
/// exactly when there is no backup but the file exists; otherwise the item's
/// path is reported missing. After a removal or a report the item's path does
/// not exist.
pub proof fn law_cleanup_action_names_item_paths(original: Seq<char>, fs: FsModel)
    ensures
        ({
            let (step, after) = cleanup_step(original, fs);
            let backup = backup_path_of(original);
            &&& step_original(step) == original
            &&& (step is RestoreBackup) == fs.dom().contains(backup)
            &&& step matches CleanupStep::RestoreBackup { backup: b, .. } ==> b == backup
            &&& (step is RemoveOriginal) == (!fs.dom().contains(backup) && fs.dom().contains(original))
            &&& (step is ReportMissing) == (!fs.dom().contains(backup) && !fs.dom().contains(original))
            &&& step is RestoreBackup ==> after.dom().contains(original) && after[original] == fs[backup]
            &&& !(step is RestoreBackup) ==> !after.dom().contains(original)
        }),
{
}

/// Cleaning up a list of items takes one step per item, in order, and the step
/// for each item names that item's path (and, for a restore, its backup).
pub proof fn law_cleanup_steps_follow_items(items: Seq<Seq<char>>, fs: FsModel)
    ensures
        ({
            let steps = cleanup_run(items, fs).0;
            &&& steps.len() == items.len()
            &&& forall|i: int|
                0 <= i < items.len() ==> step_original(#[trigger] steps[i]) == items[i] && (
                steps[i] matches CleanupStep::RestoreBackup { backup: b, .. } ==> b
                    == backup_path_of(items[i]))
        }),
    decreases items.len(),
{
    if items.len() > 0 {
        let prefix = items.drop_last();
        law_cleanup_steps_follow_items(prefix, fs);
        let (steps0, mid) = cleanup_run(prefix, fs);
        law_cleanup_action_names_item_paths(items.last(), mid);
        let steps = cleanup_run(items, fs).0;
        assert forall|i: int| 0 <= i < items.len() implies step_original(#[trigger] steps[i])
            == items[i] && (steps[i] matches CleanupStep::RestoreBackup { backup: b, .. } ==> b
            == backup_path_of(items[i])) by {
            if i < prefix.len() {
                assert(steps[i] == steps0[i]);
                assert(prefix[i] == items[i]);
            }
        }
    }
}

/// The backups reported as removed by a reset are exactly the items' backups
/// that existed: each such backup is reported, once, and nothing else is; and
/// every file that the reset made disappear is reported.
pub proof fn law_reset_reports_every_removed_backup(items: Seq<Seq<char>>, fs: FsModel)
    ensures
        ({
            let (removed, after) = reset_run(items, fs);
            let backups = items.map_values(|o: Seq<char>| backup_path_of(o));
            &&& forall|p: Seq<char>|
                #[trigger] removed.contains(p) <==> (fs.dom().contains(p) && backups.contains(p))
            &&& removed.no_duplicates()
            &&& forall|p: Seq<char>|
                fs.dom().contains(p) && !#[trigger] after.dom().contains(p) ==> removed.contains(p)
        }),
    decreases items.len(),
{
    law_reset_removes_backups(items, fs);
    if items.len() > 0 {
        let prefix = items.drop_last();
        law_reset_reports_every_removed_backup(prefix, fs);
        law_reset_removes_backups(prefix, fs);
        let last = items.last();
        let b = backup_path_of(last);
        let backups = items.map_values(|o: Seq<char>| backup_path_of(o));
        let prefix_backups = prefix.map_values(|o: Seq<char>| backup_path_of(o));
        assert(backups =~= prefix_backups.push(b));
        let (removed0, mid) = reset_run(prefix, fs);
        let (removed, after) = reset_run(items, fs);
        assert(mid.dom().contains(b) <==> fs.dom().contains(b) && !prefix_backups.contains(b));
        if mid.dom().contains(b) {
            assert(removed == removed0.push(b));
            assert(!removed0.contains(b));
        } else {
            assert(removed == removed0);
        }
        assert forall|p: Seq<char>|
            #[trigger] removed.contains(p) <==> (fs.dom().contains(p) && backups.contains(p)) by {
            if mid.dom().contains(b) {
                if removed0.contains(p) {
                    let k = choose|k: int| 0 <= k < removed0.len() && removed0[k] == p;
                    assert(removed[k] == p);
                }
                if p == b {
                    assert(removed[removed.len() - 1] == p);
                }
                if removed.contains(p) {
                    let k = choose|k: int| 0 <= k < removed.len() && removed[k] == p;
                    if k < removed0.len() {
                        assert(removed0[k] == p);
                    }
                }
                assert(removed.contains(p) <==> (removed0.contains(p) || p == b));
            }
            if prefix_backups.contains(p) {
                let k = choose|k: int| 0 <= k < prefix_backups.len() && prefix_backups[k] == p;
                assert(backups[k] == p);
            }
            if backups.contains(p) && p != b {
                let k = choose|k: int| 0 <= k < backups.len() && backups[k] == p;
                assert(prefix_backups[k] == p);
            }
            if p == b {
                assert(backups[backups.len() - 1] == p);
            }
        }
        assert(removed.no_duplicates());
        assert forall|p: Seq<char>|
            fs.dom().contains(p) && !#[trigger] after.dom().contains(p) implies removed.contains(p) by {
            if backups.contains(p) {
            } else {
                assert(after.dom().contains(p));
            }
        }
    }
}

} // verus!
