use sdbootutil_fs::fsview::FsView;
use sdbootutil_fs::number::decimal_string;
use sdbootutil_fs::path::join;
use sdbootutil_fs::rollback::{
    cleanup_report, cleanup_rollback_items, reset_report, reset_rollback_items, CleanupAction, RollbackItem,
};
use sdbootutil_fs::snapshot::{get_root_snapshot_info, is_transactional, RootSnapshotError};

#[test]
fn root_snapshot_info_of_typical_paths() {
    assert_eq!(
        get_root_snapshot_info("@/.snapshots/42/snapshot"),
        Ok(("@".to_string(), 42, "@/.snapshots/42/snapshot".to_string()))
    );
    assert_eq!(
        get_root_snapshot_info("/.snapshots/1/snapshot"),
        Ok((String::new(), 1, "/.snapshots/1/snapshot".to_string()))
    );
    assert_eq!(
        get_root_snapshot_info("a/.snapshots/5"),
        Ok(("a".to_string(), 5, "a/.snapshots/5".to_string()))
    );
    // the first separator decides
    assert_eq!(
        get_root_snapshot_info("p/.snapshots/3/.snapshots/4/snapshot"),
        Ok(("p".to_string(), 3, "p/.snapshots/3/.snapshots/4/snapshot".to_string()))
    );
}

#[test]
fn root_snapshot_info_errors() {
    assert_eq!(get_root_snapshot_info("@/root"), Err(RootSnapshotError::SnapshotPartNotFound));
    assert_eq!(get_root_snapshot_info(""), Err(RootSnapshotError::SnapshotPartNotFound));
    assert_eq!(get_root_snapshot_info("@/.snapshots/abc/snapshot"), Err(RootSnapshotError::InvalidSnapshotId));
    assert_eq!(get_root_snapshot_info("@/.snapshots//snapshot"), Err(RootSnapshotError::InvalidSnapshotId));
    assert_eq!(
        get_root_snapshot_info("@/.snapshots/99999999999999999999/snapshot"),
        Err(RootSnapshotError::InvalidSnapshotId)
    );
}

#[test]
fn snapshot_root_path_is_recognised() {
    for n in [0u64, 1, 42, 123456, u64::MAX] {
        let root = join(&join("/.snapshots", &decimal_string(n)), "snapshot");
        assert_eq!(get_root_snapshot_info(&root), Ok((String::new(), n, root.clone())));
    }
}

#[test]
fn transactional_only_for_overlayfs() {
    assert!(is_transactional("overlayfs"));
    assert!(!is_transactional("btrfs"));
    assert!(!is_transactional(""));
    assert!(!is_transactional("overlayfs2"));
}

#[test]
fn fsview_add_remove_rename_read() {
    let mut fs = FsView::new();
    assert!(!fs.file_exists("/a"));
    fs.add_file("/a", Some(vec![1, 2]));
    assert!(fs.file_exists("/a"));
    assert_eq!(fs.read("/a"), Some(&vec![1, 2]));
    fs.rename("/a", "/b");
    assert!(!fs.file_exists("/a"));
    assert_eq!(fs.read("/b"), Some(&vec![1, 2]));
    fs.remove_file("/b");
    assert!(!fs.file_exists("/b"));
    fs.rename("/missing", "/c");
    assert!(!fs.file_exists("/c"));
    fs.add_file("/d", None);
    assert!(fs.file_exists("/d"));
    assert_eq!(fs.read("/d"), None);
}

#[test]
fn cleanup_restores_backup() {
    let item = RollbackItem::new("/boot/efi/EFI/systemd/grub.efi".to_string());
    assert_eq!(item.backup_path(), "/boot/efi/EFI/systemd/grub.bak");
    let mut fs = FsView::new();
    fs.add_file("/boot/efi/EFI/systemd/grub.efi", Some(b"new".to_vec()));
    fs.add_file("/boot/efi/EFI/systemd/grub.bak", Some(b"old".to_vec()));
    let action = item.cleanup(&mut fs);
    match &action {
        CleanupAction::RestoreBackup { backup, original } => {
            assert_eq!(backup, "/boot/efi/EFI/systemd/grub.bak");
            assert_eq!(original, "/boot/efi/EFI/systemd/grub.efi");
        }
        _ => panic!("expected a restore"),
    }
    assert_eq!(action.message(), Some("restored /boot/efi/EFI/systemd/grub.efi".to_string()));
    assert!(!fs.file_exists("/boot/efi/EFI/systemd/grub.bak"));
    assert_eq!(fs.read("/boot/efi/EFI/systemd/grub.efi"), Some(&b"old".to_vec()));
}

#[test]
fn cleanup_removes_original_without_backup() {
    let item = RollbackItem::new("/etc/kernel/entry.conf".to_string());
    let mut fs = FsView::new();
    fs.add_file("/etc/kernel/entry.conf", None);
    let action = item.cleanup(&mut fs);
    assert!(matches!(action, CleanupAction::RemoveOriginal { .. }));
    assert_eq!(action.message(), None);
    assert!(!fs.file_exists("/etc/kernel/entry.conf"));
}

#[test]
fn cleanup_reports_missing_file() {
    let item = RollbackItem::new("/nowhere/file.conf".to_string());
    let mut fs = FsView::new();
    let action = item.cleanup(&mut fs);
    assert!(matches!(action, CleanupAction::ReportMissing { .. }));
    assert_eq!(
        action.message(),
        Some("The following file doesn't exist and couldn't be removed: '/nowhere/file.conf'".to_string())
    );
}

#[test]
fn cleanup_of_all_items_restores_every_backup() {
    let items = vec![
        RollbackItem::new("/x/a.efi".to_string()),
        RollbackItem::new("/x/b.efi".to_string()),
        RollbackItem::new("/x/c.efi".to_string()),
    ];
    let mut fs = FsView::new();
    fs.add_file("/x/a.efi", Some(b"A1".to_vec()));
    fs.add_file("/x/a.bak", Some(b"A0".to_vec()));
    fs.add_file("/x/b.efi", Some(b"B1".to_vec()));
    fs.add_file("/x/other", None);
    let actions = cleanup_rollback_items(&items, &mut fs);
    assert_eq!(actions.len(), 3);
    assert!(matches!(actions[0], CleanupAction::RestoreBackup { .. }));
    assert!(matches!(actions[1], CleanupAction::RemoveOriginal { .. }));
    assert!(matches!(actions[2], CleanupAction::ReportMissing { .. }));
    assert_eq!(fs.read("/x/a.efi"), Some(&b"A0".to_vec()));
    assert!(!fs.file_exists("/x/a.bak"));
    assert!(!fs.file_exists("/x/b.efi"));
    assert!(!fs.file_exists("/x/c.efi"));
    assert!(fs.file_exists("/x/other"));
}

#[test]
fn reset_removes_backups_and_clears_items() {
    let mut items = vec![
        RollbackItem::new("/x/a.efi".to_string()),
        RollbackItem::new("/x/b.efi".to_string()),
        RollbackItem::new("/x/a.efi".to_string()),
    ];
    let mut fs = FsView::new();
    fs.add_file("/x/a.efi", None);
    fs.add_file("/x/a.bak", None);
    fs.add_file("/x/b.efi", None);
    let removed = reset_rollback_items(&mut items, &mut fs);
    assert_eq!(removed, vec!["/x/a.bak".to_string()]);
    assert!(items.is_empty());
    assert!(!fs.file_exists("/x/a.bak"));
    assert!(fs.file_exists("/x/a.efi"));
    assert!(fs.file_exists("/x/b.efi"));
}

#[test]
fn reports_after_carrying_out_actions() {
    let restore = CleanupAction::RestoreBackup { backup: "/a.bak".to_string(), original: "/a.efi".to_string() };
    assert_eq!(cleanup_report(&restore, &Ok(())), (Some("restored /a.efi".to_string()), None));
    assert_eq!(
        cleanup_report(&restore, &Err("Permission denied".to_string())),
        (None, Some("Error cleaning up item: Permission denied".to_string()))
    );
    let remove = CleanupAction::RemoveOriginal { original: "/a.efi".to_string() };
    assert_eq!(cleanup_report(&remove, &Ok(())), (None, None));
    assert_eq!(reset_report("/a.bak", &Ok(())), Ok("Removed backup file /a.bak".to_string()));
    assert_eq!(
        reset_report("/a.bak", &Err("busy".to_string())),
        Err("Failed to remove backup file /a.bak: busy".to_string())
    );
}
