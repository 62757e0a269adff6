use sdbootutil_fs::boot::{
    bootloader_version, determine_boot_dst, find_bootloader, find_grub2, find_sdboot, is_grub2,
    is_installed, is_sdboot, version_in,
};
use sdbootutil_fs::fsview::FsView;

const SD_PRIMARY: &str = "/.snapshots/42/snapshot/usr/lib/systemd-boot/systemd-bootx64.efi";
const SD_FALLBACK: &str = "/.snapshots/42/snapshot/usr/lib/systemd/boot/efi/systemd-bootx64.efi";
const GRUB_PRIMARY: &str = "/.snapshots/42/snapshot/usr/share/efi/x86_64/grub.efi";
const GRUB_FALLBACK: &str = "/.snapshots/42/snapshot/usr/share/grub2/x86_64-efi/grub.efi";

fn view_with(paths: &[&str]) -> FsView {
    let mut fs = FsView::new();
    for p in paths {
        fs.add_file(p, None);
    }
    fs
}

#[test]
fn find_sdboot_prefers_primary_location() {
    let fs = view_with(&[SD_PRIMARY, SD_FALLBACK]);
    assert_eq!(find_sdboot(42, "x64", None, &fs), SD_PRIMARY);
}

#[test]
fn find_sdboot_falls_back_when_primary_missing() {
    let fs = view_with(&[]);
    assert_eq!(find_sdboot(42, "x64", None, &fs), SD_FALLBACK);
}

#[test]
fn find_sdboot_uses_prefix_override() {
    let fs = view_with(&["/tmp/root/7/snapshot/usr/lib/systemd-boot/systemd-bootaa64.efi"]);
    assert_eq!(
        find_sdboot(7, "aa64", Some("/tmp/root"), &fs),
        "/tmp/root/7/snapshot/usr/lib/systemd-boot/systemd-bootaa64.efi"
    );
    // a trailing separator in the prefix is not doubled
    assert_eq!(
        find_sdboot(7, "aa64", Some("/tmp/root/"), &fs),
        "/tmp/root/7/snapshot/usr/lib/systemd-boot/systemd-bootaa64.efi"
    );
    // an empty prefix gives a relative path
    assert_eq!(
        find_sdboot(7, "aa64", Some(""), &FsView::new()),
        "7/snapshot/usr/lib/systemd/boot/efi/systemd-bootaa64.efi"
    );
}

#[test]
fn find_grub2_primary_and_fallback() {
    let fs = view_with(&[GRUB_PRIMARY]);
    assert_eq!(find_grub2(42, None, "x86_64", &fs), GRUB_PRIMARY);
    assert_eq!(find_grub2(42, None, "x86_64", &FsView::new()), GRUB_FALLBACK);
}

#[test]
fn detection_with_systemd_boot_only() {
    let fs = view_with(&[SD_FALLBACK]);
    assert!(is_sdboot(42, "x64", None, "x86_64", &fs));
    assert!(!is_grub2(42, None, "x86_64", &fs));
    assert_eq!(determine_boot_dst(42, "x64", None, "x86_64", &fs), Ok("/EFI/systemd"));
    assert_eq!(find_bootloader(42, "x64", None, "x86_64", &fs), Ok(SD_FALLBACK.to_string()));
}

#[test]
fn detection_with_grub2_present() {
    let fs = view_with(&[SD_PRIMARY, GRUB_FALLBACK]);
    assert!(!is_sdboot(42, "x64", None, "x86_64", &fs));
    assert!(is_grub2(42, None, "x86_64", &fs));
    assert_eq!(determine_boot_dst(42, "x64", None, "x86_64", &fs), Ok("/EFI/opensuse"));
    // systemd-boot is favoured unless only GRUB2 is found
    assert_eq!(find_bootloader(42, "x64", None, "x86_64", &fs), Ok(SD_PRIMARY.to_string()));
    let only_grub = view_with(&[GRUB_FALLBACK]);
    assert_eq!(find_bootloader(42, "x64", None, "x86_64", &only_grub), Ok(GRUB_FALLBACK.to_string()));
}

#[test]
fn detection_without_bootloader() {
    let fs = view_with(&[]);
    assert_eq!(
        determine_boot_dst(42, "x64", None, "x86_64", &fs),
        Err("Unsupported bootloader or unable to determine bootloader")
    );
    assert_eq!(find_bootloader(42, "x64", None, "x86_64", &fs), Err("Bootloader not detected"));
}

#[test]
fn boot_dst_and_bootloader_agree_on_concrete_views() {
    for paths in [vec![], vec![SD_PRIMARY], vec![GRUB_PRIMARY], vec![SD_PRIMARY, GRUB_PRIMARY]] {
        let fs = view_with(&paths);
        let dst = determine_boot_dst(42, "x64", None, "x86_64", &fs);
        let bl = find_bootloader(42, "x64", None, "x86_64", &fs);
        assert_eq!(dst.is_ok(), bl.is_ok());
        if let Ok(b) = bl {
            assert!(fs.file_exists(&b));
        }
    }
}

fn sd_binary(version: &str) -> Vec<u8> {
    let mut v = b"\x7fELF junk LoaderInfo: systemd-boot ".to_vec();
    v.extend_from_slice(version.as_bytes());
    v.extend_from_slice(b" #### trailing");
    v
}

#[test]
fn version_in_reads_systemd_boot_and_grub() {
    assert_eq!(version_in(&sd_binary("255.4")), Ok("255.4".to_string()));
    let grub = b"xxGNU GRUB  version %s\x002.12\x00rest".to_vec();
    assert_eq!(version_in(&grub), Ok("2.12".to_string()));
    assert_eq!(version_in(b"nothing here"), Err("Version not found".to_string()));
}

#[test]
fn bootloader_version_with_explicit_filename() {
    let mut fs = FsView::new();
    fs.add_file("/boot/efi/EFI/systemd/systemd-bootx64.efi", Some(sd_binary("256")));
    let r = bootloader_version(
        42,
        "x64",
        "/usr/share/efi/x86_64",
        "/boot/efi",
        "/EFI/systemd",
        Some("/boot/efi/EFI/systemd/systemd-bootx64.efi".to_string()),
        None,
        "x86_64",
        &fs,
    );
    assert_eq!(r, Ok("256".to_string()));
}

#[test]
fn bootloader_version_through_snapshot_detection() {
    let mut fs = view_with(&[SD_PRIMARY]);
    fs.add_file("/boot/efi/EFI/systemd/systemd-bootx64.efi", Some(sd_binary("254.1")));
    let r = bootloader_version(
        42, "x64", "/usr/share/efi/x86_64", "/boot/efi", "/EFI/systemd", None, None, "x86_64", &fs,
    );
    assert_eq!(r, Ok("254.1".to_string()));
}

#[test]
fn bootloader_version_with_shim_reads_grub_efi() {
    let mut fs = view_with(&["/pfx/usr/share/efi/x86_64/shim.efi"]);
    fs.add_file(
        "/pfx/boot/efi/EFI/opensuse/grub.efi",
        Some(b"..GNU GRUB  version %s\x002.06\x00..".to_vec()),
    );
    let r = bootloader_version(
        1,
        "x64",
        "/usr/share/efi/x86_64",
        "/boot/efi",
        "/EFI/opensuse",
        None,
        Some("/pfx"),
        "x86_64",
        &fs,
    );
    assert_eq!(r, Ok("2.06".to_string()));
}

#[test]
fn bootloader_version_errors() {
    // no bootloader in the snapshot
    let fs = FsView::new();
    let r = bootloader_version(42, "x64", "/shim", "/boot/efi", "/EFI/systemd", None, None, "x86_64", &fs);
    assert_eq!(r, Err("Bootloader not detected".to_string()));
    // the target file does not exist
    let fs = view_with(&[SD_PRIMARY]);
    let r = bootloader_version(42, "x64", "/shim", "/boot/efi", "/EFI/systemd", None, None, "x86_64", &fs);
    assert_eq!(
        r,
        Err("File does not exist: /boot/efi/EFI/systemd/systemd-bootx64.efi".to_string())
    );
    // the target file exists but its contents are not available
    let fs = view_with(&[SD_PRIMARY, "/boot/efi/EFI/systemd/systemd-bootx64.efi"]);
    let r = bootloader_version(42, "x64", "/shim", "/boot/efi", "/EFI/systemd", None, None, "x86_64", &fs);
    assert_eq!(r, Err("Failed to read file".to_string()));
    // the contents carry no version
    let mut fs = view_with(&[SD_PRIMARY]);
    fs.add_file("/boot/efi/EFI/systemd/systemd-bootx64.efi", Some(b"plain".to_vec()));
    let r = bootloader_version(42, "x64", "/shim", "/boot/efi", "/EFI/systemd", None, None, "x86_64", &fs);
    assert_eq!(r, Err("Version not found".to_string()));
}

#[test]
fn is_installed_needs_version_and_flag() {
    let mut fs = view_with(&[SD_PRIMARY]);
    fs.add_file("/boot/efi/EFI/systemd/systemd-bootx64.efi", Some(sd_binary("255")));
    let args = (42, "x64", "/shim", "/boot/efi", "/EFI/systemd");
    assert!(!is_installed(args.0, args.1, args.2, args.3, args.4, None, None, "x86_64", &fs));
    fs.add_file("/boot/efi/EFI/systemd/installed_by_sdbootutil", None);
    assert!(is_installed(args.0, args.1, args.2, args.3, args.4, None, None, "x86_64", &fs));
    // the flag alone is not enough
    let mut fs = FsView::new();
    fs.add_file("/boot/efi/EFI/systemd/installed_by_sdbootutil", None);
    assert!(!is_installed(args.0, args.1, args.2, args.3, args.4, None, None, "x86_64", &fs));
}

#[test]
fn probe_paths_list_every_consulted_file() {
    let paths = sdbootutil_fs::boot::bootloader_probe_paths(
        42,
        "x64",
        "/usr/share/efi/x86_64",
        "/boot/efi",
        "/EFI/systemd",
        Some("/custom.efi"),
        None,
        "x86_64",
    );
    assert_eq!(paths.len(), 12);
    for expected in [
        SD_PRIMARY,
        SD_FALLBACK,
        GRUB_PRIMARY,
        GRUB_FALLBACK,
        "/usr/share/efi/x86_64/shim.efi",
        "/boot/efi/EFI/systemd/grub.efi",
        "/boot/efi/EFI/systemd/systemd-bootx64.efi",
        "/boot/efi/EFI/systemd/installed_by_sdbootutil",
        "/custom.efi",
    ] {
        assert!(paths.iter().any(|p| p == expected), "missing {}", expected);
    }
}

#[test]
fn answers_depend_only_on_probe_paths() {
    let probe = sdbootutil_fs::boot::bootloader_probe_paths(
        42, "x64", "/shim", "/boot/efi", "/EFI/systemd", None, None, "x86_64",
    );
    let mut full = view_with(&[SD_PRIMARY, "/boot/efi/EFI/systemd/installed_by_sdbootutil", "/unrelated"]);
    full.add_file("/boot/efi/EFI/systemd/systemd-bootx64.efi", Some(sd_binary("253")));
    full.add_file("/boot/efi/EFI/systemd/other.efi", Some(sd_binary("1")));
    let mut restricted = FsView::new();
    for p in &probe {
        if full.file_exists(p) {
            restricted.add_file(p, full.read(p).cloned());
        }
    }
    let ask = |fs: &FsView| {
        (
            bootloader_version(42, "x64", "/shim", "/boot/efi", "/EFI/systemd", None, None, "x86_64", fs),
            is_installed(42, "x64", "/shim", "/boot/efi", "/EFI/systemd", None, None, "x86_64", fs),
        )
    };
    assert_eq!(ask(&full), ask(&restricted));
    assert_eq!(ask(&full), (Ok("253".to_string()), true));
}
