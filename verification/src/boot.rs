//! Locating the bootloader of a snapshot, deciding which bootloader is
//! installed, and reading the installed bootloader's version, all against a
//! model of the files (`FsView`).
use vstd::prelude::*;
use vstd::string::StringSliceAdditionalSpecFns;
use crate::fsview::FsView;
use crate::number::{decimal, decimal_string};
use crate::path::{final_segment, file_name, join, join_path, law_final_segment_after_slash};
use crate::version::{find_version, law_find_version_reads_back, spec_find_version};
use crate::text::first_occurrence;
use vstd::utf8::{decode_utf8, valid_utf8};

verus! {

/// The text of an optional string.
pub open spec fn opt_view(o: Option<&str>) -> Option<Seq<char>> {
    match o {
        Some(s) => Some(s@),
        None => None,
    }
}

/// The texts of a result of two strings.
pub open spec fn str_result_view(r: Result<&str, &str>) -> Result<Seq<char>, Seq<char>> {
    match r {
        Ok(s) => Ok(s@),
        Err(e) => Err(e@),
    }
}

/// The texts of a result of a `String` and a string.
pub open spec fn path_result_view(r: Result<String, &str>) -> Result<Seq<char>, Seq<char>> {
    match r {
        Ok(s) => Ok(s@),
        Err(e) => Err(e@),
    }
}

/// The texts of a result of two `String`s.
pub open spec fn string_result_view(r: Result<String, String>) -> Result<Seq<char>, Seq<char>> {
    match r {
        Ok(s) => Ok(s@),
        Err(e) => Err(e@),
    }
}

/// The file-system root of snapshot `snapshot`: `<prefix>/<snapshot>/snapshot`,
/// where the prefix defaults to `/.snapshots`.
pub open spec fn snapshot_root(snapshot: u64, prefix: Option<Seq<char>>) -> Seq<char> {
    let base = match prefix {
        Some(p) => p,
        None => "/.snapshots"@,
    };
    join_path(join_path(base, decimal(snapshot as nat)), "snapshot"@)
}

/// Where systemd-boot's EFI binary is first looked for in a snapshot.
pub open spec fn sdboot_primary_path(snapshot: u64, firmware_arch: Seq<char>, prefix: Option<Seq<char>>) -> Seq<char> {
    join_path(
        snapshot_root(snapshot, prefix),
        "usr/lib/systemd-boot/systemd-boot"@ + firmware_arch + ".efi"@,
    )
}

/// Where systemd-boot's EFI binary is looked for when it is not at the first place.
pub open spec fn sdboot_fallback_path(snapshot: u64, firmware_arch: Seq<char>, prefix: Option<Seq<char>>) -> Seq<char> {
    join_path(
        snapshot_root(snapshot, prefix),
        "usr/lib/systemd/boot/efi/systemd-boot"@ + firmware_arch + ".efi"@,
    )
}

/// Where GRUB2's EFI binary is first looked for in a snapshot (`arch` is the
/// machine architecture).
pub open spec fn grub2_primary_path(snapshot: u64, arch: Seq<char>, prefix: Option<Seq<char>>) -> Seq<char> {
    join_path(snapshot_root(snapshot, prefix), "usr/share/efi/"@ + arch + "/grub.efi"@)
}

/// Where GRUB2's EFI binary is looked for when it is not at the first place.
pub open spec fn grub2_fallback_path(snapshot: u64, arch: Seq<char>, prefix: Option<Seq<char>>) -> Seq<char> {
    join_path(snapshot_root(snapshot, prefix), "usr/share/grub2/"@ + arch + "-efi/grub.efi"@)
}

/// The systemd-boot binary of a snapshot: the first place if a file is there,
/// otherwise the fallback place.
pub open spec fn spec_find_sdboot(
    fs: Map<Seq<char>, Option<Seq<u8>>>,
    snapshot: u64,
    firmware_arch: Seq<char>,
    prefix: Option<Seq<char>>,
) -> Seq<char> {
    let primary = sdboot_primary_path(snapshot, firmware_arch, prefix);
    if fs.dom().contains(primary) {
        primary
    } else {
        sdboot_fallback_path(snapshot, firmware_arch, prefix)
    }
}

/// The GRUB2 binary of a snapshot: the first place if a file is there,
/// otherwise the fallback place.
pub open spec fn spec_find_grub2(
    fs: Map<Seq<char>, Option<Seq<u8>>>,
    snapshot: u64,
    arch: Seq<char>,
    prefix: Option<Seq<char>>,
) -> Seq<char> {
    let primary = grub2_primary_path(snapshot, arch, prefix);
    if fs.dom().contains(primary) {
        primary
    } else {
        grub2_fallback_path(snapshot, arch, prefix)
    }
}

/// systemd-boot is the installed bootloader: its binary exists and GRUB2's does not.
pub open spec fn spec_is_sdboot(
    fs: Map<Seq<char>, Option<Seq<u8>>>,
    snapshot: u64,
    firmware_arch: Seq<char>,
    arch: Seq<char>,
    prefix: Option<Seq<char>>,
) -> bool {
    fs.dom().contains(spec_find_sdboot(fs, snapshot, firmware_arch, prefix)) && !fs.dom().contains(
        spec_find_grub2(fs, snapshot, arch, prefix),
    )
}

/// GRUB2's binary exists.
pub open spec fn spec_is_grub2(
    fs: Map<Seq<char>, Option<Seq<u8>>>,
    snapshot: u64,
    arch: Seq<char>,
    prefix: Option<Seq<char>>,
) -> bool {
    fs.dom().contains(spec_find_grub2(fs, snapshot, arch, prefix))
}

/// The boot destination directory on the ESP for the installed bootloader.
pub open spec fn spec_determine_boot_dst(
    fs: Map<Seq<char>, Option<Seq<u8>>>,
    snapshot: u64,
    firmware_arch: Seq<char>,
    arch: Seq<char>,
    prefix: Option<Seq<char>>,
) -> Result<Seq<char>, Seq<char>> {
    if spec_is_sdboot(fs, snapshot, firmware_arch, arch, prefix) {
        Ok("/EFI/systemd"@)
    } else if spec_is_grub2(fs, snapshot, arch, prefix) {
        Ok("/EFI/opensuse"@)
    } else {
        Err("Unsupported bootloader or unable to determine bootloader"@)
    }
}

/// The bootloader binary: systemd-boot's when it exists (systemd-boot is
/// favoured unless only GRUB2 is found), otherwise GRUB2's when it exists.
pub open spec fn spec_find_bootloader(
    fs: Map<Seq<char>, Option<Seq<u8>>>,
    snapshot: u64,
    firmware_arch: Seq<char>,
    arch: Seq<char>,
    prefix: Option<Seq<char>>,
) -> Result<Seq<char>, Seq<char>> {
    if fs.dom().contains(spec_find_sdboot(fs, snapshot, firmware_arch, prefix)) {
        Ok(spec_find_sdboot(fs, snapshot, firmware_arch, prefix))
    } else if spec_is_grub2(fs, snapshot, arch, prefix) {
        Ok(spec_find_grub2(fs, snapshot, arch, prefix))
    } else {
        Err("Bootloader not detected"@)
    }
}

fn snapshot_root_path(snapshot: u64, prefix_override: Option<&str>) -> (r: String)
    ensures
        r@ == snapshot_root(snapshot, opt_view(prefix_override)),
{
    let base: &str = match prefix_override {
        Some(p) => p,
        None => "/.snapshots",
    };
    let number = decimal_string(snapshot);
    let numbered = join(base, number.as_str());
    join(numbered.as_str(), "snapshot")
}

/// `head`, then `middle`, then `tail`.
fn concat3(head: &str, middle: &str, tail: &str) -> (r: String)
    ensures
        r@ == head@ + middle@ + tail@,
{
    let mut r = head.to_owned();
    r.append(middle);
    r.append(tail);
    r
}

/// The two places where systemd-boot's binary is looked for in a snapshot:
/// first and fallback.
pub fn sdboot_candidates(snapshot: u64, firmware_arch: &str, prefix_override: Option<&str>) -> (r: (
    String,
    String,
))
    ensures
        r.0@ == sdboot_primary_path(snapshot, firmware_arch@, opt_view(prefix_override)),
        r.1@ == sdboot_fallback_path(snapshot, firmware_arch@, opt_view(prefix_override)),
{
    let root = snapshot_root_path(snapshot, prefix_override);
    let primary_rel = concat3("usr/lib/systemd-boot/systemd-boot", firmware_arch, ".efi");
    let fallback_rel = concat3("usr/lib/systemd/boot/efi/systemd-boot", firmware_arch, ".efi");
    (join(root.as_str(), primary_rel.as_str()), join(root.as_str(), fallback_rel.as_str()))
}

/// The two places where GRUB2's binary is looked for in a snapshot: first and
/// fallback.
pub fn grub2_candidates(snapshot: u64, override_prefix: Option<&str>, arch: &str) -> (r: (
    String,
    String,
))
    ensures
        r.0@ == grub2_primary_path(snapshot, arch@, opt_view(override_prefix)),
        r.1@ == grub2_fallback_path(snapshot, arch@, opt_view(override_prefix)),
{
    let root = snapshot_root_path(snapshot, override_prefix);
    let primary_rel = concat3("usr/share/efi/", arch, "/grub.efi");
    let fallback_rel = concat3("usr/share/grub2/", arch, "-efi/grub.efi");
    (join(root.as_str(), primary_rel.as_str()), join(root.as_str(), fallback_rel.as_str()))
}

/// Finds the systemd-boot EFI binary of `snapshot` for the firmware architecture
/// `firmware_arch`, under `prefix_override` in place of `/.snapshots` when given.
pub fn find_sdboot(
    snapshot: u64,
    firmware_arch: &str,
    prefix_override: Option<&str>,
    fs: &FsView,
) -> (r: String)
    ensures
        r@ == spec_find_sdboot(fs@, snapshot, firmware_arch@, opt_view(prefix_override)),
{
    let (primary, fallback) = sdboot_candidates(snapshot, firmware_arch, prefix_override);
    if fs.file_exists(primary.as_str()) {
        primary
    } else {
        fallback
    }
}

/// Finds the GRUB2 EFI binary of `snapshot` for the machine architecture `arch`,
/// under `override_prefix` in place of `/.snapshots` when given.
pub fn find_grub2(snapshot: u64, override_prefix: Option<&str>, arch: &str, fs: &FsView) -> (r:
    String)
    ensures
        r@ == spec_find_grub2(fs@, snapshot, arch@, opt_view(override_prefix)),
{
    let (primary, fallback) = grub2_candidates(snapshot, override_prefix, arch);
    if fs.file_exists(primary.as_str()) {
        primary
    } else {
        fallback
    }
}

/// Whether systemd-boot is the installed bootloader of `snapshot`: its binary
/// exists and GRUB2's does not.
pub fn is_sdboot(
    snapshot: u64,
    firmware_arch: &str,
    override_prefix: Option<&str>,
    arch: &str,
    fs: &FsView,
) -> (r: bool)
    ensures
        r == spec_is_sdboot(fs@, snapshot, firmware_arch@, arch@, opt_view(override_prefix)),
{
    let sdboot = find_sdboot(snapshot, firmware_arch, override_prefix, fs);
    let grub2 = find_grub2(snapshot, override_prefix, arch, fs);
    fs.file_exists(sdboot.as_str()) && !fs.file_exists(grub2.as_str())
}

/// Whether GRUB2's binary exists in `snapshot`.
pub fn is_grub2(snapshot: u64, override_prefix: Option<&str>, arch: &str, fs: &FsView) -> (r:
    bool)
    ensures
        r == spec_is_grub2(fs@, snapshot, arch@, opt_view(override_prefix)),
{
    let grub2 = find_grub2(snapshot, override_prefix, arch, fs);
    fs.file_exists(grub2.as_str())
}

/// The boot destination on the ESP: `/EFI/systemd` for systemd-boot,
/// `/EFI/opensuse` for GRUB2, an error when neither is installed.
pub fn determine_boot_dst(
    snapshot: u64,
    firmware_arch: &str,
    override_prefix: Option<&str>,
    arch: &str,
    fs: &FsView,
) -> (r: Result<&'static str, &'static str>)
    ensures
        str_result_view(r) == spec_determine_boot_dst(
            fs@,
            snapshot,
            firmware_arch@,
            arch@,
            opt_view(override_prefix),
        ),
{
    if is_sdboot(snapshot, firmware_arch, override_prefix, arch, fs) {
        Ok("/EFI/systemd")
    } else if is_grub2(snapshot, override_prefix, arch, fs) {
        Ok("/EFI/opensuse")
    } else {
        Err("Unsupported bootloader or unable to determine bootloader")
    }
}

/// The binary of the installed bootloader: systemd-boot's when it exists,
/// otherwise GRUB2's; an error when neither exists.
pub fn find_bootloader(
    snapshot: u64,
    firmware_arch: &str,
    override_prefix: Option<&str>,
    arch: &str,
    fs: &FsView,
) -> (r: Result<String, &'static str>)
    ensures
        path_result_view(r) == spec_find_bootloader(
            fs@,
            snapshot,
            firmware_arch@,
            arch@,
            opt_view(override_prefix),
        ),
{
    let sdboot = find_sdboot(snapshot, firmware_arch, override_prefix, fs);
    if fs.file_exists(sdboot.as_str()) {
        Ok(sdboot)
    } else if is_grub2(snapshot, override_prefix, arch, fs) {
        Ok(find_grub2(snapshot, override_prefix, arch, fs))
    } else {
        Err("Bootloader not detected")
    }
}

/// The marker that precedes systemd-boot's version in its binary.
pub open spec fn sdboot_version_start() -> Seq<u8> {
    "LoaderInfo: systemd-boot ".spec_bytes()
}

/// The marker that follows systemd-boot's version in its binary.
pub open spec fn sdboot_version_end() -> Seq<u8> {
    " ####".spec_bytes()
}

/// The marker that precedes GRUB2's version in its binary.
pub open spec fn grub2_version_start() -> Seq<u8> {
    "GNU GRUB  version %s\0".spec_bytes()
}

/// The marker that follows GRUB2's version in its binary.
pub open spec fn grub2_version_end() -> Seq<u8> {
    "\0".spec_bytes()
}

/// The version found in a bootloader binary: systemd-boot's marker pair is
/// tried first, then GRUB2's.
pub open spec fn spec_version_in(content: Seq<u8>) -> Result<Seq<char>, Seq<char>> {
    match spec_find_version(content, sdboot_version_start(), sdboot_version_end()) {
        Some(v) => Ok(v),
        None => match spec_find_version(content, grub2_version_start(), grub2_version_end()) {
            Some(v) => Ok(v),
            None => Err("Version not found"@),
        },
    }
}

/// The text of the path prefix (empty when absent).
pub open spec fn prefix_text(prefix: Option<Seq<char>>) -> Seq<char> {
    match prefix {
        Some(p) => p,
        None => ""@,
    }
}

/// The bootloader binary on the ESP whose version is read: `filename` when
/// given; `<prefix><boot_root><boot_dst>/grub.efi` when the shim is installed
/// (`<prefix><shimdir>/shim.efi` exists); otherwise the file named like the
/// snapshot's installed bootloader binary, in `<prefix><boot_root><boot_dst>`.
pub open spec fn spec_bootloader_file(
    fs: Map<Seq<char>, Option<Seq<u8>>>,
    snapshot: u64,
    firmware_arch: Seq<char>,
    shimdir: Seq<char>,
    boot_root: Seq<char>,
    boot_dst: Seq<char>,
    filename: Option<Seq<char>>,
    prefix: Option<Seq<char>>,
    arch: Seq<char>,
) -> Result<Seq<char>, Seq<char>> {
    let pre = prefix_text(prefix);
    match filename {
        Some(f) => Ok(f),
        None => if fs.dom().contains(pre + shimdir + "/shim.efi"@) {
            Ok(pre + boot_root + boot_dst + "/grub.efi"@)
        } else {
            match spec_find_bootloader(fs, snapshot, firmware_arch, arch, prefix) {
                Ok(b) => Ok(pre + boot_root + boot_dst + "/"@ + final_segment(b)),
                Err(e) => Err(e),
            }
        },
    }
}

/// The installed bootloader's version, or the reason it cannot be had.
pub open spec fn spec_bootloader_version(
    fs: Map<Seq<char>, Option<Seq<u8>>>,
    snapshot: u64,
    firmware_arch: Seq<char>,
    shimdir: Seq<char>,
    boot_root: Seq<char>,
    boot_dst: Seq<char>,
    filename: Option<Seq<char>>,
    prefix: Option<Seq<char>>,
    arch: Seq<char>,
) -> Result<Seq<char>, Seq<char>> {
    match spec_bootloader_file(
        fs,
        snapshot,
        firmware_arch,
        shimdir,
        boot_root,
        boot_dst,
        filename,
        prefix,
        arch,
    ) {
        Err(e) => Err(e),
        Ok(p) => if !fs.dom().contains(p) {
            Err("File does not exist: "@ + p)
        } else {
            match fs[p] {
                None => Err("Failed to read file"@),
                Some(content) => spec_version_in(content),
            }
        },
    }
}

/// The flag file that marks the bootloader as installed by this tool.
pub open spec fn installed_flag_path(prefix: Option<Seq<char>>, boot_root: Seq<char>, boot_dst: Seq<char>) -> Seq<char> {
    prefix_text(prefix) + boot_root + boot_dst + "/installed_by_sdbootutil"@
}

/// The text of an optional `String`.
pub open spec fn opt_string_view(o: Option<String>) -> Option<Seq<char>> {
    match o {
        Some(s) => Some(s@),
        None => None,
    }
}

/// Reads the version out of a bootloader binary.
pub fn version_in(content: &[u8]) -> (r: Result<String, String>)
    ensures
        string_result_view(r) == spec_version_in(content@),
{
    proof {
        reveal_strlit("LoaderInfo: systemd-boot ");
        reveal_strlit(" ####");
        reveal_strlit("GNU GRUB  version %s\0");
        reveal_strlit("\0");
    }
    if let Some(v) = find_version(content, "LoaderInfo: systemd-boot ".as_bytes(), " ####".as_bytes()) {
        return Ok(v);
    }
    if let Some(v) = find_version(content, "GNU GRUB  version %s\0".as_bytes(), "\0".as_bytes()) {
        return Ok(v);
    }
    Err(String::from_str("Version not found"))
}

/// The installed bootloader's version, read from its binary on the ESP (see
/// `spec_bootloader_file` for which file that is).
pub fn bootloader_version(
    snapshot: u64,
    firmware_arch: &str,
    shimdir: &str,
    boot_root: &str,
    boot_dst: &str,
    filename: Option<String>,
    override_prefix: Option<&str>,
    arch: &str,
    fs: &FsView,
) -> (r: Result<String, String>)
    ensures
        string_result_view(r) == spec_bootloader_version(
            fs@,
            snapshot,
            firmware_arch@,
            shimdir@,
            boot_root@,
            boot_dst@,
            opt_string_view(filename),
            opt_view(override_prefix),
            arch@,
        ),
{
    let prefix: &str = match override_prefix {
        Some(p) => p,
        None => "",
    };
    let fn_path: String = match filename {
        Some(f) => f,
        None => {
            let shim = concat3(prefix, shimdir, "/shim.efi");
            if fs.file_exists(shim.as_str()) {
                let mut p = concat3(prefix, boot_root, boot_dst);
                p.append("/grub.efi");
                p
            } else {
                let bootloader = match find_bootloader(
                    snapshot,
                    firmware_arch,
                    override_prefix,
                    arch,
                    fs,
                ) {
                    Ok(b) => b,
                    Err(e) => {
                        return Err(e.to_owned());
                    },
                };
                let name = file_name(bootloader.as_str());
                let mut p = concat3(prefix, boot_root, boot_dst);
                p.append("/");
                p.append(name.as_str());
                p
            }
        },
    };
    if !fs.file_exists(fn_path.as_str()) {
        let mut err = String::from_str("File does not exist: ");
        err.append(fn_path.as_str());
        return Err(err);
    }
    let content = match fs.read(fn_path.as_str()) {
        Some(c) => c,
        None => {
            return Err(String::from_str("Failed to read file"));
        },
    };
    version_in(content.as_slice())
}

/// Whether the bootloader was installed by this tool: its version can be read
/// and the flag file `<prefix><boot_root><boot_dst>/installed_by_sdbootutil` exists.
pub fn is_installed(
    snapshot: u64,
    firmware_arch: &str,
    shimdir: &str,
    boot_root: &str,
    boot_dst: &str,
    filename: Option<String>,
    override_prefix: Option<&str>,
    arch: &str,
    fs: &FsView,
) -> (r: bool)
    ensures
        r == (spec_bootloader_version(
            fs@,
            snapshot,
            firmware_arch@,
            shimdir@,
            boot_root@,
            boot_dst@,
            opt_string_view(filename),
            opt_view(override_prefix),
            arch@,
        ) is Ok && fs@.dom().contains(installed_flag_path(opt_view(override_prefix), boot_root@, boot_dst@))),
{
    let prefix: &str = match override_prefix {
        Some(p) => p,
        None => "",
    };
    let bootloader_version_successful = bootloader_version(
        snapshot,
        firmware_arch,
        shimdir,
        boot_root,
        boot_dst,
        filename,
        override_prefix,
        arch,
        fs,
    ).is_ok();
    let mut flag_path = concat3(prefix, boot_root, boot_dst);
    flag_path.append("/installed_by_sdbootutil");
    let installed_flag_exists = fs.file_exists(flag_path.as_str());
    bootloader_version_successful && installed_flag_exists
}


/// The boot destination and the bootloader binary agree: one is found exactly
/// when the other is; the binary found exists; `/EFI/systemd` goes with
/// systemd-boot's binary; `/EFI/opensuse` goes with an existing GRUB2 binary,
/// which is the bootloader binary unless systemd-boot's binary exists too.
pub proof fn law_boot_dst_matches_bootloader(
    fs: Map<Seq<char>, Option<Seq<u8>>>,
    snapshot: u64,
    firmware_arch: Seq<char>,
    arch: Seq<char>,
    prefix: Option<Seq<char>>,
)
    ensures
        ({
            let dst = spec_determine_boot_dst(fs, snapshot, firmware_arch, arch, prefix);
            let bootloader = spec_find_bootloader(fs, snapshot, firmware_arch, arch, prefix);
            &&& dst is Ok <==> bootloader is Ok
            &&& bootloader matches Ok(b) ==> fs.dom().contains(b)
            &&& dst == Ok::<Seq<char>, Seq<char>>("/EFI/systemd"@) ==> bootloader == Ok::<
                Seq<char>,
                Seq<char>,
            >(spec_find_sdboot(fs, snapshot, firmware_arch, prefix))
            &&& dst == Ok::<Seq<char>, Seq<char>>("/EFI/opensuse"@) ==> fs.dom().contains(
                spec_find_grub2(fs, snapshot, arch, prefix),
            )
            &&& (dst == Ok::<Seq<char>, Seq<char>>("/EFI/opensuse"@) && !fs.dom().contains(
                spec_find_sdboot(fs, snapshot, firmware_arch, prefix),
            )) ==> bootloader == Ok::<Seq<char>, Seq<char>>(
                spec_find_grub2(fs, snapshot, arch, prefix),
            )
        }),
{
    reveal_strlit("/EFI/systemd");
    reveal_strlit("/EFI/opensuse");
    assert("/EFI/systemd"@ != "/EFI/opensuse"@) by {
        assert("/EFI/systemd"@[5] != "/EFI/opensuse"@[5]);
    }
}

/// systemd-boot is favoured unless only GRUB2 is found: whenever systemd-boot's
/// binary exists it is the bootloader binary, whether or not GRUB2's exists;
/// GRUB2's binary is the bootloader only when systemd-boot's is absent.
pub proof fn law_sdboot_preferred(
    fs: Map<Seq<char>, Option<Seq<u8>>>,
    snapshot: u64,
    firmware_arch: Seq<char>,
    arch: Seq<char>,
    prefix: Option<Seq<char>>,
)
    ensures
        fs.dom().contains(spec_find_sdboot(fs, snapshot, firmware_arch, prefix))
            ==> spec_find_bootloader(fs, snapshot, firmware_arch, arch, prefix) == Ok::<
            Seq<char>,
            Seq<char>,
        >(spec_find_sdboot(fs, snapshot, firmware_arch, prefix)),
        spec_find_bootloader(fs, snapshot, firmware_arch, arch, prefix) == Ok::<Seq<char>, Seq<char>>(
            spec_find_grub2(fs, snapshot, arch, prefix),
        ) ==> !fs.dom().contains(spec_find_sdboot(fs, snapshot, firmware_arch, prefix)),
{
    lemma_sdboot_grub2_paths_differ(fs, snapshot, firmware_arch, arch, prefix);
}

/// Joining two different relative paths onto the same base gives different paths.
proof fn lemma_join_relative_differ(base: Seq<char>, a: Seq<char>, b: Seq<char>)
    requires
        a.len() > 0 && a[0] != '/',
        b.len() > 0 && b[0] != '/',
        a != b,
    ensures
        join_path(base, a) != join_path(base, b),
{
    let head = if base.len() > 0 && base.last() != '/' { base + seq!['/'] } else { base };
    assert(join_path(base, a) =~= head + a);
    assert(join_path(base, b) =~= head + b);
    if head + a == head + b {
        assert((head + a).subrange(head.len() as int, (head + a).len() as int) =~= a);
        assert((head + b).subrange(head.len() as int, (head + b).len() as int) =~= b);
    }
}

/// systemd-boot's binary and GRUB2's binary are never looked for at the same path.
proof fn lemma_sdboot_grub2_paths_differ(
    fs: Map<Seq<char>, Option<Seq<u8>>>,
    snapshot: u64,
    firmware_arch: Seq<char>,
    arch: Seq<char>,
    prefix: Option<Seq<char>>,
)
    ensures
        spec_find_sdboot(fs, snapshot, firmware_arch, prefix) != spec_find_grub2(fs, snapshot, arch, prefix),
{
    reveal_strlit("usr/lib/systemd-boot/systemd-boot");
    reveal_strlit("usr/lib/systemd/boot/efi/systemd-boot");
    reveal_strlit("usr/share/efi/");
    reveal_strlit("usr/share/grub2/");
    let root = snapshot_root(snapshot, prefix);
    let s1 = "usr/lib/systemd-boot/systemd-boot"@ + firmware_arch + ".efi"@;
    let s2 = "usr/lib/systemd/boot/efi/systemd-boot"@ + firmware_arch + ".efi"@;
    let g1 = "usr/share/efi/"@ + arch + "/grub.efi"@;
    let g2 = "usr/share/grub2/"@ + arch + "-efi/grub.efi"@;
    assert(s1[0] == 'u' && s1[5] == 'i');
    assert(s2[0] == 'u' && s2[5] == 'i');
    assert(g1[0] == 'u' && g1[5] == 'h');
    assert(g2[0] == 'u' && g2[5] == 'h');
    lemma_join_relative_differ(root, s1, g1);
    lemma_join_relative_differ(root, s1, g2);
    lemma_join_relative_differ(root, s2, g1);
    lemma_join_relative_differ(root, s2, g2);
}

/// A version is reported only for a bootloader binary that exists and whose
/// contents are known, and it is the version found in those contents.
pub proof fn law_version_comes_from_file(
    fs: Map<Seq<char>, Option<Seq<u8>>>,
    snapshot: u64,
    firmware_arch: Seq<char>,
    shimdir: Seq<char>,
    boot_root: Seq<char>,
    boot_dst: Seq<char>,
    filename: Option<Seq<char>>,
    prefix: Option<Seq<char>>,
    arch: Seq<char>,
)
    ensures
        spec_bootloader_version(fs, snapshot, firmware_arch, shimdir, boot_root, boot_dst, filename, prefix, arch) is Ok
            ==> ({
            let p = spec_bootloader_file(fs, snapshot, firmware_arch, shimdir, boot_root, boot_dst, filename, prefix, arch)->Ok_0;
            &&& spec_bootloader_file(fs, snapshot, firmware_arch, shimdir, boot_root, boot_dst, filename, prefix, arch) is Ok
            &&& fs.dom().contains(p)
            &&& fs[p] is Some
            &&& spec_version_in(fs[p]->Some_0) == spec_bootloader_version(fs, snapshot, firmware_arch, shimdir, boot_root, boot_dst, filename, prefix, arch)
        }),
{
}


/// Every path that the bootloader version and installation checks consult:
/// both places of each bootloader binary in the snapshot, the shim, the
/// possible binaries on the ESP, the installation flag and, when given,
/// `filename`.
pub open spec fn spec_probe_paths(
    snapshot: u64,
    firmware_arch: Seq<char>,
    shimdir: Seq<char>,
    boot_root: Seq<char>,
    boot_dst: Seq<char>,
    filename: Option<Seq<char>>,
    prefix: Option<Seq<char>>,
    arch: Seq<char>,
) -> Seq<Seq<char>> {
    let pre = prefix_text(prefix);
    let dir = pre + boot_root + boot_dst;
    let sd1 = sdboot_primary_path(snapshot, firmware_arch, prefix);
    let sd2 = sdboot_fallback_path(snapshot, firmware_arch, prefix);
    let g1 = grub2_primary_path(snapshot, arch, prefix);
    let g2 = grub2_fallback_path(snapshot, arch, prefix);
    let base = seq![
        sd1,
        sd2,
        g1,
        g2,
        pre + shimdir + "/shim.efi"@,
        dir + "/grub.efi"@,
        dir + "/"@ + final_segment(sd1),
        dir + "/"@ + final_segment(sd2),
        dir + "/"@ + final_segment(g1),
        dir + "/"@ + final_segment(g2),
        installed_flag_path(prefix, boot_root, boot_dst),
    ];
    match filename {
        Some(f) => base.push(f),
        None => base,
    }
}

/// Two views agree on `paths`: each of them exists in both or in neither, with
/// the same known contents.
pub open spec fn views_agree_on(
    fs1: Map<Seq<char>, Option<Seq<u8>>>,
    fs2: Map<Seq<char>, Option<Seq<u8>>>,
    paths: Seq<Seq<char>>,
) -> bool {
    forall|i: int|
        0 <= i < paths.len() ==> (fs1.dom().contains(#[trigger] paths[i]) <==> fs2.dom().contains(
            paths[i],
        )) && (fs1.dom().contains(paths[i]) ==> fs1[paths[i]] == fs2[paths[i]])
}

/// The paths to look at before asking for the bootloader version or whether
/// it is installed (see `spec_probe_paths`).
pub fn bootloader_probe_paths(
    snapshot: u64,
    firmware_arch: &str,
    shimdir: &str,
    boot_root: &str,
    boot_dst: &str,
    filename: Option<&str>,
    override_prefix: Option<&str>,
    arch: &str,
) -> (r: Vec<String>)
    ensures
        r@.map_values(|s: String| s@) == spec_probe_paths(
            snapshot,
            firmware_arch@,
            shimdir@,
            boot_root@,
            boot_dst@,
            opt_view(filename),
            opt_view(override_prefix),
            arch@,
        ),
{
    let prefix: &str = match override_prefix {
        Some(p) => p,
        None => "",
    };
    let (sd1, sd2) = sdboot_candidates(snapshot, firmware_arch, override_prefix);
    let (g1, g2) = grub2_candidates(snapshot, override_prefix, arch);
    let dir = concat3(prefix, boot_root, boot_dst);
    let shim = concat3(prefix, shimdir, "/shim.efi");
    let grub_target = concat3(dir.as_str(), "/grub.efi", "");
    let n1 = file_name(sd1.as_str());
    let n2 = file_name(sd2.as_str());
    let n3 = file_name(g1.as_str());
    let n4 = file_name(g2.as_str());
    let t1 = concat3(dir.as_str(), "/", n1.as_str());
    let t2 = concat3(dir.as_str(), "/", n2.as_str());
    let t3 = concat3(dir.as_str(), "/", n3.as_str());
    let t4 = concat3(dir.as_str(), "/", n4.as_str());
    let flag = concat3(dir.as_str(), "/installed_by_sdbootutil", "");
    proof {
        reveal_strlit("");
    }
    let mut r: Vec<String> = Vec::new();
    r.push(sd1);
    r.push(sd2);
    r.push(g1);
    r.push(g2);
    r.push(shim);
    r.push(grub_target);
    r.push(t1);
    r.push(t2);
    r.push(t3);
    r.push(t4);
    r.push(flag);
    let ghost base = r@;
    match filename {
        Some(f) => r.push(f.to_owned()),
        None => {},
    }
    proof {
        let expected = spec_probe_paths(
            snapshot,
            firmware_arch@,
            shimdir@,
            boot_root@,
            boot_dst@,
            opt_view(filename),
            opt_view(override_prefix),
            arch@,
        );
        assert(r@.map_values(|s: String| s@) =~= expected);
    }
    r
}

/// The version and installation checks read nothing but the probe paths: two
/// views that agree on them give the same answers.
pub proof fn law_checks_read_only_probe_paths(
    fs1: Map<Seq<char>, Option<Seq<u8>>>,
    fs2: Map<Seq<char>, Option<Seq<u8>>>,
    snapshot: u64,
    firmware_arch: Seq<char>,
    shimdir: Seq<char>,
    boot_root: Seq<char>,
    boot_dst: Seq<char>,
    filename: Option<Seq<char>>,
    prefix: Option<Seq<char>>,
    arch: Seq<char>,
)
    requires
        views_agree_on(
            fs1,
            fs2,
            spec_probe_paths(snapshot, firmware_arch, shimdir, boot_root, boot_dst, filename, prefix, arch),
        ),
    ensures
        spec_bootloader_version(fs1, snapshot, firmware_arch, shimdir, boot_root, boot_dst, filename, prefix, arch)
            == spec_bootloader_version(fs2, snapshot, firmware_arch, shimdir, boot_root, boot_dst, filename, prefix, arch),
        fs1.dom().contains(installed_flag_path(prefix, boot_root, boot_dst)) == fs2.dom().contains(
            installed_flag_path(prefix, boot_root, boot_dst),
        ),
        spec_find_bootloader(fs1, snapshot, firmware_arch, arch, prefix) == spec_find_bootloader(
            fs2,
            snapshot,
            firmware_arch,
            arch,
            prefix,
        ),
        spec_determine_boot_dst(fs1, snapshot, firmware_arch, arch, prefix) == spec_determine_boot_dst(
            fs2,
            snapshot,
            firmware_arch,
            arch,
            prefix,
        ),
{
    let paths = spec_probe_paths(snapshot, firmware_arch, shimdir, boot_root, boot_dst, filename, prefix, arch);
    let pre = prefix_text(prefix);
    let dir = pre + boot_root + boot_dst;
    let sd1 = sdboot_primary_path(snapshot, firmware_arch, prefix);
    let sd2 = sdboot_fallback_path(snapshot, firmware_arch, prefix);
    let g1 = grub2_primary_path(snapshot, arch, prefix);
    let g2 = grub2_fallback_path(snapshot, arch, prefix);
    assert(paths[0] == sd1);
    assert(paths[1] == sd2);
    assert(paths[2] == g1);
    assert(paths[3] == g2);
    assert(paths[4] == pre + shimdir + "/shim.efi"@);
    assert(paths[5] == dir + "/grub.efi"@);
    assert(paths[6] == dir + "/"@ + final_segment(sd1));
    assert(paths[7] == dir + "/"@ + final_segment(sd2));
    assert(paths[8] == dir + "/"@ + final_segment(g1));
    assert(paths[9] == dir + "/"@ + final_segment(g2));
    assert(paths[10] == installed_flag_path(prefix, boot_root, boot_dst));
    if let Some(f) = filename {
        assert(paths[11] == f);
    }
    assert(dir + "/grub.efi"@ == pre + boot_root + boot_dst + "/grub.efi"@);
    assert(dir + "/"@ + final_segment(sd1) == pre + boot_root + boot_dst + "/"@ + final_segment(sd1));
    assert(dir + "/"@ + final_segment(sd2) == pre + boot_root + boot_dst + "/"@ + final_segment(sd2));
    assert(dir + "/"@ + final_segment(g1) == pre + boot_root + boot_dst + "/"@ + final_segment(g1));
    assert(dir + "/"@ + final_segment(g2) == pre + boot_root + boot_dst + "/"@ + final_segment(g2));
}


/// Where systemd-boot's binary is taken from: its first place whenever a file
/// is there (whatever is at the fallback place), the fallback place otherwise.
pub proof fn law_find_sdboot_prefers_first_place(
    fs: Map<Seq<char>, Option<Seq<u8>>>,
    snapshot: u64,
    firmware_arch: Seq<char>,
    prefix: Option<Seq<char>>,
)
    ensures
        fs.dom().contains(sdboot_primary_path(snapshot, firmware_arch, prefix)) ==> spec_find_sdboot(
            fs,
            snapshot,
            firmware_arch,
            prefix,
        ) == sdboot_primary_path(snapshot, firmware_arch, prefix),
        !fs.dom().contains(sdboot_primary_path(snapshot, firmware_arch, prefix)) ==> spec_find_sdboot(
            fs,
            snapshot,
            firmware_arch,
            prefix,
        ) == sdboot_fallback_path(snapshot, firmware_arch, prefix),
        fs.dom().contains(spec_find_sdboot(fs, snapshot, firmware_arch, prefix)) <==> (fs.dom().contains(
            sdboot_primary_path(snapshot, firmware_arch, prefix),
        ) || fs.dom().contains(sdboot_fallback_path(snapshot, firmware_arch, prefix))),
{
}

/// Where GRUB2's binary is taken from: its first place whenever a file is
/// there (whatever is at the fallback place), the fallback place otherwise.
pub proof fn law_find_grub2_prefers_first_place(
    fs: Map<Seq<char>, Option<Seq<u8>>>,
    snapshot: u64,
    arch: Seq<char>,
    prefix: Option<Seq<char>>,
)
    ensures
        fs.dom().contains(grub2_primary_path(snapshot, arch, prefix)) ==> spec_find_grub2(
            fs,
            snapshot,
            arch,
            prefix,
        ) == grub2_primary_path(snapshot, arch, prefix),
        !fs.dom().contains(grub2_primary_path(snapshot, arch, prefix)) ==> spec_find_grub2(
            fs,
            snapshot,
            arch,
            prefix,
        ) == grub2_fallback_path(snapshot, arch, prefix),
        fs.dom().contains(spec_find_grub2(fs, snapshot, arch, prefix)) <==> (fs.dom().contains(
            grub2_primary_path(snapshot, arch, prefix),
        ) || fs.dom().contains(grub2_fallback_path(snapshot, arch, prefix))),
{
}

/// A systemd-boot binary is in the snapshot: at its first or its fallback place.
pub open spec fn sdboot_present(
    fs: Map<Seq<char>, Option<Seq<u8>>>,
    snapshot: u64,
    firmware_arch: Seq<char>,
    prefix: Option<Seq<char>>,
) -> bool {
    fs.dom().contains(sdboot_primary_path(snapshot, firmware_arch, prefix)) || fs.dom().contains(
        sdboot_fallback_path(snapshot, firmware_arch, prefix),
    )
}

/// A GRUB2 binary is in the snapshot: at its first or its fallback place.
pub open spec fn grub2_present(
    fs: Map<Seq<char>, Option<Seq<u8>>>,
    snapshot: u64,
    arch: Seq<char>,
    prefix: Option<Seq<char>>,
) -> bool {
    fs.dom().contains(grub2_primary_path(snapshot, arch, prefix)) || fs.dom().contains(
        grub2_fallback_path(snapshot, arch, prefix),
    )
}

/// Which bootloader is installed, decided by the binaries the snapshot holds:
/// systemd-boot counts as installed exactly when one of its binaries is there
/// and no GRUB2 binary is; GRUB2 exactly when one of its binaries is there.
/// A GRUB2 binary therefore always makes the boot destination `/EFI/opensuse`,
/// and no bootloader binary at all gives an error. The bootloader binary is
/// systemd-boot's whenever one is there, GRUB2's when only that is there.
pub proof fn law_detection_by_binaries(
    fs: Map<Seq<char>, Option<Seq<u8>>>,
    snapshot: u64,
    firmware_arch: Seq<char>,
    arch: Seq<char>,
    prefix: Option<Seq<char>>,
)
    ensures
        spec_is_sdboot(fs, snapshot, firmware_arch, arch, prefix) == (sdboot_present(
            fs,
            snapshot,
            firmware_arch,
            prefix,
        ) && !grub2_present(fs, snapshot, arch, prefix)),
        spec_is_grub2(fs, snapshot, arch, prefix) == grub2_present(fs, snapshot, arch, prefix),
        grub2_present(fs, snapshot, arch, prefix) ==> spec_determine_boot_dst(
            fs,
            snapshot,
            firmware_arch,
            arch,
            prefix,
        ) == Ok::<Seq<char>, Seq<char>>("/EFI/opensuse"@),
        sdboot_present(fs, snapshot, firmware_arch, prefix) && !grub2_present(fs, snapshot, arch, prefix)
            ==> spec_determine_boot_dst(fs, snapshot, firmware_arch, arch, prefix) == Ok::<
            Seq<char>,
            Seq<char>,
        >("/EFI/systemd"@),
        !sdboot_present(fs, snapshot, firmware_arch, prefix) && !grub2_present(fs, snapshot, arch, prefix)
            ==> spec_determine_boot_dst(fs, snapshot, firmware_arch, arch, prefix) == Err::<
            Seq<char>,
            Seq<char>,
        >("Unsupported bootloader or unable to determine bootloader"@),
        sdboot_present(fs, snapshot, firmware_arch, prefix) ==> spec_find_bootloader(
            fs,
            snapshot,
            firmware_arch,
            arch,
            prefix,
        ) == Ok::<Seq<char>, Seq<char>>(
            if fs.dom().contains(sdboot_primary_path(snapshot, firmware_arch, prefix)) {
                sdboot_primary_path(snapshot, firmware_arch, prefix)
            } else {
                sdboot_fallback_path(snapshot, firmware_arch, prefix)
            },
        ),
        !sdboot_present(fs, snapshot, firmware_arch, prefix) && grub2_present(fs, snapshot, arch, prefix)
            ==> spec_find_bootloader(fs, snapshot, firmware_arch, arch, prefix) == Ok::<
            Seq<char>,
            Seq<char>,
        >(
            if fs.dom().contains(grub2_primary_path(snapshot, arch, prefix)) {
                grub2_primary_path(snapshot, arch, prefix)
            } else {
                grub2_fallback_path(snapshot, arch, prefix)
            },
        ),
        !sdboot_present(fs, snapshot, firmware_arch, prefix) && !grub2_present(fs, snapshot, arch, prefix)
            ==> spec_find_bootloader(fs, snapshot, firmware_arch, arch, prefix) == Err::<
            Seq<char>,
            Seq<char>,
        >("Bootloader not detected"@),
{
    law_find_sdboot_prefers_first_place(fs, snapshot, firmware_arch, prefix);
    law_find_grub2_prefers_first_place(fs, snapshot, arch, prefix);
}

/// Which file on the ESP the version is read from: `filename` when it is given;
/// otherwise `<prefix><boot_root><boot_dst>/grub.efi` whenever the shim
/// `<prefix><shimdir>/shim.efi` exists, whatever bootloader the snapshot
/// holds; otherwise the file in `<prefix><boot_root><boot_dst>` named like the
/// snapshot's bootloader binary, and an error when the snapshot has none.
pub proof fn law_bootloader_file_choice(
    fs: Map<Seq<char>, Option<Seq<u8>>>,
    snapshot: u64,
    firmware_arch: Seq<char>,
    shimdir: Seq<char>,
    boot_root: Seq<char>,
    boot_dst: Seq<char>,
    filename: Option<Seq<char>>,
    prefix: Option<Seq<char>>,
    arch: Seq<char>,
)
    ensures
        ({
            let pre = prefix_text(prefix);
            let file = spec_bootloader_file(fs, snapshot, firmware_arch, shimdir, boot_root, boot_dst, filename, prefix, arch);
            &&& filename matches Some(f) ==> file == Ok::<Seq<char>, Seq<char>>(f)
            &&& (filename is None && fs.dom().contains(pre + shimdir + "/shim.efi"@)) ==> file == Ok::<
                Seq<char>,
                Seq<char>,
            >(pre + boot_root + boot_dst + "/grub.efi"@)
            &&& (filename is None && !fs.dom().contains(pre + shimdir + "/shim.efi"@) && sdboot_present(fs, snapshot, firmware_arch, prefix))
                ==> file == Ok::<Seq<char>, Seq<char>>(
                pre + boot_root + boot_dst + "/"@ + final_segment(
                    if fs.dom().contains(sdboot_primary_path(snapshot, firmware_arch, prefix)) {
                        sdboot_primary_path(snapshot, firmware_arch, prefix)
                    } else {
                        sdboot_fallback_path(snapshot, firmware_arch, prefix)
                    },
                ),
            )
            &&& (filename is None && !fs.dom().contains(pre + shimdir + "/shim.efi"@) && !sdboot_present(fs, snapshot, firmware_arch, prefix)
                && grub2_present(fs, snapshot, arch, prefix)) ==> file == Ok::<Seq<char>, Seq<char>>(
                pre + boot_root + boot_dst + "/"@ + final_segment(
                    if fs.dom().contains(grub2_primary_path(snapshot, arch, prefix)) {
                        grub2_primary_path(snapshot, arch, prefix)
                    } else {
                        grub2_fallback_path(snapshot, arch, prefix)
                    },
                ),
            )
            &&& (filename is None && !fs.dom().contains(pre + shimdir + "/shim.efi"@) && !sdboot_present(fs, snapshot, firmware_arch, prefix)
                && !grub2_present(fs, snapshot, arch, prefix)) ==> file == Err::<Seq<char>, Seq<char>>(
                "Bootloader not detected"@,
            )
        }),
{
    law_detection_by_binaries(fs, snapshot, firmware_arch, arch, prefix);
}

/// What the version check answers for the file chosen: that it does not exist
/// (naming it), that its contents cannot be read, or the version found in its
/// contents; and when no file can be chosen, the reason.
pub proof fn law_bootloader_version_of_file(
    fs: Map<Seq<char>, Option<Seq<u8>>>,
    snapshot: u64,
    firmware_arch: Seq<char>,
    shimdir: Seq<char>,
    boot_root: Seq<char>,
    boot_dst: Seq<char>,
    filename: Option<Seq<char>>,
    prefix: Option<Seq<char>>,
    arch: Seq<char>,
)
    ensures
        ({
            let file = spec_bootloader_file(fs, snapshot, firmware_arch, shimdir, boot_root, boot_dst, filename, prefix, arch);
            let version = spec_bootloader_version(fs, snapshot, firmware_arch, shimdir, boot_root, boot_dst, filename, prefix, arch);
            &&& file matches Err(e) ==> version == Err::<Seq<char>, Seq<char>>(e)
            &&& file matches Ok(p) ==> {
                &&& !fs.dom().contains(p) ==> version == Err::<Seq<char>, Seq<char>>(
                    "File does not exist: "@ + p,
                )
                &&& (fs.dom().contains(p) && fs[p] is None) ==> version == Err::<Seq<char>, Seq<char>>(
                    "Failed to read file"@,
                )
                &&& (fs.dom().contains(p) && fs[p] is Some) ==> version == spec_version_in(fs[p]->Some_0)
            }
        }),
{
}

/// A systemd-boot version written into a binary between its markers is read
/// back: in `pre ++ "LoaderInfo: systemd-boot " ++ v ++ " ####" ++ rest`, when
/// that start marker is the first one and that end marker the first after it,
/// and `v` is valid UTF-8, the version is the text `v` encodes.
pub proof fn law_version_in_reads_sdboot_marker(pre: Seq<u8>, v: Seq<u8>, rest: Seq<u8>)
    requires
        first_occurrence(pre + sdboot_version_start(), sdboot_version_start()) == Some(pre.len() as int),
        first_occurrence(v + sdboot_version_end(), sdboot_version_end()) == Some(v.len() as int),
        valid_utf8(v),
    ensures
        spec_version_in(pre + sdboot_version_start() + v + sdboot_version_end() + rest) == Ok::<
            Seq<char>,
            Seq<char>,
        >(decode_utf8(v)),
{
    law_find_version_reads_back(pre, sdboot_version_start(), v, sdboot_version_end(), rest);
}

/// With the shim installed and no file given, the version is read from
/// `<prefix><boot_root><boot_dst>/grub.efi`, whatever bootloader the snapshot
/// holds: a systemd-boot version written there is what comes back.
pub proof fn law_shim_version_comes_from_grub_efi(
    fs: Map<Seq<char>, Option<Seq<u8>>>,
    snapshot: u64,
    firmware_arch: Seq<char>,
    shimdir: Seq<char>,
    boot_root: Seq<char>,
    boot_dst: Seq<char>,
    prefix: Option<Seq<char>>,
    arch: Seq<char>,
    pre: Seq<u8>,
    v: Seq<u8>,
    rest: Seq<u8>,
)
    requires
        fs.dom().contains(prefix_text(prefix) + shimdir + "/shim.efi"@),
        fs.dom().contains(prefix_text(prefix) + boot_root + boot_dst + "/grub.efi"@),
        fs[prefix_text(prefix) + boot_root + boot_dst + "/grub.efi"@] == Some(
            pre + sdboot_version_start() + v + sdboot_version_end() + rest,
        ),
        first_occurrence(pre + sdboot_version_start(), sdboot_version_start()) == Some(pre.len() as int),
        first_occurrence(v + sdboot_version_end(), sdboot_version_end()) == Some(v.len() as int),
        valid_utf8(v),
    ensures
        spec_bootloader_version(fs, snapshot, firmware_arch, shimdir, boot_root, boot_dst, None, prefix, arch)
            == Ok::<Seq<char>, Seq<char>>(decode_utf8(v)),
{
    law_bootloader_file_choice(fs, snapshot, firmware_arch, shimdir, boot_root, boot_dst, None, prefix, arch);
    law_bootloader_version_of_file(fs, snapshot, firmware_arch, shimdir, boot_root, boot_dst, None, prefix, arch);
    law_version_in_reads_sdboot_marker(pre, v, rest);
}


/// The directory under which snapshot roots live: the prefix, or `/.snapshots`,
/// followed by a `/` unless it is empty or already ends in one.
pub open spec fn snapshots_base(prefix: Option<Seq<char>>) -> Seq<char> {
    let base = match prefix {
        Some(p) => p,
        None => "/.snapshots"@,
    };
    if base.len() > 0 && base.last() != '/' {
        base + seq!['/']
    } else {
        base
    }
}

/// The shape of the paths searched: the snapshot root is
/// `<base>/<snapshot number>/snapshot` (the base being the prefix or
/// `/.snapshots`), and each bootloader binary is looked for at a fixed place
/// below it, named after the firmware or machine architecture.
pub proof fn law_snapshot_path_shapes(
    snapshot: u64,
    firmware_arch: Seq<char>,
    arch: Seq<char>,
    prefix: Option<Seq<char>>,
)
    ensures
        snapshot_root(snapshot, prefix) == snapshots_base(prefix) + decimal(snapshot as nat)
            + "/snapshot"@,
        sdboot_primary_path(snapshot, firmware_arch, prefix) == snapshot_root(snapshot, prefix)
            + "/usr/lib/systemd-boot/systemd-boot"@ + firmware_arch + ".efi"@,
        sdboot_fallback_path(snapshot, firmware_arch, prefix) == snapshot_root(snapshot, prefix)
            + "/usr/lib/systemd/boot/efi/systemd-boot"@ + firmware_arch + ".efi"@,
        grub2_primary_path(snapshot, arch, prefix) == snapshot_root(snapshot, prefix) + "/usr/share/efi/"@
            + arch + "/grub.efi"@,
        grub2_fallback_path(snapshot, arch, prefix) == snapshot_root(snapshot, prefix)
            + "/usr/share/grub2/"@ + arch + "-efi/grub.efi"@,
        snapshots_base(None) == "/.snapshots/"@,
{
    reveal_strlit("/.snapshots");
    reveal_strlit("/.snapshots/");
    reveal_strlit("snapshot");
    reveal_strlit("/snapshot");
    reveal_strlit("usr/lib/systemd-boot/systemd-boot");
    reveal_strlit("/usr/lib/systemd-boot/systemd-boot");
    reveal_strlit("usr/lib/systemd/boot/efi/systemd-boot");
    reveal_strlit("/usr/lib/systemd/boot/efi/systemd-boot");
    reveal_strlit("usr/share/efi/");
    reveal_strlit("/usr/share/efi/");
    reveal_strlit("usr/share/grub2/");
    reveal_strlit("/usr/share/grub2/");
    let dec = decimal(snapshot as nat);
    crate::number::lemma_decimal_digits(snapshot as nat);
    assert(crate::number::is_digit(dec[0]));
    let base = match prefix {
        Some(p) => p,
        None => "/.snapshots"@,
    };
    let numbered = join_path(base, dec);
    assert(numbered =~= snapshots_base(prefix) + dec);
    let root = snapshot_root(snapshot, prefix);
    assert(root =~= snapshots_base(prefix) + dec + "/snapshot"@);
    assert(root.last() == 't');
    assert(sdboot_primary_path(snapshot, firmware_arch, prefix) =~= root
        + "/usr/lib/systemd-boot/systemd-boot"@ + firmware_arch + ".efi"@);
    assert(sdboot_fallback_path(snapshot, firmware_arch, prefix) =~= root
        + "/usr/lib/systemd/boot/efi/systemd-boot"@ + firmware_arch + ".efi"@);
    assert(grub2_primary_path(snapshot, arch, prefix) =~= root + "/usr/share/efi/"@ + arch
        + "/grub.efi"@);
    assert(grub2_fallback_path(snapshot, arch, prefix) =~= root + "/usr/share/grub2/"@ + arch
        + "-efi/grub.efi"@);
    assert(snapshots_base(None) =~= "/.snapshots/"@);
}


/// The file on the ESP that is named after the snapshot's bootloader binary:
/// `systemd-boot<firmware arch>.efi` for systemd-boot, `grub.efi` for GRUB2
/// (when the architectures hold no `/`).
pub proof fn law_binary_file_names(
    snapshot: u64,
    firmware_arch: Seq<char>,
    arch: Seq<char>,
    prefix: Option<Seq<char>>,
)
    requires
        !firmware_arch.contains('/'),
        !arch.contains('/'),
    ensures
        final_segment(sdboot_primary_path(snapshot, firmware_arch, prefix)) == "systemd-boot"@
            + firmware_arch + ".efi"@,
        final_segment(sdboot_fallback_path(snapshot, firmware_arch, prefix)) == "systemd-boot"@
            + firmware_arch + ".efi"@,
        final_segment(grub2_primary_path(snapshot, arch, prefix)) == "grub.efi"@,
        final_segment(grub2_fallback_path(snapshot, arch, prefix)) == "grub.efi"@,
{
    law_snapshot_path_shapes(snapshot, firmware_arch, arch, prefix);
    reveal_strlit("/usr/lib/systemd-boot/systemd-boot");
    reveal_strlit("/usr/lib/systemd-boot/");
    reveal_strlit("/usr/lib/systemd/boot/efi/systemd-boot");
    reveal_strlit("/usr/lib/systemd/boot/efi/");
    reveal_strlit("systemd-boot");
    reveal_strlit(".efi");
    reveal_strlit("/usr/share/efi/");
    reveal_strlit("/usr/share/grub2/");
    reveal_strlit("/grub.efi");
    reveal_strlit("-efi/grub.efi");
    reveal_strlit("grub.efi");
    reveal_strlit("-efi/");
    let root = snapshot_root(snapshot, prefix);
    let sd_name = "systemd-boot"@ + firmware_arch + ".efi"@;
    assert(!sd_name.contains('/')) by {
        if sd_name.contains('/') {
            let i = choose|i: int| 0 <= i < sd_name.len() && sd_name[i] == '/';
            if 12 <= i < 12 + firmware_arch.len() {
                assert(firmware_arch[i - 12] == '/');
                assert(firmware_arch.contains('/'));
            }
        }
    }
    assert(!"grub.efi"@.contains('/'));
    let h1 = root + "/usr/lib/systemd-boot/"@;
    assert(sdboot_primary_path(snapshot, firmware_arch, prefix) =~= h1 + sd_name);
    law_final_segment_after_slash(h1, sd_name);
    let h2 = root + "/usr/lib/systemd/boot/efi/"@;
    assert(sdboot_fallback_path(snapshot, firmware_arch, prefix) =~= h2 + sd_name);
    law_final_segment_after_slash(h2, sd_name);
    let h3 = root + "/usr/share/efi/"@ + arch + "/"@;
    reveal_strlit("/");
    assert(grub2_primary_path(snapshot, arch, prefix) =~= h3 + "grub.efi"@);
    law_final_segment_after_slash(h3, "grub.efi"@);
    let h4 = root + "/usr/share/grub2/"@ + arch + "-efi/"@;
    assert(grub2_fallback_path(snapshot, arch, prefix) =~= h4 + "grub.efi"@);
    law_final_segment_after_slash(h4, "grub.efi"@);
}

} // verus!
