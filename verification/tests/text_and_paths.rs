use sdbootutil_fs::number::{decimal_string, parse_u64_chars};
use sdbootutil_fs::path::{file_name, join, path_with_extension};
use sdbootutil_fs::text::{find_first, str_chars};
use sdbootutil_fs::version::find_version;
use std::path::Path;

#[test]
fn decimal_string_values() {
    assert_eq!(decimal_string(0), "0");
    assert_eq!(decimal_string(7), "7");
    assert_eq!(decimal_string(42), "42");
    assert_eq!(decimal_string(1000), "1000");
    assert_eq!(decimal_string(u64::MAX), u64::MAX.to_string());
}

fn parse(s: &str) -> Option<u64> {
    let v = str_chars(s);
    parse_u64_chars(&v, 0, v.len())
}

#[test]
fn parse_u64_matches_std() {
    for s in ["0", "42", "+7", "007", "", "+", "-1", "4a", "18446744073709551615", "18446744073709551616", " 1"] {
        assert_eq!(parse(s), s.parse::<u64>().ok(), "input {:?}", s);
    }
}

#[test]
fn decimal_parse_roundtrip_on_values() {
    for n in [0u64, 1, 9, 10, 99, 12345, u64::MAX - 1, u64::MAX] {
        assert_eq!(parse(&decimal_string(n)), Some(n));
    }
}

#[test]
fn join_matches_std_path_join() {
    let cases = [
        ("/.snapshots", "42"),
        ("/tmp/", "x"),
        ("", "rel"),
        ("/a", "/abs"),
        ("a/b", "c/d"),
        ("/", "usr"),
    ];
    for (b, r) in cases {
        let expected = Path::new(b).join(r).to_string_lossy().into_owned();
        assert_eq!(join(b, r), expected, "join({:?}, {:?})", b, r);
    }
}

#[test]
fn file_name_is_last_segment() {
    assert_eq!(file_name("/a/b/grub.efi"), "grub.efi");
    assert_eq!(file_name("grub.efi"), "grub.efi");
    assert_eq!(file_name("/x/systemd-bootx64.efi"), "systemd-bootx64.efi");
}

#[test]
fn with_extension_replaces_extension() {
    assert_eq!(path_with_extension("/boot/efi/grub.efi", "bak"), "/boot/efi/grub.bak");
    assert_eq!(path_with_extension("/etc/kernel/cmdline", "bak"), "/etc/kernel/cmdline.bak");
}

#[test]
fn find_bytes_first_occurrence() {
    assert_eq!(find_first(b"abcabc", b"bc"), Some(1));
    assert_eq!(find_first(b"abcabc", b"x"), None);
    assert_eq!(find_first(b"ab", b"abc"), None);
    assert_eq!(find_first(b"abc", b""), Some(0));
    let hay = str_chars("x/.snapshots/1/.snapshots/2");
    let pat = str_chars("/.snapshots/");
    assert_eq!(find_first(hay.as_slice(), pat.as_slice()), Some(1));
}

#[test]
fn find_version_extracts_framed_text() {
    assert_eq!(find_version(b"aaSTART1.2ENDxxEND", b"START", b"END"), Some("1.2".to_string()));
    assert_eq!(find_version(b"START1.2", b"START", b"END"), None);
    assert_eq!(find_version(b"nothing", b"START", b"END"), None);
    // the end marker is searched after the start marker only
    assert_eq!(find_version(b"END START9END", b"START", b"END"), Some("9".to_string()));
    // empty version
    assert_eq!(find_version(b"STARTEND", b"START", b"END"), Some(String::new()));
    // invalid UTF-8 between the markers
    assert_eq!(find_version(b"START\xff\xfeEND", b"START", b"END"), None);
    // multi-byte UTF-8 is decoded
    assert_eq!(find_version("S\u{e9}tE".as_bytes(), b"S", b"E"), Some("\u{e9}t".to_string()));
}

#[test]
fn find_version_reads_back_written_version() {
    let pre = b"header bytes".to_vec();
    let start = b"LoaderInfo: systemd-boot ".to_vec();
    let v = "257.1-1.1".as_bytes().to_vec();
    let end = b" ####".to_vec();
    let rest = b" footer".to_vec();
    let content = [pre, start.clone(), v, end.clone(), rest].concat();
    assert_eq!(find_version(&content, &start, &end), Some("257.1-1.1".to_string()));
}
