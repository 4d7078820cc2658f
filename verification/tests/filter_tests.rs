use proc_watch::filter::filter;
use proc_watch::mapping::{qualifies, MappingEntry};

fn entry(path: &str, regular_file: bool) -> MappingEntry {
    MappingEntry::backed(path.to_string(), regular_file)
}

#[test]
fn duplicate_other_extension_and_missing_file_are_dropped() {
    let entries = vec![
        entry("/lib/libc.so", true),
        entry("/lib/libc.so", true),
        entry("/tmp/data.txt", true),
        entry("/lib/missing.so", false),
    ];
    let libraries = filter(&entries);
    assert_eq!(libraries.to_vec(), vec!["/lib/libc.so".to_string()]);
    assert_eq!(libraries.len(), 1);
}

#[test]
fn filter_of_nothing_is_empty() {
    let libraries = filter(&Vec::new());
    assert!(libraries.is_empty());
}

#[test]
fn anonymous_rows_are_skipped() {
    let entries = vec![MappingEntry::anonymous(), entry("/lib/libm.so", true), MappingEntry::anonymous()];
    assert_eq!(filter(&entries).to_vec(), vec!["/lib/libm.so".to_string()]);
}

#[test]
fn filter_result_has_no_duplicates_and_only_libraries() {
    let entries = vec![
        entry("/usr/lib/libz.so", true),
        entry("/usr/lib/libz.so.1", true),
        entry("/usr/lib/libz.so", true),
        entry("/usr/lib/liby.so", true),
        entry("[heap]", false),
        entry("/usr/lib/libz.so", false),
        entry("/usr/lib/liby.so", true),
    ];
    let paths = filter(&entries).to_vec();
    assert_eq!(paths, vec!["/usr/lib/libz.so".to_string(), "/usr/lib/liby.so".to_string()]);
    for (i, p) in paths.iter().enumerate() {
        assert!(p.ends_with(".so"));
        assert!(!paths[..i].contains(p));
        assert!(entries.iter().any(|e| e.regular_file && e.path.as_ref() == Some(p)));
    }
}

#[test]
fn a_path_seen_both_as_file_and_not_is_kept() {
    let entries = vec![entry("/lib/libc.so", false), entry("/lib/libc.so", true)];
    assert_eq!(filter(&entries).to_vec(), vec!["/lib/libc.so".to_string()]);
}

#[test]
fn the_extension_is_case_sensitive() {
    let entries = vec![entry("/lib/libc.SO", true), entry("/lib/libc.So", true), entry("/lib/libc.sO", true)];
    assert!(filter(&entries).is_empty());
}

#[test]
fn the_extension_must_be_exactly_so() {
    let entries = vec![
        entry("/lib/libc.so.6", true),
        entry("/lib/libc.soo", true),
        entry("/lib/libc.s", true),
        entry("/lib/libcso", true),
        entry("/lib/libc.so (deleted)", true),
        entry("/lib/libc.", true),
        entry("/lib.so/libc", true),
    ];
    assert!(filter(&entries).is_empty());
}

#[test]
fn a_bare_name_is_not_its_own_extension() {
    assert_eq!(entry("so", true).library(), None);
    assert_eq!(entry("/lib/so", true).library(), None);
    assert_eq!(entry(".so", true).library(), None);
    assert_eq!(entry("/lib/.so", true).library(), None);
}

#[test]
fn the_extension_is_what_follows_the_last_dot_of_the_file_name() {
    assert_eq!(entry("a.so", true).library(), Some("a.so".to_string()));
    assert_eq!(entry("/lib/lib.c.so", true).library(), Some("/lib/lib.c.so".to_string()));
    assert_eq!(entry("/lib/..so", true).library(), Some("/lib/..so".to_string()));
    assert_eq!(entry("/opt/my libs/x.so", true).library(), Some("/opt/my libs/x.so".to_string()));
}

#[test]
fn library_agrees_with_the_standard_library_on_the_extension() {
    let paths = [
        "/lib/libc.so", "/lib/libc.so/", "/lib/libc.so/.", "/lib/libc.so/..", "libc.so", "so", ".so",
        "/", "", "/lib/x.so.1", "/lib/x.SO", "x..so", "/a.so/b", "/a/b.so//", "[vdso]", "/lib/é.so",
    ];
    for p in paths {
        let expected = std::path::Path::new(p).extension().map(|e| e == "so").unwrap_or(false);
        assert_eq!(entry(p, true).library().is_some(), expected);
        assert_eq!(entry(p, false).library(), None);
    }
}

#[test]
fn library_returns_the_path_unchanged() {
    assert_eq!(entry("/usr/lib/libssl.so", true).library(), Some("/usr/lib/libssl.so".to_string()));
    assert_eq!(entry("/usr/lib/libssl.so", false).library(), None);
    assert_eq!(MappingEntry::anonymous().library(), None);
}

#[test]
fn qualifies_needs_a_regular_file_and_the_extension_so() {
    assert!(qualifies(true, &Some("so".to_string())));
    assert!(!qualifies(false, &Some("so".to_string())));
    assert!(!qualifies(true, &None));
    assert!(!qualifies(false, &None));
    assert!(!qualifies(true, &Some("SO".to_string())));
    assert!(!qualifies(true, &Some("".to_string())));
    assert!(!qualifies(true, &Some("so.1".to_string())));
    assert!(!qualifies(true, &Some("txt".to_string())));
}

#[test]
fn anonymous_entry_has_no_path() {
    let e = MappingEntry::anonymous();
    assert_eq!(e.path, None);
    assert!(!e.regular_file);
}
