use carrybox::path::{join_remote, norm_prefix};
use carrybox::text::{
    decimal_text, ends_with_slash, hex16_text, join2, join3, last_path_segment, same_text,
    signed_decimal_text, starts_with, trim_end_slashes, trim_start_slashes,
};

#[test]
fn slashes_are_trimmed() {
    assert_eq!(trim_start_slashes("//a/b/"), "a/b/");
    assert_eq!(trim_start_slashes("a/b"), "a/b");
    assert_eq!(trim_start_slashes("///"), "");
    assert_eq!(trim_start_slashes(""), "");
    assert_eq!(trim_end_slashes("/a/b//"), "/a/b");
    assert_eq!(trim_end_slashes("//"), "");
}

#[test]
fn trimming_again_changes_nothing() {
    let once = trim_start_slashes("//ñandú/x");
    assert_eq!(once, "ñandú/x");
    assert_eq!(trim_start_slashes(&once), once);
}

#[test]
fn last_segments() {
    assert_eq!(last_path_segment("a/b/c.txt"), "c.txt");
    assert_eq!(last_path_segment("c.txt"), "c.txt");
    assert_eq!(last_path_segment("a/b/"), "");
    assert_eq!(last_path_segment(""), "");
    assert_eq!(last_path_segment("/año"), "año");
}

#[test]
fn text_tests() {
    assert!(ends_with_slash("a/"));
    assert!(!ends_with_slash("a"));
    assert!(!ends_with_slash(""));
    assert!(starts_with("suppaftp::sync", "suppaftp"));
    assert!(!starts_with("supp", "suppaftp"));
    assert!(starts_with("x", ""));
    assert!(same_text("ftp", "ftp"));
    assert!(!same_text("ftp", "FTP"));
    assert_eq!(join2("a", "b"), "ab");
    assert_eq!(join3("a", "-", "b"), "a-b");
}

#[test]
fn numbers_in_decimal() {
    for n in [0u64, 7, 10, 99, 100, 21, 9500, u64::MAX] {
        assert_eq!(decimal_text(n), format!("{}", n));
        assert_eq!(decimal_text(n).parse::<u64>(), Ok(n));
    }
    for n in [0i64, -1, 5, -42, i64::MAX, i64::MIN] {
        assert_eq!(signed_decimal_text(n), format!("{}", n));
    }
}

#[test]
fn numbers_in_hexadecimal() {
    for n in [0u64, 1, 15, 16, 255, 0xdead_beef, u64::MAX] {
        assert_eq!(hex16_text(n), format!("{:016x}", n));
    }
}

#[test]
fn remote_paths_are_joined() {
    assert_eq!(join_remote("/a", "b"), "/a/b");
    assert_eq!(join_remote("/a/", "b"), "/a/b");
    assert_eq!(join_remote("/", "b"), "/b");
    assert_eq!(join_remote("", "b"), "/b");
    assert_eq!(last_path_segment(&join_remote("/x/y", "z.txt")), "z.txt");
}

#[test]
fn prefixes_are_normalised() {
    assert_eq!(norm_prefix(""), "");
    assert_eq!(norm_prefix("/"), "");
    assert_eq!(norm_prefix("a"), "a/");
    assert_eq!(norm_prefix("/a/b"), "a/b/");
    assert_eq!(norm_prefix("//a/b/"), "a/b/");
    assert_eq!(norm_prefix(&norm_prefix("/a/b")), norm_prefix("/a/b"));
    assert_eq!(norm_prefix("/x"), norm_prefix("x"));
}

#[test]
fn a_key_is_the_prefix_and_the_name() {
    for path in ["", "/", "a", "/a/b", "/a/b/", "//c"] {
        let key = trim_start_slashes(&join_remote(path, "n.txt"));
        assert_eq!(key, join2(&norm_prefix(path), "n.txt"));
        assert_eq!(norm_prefix(&join_remote(path, "d")), join3(&norm_prefix(path), "d", "/"));
    }
}
