use carrybox::listing::RemoteEntry;
use carrybox::sources::{
    ftp_listing, ftp_target, list_ftp_lines, sftp_listing, sftp_target, SftpItem,
};

fn sftp_item(name: &str, permissions: Option<u32>, size: Option<u64>, mtime: Option<u32>) -> SftpItem {
    SftpItem { name: name.to_string(), permissions, size, mtime }
}

#[test]
fn posix_lines_are_listed() {
    let lines = vec![
        "total 8".to_string(),
        "drwxr-xr-x   2 root  root   4096 Nov  5  2018 .".to_string(),
        "drwxr-xr-x   2 root  root   4096 Nov  5  2018 ..".to_string(),
        "-rw-rw-r--   1 root  dialout  8192 Nov  5  2018 omar.txt".to_string(),
        "drwxr-xr-x   2 root  root   4096 Jan  1  1970 Musica".to_string(),
        "".to_string(),
    ];
    let v = list_ftp_lines(&lines);
    assert_eq!(v.len(), 2);
    assert_eq!(v[0].name, "Musica");
    assert!(v[0].is_dir);
    assert_eq!(v[0].modified, Some(0));
    assert_eq!(v[1].name, "omar.txt");
    assert!(!v[1].is_dir);
    assert_eq!(v[1].size, 8192);
    // 2018-11-05 00:00 UTC
    assert_eq!(v[1].modified, Some(1541376000));
}

#[test]
fn dos_lines_are_listed() {
    let lines = vec![
        "10-19-20  03:19PM             8192 omar.txt".to_string(),
        "04-08-14  03:09PM       <DIR>          docs".to_string(),
    ];
    let v = list_ftp_lines(&lines);
    assert_eq!(v.len(), 2);
    assert_eq!((v[0].name.as_str(), v[0].is_dir), ("docs", true));
    assert_eq!((v[1].name.as_str(), v[1].is_dir, v[1].size), ("omar.txt", false, 8192));
}

#[test]
fn lines_that_are_no_entries_are_passed_over() {
    let lines = vec!["total 8".to_string(), "hola".to_string()];
    assert!(list_ftp_lines(&lines).is_empty());
}

#[test]
fn parsed_entries_without_dots() {
    let e = |name: &str, is_dir: bool| {
        Some(RemoteEntry { name: name.to_string(), is_dir, size: 5, modified: Some(1) })
    };
    let parsed = vec![e("..", true), e("b", false), None, e(".", true), e("a", true), e("...", false)];
    let v = ftp_listing(&parsed);
    let names: Vec<&str> = v.iter().map(|x| x.name.as_str()).collect();
    assert_eq!(names, vec!["a", "...", "b"]);
    assert_eq!(v[2].size, 5);
    assert_eq!(v[2].modified, Some(1));
}

#[test]
fn targets() {
    assert_eq!(ftp_target(""), None);
    assert_eq!(ftp_target("/a"), Some("/a".to_string()));
    assert_eq!(sftp_target(""), ".");
    assert_eq!(sftp_target("/a"), "/a");
}

#[test]
fn sftp_entries_are_listed() {
    let items = vec![
        sftp_item(".", Some(0o040755), None, None),
        sftp_item("..", Some(0o040755), None, None),
        sftp_item("nota.txt", Some(0o100644), Some(12), Some(99)),
        sftp_item("carpeta", Some(0o040755), Some(4096), None),
        sftp_item("raro", None, None, Some(7)),
        sftp_item("enlace", Some(0o120777), Some(1), None),
    ];
    let v = sftp_listing(&items);
    let shown: Vec<(&str, bool, u64, Option<u64>)> =
        v.iter().map(|e| (e.name.as_str(), e.is_dir, e.size, e.modified)).collect();
    assert_eq!(
        shown,
        vec![
            ("carpeta", true, 4096, None),
            ("enlace", false, 1, None),
            ("nota.txt", false, 12, Some(99)),
            ("raro", false, 0, Some(7)),
        ]
    );
}

#[test]
fn a_mode_with_the_folder_bit_is_a_folder() {
    // A block device carries the folder's bit as well.
    let v = sftp_listing(&vec![sftp_item("sda", Some(0o060660), None, None)]);
    assert!(v[0].is_dir);
    let v = sftp_listing(&vec![sftp_item("x", Some(0o000755), None, None)]);
    assert!(!v[0].is_dir);
}
