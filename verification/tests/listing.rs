use carrybox::listing::{sort_entries, sort_local_entries, LocalEntry, RemoteEntry};

fn remote_entry(name: &str, is_dir: bool, size: u64) -> RemoteEntry {
    RemoteEntry { name: name.to_string(), is_dir, size, modified: None }
}

fn remote_names(entries: &[RemoteEntry]) -> Vec<String> {
    entries.iter().map(|e| e.name.clone()).collect()
}

#[test]
fn folders_come_first_then_names() {
    let mut v = vec![
        remote_entry("zeta.txt", false, 1),
        remote_entry("Beta", true, 0),
        remote_entry("alfa.txt", false, 2),
        remote_entry("alfa", true, 0),
    ];
    sort_entries(&mut v);
    assert_eq!(remote_names(&v), vec!["alfa", "Beta", "alfa.txt", "zeta.txt"]);
}

#[test]
fn case_does_not_matter() {
    let mut v = vec![remote_entry("b", false, 0), remote_entry("C", false, 0), remote_entry("A", false, 0)];
    sort_entries(&mut v);
    assert_eq!(remote_names(&v), vec!["A", "b", "C"]);
}

#[test]
fn equal_names_keep_their_order() {
    let mut v = vec![
        remote_entry("Readme", false, 1),
        remote_entry("README", false, 2),
        remote_entry("readme", false, 3),
    ];
    sort_entries(&mut v);
    let sizes: Vec<u64> = v.iter().map(|e| e.size).collect();
    assert_eq!(sizes, vec![1, 2, 3]);
}

#[test]
fn sorting_agrees_with_std_and_is_idempotent() {
    let names = ["ñ", "Z", "a", "É", "e", "10", "9", "ß", "_", "a b", "A", "İ", "", "aa"];
    let mut v: Vec<RemoteEntry> = names
        .iter()
        .enumerate()
        .map(|(i, n)| remote_entry(n, i % 3 == 0, i as u64))
        .collect();
    let mut w = v.clone();
    w.sort_by(|a, b| {
        b.is_dir
            .cmp(&a.is_dir)
            .then_with(|| a.name.to_lowercase().cmp(&b.name.to_lowercase()))
    });
    sort_entries(&mut v);
    assert_eq!(format!("{:?}", v), format!("{:?}", w));
    sort_entries(&mut v);
    assert_eq!(format!("{:?}", v), format!("{:?}", w));
}

#[test]
fn an_empty_listing_stays_empty() {
    let mut v: Vec<RemoteEntry> = Vec::new();
    sort_entries(&mut v);
    assert!(v.is_empty());
}

#[test]
fn local_entries_are_sorted_alike() {
    let make = |name: &str, is_dir: bool| LocalEntry {
        name: name.to_string(),
        path: format!("/home/{}", name),
        is_dir,
        size: 3,
    };
    let mut v = vec![make("b.txt", false), make("Zorro", true), make("A.txt", false), make("arbol", true)];
    sort_local_entries(&mut v);
    let names: Vec<&str> = v.iter().map(|e| e.name.as_str()).collect();
    assert_eq!(names, vec!["arbol", "Zorro", "A.txt", "b.txt"]);
    assert_eq!(v[0].path, "/home/arbol");
}
