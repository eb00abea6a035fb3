use carrybox::listing::RemoteEntry;
use carrybox::path::join_remote;
use carrybox::s3::{
    following_page, object_key, plan_download, plan_rename, rename_step, ListStep, RenameStage,
    RenameStep, S3Listing, S3Object, S3Page,
};
use carrybox::s3_uploads::{
    abort_all, abort_step, list_uploaded_parts, state_file_name, upload_state_name,
    upload_state_path, AbortAllStep, AbortStep, IncompleteUpload, ListedPart, ListedUpload, PartPage, PartSum, PartsStep, UploadsListing, UploadsPage,
    UploadsReply, UploadsRequest, UploadsStep,
};
use std::collections::HashMap;
use std::hash::{Hash, Hasher};

fn object(key: &str, size: i64) -> S3Object {
    S3Object { key: Some(key.to_string()), size: Some(size), modified: Some(100) }
}

fn prefixes(names: &[&str]) -> Vec<Option<String>> {
    names.iter().map(|n| Some(n.to_string())).collect()
}

fn last_page(p: &[&str], objects: Vec<S3Object>) -> S3Page {
    S3Page { prefixes: prefixes(p), objects, truncated: Some(false), token: None }
}

fn listed(step: ListStep) -> Vec<(String, bool, u64, Option<u64>)> {
    match step {
        ListStep::Listed(v) => v
            .into_iter()
            .map(|e: RemoteEntry| (e.name, e.is_dir, e.size, e.modified))
            .collect(),
        other => panic!("{:?}", other),
    }
}

#[test]
fn a_folder_in_storage_is_listed() {
    let listing = S3Listing::new("/docs");
    assert_eq!(listing.request_prefix(), "docs/");
    let mut objects = vec![
        object("docs/", 0),
        object("docs/zeta.txt", 9),
        object("docs/sub/", 0),
        object("docs/Alfa.txt", -4),
        S3Object { key: None, size: None, modified: None },
        S3Object { key: Some("docs/b".to_string()), size: None, modified: None },
        S3Object { key: Some("docs/c".to_string()), size: Some(1), modified: Some(-7) },
    ];
    objects.push(object("docs/d", i64::MAX));
    let mut page = last_page(&["docs/sub/", "docs/Arte/", "/"], objects);
    page.prefixes.push(None);
    assert_eq!(
        listed(listing.step(Ok(page))),
        vec![
            ("Arte".to_string(), true, 0, None),
            ("sub".to_string(), true, 0, None),
            ("Alfa.txt".to_string(), false, 0, Some(100)),
            ("b".to_string(), false, 0, None),
            ("c".to_string(), false, 1, Some(0)),
            ("d".to_string(), false, i64::MAX as u64, Some(100)),
            ("zeta.txt".to_string(), false, 9, Some(100)),
        ]
    );
}

#[test]
fn pages_do_not_show() {
    let whole = listed(S3Listing::new("").step(Ok(last_page(
        &["x/", "a/"],
        vec![object("B", 1), object("b", 2), object("c", 3)],
    ))));
    let first = S3Page {
        prefixes: prefixes(&["x/"]),
        objects: vec![object("B", 1)],
        truncated: Some(true),
        token: Some("sigue".to_string()),
    };
    match S3Listing::new("").step(Ok(first)) {
        ListStep::More { listing, token } => {
            assert_eq!(token, "sigue");
            let second = last_page(&["a/"], vec![object("b", 2), object("c", 3)]);
            assert_eq!(listed(listing.step(Ok(second))), whole);
        }
        other => panic!("{:?}", other),
    }
}

#[test]
fn a_listing_of_storage_can_fail() {
    match S3Listing::new("a").step(Err("403".to_string())) {
        ListStep::Failed(e) => assert_eq!(e, "No se pudo listar: 403"),
        other => panic!("{:?}", other),
    }
}

#[test]
fn a_truncated_page_without_a_token_is_the_last() {
    let mut page = last_page(&[], vec![object("a", 1)]);
    page.truncated = Some(true);
    assert_eq!(listed(S3Listing::new("").step(Ok(page))).len(), 1);
    let mut page = last_page(&[], vec![object("a", 1)]);
    page.truncated = None;
    page.token = Some("t".to_string());
    assert_eq!(listed(S3Listing::new("").step(Ok(page))).len(), 1);
    assert_eq!(following_page(Some(true), &Some("t".to_string())), Some("t".to_string()));
    assert_eq!(following_page(Some(false), &Some("t".to_string())), None);
}

#[test]
fn what_is_listed_can_be_fetched() {
    for path in ["", "/", "docs", "/docs/"] {
        let prefix = S3Listing::new(path).request_prefix();
        let key = format!("{}nota.txt", prefix);
        let page = last_page(&[&format!("{}sub/", prefix)], vec![object(&key, 1)]);
        let entries = listed(S3Listing::new(path).step(Ok(page)));
        assert_eq!(object_key(&join_remote(path, &entries[1].0)), key);
        let inside = S3Listing::new(&join_remote(path, &entries[0].0));
        assert_eq!(inside.request_prefix(), format!("{}sub/", prefix));
    }
}

#[test]
fn fetching_an_object() {
    let plan = plan_download("/a/b.txt", 0);
    assert_eq!(plan.key, "a/b.txt");
    assert_eq!(plan.range, None);
    assert!(!plan.append);
    let plan = plan_download("a/b.txt", 1500);
    assert_eq!(plan.range, Some("bytes=1500-".to_string()));
    assert!(plan.append);
}

#[test]
fn moving_an_object() {
    let plan = plan_rename("cubo", "/a/b.txt", "//c.txt");
    assert_eq!(plan.copy_source, "cubo/a/b.txt");
    assert_eq!(plan.from_key, "a/b.txt");
    assert_eq!(plan.to_key, "c.txt");
}

fn listed_part(number: Option<i32>, etag: Option<&str>, size: Option<i64>) -> ListedPart {
    ListedPart { number, etag: etag.map(|t| t.to_string()), size }
}

#[test]
fn parts_are_collected() {
    let page = PartPage {
        parts: vec![
            listed_part(Some(1), Some("a"), None),
            listed_part(None, Some("x"), None),
            listed_part(Some(2), None, None),
        ],
        truncated: Some(true),
        marker: Some("2".to_string()),
    };
    let known = match list_uploaded_parts(HashMap::new(), Ok(page)) {
        PartsStep::More { known, marker } => {
            assert_eq!(marker, "2");
            known
        }
        other => panic!("{:?}", other),
    };
    let page = PartPage {
        parts: vec![listed_part(Some(1), Some("b"), None)],
        truncated: Some(true),
        marker: None,
    };
    match list_uploaded_parts(known, Ok(page)) {
        PartsStep::Listed(known) => {
            assert_eq!(known.len(), 2);
            assert_eq!(known[&1], "b");
            assert_eq!(known[&2], "");
        }
        other => panic!("{:?}", other),
    }
    match list_uploaded_parts(HashMap::new(), Err("no".to_string())) {
        PartsStep::Failed(e) => assert_eq!(e, "no"),
        other => panic!("{:?}", other),
    }
}

#[test]
fn parts_are_summed() {
    let mut sum = PartSum::new();
    let page = PartPage {
        parts: vec![
            listed_part(Some(1), None, Some(10)),
            listed_part(Some(2), None, None),
            listed_part(Some(3), None, Some(-5)),
        ],
        truncated: Some(true),
        marker: Some("3".to_string()),
    };
    assert!(sum.can_take(&page));
    assert_eq!(sum.take_page(&page), Some("3".to_string()));
    assert_eq!((sum.parts, sum.bytes), (3, 10));
    let full = PartSum { parts: 0, bytes: u64::MAX };
    assert!(!full.can_take(&page));
    let full = PartSum { parts: u32::MAX, bytes: 0 };
    assert!(!full.can_take(&page));
}

fn listed_upload(key: &str, id: &str, initiated: Option<i64>) -> ListedUpload {
    ListedUpload { key: Some(key.to_string()), upload_id: Some(id.to_string()), initiated }
}

fn ask(step: UploadsStep) -> (UploadsListing, String) {
    match step {
        UploadsStep::Ask { listing, request } => (listing, asked_text(&request)),
        other => panic!("{:?}", other),
    }
}

fn asked_text(request: &UploadsRequest) -> String {
    match request {
        UploadsRequest::Uploads { key_marker, id_marker } => format!("uploads {:?} {:?}", key_marker, id_marker),
        UploadsRequest::Parts { key, upload_id, marker } => format!("parts {} {} {:?}", key, upload_id, marker),
    }
}

fn reply_to(listing: UploadsListing, reply: UploadsReply) -> UploadsStep {
    assert!(listing.accepts(&reply));
    listing.step(reply)
}

fn part_page(sizes: &[i64], marker: Option<&str>) -> UploadsReply {
    UploadsReply::Parts(Some(PartPage {
        parts: sizes.iter().map(|n| listed_part(Some(1), None, Some(*n))).collect(),
        truncated: Some(marker.is_some()),
        marker: marker.map(|m| m.to_string()),
    }))
}

fn as_tuple(u: &IncompleteUpload) -> (String, String, u64, u32, Option<u64>) {
    (u.key.clone(), u.upload_id.clone(), u.bytes, u.parts, u.initiated)
}

#[test]
fn uploads_in_progress_are_listed() {
    let (listing, request) = UploadsListing::start();
    assert_eq!(asked_text(&request), "uploads None None");
    assert!(!listing.accepts(&UploadsReply::Parts(None)));
    let page = UploadsPage {
        uploads: vec![listed_upload("a", "1", Some(50)), listed_upload("b", "2", Some(-1))],
        truncated: Some(true),
        next_key: Some("b".to_string()),
        next_id: None,
    };
    let (listing, asked) = ask(reply_to(listing, UploadsReply::Uploads(Ok(page))));
    assert_eq!(asked, "parts a 1 None");
    let (listing, asked) = ask(reply_to(listing, part_page(&[5, 6], Some("2"))));
    assert_eq!(asked, "parts a 1 Some(\"2\")");
    let (listing, asked) = ask(reply_to(listing, part_page(&[7], None)));
    assert_eq!(asked, "parts b 2 None");
    // Counting breaks off: what was counted stands.
    let (listing, asked) = ask(reply_to(listing, part_page(&[9], Some("1"))));
    assert_eq!(asked, "parts b 2 Some(\"1\")");
    let (listing, asked) = ask(reply_to(listing, UploadsReply::Parts(None)));
    assert_eq!(asked, "uploads Some(\"b\") None");
    let page = UploadsPage {
        uploads: vec![ListedUpload { key: None, upload_id: None, initiated: None }],
        truncated: Some(true),
        next_key: None,
        next_id: None,
    };
    let (listing, asked) = ask(reply_to(listing, UploadsReply::Uploads(Ok(page))));
    assert_eq!(asked, "parts   None");
    match reply_to(listing, UploadsReply::Parts(None)) {
        UploadsStep::End(Ok(found)) => {
            let seen: Vec<(String, String, u64, u32, Option<u64>)> = found.iter().map(as_tuple).collect();
            assert_eq!(
                seen,
                vec![
                    ("a".to_string(), "1".to_string(), 18, 3, Some(50)),
                    ("b".to_string(), "2".to_string(), 9, 1, Some(0)),
                    (String::new(), String::new(), 0, 0, None),
                ]
            );
        }
        other => panic!("{:?}", other),
    }
}

#[test]
fn listing_uploads_can_fail() {
    let (listing, _) = UploadsListing::start();
    match reply_to(listing, UploadsReply::Uploads(Err("x".to_string()))) {
        UploadsStep::End(Err(e)) => assert_eq!(e, "No se pudo listar subidas en progreso: x"),
        other => panic!("{:?}", other),
    }
}

#[test]
fn no_uploads_in_progress() {
    let (listing, _) = UploadsListing::start();
    let page = UploadsPage { uploads: vec![], truncated: None, next_key: None, next_id: None };
    match reply_to(listing, UploadsReply::Uploads(Ok(page))) {
        UploadsStep::End(Ok(found)) => assert!(found.is_empty()),
        other => panic!("{:?}", other),
    }
}

fn incomplete(key: &str, id: &str) -> IncompleteUpload {
    IncompleteUpload {
        key: key.to_string(),
        upload_id: id.to_string(),
        bytes: 0,
        parts: 0,
        initiated: None,
    }
}

/// What is tried, and the answer, where storage gives up all but `stuck`.
fn abort_all_but(
    listed: Result<Vec<IncompleteUpload>, String>,
    stuck: &str,
) -> (Vec<String>, Result<usize, String>) {
    let mut tried = Vec::new();
    let mut replies = Vec::new();
    loop {
        match abort_all(&listed, &replies) {
            AbortAllStep::Try { key, upload_id } => {
                replies.push(key != stuck);
                tried.push(format!("{} {}", key, upload_id));
            }
            AbortAllStep::End(r) => return (tried, r),
        }
    }
}

#[test]
fn aborted_uploads_are_counted() {
    let listed = || Ok(vec![incomplete("a", "1"), incomplete("b", "2"), incomplete("a", "3")]);
    let all = vec!["a 1", "b 2", "a 3"];
    let (tried, r) = abort_all_but(listed(), "b");
    assert_eq!((tried, r), (all.iter().map(|s| s.to_string()).collect(), Ok(2)));
    let (tried, r) = abort_all_but(listed(), "a");
    assert_eq!((tried, r), (all.iter().map(|s| s.to_string()).collect(), Ok(1)));
    assert_eq!(abort_all_but(listed(), "").1, Ok(3));
    assert_eq!(abort_all_but(Ok(vec![]), ""), (vec![], Ok(0)));
}

#[test]
fn nothing_is_aborted_that_cannot_be_listed() {
    assert_eq!(abort_all_but(Err("x".to_string()), ""), (vec![], Err("x".to_string())));
}

#[test]
fn the_original_goes_only_behind_its_copy() {
    let no = || Err("x".to_string());
    assert!(matches!(rename_step(RenameStage::Copy, Ok(())), RenameStep::DropOriginal));
    assert!(matches!(rename_step(RenameStage::DropOriginal, Ok(())), RenameStep::Done));
    let step = rename_step(RenameStage::Copy, no());
    assert!(matches!(step, RenameStep::Failed(e) if e == "No se pudo renombrar: x"));
    let step = rename_step(RenameStage::DropOriginal, no());
    assert!(matches!(step, RenameStep::Failed(e) if e == "No se pudo borrar el original: x"));
}

#[test]
fn the_saved_state_goes_only_behind_an_abort() {
    assert!(matches!(abort_step(Ok(())), AbortStep::Forget));
    let step = abort_step(Err("x".to_string()));
    assert!(matches!(step, AbortStep::Failed(e) if e == "No se pudo abortar: x"));
}

#[test]
fn where_the_state_is_kept() {
    let place = upload_state_path(Some("datos"), Some("casa"), "cubo", "a/b.bin").unwrap();
    assert_eq!(place.base, "datos");
    assert_eq!(place.folders, vec!["CarryBox", "uploads"]);
    assert_eq!(place.file, upload_state_name("cubo", "a/b.bin"));
    assert!(place.file[..16].chars().all(|c| c.is_ascii_digit() || ('a'..='f').contains(&c)));
    assert!(place.file.ends_with(".json"));
    let place = upload_state_path(None, Some("casa"), "cubo", "a/b.bin").unwrap();
    assert_eq!(place.base, "casa");
    assert!(upload_state_path::<&str>(None, None, "cubo", "a/b.bin").is_none());
}

#[test]
fn state_files_are_named_by_hash() {
    let mut h = std::collections::hash_map::DefaultHasher::new();
    "cubo".hash(&mut h);
    "a/b.bin".hash(&mut h);
    let expected = format!("{:016x}.json", h.finish());
    assert_eq!(upload_state_name("cubo", "a/b.bin"), expected);
    assert_eq!(expected.len(), 21);
    assert_ne!(upload_state_name("cub", "oa/b.bin"), expected);
    assert_eq!(state_file_name(255), "00000000000000ff.json");
    assert_ne!(state_file_name(1), state_file_name(2));
}
