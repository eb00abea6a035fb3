use carrybox::delete::{do_delete, DeleteAction, DeleteEvent, DeleteWalk};
use carrybox::download::{do_download, DownloadAction, DownloadEvent, DownloadWalk};
use carrybox::events::TransferProgress;
use carrybox::listing::RemoteEntry;
use carrybox::upload_walk::{do_upload, LocalChild, UploadWalk, WalkAction, WalkEvent};

fn found(name: &str, is_dir: bool, size: u64) -> RemoteEntry {
    RemoteEntry { name: name.to_string(), is_dir, size, modified: None }
}

fn told(p: &TransferProgress) -> String {
    format!("{} {} {} {}/{}", p.kind, p.state, p.name, p.transferred, p.total)
}

/// The folder `/d` with a file, a folder of one file, and an empty folder.
fn holds(path: &str) -> Vec<RemoteEntry> {
    match path {
        "/d" => vec![found("sub", true, 0), found("vacia", true, 0), found("a.txt", false, 5)],
        "/d/sub" => vec![found("b.txt", false, 7)],
        _ => vec![],
    }
}

fn delete_all(path: &str, is_dir: bool, broken: &str) -> (Vec<String>, Result<(), String>) {
    let mut asked = Vec::new();
    let (mut walk, mut action) = DeleteWalk::start(path, is_dir);
    loop {
        let (text, event) = match action {
            DeleteAction::List(p) => (format!("list {}", p), DeleteEvent::Listed(Ok(holds(&p)))),
            DeleteAction::DeleteFile(p) => (format!("rm {}", p), DeleteEvent::Done(Ok(()))),
            DeleteAction::DeleteDir(p) => (format!("rmdir {}", p), DeleteEvent::Done(Ok(()))),
            DeleteAction::Finish(r) => return (asked, r),
        };
        let event = if text == broken {
            match event {
                DeleteEvent::Listed(_) => DeleteEvent::Listed(Err("no".to_string())),
                DeleteEvent::Done(_) => DeleteEvent::Done(Err("no".to_string())),
            }
        } else {
            event
        };
        asked.push(text);
        assert!(walk.accepts(&event));
        let next = do_delete(walk, event);
        walk = next.0;
        action = next.1;
    }
}

#[test]
fn a_folder_is_deleted_from_the_inside() {
    let (asked, r) = delete_all("/d", true, "");
    assert_eq!(r, Ok(()));
    assert_eq!(
        asked,
        vec![
            "list /d",
            "list /d/sub",
            "rm /d/sub/b.txt",
            "rmdir /d/sub",
            "list /d/vacia",
            "rmdir /d/vacia",
            "rm /d/a.txt",
            "rmdir /d",
        ]
    );
}

#[test]
fn a_file_is_deleted() {
    assert_eq!(delete_all("/x.txt", false, ""), (vec!["rm /x.txt".to_string()], Ok(())));
}

#[test]
fn the_first_error_ends_a_deletion() {
    let (asked, r) = delete_all("/d", true, "rm /d/sub/b.txt");
    assert_eq!(r, Err("no".to_string()));
    assert_eq!(asked, vec!["list /d", "list /d/sub", "rm /d/sub/b.txt"]);
    let (asked, r) = delete_all("/d", true, "list /d/vacia");
    assert_eq!(r, Err("no".to_string()));
    assert_eq!(asked.len(), 5);
}

#[test]
fn answers_to_other_questions_are_not_taken() {
    let (walk, _) = DeleteWalk::start("/d", true);
    assert!(!walk.accepts(&DeleteEvent::Done(Ok(()))));
    let (walk, _) = DeleteWalk::start("/d", false);
    assert!(!walk.accepts(&DeleteEvent::Listed(Ok(vec![]))));
}

fn download_all(broken: &str) -> (Vec<String>, Result<(), String>) {
    let mut done = Vec::new();
    let (mut walk, mut action) = DownloadWalk::start("/d", "d", true, 0);
    loop {
        let (text, event) = match action {
            DownloadAction::MakeDir(t) => (format!("mkdir {}", t.join("|")), DownloadEvent::Done(Ok(()))),
            DownloadAction::List(p) => (format!("list {}", p), DownloadEvent::Listed(Ok(holds(&p)))),
            DownloadAction::Fetch { remote, target, name, size } => (
                format!("get {} {} {} {}", remote, target.join("|"), name, size),
                DownloadEvent::Done(Ok(())),
            ),
            DownloadAction::Report(p) => (told(&p), DownloadEvent::Reported),
            DownloadAction::Finish(r) => return (done, r),
        };
        let event = if text == broken {
            match event {
                DownloadEvent::Listed(_) => DownloadEvent::Listed(Err("no".to_string())),
                _ => DownloadEvent::Done(Err("no".to_string())),
            }
        } else {
            event
        };
        done.push(text);
        assert!(walk.accepts(&event));
        let next = do_download(walk, event);
        walk = next.0;
        action = next.1;
    }
}

#[test]
fn a_folder_is_downloaded() {
    let (done, r) = download_all("");
    assert_eq!(r, Ok(()));
    assert_eq!(
        done,
        vec![
            "mkdir d",
            "list /d",
            "mkdir d|sub",
            "list /d/sub",
            "download progress b.txt 0/7",
            "get /d/sub/b.txt d|sub|b.txt b.txt 7",
            "download progress b.txt 7/7",
            "mkdir d|vacia",
            "list /d/vacia",
            "download progress a.txt 0/5",
            "get /d/a.txt d|a.txt a.txt 5",
            "download progress a.txt 5/5",
        ]
    );
}

#[test]
fn the_first_error_ends_a_download() {
    for (broken, n) in [("mkdir d", 1), ("list /d", 2), ("get /d/sub/b.txt d|sub|b.txt b.txt 7", 6)] {
        let (done, r) = download_all(broken);
        assert_eq!(r, Err("no".to_string()));
        assert_eq!(done.len(), n);
    }
}

#[test]
fn a_file_is_downloaded() {
    let (walk, action) = DownloadWalk::start("/x/y.txt", "y.txt", false, 9);
    assert!(matches!(&action, DownloadAction::Report(p) if told(p) == "download progress y.txt 0/9"));
    assert!(!walk.accepts(&DownloadEvent::Listed(Ok(vec![]))));
    assert!(!walk.accepts(&DownloadEvent::Done(Ok(()))));
    let (walk, action) = do_download(walk, DownloadEvent::Reported);
    assert_eq!(
        format!("{:?}", action),
        "Fetch { remote: \"/x/y.txt\", target: [\"y.txt\"], name: \"y.txt\", size: 9 }"
    );
    assert!(!walk.accepts(&DownloadEvent::Reported));
    let (walk, action) = do_download(walk, DownloadEvent::Done(Ok(())));
    assert!(matches!(&action, DownloadAction::Report(p) if told(p) == "download progress y.txt 9/9"));
    let (walk, action) = do_download(walk, DownloadEvent::Reported);
    assert!(matches!(action, DownloadAction::Finish(Ok(()))));
    assert!(!walk.accepts(&DownloadEvent::Done(Ok(()))));
}

#[test]
fn a_file_that_fails_is_not_reported_whole() {
    let mut events = Vec::new();
    let (mut walk, mut action) = DownloadWalk::start("/r", "r", true, 0);
    let end = loop {
        let event = match action {
            DownloadAction::MakeDir(_) => DownloadEvent::Done(Ok(())),
            DownloadAction::List(_) => DownloadEvent::Listed(Ok(vec![found("a", false, 1), found("b", false, 2)])),
            DownloadAction::Report(p) => {
                events.push(told(&p));
                DownloadEvent::Reported
            }
            DownloadAction::Fetch { .. } => DownloadEvent::Done(Err("x".to_string())),
            DownloadAction::Finish(r) => break r,
        };
        assert!(walk.accepts(&event));
        let next = do_download(walk, event);
        walk = next.0;
        action = next.1;
    };
    assert_eq!(end, Err("x".to_string()));
    assert_eq!(events, vec!["download progress a 0/1"]);
}

fn child(path: &str, name: &str, is_dir: bool) -> Result<LocalChild<String>, String> {
    Ok(LocalChild { path: path.to_string(), name: name.to_string(), is_dir })
}

fn upload_all(mkdir_fails: bool, broken_entry: bool, broken: &str) -> (Vec<String>, Result<(), String>) {
    let mut done = Vec::new();
    let (mut walk, mut action) = UploadWalk::start("C:d".to_string(), "d", true, "/srv/");
    loop {
        let (text, event) = match action {
            WalkAction::MakeDir(p) => (
                format!("mkdir {}", p),
                WalkEvent::Done(if mkdir_fails { Err("ya existe".to_string()) } else { Ok(()) }),
            ),
            WalkAction::ReadDir(p) => {
                let children = match p.as_str() {
                    "C:d" => {
                        let mut v = vec![child("C:d:a", "a", false)];
                        if broken_entry {
                            v.push(Err("ilegible".to_string()));
                        }
                        v.push(child("C:d:s", "s", true));
                        v
                    }
                    _ => vec![child("C:d:s:b", "b", false)],
                };
                (format!("read {}", p), WalkEvent::Read(Ok(children)))
            }
            WalkAction::Measure(path) => {
                let size = if path == "C:d:a" { Some(3) } else { None };
                (format!("size {}", path), WalkEvent::Measured { path, size })
            }
            WalkAction::Report(p) => (told(&p), WalkEvent::Reported),
            WalkAction::Send { path, remote, name, size } => {
                (format!("put {} {} {} {}", path, remote, name, size), WalkEvent::Done(Ok(())))
            }
            WalkAction::Finish(r) => return (done, r),
        };
        let event = if text == broken {
            match event {
                WalkEvent::Read(_) => WalkEvent::Read(Err("no".to_string())),
                _ => WalkEvent::Done(Err("no".to_string())),
            }
        } else {
            event
        };
        done.push(text);
        assert!(walk.accepts(&event));
        let next = do_upload(walk, event);
        walk = next.0;
        action = next.1;
    }
}

#[test]
fn a_folder_is_uploaded() {
    let (done, r) = upload_all(false, false, "");
    assert_eq!(r, Ok(()));
    assert_eq!(
        done,
        vec![
            "mkdir /srv/d",
            "read C:d",
            "size C:d:a",
            "upload progress a 0/3",
            "put C:d:a /srv/d/a a 3",
            "upload progress a 3/3",
            "mkdir /srv/d/s",
            "read C:d:s",
            "size C:d:s:b",
            "upload progress b 0/0",
            "put C:d:s:b /srv/d/s/b b 0",
            "upload progress b 0/0",
        ]
    );
}

#[test]
fn a_folder_that_is_there_already_does_not_matter() {
    let (done, r) = upload_all(true, false, "");
    assert_eq!(r, Ok(()));
    assert_eq!(done.len(), 12);
    let reports: Vec<String> = done.into_iter().filter(|t| t.starts_with("upload")).collect();
    assert_eq!(
        reports,
        vec![
            "upload progress a 0/3",
            "upload progress a 3/3",
            "upload progress b 0/0",
            "upload progress b 0/0",
        ]
    );
}

#[test]
fn an_entry_that_cannot_be_read_ends_an_upload_at_its_turn() {
    let (done, r) = upload_all(false, true, "");
    assert_eq!(r, Err("ilegible".to_string()));
    assert_eq!(done, vec![
        "mkdir /srv/d",
        "read C:d",
        "size C:d:a",
        "upload progress a 0/3",
        "put C:d:a /srv/d/a a 3",
        "upload progress a 3/3",
    ]);
}

#[test]
fn the_first_error_ends_an_upload() {
    for (broken, n) in [("read C:d", 2), ("put C:d:a /srv/d/a a 3", 5)] {
        let (done, r) = upload_all(false, false, broken);
        assert_eq!(r, Err("no".to_string()));
        assert_eq!(done.len(), n);
    }
}

#[test]
fn a_file_is_uploaded() {
    let (walk, action) = UploadWalk::start("x".to_string(), "y.txt", false, "");
    assert!(matches!(&action, WalkAction::Measure(p) if p == "x"));
    assert!(!walk.accepts(&WalkEvent::Done(Ok(()))));
    let measured = WalkEvent::Measured { path: "x".to_string(), size: Some(4) };
    assert!(walk.accepts(&measured));
    let (walk, action) = do_upload(walk, measured);
    assert!(matches!(&action, WalkAction::Report(p) if told(p) == "upload progress y.txt 0/4"));
    let (walk, action) = do_upload(walk, WalkEvent::Reported);
    assert_eq!(
        format!("{:?}", action),
        "Send { path: \"x\", remote: \"/y.txt\", name: \"y.txt\", size: 4 }"
    );
    assert!(!walk.accepts(&WalkEvent::Reported));
    let (walk, action) = do_upload(walk, WalkEvent::Done(Ok(())));
    assert!(matches!(&action, WalkAction::Report(p) if told(p) == "upload progress y.txt 4/4"));
    let (walk, action) = do_upload(walk, WalkEvent::Reported);
    assert!(matches!(action, WalkAction::Finish(Ok(()))));
    assert!(!walk.accepts(&WalkEvent::Done(Ok(()))));
}

#[test]
fn a_folder_with_a_file_is_reported() {
    let mut events = Vec::new();
    let mut sent = Vec::new();
    let (mut walk, mut action) = UploadWalk::start("/l/d".to_string(), "d", true, "/r");
    let end = loop {
        let event = match action {
            WalkAction::MakeDir(_) => WalkEvent::Done(Err("exists".to_string())),
            WalkAction::ReadDir(_) => WalkEvent::Read(Ok(vec![child("/l/d/f", "f", false)])),
            WalkAction::Measure(path) => WalkEvent::Measured { path, size: Some(3) },
            WalkAction::Report(p) => {
                events.push(told(&p));
                WalkEvent::Reported
            }
            WalkAction::Send { path, remote, .. } => {
                sent.push((path, remote));
                WalkEvent::Done(Ok(()))
            }
            WalkAction::Finish(r) => break r,
        };
        assert!(walk.accepts(&event));
        let next = do_upload(walk, event);
        walk = next.0;
        action = next.1;
    };
    assert_eq!(end, Ok(()));
    assert_eq!(sent, vec![("/l/d/f".to_string(), "/r/d/f".to_string())]);
    assert_eq!(events, vec!["upload progress f 0/3", "upload progress f 3/3"]);
}
