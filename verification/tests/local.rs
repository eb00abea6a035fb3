use carrybox::local::{
    asked_folder, home_dir, list_local, local_removal, removal_failed, rename_folder, state_base,
    LocalItem, LocalMeta, Removal,
};

#[test]
fn the_home_folder() {
    assert_eq!(home_dir(Some("perfil"), Some("home"), "/"), "perfil");
    assert_eq!(home_dir(None, Some("home"), "/"), "home");
    assert_eq!(home_dir(None, None, "/"), "/");
    assert_eq!(state_base(Some("datos"), Some("home")), Some("datos"));
    assert_eq!(state_base(None, Some("home")), Some("home"));
    assert_eq!(state_base::<&str>(None, None), None);
}

#[test]
fn the_folder_asked_for() {
    assert_eq!(asked_folder(Some("/a".to_string())), Some("/a".to_string()));
    assert_eq!(asked_folder(Some(String::new())), None);
    assert_eq!(asked_folder(None), None);
}

#[test]
fn a_local_folder_is_shown() {
    let item = |name: &str, meta: Option<(bool, u64)>| {
        Some(LocalItem {
            name: name.to_string(),
            path: format!("/h/{}", name),
            meta: meta.map(|(is_dir, size)| LocalMeta { is_dir, size }),
        })
    };
    let items = vec![
        item("b.txt", Some((false, 3))),
        None,
        item("sin datos", None),
        item("Musica", Some((true, 4096))),
        item("A.txt", Some((false, 1))),
    ];
    let dir = list_local("/h".to_string(), Some("/".to_string()), &items);
    assert_eq!(dir.path, "/h");
    assert_eq!(dir.parent, Some("/".to_string()));
    let shown: Vec<(&str, &str, bool, u64)> = dir
        .entries
        .iter()
        .map(|e| (e.name.as_str(), e.path.as_str(), e.is_dir, e.size))
        .collect();
    assert_eq!(
        shown,
        vec![
            ("Musica", "/h/Musica", true, 4096),
            ("A.txt", "/h/A.txt", false, 1),
            ("b.txt", "/h/b.txt", false, 3),
        ]
    );
}

#[test]
fn renaming_needs_a_folder() {
    assert_eq!(rename_folder(Some("/h")), Ok("/h"));
    assert_eq!(rename_folder::<&str>(None), Err("Ruta invalida".to_string()));
}

#[test]
fn deleting_from_the_disk() {
    assert_eq!(local_removal(true), Removal::Tree);
    assert_eq!(local_removal(false), Removal::File);
    assert_eq!(removal_failed(Removal::Tree, "x"), "No se pudo eliminar la carpeta: x");
    assert_eq!(removal_failed(Removal::File, "x"), "No se pudo eliminar el archivo: x");
}
