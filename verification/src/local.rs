//! The panel that shows the local disk.
//!
//! Places on the disk are of a type of the caller's; nothing here looks into
//! them.

use crate::listing::{
    local_views, ordered_locals, picked, sort_local_entries, LocalEntry, LocalEntryView,
};
use crate::messages::{failure, lead, Failure};
use vstd::prelude::*;

verus! {

/// The first of two places that is known.
pub open spec fn first_known<T>(a: Option<T>, b: Option<T>) -> Option<T> {
    match a {
        Some(_) => a,
        None => b,
    }
}

/// The user's own folder: the profile folder where the system has one, else the
/// home folder, else the root.
pub fn home_dir<T>(user_profile: Option<T>, home: Option<T>, root: T) -> (r: T)
    ensures
        r == match first_known(user_profile, home) {
            Some(p) => p,
            None => root,
        },
{
    match user_profile {
        Some(p) => p,
        None => match home {
            Some(p) => p,
            None => root,
        },
    }
}

/// Where the state of uploads is kept: with the data of applications where the
/// system has a place for it, else in the home folder, else nowhere.
pub fn state_base<T>(app_data: Option<T>, home: Option<T>) -> (r: Option<T>)
    ensures
        r == first_known(app_data, home),
{
    match app_data {
        Some(p) => Some(p),
        None => home,
    }
}

/// The folder that the panel was asked to show; none stands for the user's own.
pub fn asked_folder(path: Option<String>) -> (r: Option<String>)
    ensures
        r == match path {
            Some(p) => if p@.len() > 0 {
                Some(p)
            } else {
                None
            },
            None => None,
        },
{
    match path {
        Some(p) => if p.as_str().is_empty() {
            None
        } else {
            Some(p)
        },
        None => None,
    }
}

/// What is known of an entry.
#[derive(Debug, Clone, Copy, PartialEq, Eq, Structural)]
pub struct LocalMeta {
    pub is_dir: bool,
    pub size: u64,
}

/// An entry as the disk gives it.
#[derive(Debug)]
pub struct LocalItem {
    pub name: String,
    pub path: String,
    /// `None` where the disk would not say.
    pub meta: Option<LocalMeta>,
}

/// What a [`LocalItem`] says.
pub struct LocalItemView {
    pub name: Seq<char>,
    pub path: Seq<char>,
    pub meta: Option<LocalMeta>,
}

impl View for LocalItem {
    type V = LocalItemView;

    open spec fn view(&self) -> LocalItemView {
        LocalItemView { name: self.name@, path: self.path@, meta: self.meta }
    }
}

/// What is read of an entry; nothing where it could not be read.
pub open spec fn item_view(item: Option<LocalItem>) -> Option<LocalItemView> {
    match item {
        Some(i) => Some(i@),
        None => None,
    }
}

/// What the panel shows of an entry: nothing where it could not be read, or
/// where the disk would not say what it is.
pub open spec fn local_entry(item: Option<LocalItemView>) -> Option<LocalEntryView> {
    match item {
        Some(i) => match i.meta {
            Some(m) => Some(
                LocalEntryView { name: i.name, path: i.path, is_dir: m.is_dir, size: m.size },
            ),
            None => None,
        },
        None => None,
    }
}

/// What a folder's entries say.
pub open spec fn item_views(items: Seq<Option<LocalItem>>) -> Seq<Option<LocalItemView>> {
    items.map_values(|i: Option<LocalItem>| item_view(i))
}

/// What the panel shows of a folder.
pub open spec fn local_listing(items: Seq<Option<LocalItemView>>) -> Seq<LocalEntryView> {
    ordered_locals(picked(items, |i: Option<LocalItemView>| local_entry(i)))
}

/// A local folder as the panel shows it.
#[derive(Debug)]
pub struct LocalDir {
    pub path: String,
    /// The folder above; none at the top.
    pub parent: Option<String>,
    pub entries: Vec<LocalEntry>,
}

fn shown_entries(items: &Vec<Option<LocalItem>>) -> (r: Vec<LocalEntry>)
    ensures
        local_views(r@) == picked(
            item_views(items@),
            |i: Option<LocalItemView>| local_entry(i),
        ),
{
    let ghost views = item_views(items@);
    let ghost pick = |i: Option<LocalItemView>| local_entry(i);
    let mut entries: Vec<LocalEntry> = Vec::new();
    let mut i: usize = 0;
    proof {
        assert(views.take(0) =~= Seq::empty());
        assert(local_views(entries@) =~= Seq::empty());
    }
    while i < items.len()
        invariant
            i <= items.len(),
            views == item_views(items@),
            pick == (|i: Option<LocalItemView>| local_entry(i)),
            local_views(entries@) == picked(views.take(i as int), pick),
        decreases items.len() - i,
    {
        proof {
            assert(views.take(i + 1).drop_last() =~= views.take(i as int));
            assert(views.take(i + 1).last() == item_view(items@[i as int]));
        }
        let ghost before = entries@;
        if let Some(item) = &items[i] {
            if let Some(meta) = item.meta {
                let e = LocalEntry {
                    name: item.name.clone(),
                    path: item.path.clone(),
                    is_dir: meta.is_dir,
                    size: meta.size,
                };
                let ghost added = e@;
                entries.push(e);
                proof {
                    assert(local_views(entries@) =~= local_views(before).push(added));
                }
            }
        }
        i = i + 1;
    }
    proof {
        assert(views.take(items.len() as int) =~= views);
    }
    entries
}

/// What the panel shows of a folder, given what the disk gave: `None` stands
/// for an entry that could not be read.
pub fn list_local(path: String, parent: Option<String>, items: &Vec<Option<LocalItem>>) -> (r:
    LocalDir)
    ensures
        r.path == path,
        r.parent == parent,
        local_views(r.entries@) == local_listing(item_views(items@)),
{
    let mut entries = shown_entries(items);
    sort_local_entries(&mut entries);
    LocalDir { path, parent, entries }
}

/// The folder in which something is renamed; the top has none.
pub fn rename_folder<P>(parent: Option<P>) -> (r: Result<P, String>)
    ensures
        match parent {
            Some(p) => r == Ok::<P, String>(p),
            None => r matches Err(e) && e@ == "Ruta invalida"@,
        },
{
    match parent {
        Some(p) => Ok(p),
        None => Err("Ruta invalida".to_owned()),
    }
}

/// How something is deleted from the disk.
#[derive(Debug, Clone, Copy, PartialEq, Eq, Structural)]
pub enum Removal {
    /// The folder with all that it holds.
    Tree,
    File,
}

/// How something is deleted from the disk.
pub fn local_removal(is_dir: bool) -> (r: Removal)
    ensures
        r == if is_dir {
            Removal::Tree
        } else {
            Removal::File
        },
{
    if is_dir {
        Removal::Tree
    } else {
        Removal::File
    }
}

/// What the user is told when something could not be deleted from the disk.
pub fn removal_failed(removal: Removal, cause: &str) -> (r: String)
    ensures
        r@ == lead(
            match removal {
                Removal::Tree => Failure::DeleteFolder,
                Removal::File => Failure::DeleteFile,
            },
        ) + cause@,
{
    match removal {
        Removal::Tree => failure(Failure::DeleteFolder, cause),
        Removal::File => failure(Failure::DeleteFile, cause),
    }
}

/// Of two places the first is taken where it is known, else the second.
pub proof fn law_first_known<T>(a: T, b: Option<T>)
    ensures
        first_known(Some(a), b) == Some(a),
        first_known(None, b) == b,
{
}

} // verus!
