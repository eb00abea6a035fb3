//! Folders as FTP and SFTP servers list them.

use crate::listing::{
    entry_key, entry_views, law_ordered_contains, law_picked, ordered_entries, picked, sort_entries,
    EntryView, RemoteEntry,
};
use crate::text::{same_text, text_view};
use vstd::prelude::*;

verus! {

/// Whether a name stands for the folder itself or the one above it.
pub open spec fn is_dots(name: Seq<char>) -> bool {
    name == "."@ || name == ".."@
}

/// Whether a name stands for the folder itself or the one above it.
fn names_dots(name: &String) -> (r: bool)
    ensures
        r == is_dots(name@),
{
    same_text(name.as_str(), ".") || same_text(name.as_str(), "..")
}

// ---------------------------------------------------------------------------
// FTP
// ---------------------------------------------------------------------------

/// The folder that an FTP server is asked to list; none stands for the one it
/// is in.
pub fn ftp_target(path: &str) -> (r: Option<String>)
    ensures
        text_view(r) == if path@.len() == 0 {
            None
        } else {
            Some(path@)
        },
{
    if path.is_empty() {
        None
    } else {
        Some(path.to_owned())
    }
}

/// What a line of an FTP listing says when it is read in `year` by a program
/// whose sizes have `bits` bits: name, whether it is a folder, size and time of
/// change; nothing where it describes no entry.
pub uninterp spec fn ftp_line(line: Seq<char>, year: int, bits: int) -> Option<
    (Seq<char>, bool, u64, Option<u64>),
>;

/// What was read of a line, field by field.
pub open spec fn entry_fields(parsed: Option<EntryView>) -> Option<
    (Seq<char>, bool, u64, Option<u64>),
> {
    match parsed {
        Some(e) => Some((e.name, e.is_dir, e.size, e.modified)),
        None => None,
    }
}

/// What a line that was read says.
pub open spec fn parsed_view(parsed: Option<RemoteEntry>) -> Option<EntryView> {
    match parsed {
        Some(e) => Some(e@),
        None => None,
    }
}

/// Whether `parsed` is what a line says in some year. It gives a time; in POSIX
/// format the first character tells folders from files and links.
pub open spec fn line_says(line: Seq<char>, parsed: Option<EntryView>) -> bool {
    &&& exists|year: int| #[trigger]
        ftp_line(line, year, usize::BITS as int) == entry_fields(parsed)
    &&& parsed matches Some(e) ==> {
        &&& e.modified is Some
        &&& line.len() > 0
        &&& line[0] == 'd' ==> e.is_dir
        &&& line[0] == '-' || line[0] == 'l' ==> !e.is_dir
    }
}

/// Calls the `FromStr` of `suppaftp::list::File`, which reads a line in POSIX
/// or in DOS format, and hands over its name, kind, size and time of change.
/// What it gives depends on the line; on the current year, which it puts where
/// a line has none; and on the width of a size, which a larger number does not
/// fit. A time is always given, no earlier than the epoch. In POSIX format the
/// first character tells folders from files and links. Which lines can be read
/// is not said further.
#[verifier::external_body]
fn parse_ftp_line(line: &str) -> (r: Option<RemoteEntry>)
    ensures
        exists|year: int| #[trigger]
            ftp_line(line@, year, usize::BITS as int) == entry_fields(parsed_view(r)),
        r matches Some(e) ==> e@.modified is Some && line@.len() > 0,
        r matches Some(e) ==> (line@[0] == 'd' ==> e@.is_dir),
        r matches Some(e) ==> (line@[0] == '-' || line@[0] == 'l' ==> !e@.is_dir),
{
    match line.parse::<suppaftp::list::File>() {
        Ok(f) => Some(
            RemoteEntry {
                name: f.name().to_string(),
                is_dir: f.is_directory(),
                size: f.size() as u64,
                modified: match f.modified().duration_since(std::time::UNIX_EPOCH) {
                    Ok(d) => Some(d.as_secs()),
                    Err(_) => None,
                },
            },
        ),
        Err(_) => None,
    }
}

/// What a line of a listing adds to it: nothing where it could not be read or
/// stands for the folder itself or the one above it.
pub open spec fn shown(parsed: Option<EntryView>) -> Option<EntryView> {
    match parsed {
        Some(e) => if is_dots(e.name) {
            None
        } else {
            Some(e)
        },
        None => None,
    }
}

/// The listing that the lines of an FTP server make.
pub open spec fn ftp_entries(parsed: Seq<Option<EntryView>>) -> Seq<EntryView> {
    ordered_entries(picked(parsed, |p: Option<EntryView>| shown(p)))
}

/// The listing that lines make, given what was read of each.
pub fn ftp_listing(parsed: &Vec<Option<RemoteEntry>>) -> (r: Vec<RemoteEntry>)
    ensures
        entry_views(r@) == ftp_entries(
            parsed@.map_values(|p: Option<RemoteEntry>| parsed_view(p)),
        ),
{
    let ghost views = parsed@.map_values(|p: Option<RemoteEntry>| parsed_view(p));
    let ghost pick = |p: Option<EntryView>| shown(p);
    let mut entries: Vec<RemoteEntry> = Vec::new();
    let mut i: usize = 0;
    proof {
        assert(views.take(0) =~= Seq::empty());
        assert(entry_views(entries@) =~= Seq::empty());
    }
    while i < parsed.len()
        invariant
            i <= parsed.len(),
            views == parsed@.map_values(|p: Option<RemoteEntry>| parsed_view(p)),
            pick == (|p: Option<EntryView>| shown(p)),
            entry_views(entries@) == picked(views.take(i as int), pick),
        decreases parsed.len() - i,
    {
        proof {
            assert(views.take(i + 1).drop_last() =~= views.take(i as int));
            assert(views.take(i + 1).last() == parsed_view(parsed@[i as int]));
        }
        let ghost before = entries@;
        if let Some(e) = &parsed[i] {
            if !names_dots(&e.name) {
                entries.push(
                    RemoteEntry {
                        name: e.name.clone(),
                        is_dir: e.is_dir,
                        size: e.size,
                        modified: e.modified,
                    },
                );
                proof {
                    assert(entry_views(entries@) =~= entry_views(before).push(e@));
                }
            }
        }
        i = i + 1;
    }
    proof {
        assert(views.take(parsed.len() as int) =~= views);
    }
    sort_entries(&mut entries);
    entries
}

/// Whether `parsed` is what the lines say, each in some year.
pub open spec fn lines_say(lines: Seq<String>, parsed: Seq<Option<EntryView>>) -> bool {
    &&& parsed.len() == lines.len()
    &&& forall|i: int| 0 <= i < lines.len() ==> line_says(lines[i]@, #[trigger] parsed[i])
}

/// The listing that the lines of an FTP server make. Lines that describe no
/// entry are passed over.
pub fn list_ftp_lines(lines: &Vec<String>) -> (r: Vec<RemoteEntry>)
    ensures
        exists|parsed: Seq<Option<EntryView>>| #[trigger]
            lines_say(lines@, parsed) && entry_views(r@) == ftp_entries(parsed),
{
    let mut parsed: Vec<Option<RemoteEntry>> = Vec::new();
    let mut i: usize = 0;
    while i < lines.len()
        invariant
            i <= lines.len(),
            parsed.len() == i,
            forall|j: int|
                0 <= j < i ==> line_says(lines@[j]@, parsed_view(#[trigger] parsed@[j])),
        decreases lines.len() - i,
    {
        let p = parse_ftp_line(lines[i].as_str());
        proof {
            assert(line_says(lines@[i as int]@, parsed_view(p)));
        }
        parsed.push(p);
        i = i + 1;
    }
    let ghost views = parsed@.map_values(|p: Option<RemoteEntry>| parsed_view(p));
    proof {
        assert forall|j: int| 0 <= j < lines.len() implies line_says(
            lines@[j]@,
            #[trigger] views[j],
        ) by {
            assert(views[j] == parsed_view(parsed@[j]));
        }
        assert(lines_say(lines@, views));
    }
    ftp_listing(&parsed)
}

/// A listing never shows the folder itself or the one above it, and shows every
/// other entry that could be read.
pub proof fn law_ftp_shows_all_but_dots(parsed: Seq<Option<EntryView>>, e: EntryView)
    ensures
        ftp_entries(parsed).contains(e) <==> !is_dots(e.name) && parsed.contains(Some(e)),
{
    let pick = |p: Option<EntryView>| shown(p);
    law_ordered_contains(picked(parsed, pick), |e: EntryView| entry_key(e), e);
    law_picked(parsed, pick, e);
    if !is_dots(e.name) && parsed.contains(Some(e)) {
        let i = choose|i: int| 0 <= i < parsed.len() && parsed[i] == Some(e);
        assert(pick(parsed[i]) == Some(e));
    }
}

// ---------------------------------------------------------------------------
// SFTP
// ---------------------------------------------------------------------------

/// The folder that an SFTP server is asked to list.
pub fn sftp_target(path: &str) -> (r: String)
    ensures
        r@ == if path@.len() == 0 {
            "."@
        } else {
            path@
        },
{
    if path.is_empty() {
        ".".to_owned()
    } else {
        path.to_owned()
    }
}

/// An entry as an SFTP server gives it.
#[derive(Debug)]
pub struct SftpItem {
    pub name: String,
    /// Unix mode, with the kind of file in its upper bits.
    pub permissions: Option<u32>,
    pub size: Option<u64>,
    /// Seconds since the epoch.
    pub mtime: Option<u32>,
}

/// What an [`SftpItem`] says.
pub struct SftpView {
    pub name: Seq<char>,
    pub permissions: Option<u32>,
    pub size: Option<u64>,
    pub mtime: Option<u32>,
}

impl View for SftpItem {
    type V = SftpView;

    open spec fn view(&self) -> SftpView {
        SftpView {
            name: self.name@,
            permissions: self.permissions,
            size: self.size,
            mtime: self.mtime,
        }
    }
}

/// Whether a mode carries the folder bit. Without a mode nothing is a folder.
pub open spec fn mode_says_dir(permissions: Option<u32>) -> bool {
    match permissions {
        Some(p) => p & 0x4000 == 0x4000,
        None => false,
    }
}

/// Calls `is_dir` of `russh_sftp::protocol::FileAttributes` on attributes with
/// this mode: whether the mode is there and carries the folder bit, `0x4000`.
#[verifier::external_body]
fn mode_is_dir(permissions: Option<u32>) -> (r: bool)
    ensures
        r == mode_says_dir(permissions),
{
    let mut attributes = russh_sftp::protocol::FileAttributes::empty();
    attributes.permissions = permissions;
    attributes.is_dir()
}

/// What an SFTP entry adds to a listing: nothing where it stands for the folder
/// itself or the one above it.
pub open spec fn sftp_entry(item: SftpView) -> Option<EntryView> {
    if is_dots(item.name) {
        None
    } else {
        Some(
            EntryView {
                name: item.name,
                is_dir: mode_says_dir(item.permissions),
                size: match item.size {
                    Some(n) => n,
                    None => 0,
                },
                modified: match item.mtime {
                    Some(t) => Some(t as u64),
                    None => None,
                },
            },
        )
    }
}

/// What the entries of an SFTP server say.
pub open spec fn sftp_views(items: Seq<SftpItem>) -> Seq<SftpView> {
    items.map_values(|i: SftpItem| i@)
}

/// The listing that the entries of an SFTP server make.
pub open spec fn sftp_entries(items: Seq<SftpView>) -> Seq<EntryView> {
    ordered_entries(picked(items, |i: SftpView| sftp_entry(i)))
}

/// The listing that the entries of an SFTP server make.
pub fn sftp_listing(items: &Vec<SftpItem>) -> (r: Vec<RemoteEntry>)
    ensures
        entry_views(r@) == sftp_entries(sftp_views(items@)),
{
    let ghost views = sftp_views(items@);
    let ghost pick = |i: SftpView| sftp_entry(i);
    let mut entries: Vec<RemoteEntry> = Vec::new();
    let mut i: usize = 0;
    proof {
        assert(views.take(0) =~= Seq::empty());
        assert(entry_views(entries@) =~= Seq::empty());
    }
    while i < items.len()
        invariant
            i <= items.len(),
            views == sftp_views(items@),
            pick == (|i: SftpView| sftp_entry(i)),
            entry_views(entries@) == picked(views.take(i as int), pick),
        decreases items.len() - i,
    {
        proof {
            assert(views.take(i + 1).drop_last() =~= views.take(i as int));
            assert(views.take(i + 1).last() == items@[i as int]@);
        }
        let ghost before = entries@;
        let item = &items[i];
        if !names_dots(&item.name) {
            let e = RemoteEntry {
                name: item.name.clone(),
                is_dir: mode_is_dir(item.permissions),
                size: match item.size {
                    Some(n) => n,
                    None => 0,
                },
                modified: match item.mtime {
                    Some(t) => Some(t as u64),
                    None => None,
                },
            };
            let ghost added = e@;
            entries.push(e);
            proof {
                assert(entry_views(entries@) =~= entry_views(before).push(added));
            }
        }
        i = i + 1;
    }
    proof {
        assert(views.take(items.len() as int) =~= views);
    }
    sort_entries(&mut entries);
    entries
}

/// A listing never shows the folder itself or the one above it, and shows every
/// other entry.
pub proof fn law_sftp_shows_all_but_dots(items: Seq<SftpView>, e: EntryView)
    ensures
        sftp_entries(items).contains(e) <==> exists|i: int|
            0 <= i < items.len() && sftp_entry(#[trigger] items[i]) == Some(e),
        sftp_entries(items).contains(e) ==> !is_dots(e.name),
        forall|i: int|
            0 <= i < items.len() && !is_dots(items[i].name) ==> sftp_entry(
                #[trigger] items[i],
            ) is Some,
{
    let pick = |i: SftpView| sftp_entry(i);
    law_ordered_contains(picked(items, pick), |e: EntryView| entry_key(e), e);
    law_picked(items, pick, e);
    if exists|i: int| 0 <= i < items.len() && sftp_entry(#[trigger] items[i]) == Some(e) {
        let i = choose|i: int| 0 <= i < items.len() && sftp_entry(#[trigger] items[i]) == Some(e);
        assert(pick(items[i]) == Some(e));
    }
    if sftp_entries(items).contains(e) {
        let i = choose|i: int| 0 <= i < items.len() && pick(#[trigger] items[i]) == Some(e);
        assert(sftp_entry(items[i]) == Some(e));
    }
}

} // verus!
