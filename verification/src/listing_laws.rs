//! What holds of every listing that a panel shows: which entries it has, what
//! each of them says, and in which order they stand.

use crate::listing::{
    entry_key, has_key, key_le, law_ordered_in_order, law_ordered_same_items,
    law_ordered_stable, local_key, ordered, ordered_entries, ordered_locals, picked, text_le,
    EntryView, LocalEntryView,
};
use crate::local::{local_entry, local_listing, LocalItemView};
use crate::s3::{file_entry, folder_entry, page_entries, ObjectView};
use crate::sources::{
    ftp_entries, ftp_line, lines_say, sftp_entries, sftp_entry, shown, SftpView,
};
use crate::text::{last_segment, lowercase, slash_ended, trim_end};
use vstd::prelude::*;

verus! {

// ---------------------------------------------------------------------------
// Order
// ---------------------------------------------------------------------------

/// Whether `a` and `b` are the same up to the `k`-th character, which is smaller
/// in `a`.
pub open spec fn smaller_at(a: Seq<char>, b: Seq<char>, k: int) -> bool {
    &&& 0 <= k < a.len()
    &&& k < b.len()
    &&& a.take(k) == b.take(k)
    &&& a[k] < b[k]
}

/// Whether `a` is `b`, begins it, or has the smaller character where they first
/// differ.
pub open spec fn not_behind(a: Seq<char>, b: Seq<char>) -> bool {
    ||| a.len() <= b.len() && b.take(a.len() as int) == a
    ||| exists|k: int| smaller_at(a, b, k)
}

/// Names are compared character by character: the first difference decides, and
/// a text comes before those that it begins.
pub proof fn law_text_order(a: Seq<char>, b: Seq<char>)
    ensures
        text_le(a, b) <==> not_behind(a, b),
    decreases a.len(),
{
    if a.len() == 0 {
        assert(b.take(0) =~= a);
    } else if b.len() > 0 {
        if a[0] != b[0] {
            if a[0] < b[0] {
                assert(a.take(0) =~= b.take(0));
                assert(smaller_at(a, b, 0));
            } else {
                assert forall|k: int| !smaller_at(a, b, k) by {
                    if k > 0 && smaller_at(a, b, k) {
                        assert(a.take(k)[0] == b.take(k)[0]);
                    }
                }
                if a.len() <= b.len() {
                    assert(b.take(a.len() as int)[0] == b[0]);
                }
            }
        } else {
            let (x, y) = (a.skip(1), b.skip(1));
            law_text_order(x, y);
            if not_behind(x, y) {
                if x.len() <= y.len() && y.take(x.len() as int) == x {
                    assert forall|i: int| 0 <= i < a.len() implies #[trigger] b[i] == a[i] by {
                        if i > 0 {
                            assert(y.take(x.len() as int)[i - 1] == x[i - 1]);
                        }
                    }
                    assert(b.take(a.len() as int) =~= a);
                } else {
                    let k = choose|k: int| smaller_at(x, y, k);
                    assert forall|i: int| 0 <= i < k + 1 implies #[trigger] a[i] == b[i] by {
                        if i > 0 {
                            assert(x.take(k)[i - 1] == y.take(k)[i - 1]);
                        }
                    }
                    assert(a.take(k + 1) =~= b.take(k + 1));
                    assert(smaller_at(a, b, k + 1));
                }
            }
            if not_behind(a, b) {
                if a.len() <= b.len() && b.take(a.len() as int) == a {
                    assert(y.take(x.len() as int) =~= x) by {
                        assert forall|i: int| 0 <= i < x.len() implies #[trigger] y[i] == x[i] by {
                            assert(b.take(a.len() as int)[i + 1] == a[i + 1]);
                        }
                    }
                } else {
                    let k = choose|k: int| smaller_at(a, b, k);
                    assert(x.take(k - 1) =~= y.take(k - 1)) by {
                        assert forall|i: int| 0 <= i < k - 1 implies #[trigger] x[i] == y[i] by {
                            assert(a.take(k)[i + 1] == b.take(k)[i + 1]);
                        }
                    }
                    assert(smaller_at(x, y, k - 1));
                }
            }
        }
    } else {
        assert forall|k: int| !smaller_at(a, b, k) by {}
    }
}

/// A panel of a server shows the same entries that it was given, as often as it
/// was given them; folders before files; within each, names in the order of their
/// lower-case forms; and entries that differ in neither as they came.
pub proof fn law_remote_panel(s: Seq<EntryView>, i: int, j: int, d: bool, n: Seq<char>)
    requires
        0 <= i < j < ordered_entries(s).len(),
    ensures
        ordered_entries(s).to_multiset() == s.to_multiset(),
        ordered_entries(s)[j].is_dir ==> ordered_entries(s)[i].is_dir,
        ordered_entries(s)[i].is_dir == ordered_entries(s)[j].is_dir ==> not_behind(
            lowercase(ordered_entries(s)[i].name),
            lowercase(ordered_entries(s)[j].name),
        ),
        ordered_entries(s).filter(|e: EntryView| e.is_dir == d && lowercase(e.name) == n)
            == s.filter(|e: EntryView| e.is_dir == d && lowercase(e.name) == n),
{
    let key = |e: EntryView| entry_key(e);
    let out = ordered(s, key);
    law_ordered_in_order(s, key);
    law_ordered_same_items(s, key);
    law_ordered_stable(s, key, (d, n));
    assert(key_le(key(out[i]), key(out[j])));
    law_text_order(lowercase(out[i].name), lowercase(out[j].name));
    let pred = |e: EntryView| e.is_dir == d && lowercase(e.name) == n;
    assert(has_key(key, (d, n)) =~= pred);
}

/// A panel of the disk shows the same entries that it was given, as often as it
/// was given them; folders before files; within each, names in the order of their
/// lower-case forms; and entries that differ in neither as they came.
pub proof fn law_local_panel(s: Seq<LocalEntryView>, i: int, j: int, d: bool, n: Seq<char>)
    requires
        0 <= i < j < ordered_locals(s).len(),
    ensures
        ordered_locals(s).to_multiset() == s.to_multiset(),
        ordered_locals(s)[j].is_dir ==> ordered_locals(s)[i].is_dir,
        ordered_locals(s)[i].is_dir == ordered_locals(s)[j].is_dir ==> not_behind(
            lowercase(ordered_locals(s)[i].name),
            lowercase(ordered_locals(s)[j].name),
        ),
        ordered_locals(s).filter(|e: LocalEntryView| e.is_dir == d && lowercase(e.name) == n)
            == s.filter(|e: LocalEntryView| e.is_dir == d && lowercase(e.name) == n),
{
    let key = |e: LocalEntryView| local_key(e);
    let out = ordered(s, key);
    law_ordered_in_order(s, key);
    law_ordered_same_items(s, key);
    law_ordered_stable(s, key, (d, n));
    assert(key_le(key(out[i]), key(out[j])));
    law_text_order(lowercase(out[i].name), lowercase(out[j].name));
    let pred = |e: LocalEntryView| e.is_dir == d && lowercase(e.name) == n;
    assert(has_key(key, (d, n)) =~= pred);
}

/// A panel shows as many entries as it was given: one for one, whatever there
/// are.
pub proof fn law_panel_counts(s: Seq<EntryView>, t: Seq<LocalEntryView>)
    ensures
        ordered_entries(s).len() == s.len(),
        ordered_entries(s).to_multiset() == s.to_multiset(),
        ordered_locals(t).len() == t.len(),
        ordered_locals(t).to_multiset() == t.to_multiset(),
{
    law_ordered_same_items(s, |e: EntryView| entry_key(e));
    law_ordered_same_items(t, |e: LocalEntryView| local_key(e));
}

// ---------------------------------------------------------------------------
// Entries
// ---------------------------------------------------------------------------

/// What is picked is what is made of the elements that are kept, one for one and
/// in their order.
pub proof fn law_picked_exactly<A, B>(
    s: Seq<A>,
    pick: spec_fn(A) -> Option<B>,
    keep: spec_fn(A) -> bool,
    make: spec_fn(A) -> B,
)
    requires
        forall|a: A|
            #[trigger] pick(a) == if keep(a) {
                Some(make(a))
            } else {
                None
            },
    ensures
        picked(s, pick) == s.filter(keep).map_values(make),
    decreases s.len(),
{
    reveal(Seq::filter);
    if s.len() == 0 {
        assert(s.filter(keep).map_values(make) =~= Seq::empty());
    } else {
        let front = s.drop_last();
        let x = s.last();
        law_picked_exactly(front, pick, keep, make);
        assert(pick(x) == if keep(x) {
            Some(make(x))
        } else {
            None
        });
        if keep(x) {
            assert(s.filter(keep) == front.filter(keep).push(x));
            assert(front.filter(keep).push(x).map_values(make) =~= front.filter(keep).map_values(
                make,
            ).push(make(x)));
        } else {
            assert(s.filter(keep) == front.filter(keep));
        }
    }
}

/// What an SFTP server gives of an entry is shown as it is: the name; a folder if
/// and only if a mode is given and carries the folder bit; the size, or none; the
/// time of change, where one is given.
pub open spec fn shown_of_sftp(item: SftpView) -> EntryView {
    EntryView {
        name: item.name,
        is_dir: item.permissions is Some && item.permissions->0 & 0x4000 == 0x4000,
        size: if item.size is Some {
            item.size->0
        } else {
            0
        },
        modified: if item.mtime is Some {
            Some(item.mtime->0 as u64)
        } else {
            None
        },
    }
}

/// The listing of an SFTP folder has every entry that the server gives, one for
/// one, but the folder itself and the one above it, and says of each what the
/// server says.
pub proof fn law_sftp_listing(items: Seq<SftpView>)
    ensures
        sftp_entries(items) == ordered_entries(
            items.filter(|i: SftpView| i.name != "."@ && i.name != ".."@).map_values(
                |i: SftpView| shown_of_sftp(i),
            ),
        ),
{
    law_picked_exactly(
        items,
        |i: SftpView| sftp_entry(i),
        |i: SftpView| i.name != "."@ && i.name != ".."@,
        |i: SftpView| shown_of_sftp(i),
    );
}

/// Every entry of an SFTP folder but the folder itself and the one above it is in
/// the listing with its own name, size and time of change, and as a folder if and
/// only if its mode says so; and the listing has nothing else.
pub proof fn law_sftp_item_is_shown(items: Seq<SftpView>, e: EntryView, k: int)
    ensures
        0 <= k < items.len() && items[k].name != "."@ && items[k].name != ".."@ && e.name
            == items[k].name && e.is_dir == (items[k].permissions matches Some(p) && p & 0x4000
            == 0x4000) && e.size == (match items[k].size {
            Some(n) => n,
            None => 0,
        }) && e.modified == (match items[k].mtime {
            Some(t) => Some(t as u64),
            None => None,
        }) ==> sftp_entries(items).contains(e),
        sftp_entries(items).contains(e) ==> exists|i: int|
            0 <= i < items.len() && (#[trigger] items[i]).name == e.name && e.name != "."@ && e.name
                != ".."@ && e.is_dir == (items[i].permissions matches Some(p) && p & 0x4000
                == 0x4000) && e.size == (match items[i].size {
                Some(n) => n,
                None => 0,
            }) && e.modified == (match items[i].mtime {
                Some(t) => Some(t as u64),
                None => None,
            }),
{
    let pick = |i: SftpView| sftp_entry(i);
    let s = picked(items, pick);
    crate::listing::law_ordered_contains(s, |e: EntryView| entry_key(e), e);
    crate::listing::law_picked(items, pick, e);
    if 0 <= k < items.len() && sftp_entry(items[k]) == Some(e) {
        assert(pick(items[k]) == Some(e));
    }
    if sftp_entries(items).contains(e) {
        let i = choose|i: int| 0 <= i < items.len() && pick(#[trigger] items[i]) == Some(e);
        assert(sftp_entry(items[i]) == Some(e));
    }
}

/// The listing of an FTP folder has every line that could be read, one for one
/// and as it was read, but the folder itself and the one above it.
pub proof fn law_ftp_listing(parsed: Seq<Option<EntryView>>)
    ensures
        ftp_entries(parsed) == ordered_entries(
            parsed.filter(
                |p: Option<EntryView>| p is Some && p->0.name != "."@ && p->0.name != ".."@,
            ).map_values(|p: Option<EntryView>| p->0),
        ),
{
    law_picked_exactly(
        parsed,
        |p: Option<EntryView>| shown(p),
        |p: Option<EntryView>| p is Some && p->0.name != "."@ && p->0.name != ".."@,
        |p: Option<EntryView>| p->0,
    );
}

/// Each line of an FTP listing is read for itself: an entry that comes of it says
/// just what the line says in some year, has a time of change, and is a folder
/// where the line begins with `d` and none where it begins with `-` or `l`.
pub proof fn law_ftp_lines(lines: Seq<String>, parsed: Seq<Option<EntryView>>, i: int)
    requires
        lines_say(lines, parsed),
    ensures
        parsed.len() == lines.len(),
        0 <= i < lines.len() ==> {
            &&& exists|year: int|
                #[trigger] ftp_line(lines[i]@, year, usize::BITS as int) == match parsed[i] {
                    Some(e) => Some((e.name, e.is_dir, e.size, e.modified)),
                    None => None,
                }
            &&& parsed[i] matches Some(e) ==> {
                &&& e.modified is Some
                &&& lines[i]@.len() > 0
                &&& lines[i]@[0] == 'd' ==> e.is_dir
                &&& lines[i]@[0] == '-' || lines[i]@[0] == 'l' ==> !e.is_dir
            }
        },
{
    if 0 <= i < lines.len() {
        assert(crate::sources::line_says(lines[i]@, parsed[i]));
        let year = choose|year: int|
            #[trigger] ftp_line(lines[i]@, year, usize::BITS as int)
                == crate::sources::entry_fields(parsed[i]);
        assert(ftp_line(lines[i]@, year, usize::BITS as int) == match parsed[i] {
            Some(e) => Some((e.name, e.is_dir, e.size, e.modified)),
            None => None,
        });
    }
}

/// The listing of a local folder has every entry that could be read and of which
/// the disk says what it is, one for one, with its own name, path, kind and size.
pub proof fn law_local_listing(items: Seq<Option<LocalItemView>>)
    ensures
        local_listing(items) == ordered_locals(
            items.filter(|i: Option<LocalItemView>| i is Some && i->0.meta is Some).map_values(
                |i: Option<LocalItemView>|
                    LocalEntryView {
                        name: i->0.name,
                        path: i->0.path,
                        is_dir: i->0.meta->0.is_dir,
                        size: i->0.meta->0.size,
                    },
            ),
        ),
{
    law_picked_exactly(
        items,
        |i: Option<LocalItemView>| local_entry(i),
        |i: Option<LocalItemView>| i is Some && i->0.meta is Some,
        |i: Option<LocalItemView>|
            LocalEntryView {
                name: i->0.name,
                path: i->0.path,
                is_dir: i->0.meta->0.is_dir,
                size: i->0.meta->0.size,
            },
    );
}

/// A page of a folder in storage adds, one for one, a folder for each common
/// prefix with a name, and a file for each object but those that mark a folder;
/// a file has the size and the time of change of its object, none below zero.
pub proof fn law_storage_page(
    prefix: Seq<char>,
    prefixes: Seq<Option<Seq<char>>>,
    objects: Seq<ObjectView>,
)
    ensures
        page_entries(prefix, prefixes, objects) == prefixes.filter(
            |p: Option<Seq<char>>| p is Some && last_segment(trim_end(p->0)).len() > 0,
        ).map_values(
            |p: Option<Seq<char>>|
                EntryView {
                    name: last_segment(trim_end(p->0)),
                    is_dir: true,
                    size: 0,
                    modified: None,
                },
        ) + objects.filter(
            |o: ObjectView| o.key is Some && o.key->0 != prefix && !slash_ended(o.key->0),
        ).map_values(
            |o: ObjectView|
                EntryView {
                    name: last_segment(o.key->0),
                    is_dir: false,
                    size: if o.size is Some && o.size->0 > 0 {
                        o.size->0 as u64
                    } else {
                        0
                    },
                    modified: if o.modified is Some {
                        Some(
                            if o.modified->0 > 0 {
                                o.modified->0 as u64
                            } else {
                                0
                            },
                        )
                    } else {
                        None
                    },
                },
        ),
{
    law_picked_exactly(
        prefixes,
        |p: Option<Seq<char>>| folder_entry(p),
        |p: Option<Seq<char>>| p is Some && last_segment(trim_end(p->0)).len() > 0,
        |p: Option<Seq<char>>|
            EntryView {
                name: last_segment(trim_end(p->0)),
                is_dir: true,
                size: 0,
                modified: None,
            },
    );
    law_picked_exactly(
        objects,
        |o: ObjectView| file_entry(prefix, o),
        |o: ObjectView| o.key is Some && o.key->0 != prefix && !slash_ended(o.key->0),
        |o: ObjectView|
            EntryView {
                name: last_segment(o.key->0),
                is_dir: false,
                size: if o.size is Some && o.size->0 > 0 {
                    o.size->0 as u64
                } else {
                    0
                },
                modified: if o.modified is Some {
                    Some(
                        if o.modified->0 > 0 {
                            o.modified->0 as u64
                        } else {
                            0
                        },
                    )
                } else {
                    None
                },
            },
    );
}

} // verus!
