//! What holds of folders in S3-compatible storage, whatever it holds.

use crate::listing::{
    entry_key, group, has_key, law_ordered_by_groups, law_ordered_contains, law_picked,
    law_picked_concat, ordered_entries, picked, same_groups, EntryView, SortKey,
};
use crate::path::{joined, law_key_below, law_prefix, law_prefix_below, prefix_of};
use crate::s3::{file_entry, folder_entry, page_entries, ObjectView};
use crate::text::{
    begins_with, law_last_segment, law_last_segment_of, no_slash, trim_end, trim_start,
};
use vstd::prelude::*;

verus! {

/// Names of folders and files have no slash, and no folder is without a name.
pub proof fn law_listed_names(prefix: Seq<char>, common: Option<Seq<char>>, object: ObjectView)
    ensures
        folder_entry(common) matches Some(e) ==> e.is_dir && e.name.len() > 0 && no_slash(e.name),
        file_entry(prefix, object) matches Some(e) ==> !e.is_dir && no_slash(e.name),
{
    if let Some(p) = common {
        law_last_segment(trim_end(p));
    }
    if let Some(k) = object.key {
        law_last_segment(k);
    }
}

/// What is listed can be fetched: the path of a listed file, which is the
/// folder's path and the name, leads back to the object's key.
pub proof fn law_listed_file_is_found(path: Seq<char>, object: ObjectView)
    requires
        object.key matches Some(key) && begins_with(key, prefix_of(path)) && no_slash(
            key.skip(prefix_of(path).len() as int),
        ),
        file_entry(prefix_of(path), object) is Some,
    ensures
        file_entry(prefix_of(path), object) matches Some(e) && Some(
            trim_start(joined(path, e.name)),
        ) == object.key,
{
    let prefix = prefix_of(path);
    let key = object.key->0;
    let name = key.skip(prefix.len() as int);
    law_prefix(path);
    assert(key =~= prefix + name);
    law_last_segment_of(prefix, name);
    law_key_below(path, name);
}

/// A listed folder can be entered: the path of a listed folder leads to the
/// prefix that it was listed for.
pub proof fn law_listed_folder_is_found(path: Seq<char>, name: Seq<char>)
    requires
        no_slash(name),
        name.len() > 0,
    ensures
        folder_entry(Some(prefix_of(path) + name + "/"@)) == Some(
            EntryView { name, is_dir: true, size: 0, modified: None },
        ),
        prefix_of(joined(path, name)) == prefix_of(path) + name + "/"@,
{
    reveal_strlit("/");
    law_prefix(path);
    law_prefix_below(path, name);
    let p = prefix_of(path) + name;
    assert(name[name.len() - 1] != '/');
    assert(p.last() == name.last());
    assert((p + "/"@).drop_last() =~= p);
    assert(trim_end(p + "/"@) == trim_end(p));
    assert(trim_end(p) == p);
    law_last_segment_of(prefix_of(path), name);
}

/// The object that marks a folder, which is what making a folder writes, never
/// shows as a file.
pub proof fn law_marker_is_hidden(folder: Seq<char>, prefix: Seq<char>, object: ObjectView)
    requires
        object.key == Some(prefix_of(folder)),
        prefix_of(folder).len() > 0,
    ensures
        file_entry(prefix, object) is None,
{
    law_prefix(folder);
}

// ---------------------------------------------------------------------------
// Pages
// ---------------------------------------------------------------------------

proof fn group_concat(s: Seq<EntryView>, t: Seq<EntryView>, key: spec_fn(EntryView) -> SortKey, k: SortKey)
    ensures
        group(s + t, key, k) == group(s, key, k) + group(t, key, k),
{
    Seq::filter_distributes_over_add(s, t, has_key(key, k));
}

proof fn group_without(s: Seq<EntryView>, key: spec_fn(EntryView) -> SortKey, k: SortKey)
    requires
        forall|i: int| 0 <= i < s.len() ==> key(#[trigger] s[i]) != k,
    ensures
        group(s, key, k) == Seq::<EntryView>::empty(),
    decreases s.len(),
{
    reveal(Seq::filter);
    if s.len() > 0 {
        let front = s.drop_last();
        assert forall|i: int| 0 <= i < front.len() implies key(#[trigger] front[i]) != k by {
            assert(front[i] == s[i]);
        }
        group_without(front, key, k);
        assert(key(s[s.len() - 1]) != k);
    }
}

proof fn folders_are_folders(prefixes: Seq<Option<Seq<char>>>, i: int)
    requires
        0 <= i < picked(prefixes, |p: Option<Seq<char>>| folder_entry(p)).len(),
    ensures
        picked(prefixes, |p: Option<Seq<char>>| folder_entry(p))[i].is_dir,
{
    let pick = |p: Option<Seq<char>>| folder_entry(p);
    let e = picked(prefixes, pick)[i];
    law_picked(prefixes, pick, e);
    assert(picked(prefixes, pick).contains(e));
    let j = choose|j: int| 0 <= j < prefixes.len() && pick(#[trigger] prefixes[j]) == Some(e);
    assert(folder_entry(prefixes[j]) == Some(e));
}

proof fn files_are_files(prefix: Seq<char>, objects: Seq<ObjectView>, i: int)
    requires
        0 <= i < picked(objects, |o: ObjectView| file_entry(prefix, o)).len(),
    ensures
        !picked(objects, |o: ObjectView| file_entry(prefix, o))[i].is_dir,
{
    let pick = |o: ObjectView| file_entry(prefix, o);
    let e = picked(objects, pick)[i];
    law_picked(objects, pick, e);
    assert(picked(objects, pick).contains(e));
    let j = choose|j: int| 0 <= j < objects.len() && pick(#[trigger] objects[j]) == Some(e);
    assert(file_entry(prefix, objects[j]) == Some(e));
}

proof fn two_pages(
    prefix: Seq<char>,
    prefixes1: Seq<Option<Seq<char>>>,
    objects1: Seq<ObjectView>,
    prefixes2: Seq<Option<Seq<char>>>,
    objects2: Seq<ObjectView>,
    k: SortKey,
)
    ensures
        ({
            let key = |e: EntryView| entry_key(e);
            group(page_entries(prefix, prefixes1 + prefixes2, objects1 + objects2), key, k)
                == group(page_entries(prefix, prefixes1, objects1), key, k) + group(
                page_entries(prefix, prefixes2, objects2),
                key,
                k,
            )
        }),
{
    let key = |e: EntryView| entry_key(e);
    let folder = |p: Option<Seq<char>>| folder_entry(p);
    let file = |o: ObjectView| file_entry(prefix, o);
    let (d1, d2) = (picked(prefixes1, folder), picked(prefixes2, folder));
    let (f1, f2) = (picked(objects1, file), picked(objects2, file));
    law_picked_concat(prefixes1, prefixes2, folder);
    law_picked_concat(objects1, objects2, file);
    group_concat(d1, f1, key, k);
    group_concat(d2, f2, key, k);
    group_concat(d1 + d2, f1 + f2, key, k);
    group_concat(d1, d2, key, k);
    group_concat(f1, f2, key, k);
    if k.0 {
        assert forall|i: int| 0 <= i < f1.len() implies key(#[trigger] f1[i]) != k by {
            files_are_files(prefix, objects1, i);
        }
        assert forall|i: int| 0 <= i < f2.len() implies key(#[trigger] f2[i]) != k by {
            files_are_files(prefix, objects2, i);
        }
        group_without(f1, key, k);
        group_without(f2, key, k);
    } else {
        assert forall|i: int| 0 <= i < d1.len() implies key(#[trigger] d1[i]) != k by {
            folders_are_folders(prefixes1, i);
        }
        assert forall|i: int| 0 <= i < d2.len() implies key(#[trigger] d2[i]) != k by {
            folders_are_folders(prefixes2, i);
        }
        group_without(d1, key, k);
        group_without(d2, key, k);
    }
    assert(group((d1 + d2) + (f1 + f2), key, k) =~= group(d1 + f1, key, k) + group(
        d2 + f2,
        key,
        k,
    ));
}

/// The common prefixes and the objects of a page.
pub type PageView = (Seq<Option<Seq<char>>>, Seq<ObjectView>);

/// What is found once these pages were taken.
pub open spec fn found_in(prefix: Seq<char>, pages: Seq<PageView>) -> Seq<EntryView>
    decreases pages.len(),
{
    if pages.len() == 0 {
        Seq::empty()
    } else {
        found_in(prefix, pages.drop_last()) + page_entries(
            prefix,
            pages.last().0,
            pages.last().1,
        )
    }
}

/// All pages as one.
pub open spec fn one_page(pages: Seq<PageView>) -> PageView
    decreases pages.len(),
{
    if pages.len() == 0 {
        (Seq::empty(), Seq::empty())
    } else {
        let front = one_page(pages.drop_last());
        (front.0 + pages.last().0, front.1 + pages.last().1)
    }
}

proof fn pages_by_groups(prefix: Seq<char>, pages: Seq<PageView>, k: SortKey)
    ensures
        ({
            let key = |e: EntryView| entry_key(e);
            let all = one_page(pages);
            group(found_in(prefix, pages), key, k) == group(
                page_entries(prefix, all.0, all.1),
                key,
                k,
            )
        }),
    decreases pages.len(),
{
    let key = |e: EntryView| entry_key(e);
    if pages.len() == 0 {
        assert(page_entries(prefix, Seq::empty(), Seq::empty()) =~= Seq::empty());
    } else {
        let front = pages.drop_last();
        let (p, o) = pages.last();
        let all = one_page(front);
        pages_by_groups(prefix, front, k);
        group_concat(found_in(prefix, front), page_entries(prefix, p, o), key, k);
        two_pages(prefix, all.0, all.1, p, o, k);
    }
}

/// How storage cuts a folder into pages does not show: the pages give what one
/// page with the prefixes and the objects of all of them would give.
pub proof fn law_pages_do_not_show(prefix: Seq<char>, pages: Seq<PageView>)
    ensures
        ordered_entries(found_in(prefix, pages)) == ordered_entries(
            page_entries(prefix, one_page(pages).0, one_page(pages).1),
        ),
{
    let key = |e: EntryView| entry_key(e);
    let apart = found_in(prefix, pages);
    let together = page_entries(prefix, one_page(pages).0, one_page(pages).1);
    assert forall|k: SortKey| #[trigger] group(apart, key, k) == group(together, key, k) by {
        pages_by_groups(prefix, pages, k);
    }
    assert(same_groups(apart, together, key));
    law_ordered_by_groups(apart, together, key);
}

/// A folder's listing shows what its prefixes and its objects stand for, all of
/// it and nothing else.
pub proof fn law_page_shows_all(
    prefix: Seq<char>,
    prefixes: Seq<Option<Seq<char>>>,
    objects: Seq<ObjectView>,
    e: EntryView,
)
    ensures
        ordered_entries(page_entries(prefix, prefixes, objects)).contains(e) <==> {
            ||| exists|i: int|
                0 <= i < prefixes.len() && folder_entry(#[trigger] prefixes[i]) == Some(e)
            ||| exists|i: int|
                0 <= i < objects.len() && file_entry(prefix, #[trigger] objects[i]) == Some(e)
        },
{
    let folder = |p: Option<Seq<char>>| folder_entry(p);
    let file = |o: ObjectView| file_entry(prefix, o);
    let (d, f) = (picked(prefixes, folder), picked(objects, file));
    law_ordered_contains(d + f, |e: EntryView| entry_key(e), e);
    law_picked(prefixes, folder, e);
    law_picked(objects, file, e);
    if exists|i: int| 0 <= i < prefixes.len() && folder_entry(#[trigger] prefixes[i]) == Some(e) {
        let i = choose|i: int|
            0 <= i < prefixes.len() && folder_entry(#[trigger] prefixes[i]) == Some(e);
        assert(folder(prefixes[i]) == Some(e));
        let j = choose|j: int| 0 <= j < d.len() && d[j] == e;
        assert((d + f)[j] == e);
    }
    if exists|i: int| 0 <= i < objects.len() && file_entry(prefix, #[trigger] objects[i]) == Some(
        e,
    ) {
        let i = choose|i: int|
            0 <= i < objects.len() && file_entry(prefix, #[trigger] objects[i]) == Some(e);
        assert(file(objects[i]) == Some(e));
        let j = choose|j: int| 0 <= j < f.len() && f[j] == e;
        assert((d + f)[d.len() + j] == e);
    }
    if (d + f).contains(e) {
        let j = choose|j: int| 0 <= j < (d + f).len() && (d + f)[j] == e;
        if j < d.len() {
            assert(d[j] == e);
            let i = choose|i: int|
                0 <= i < prefixes.len() && folder(#[trigger] prefixes[i]) == Some(e);
            assert(folder_entry(prefixes[i]) == Some(e));
        } else {
            assert(f[j - d.len()] == e);
            let i = choose|i: int| 0 <= i < objects.len() && file(#[trigger] objects[i]) == Some(e);
            assert(file_entry(prefix, objects[i]) == Some(e));
        }
    }
}

} // verus!
