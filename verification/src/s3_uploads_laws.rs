//! What holds of uploads that were never completed, whatever storage answers:
//! which parts it has of one, how they are counted, and how all of them are found
//! and given up.

use crate::s3_uploads::{
    abort_all_next, hash_writes, listed_bytes, markers_after, state_name, successes, with_parts,
    AbortAllView, IncompleteView, ListedPart, ListedUpload, ListedView,
    MarkersView, PartPage, PartSum, RequestView, UploadsPage, UploadsReply, UploadsStepView,
    UploadsView,
};
use crate::text::{hex_digits, text_view};
use std::collections::hash_map::DefaultHasher;
use vstd::prelude::*;
use vstd::std_specs::hash::DefaultHasherAdditionalSpecFns;

verus! {

// ---------------------------------------------------------------------------
// Parts
// ---------------------------------------------------------------------------

/// A part that storage lists is known by its number with the tag that storage
/// gives, or an empty one; of parts with the same number the last stands. A part
/// that is not listed is known as it was before.
pub proof fn law_listed_tags(m: Map<i32, Seq<char>>, parts: Seq<ListedPart>, i: int, n: i32)
    ensures
        0 <= i < parts.len() && parts[i].number == Some(n) && (forall|j: int|
            i < j < parts.len() ==> (#[trigger] parts[j]).number != Some(n)) ==> with_parts(
            m,
            parts,
        ).contains_key(n) && with_parts(m, parts)[n] == if parts[i].etag is Some {
            parts[i].etag->0@
        } else {
            Seq::empty()
        },
        (forall|j: int| 0 <= j < parts.len() ==> (#[trigger] parts[j]).number != Some(n)) ==> {
            &&& with_parts(m, parts).contains_key(n) <==> m.contains_key(n)
            &&& m.contains_key(n) ==> with_parts(m, parts)[n] == m[n]
        },
    decreases parts.len(),
{
    if parts.len() > 0 {
        let front = parts.drop_last();
        law_listed_tags(m, front, i, n);
        assert(parts[parts.len() - 1] == parts.last());
        if forall|j: int| 0 <= j < parts.len() ==> (#[trigger] parts[j]).number != Some(n) {
            assert forall|j: int| 0 <= j < front.len() implies (#[trigger] front[j]).number != Some(
                n,
            ) by {
                assert(parts[j].number != Some(n));
            }
        }
        if 0 <= i < front.len() && (forall|j: int|
            i < j < parts.len() ==> (#[trigger] parts[j]).number != Some(n)) {
            assert forall|j: int| i < j < front.len() implies (#[trigger] front[j]).number != Some(
                n,
            ) by {
                assert(parts[j].number != Some(n));
            }
        }
    }
}

/// Each part adds one to the count, and its size to the bytes; a size that storage
/// leaves out, or gives below zero, adds nothing.
pub proof fn law_counted_parts(sum: PartSum, parts: Seq<ListedPart>, p: ListedPart)
    ensures
        listed_bytes(Seq::empty()) == 0,
        listed_bytes(parts.push(p)) == listed_bytes(parts) + if p.size is Some && p.size->0 > 0 {
            p.size->0 as int
        } else {
            0
        },
        sum.holds(parts) <==> sum.parts + parts.len() <= u32::MAX && sum.bytes + listed_bytes(parts)
            <= u64::MAX,
        sum.holds(parts) && listed_bytes(parts) >= 0 ==> {
            &&& sum.plus(parts).parts == sum.parts + parts.len()
            &&& sum.plus(parts).bytes == sum.bytes + listed_bytes(parts)
        },
{
    assert(parts.push(p).drop_last() =~= parts);
}

// ---------------------------------------------------------------------------
// Finding uploads
// ---------------------------------------------------------------------------

/// What storage lists of an upload is taken as it is; a text that it leaves out is
/// empty, and a time below zero is zero.
pub proof fn law_listed_upload(u: ListedUpload, sum: PartSum)
    ensures
        u@.key == if u.key is Some {
            u.key->0@
        } else {
            Seq::empty()
        },
        u@.upload_id == if u.upload_id is Some {
            u.upload_id->0@
        } else {
            Seq::empty()
        },
        u@.initiated == if u.initiated is Some {
            Some(
                if u.initiated->0 > 0 {
                    u.initiated->0 as u64
                } else {
                    0
                },
            )
        } else {
            None
        },
        u@.described(sum) == (IncompleteView {
            key: u@.key,
            upload_id: u@.upload_id,
            bytes: sum.bytes,
            parts: sum.parts,
            initiated: u@.initiated,
        }),
{
}

/// There is another page of uploads if and only if storage says that there is more
/// and gives a key or an upload to go on from; both are handed back as given.
pub proof fn law_uploads_markers(page: UploadsPage)
    ensures
        markers_after(page) is Some <==> page.truncated == Some(true) && (page.next_key is Some
            || page.next_id is Some),
        markers_after(page) is Some ==> markers_after(page) == Some(
            (text_view(page.next_key), text_view(page.next_id)),
        ),
{
}

/// Whether this is what follows where these uploads were found, those still wait
/// on the page and the next page begins there: the parts of the first that waits
/// are asked for from the start; where none waits, the next page; where there is
/// none, that was all.
pub open spec fn turns_to(
    found: Seq<IncompleteView>,
    rest: Seq<ListedView>,
    next: Option<MarkersView>,
    step: UploadsStepView,
) -> bool {
    if rest.len() > 0 {
        &&& step matches UploadsStepView::Ask { listing, request }
        &&& listing.found == found
        &&& listing.rest == rest
        &&& listing.next == next
        &&& listing.counting
        &&& listing.sum.parts == 0
        &&& listing.sum.bytes == 0
        &&& request == (RequestView::Parts {
            key: rest[0].key,
            upload_id: rest[0].upload_id,
            marker: None,
        })
    } else if let Some((key_marker, id_marker)) = next {
        &&& step matches UploadsStepView::Ask { listing, request }
        &&& listing.found == found
        &&& listing.rest.len() == 0
        &&& listing.next is None
        &&& !listing.counting
        &&& request == (RequestView::Uploads { key_marker, id_marker })
    } else {
        step == UploadsStepView::End(Ok(found))
    }
}

/// A search begins with nothing found and nothing that waits.
pub proof fn law_search_begins()
    ensures
        UploadsView::begun().found.len() == 0,
        UploadsView::begun().rest.len() == 0,
        UploadsView::begun().next is None,
        !UploadsView::begun().counting,
{
}

/// Once a page of uploads has come, all of them wait, in their order; where
/// storage would not list them, the search ends with what it said.
pub proof fn law_page_of_uploads(v: UploadsView, page: UploadsPage, e: String)
    ensures
        turns_to(
            v.found,
            page.uploads@.map_values(|u: ListedUpload| u@),
            if page.truncated == Some(true) && (page.next_key is Some || page.next_id is Some) {
                Some((text_view(page.next_key), text_view(page.next_id)))
            } else {
                None
            },
            v.after(UploadsReply::Uploads(Ok(page))),
        ),
        v.after(UploadsReply::Uploads(Err(e))) == UploadsStepView::End(
            Err("No se pudo listar subidas en progreso: "@ + e@),
        ),
{
}

/// Whether the upload whose turn it is was found with so many parts and bytes, and
/// the next one has its turn.
pub open spec fn found_with(v: UploadsView, parts: int, bytes: int, step: UploadsStepView) -> bool {
    turns_to(
        v.found.push(
            IncompleteView {
                key: v.rest[0].key,
                upload_id: v.rest[0].upload_id,
                bytes: bytes as u64,
                parts: parts as u32,
                initiated: v.rest[0].initiated,
            },
        ),
        v.rest.skip(1),
        v.next,
        step,
    )
}

/// Pages of parts are counted until there is no more; then the upload is found
/// with all that was counted of it. Where storage would not list its parts, it is
/// found with what was counted so far.
pub proof fn law_page_of_parts(v: UploadsView, page: PartPage)
    requires
        v.rest.len() > 0,
    ensures
        ({
            let parts = v.sum.parts + page.parts@.len();
            let bytes = v.sum.bytes + listed_bytes(page.parts@);
            let step = v.after(UploadsReply::Parts(Some(page)));
            if page.truncated == Some(true) && page.marker is Some {
                &&& step matches UploadsStepView::Ask { listing, request }
                &&& listing.found == v.found
                &&& listing.rest == v.rest
                &&& listing.next == v.next
                &&& listing.counting == v.counting
                &&& listing.sum.parts == parts as u32
                &&& listing.sum.bytes == bytes as u64
                &&& request == (RequestView::Parts {
                    key: v.rest[0].key,
                    upload_id: v.rest[0].upload_id,
                    marker: text_view(page.marker),
                })
            } else {
                found_with(v, parts as int, bytes, step)
            }
        }),
        found_with(
            v,
            v.sum.parts as int,
            v.sum.bytes as int,
            v.after(UploadsReply::Parts(None)),
        ),
{
}

/// Each reply is taken where it was asked for: parts while an upload is counted
/// and the count can hold them, uploads otherwise.
pub proof fn law_search_answers(v: UploadsView, uploads: Result<UploadsPage, String>, page: PartPage)
    ensures
        v.expects(UploadsReply::Uploads(uploads)) <==> !v.counting,
        v.expects(UploadsReply::Parts(None)) <==> v.counting && v.rest.len() > 0,
        v.expects(UploadsReply::Parts(Some(page))) <==> v.counting && v.rest.len() > 0
            && v.sum.parts + page.parts@.len() <= u32::MAX && v.sum.bytes + listed_bytes(page.parts@)
            <= u64::MAX,
{
}

// ---------------------------------------------------------------------------
// Giving uploads up
// ---------------------------------------------------------------------------

/// The answer is how many of the tries went well.
pub proof fn law_successes_counted(replies: Seq<bool>)
    ensures
        successes(replies) == replies.filter(|b: bool| b).len(),
    decreases replies.len(),
{
    reveal(Seq::filter);
    if replies.len() > 0 {
        law_successes_counted(replies.drop_last());
    }
}

/// The upload at the place that comes behind the tries so far is tried next, by
/// its own key and identifier; behind the last there is the answer.
pub proof fn law_next_to_give_up(uploads: Seq<IncompleteView>, replies: Seq<bool>, e: Seq<char>)
    ensures
        replies.len() < uploads.len() ==> abort_all_next(Ok(uploads), replies) == (
        AbortAllView::Try {
            key: uploads[replies.len() as int].key,
            upload_id: uploads[replies.len() as int].upload_id,
        }),
        replies.len() >= uploads.len() ==> abort_all_next(Ok(uploads), replies)
            == AbortAllView::End(Ok(replies.filter(|b: bool| b).len())),
        abort_all_next(Err(e), replies) == AbortAllView::End(Err(e)),
{
    law_successes_counted(replies);
}

/// The state of an upload is kept under the hash of its bucket and then its key.
pub proof fn law_state_name(bucket: Seq<char>, key: Seq<char>)
    ensures
        state_name(bucket, key) == hex_digits(
            DefaultHasher::spec_finish(hash_writes(bucket) + hash_writes(key)) as nat,
            16,
        ) + ".json"@,
{
}

} // verus!
