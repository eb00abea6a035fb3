//! Entries of a folder and the order in which a panel shows them.

use crate::text::{char_vec, lowercase, lowercase_text};
use vstd::prelude::*;

verus! {

/// An element of a remote folder.
#[derive(Debug, Clone)]
pub struct RemoteEntry {
    pub name: String,
    pub is_dir: bool,
    pub size: u64,
    /// Seconds since the epoch; `None` where the server does not say.
    pub modified: Option<u64>,
}

/// What a [`RemoteEntry`] says.
pub struct EntryView {
    pub name: Seq<char>,
    pub is_dir: bool,
    pub size: u64,
    pub modified: Option<u64>,
}

impl View for RemoteEntry {
    type V = EntryView;

    open spec fn view(&self) -> EntryView {
        EntryView {
            name: self.name@,
            is_dir: self.is_dir,
            size: self.size,
            modified: self.modified,
        }
    }
}

/// What the entries of a listing say, in order.
pub open spec fn entry_views(entries: Seq<RemoteEntry>) -> Seq<EntryView> {
    entries.map_values(|e: RemoteEntry| e@)
}

/// An element of a local folder.
#[derive(Debug)]
pub struct LocalEntry {
    pub name: String,
    pub path: String,
    pub is_dir: bool,
    pub size: u64,
}

/// What a [`LocalEntry`] says.
pub struct LocalEntryView {
    pub name: Seq<char>,
    pub path: Seq<char>,
    pub is_dir: bool,
    pub size: u64,
}

impl View for LocalEntry {
    type V = LocalEntryView;

    open spec fn view(&self) -> LocalEntryView {
        LocalEntryView {
            name: self.name@,
            path: self.path@,
            is_dir: self.is_dir,
            size: self.size,
        }
    }
}

/// What the entries of a local listing say, in order.
pub open spec fn local_views(entries: Seq<LocalEntry>) -> Seq<LocalEntryView> {
    entries.map_values(|e: LocalEntry| e@)
}

/// The elements of `s` that `pick` keeps, as it gives them, in order.
pub open spec fn picked<A, B>(s: Seq<A>, pick: spec_fn(A) -> Option<B>) -> Seq<B>
    decreases s.len(),
{
    if s.len() == 0 {
        Seq::empty()
    } else {
        let front = picked(s.drop_last(), pick);
        match pick(s.last()) {
            Some(b) => front.push(b),
            None => front,
        }
    }
}

/// Lexicographic order by code point: `a` does not come after `b`.
pub open spec fn text_le(a: Seq<char>, b: Seq<char>) -> bool
    decreases a.len(),
{
    if a.len() == 0 {
        true
    } else if b.len() == 0 {
        false
    } else if a[0] != b[0] {
        a[0] < b[0]
    } else {
        text_le(a.skip(1), b.skip(1))
    }
}

/// What a panel sorts by: whether the entry is a folder, and its name in lower
/// case.
pub type SortKey = (bool, Seq<char>);

/// Folders come before files; within each, names go in lexicographic order.
pub open spec fn key_le(a: SortKey, b: SortKey) -> bool {
    if a.0 != b.0 {
        a.0
    } else {
        text_le(a.1, b.1)
    }
}

/// What a remote entry is sorted by.
pub open spec fn entry_key(e: EntryView) -> SortKey {
    (e.is_dir, lowercase(e.name))
}

/// What a local entry is sorted by.
pub open spec fn local_key(e: LocalEntryView) -> SortKey {
    (e.is_dir, lowercase(e.name))
}

/// `x` put into `s` behind everything that does not come after it.
pub open spec fn placed<V>(s: Seq<V>, x: V, key: spec_fn(V) -> SortKey) -> Seq<V>
    decreases s.len(),
{
    if s.len() == 0 || key_le(key(s.last()), key(x)) {
        s.push(x)
    } else {
        placed(s.drop_last(), x, key).push(s.last())
    }
}

/// `s` in the order of `key`; elements with the same key stay as they were
/// among themselves.
pub open spec fn ordered<V>(s: Seq<V>, key: spec_fn(V) -> SortKey) -> Seq<V>
    decreases s.len(),
{
    if s.len() == 0 {
        Seq::empty()
    } else {
        placed(ordered(s.drop_last(), key), s.last(), key)
    }
}

/// The entries of a remote folder as a panel shows them.
pub open spec fn ordered_entries(s: Seq<EntryView>) -> Seq<EntryView> {
    ordered(s, |e: EntryView| entry_key(e))
}

/// The entries of a local folder as a panel shows them.
pub open spec fn ordered_locals(s: Seq<LocalEntryView>) -> Seq<LocalEntryView> {
    ordered(s, |e: LocalEntryView| local_key(e))
}

/// Whether an element has the key `k`.
pub open spec fn has_key<V>(key: spec_fn(V) -> SortKey, k: SortKey) -> spec_fn(V) -> bool {
    |e: V| key(e) == k
}

/// The elements of `s` with the key `k`, in order.
pub open spec fn group<V>(s: Seq<V>, key: spec_fn(V) -> SortKey, k: SortKey) -> Seq<V> {
    s.filter(has_key(key, k))
}

/// No element of `s` comes before an earlier one.
pub open spec fn in_order<V>(s: Seq<V>, key: spec_fn(V) -> SortKey) -> bool {
    forall|i: int, j: int|
        0 <= i <= j < s.len() ==> key_le(key(#[trigger] s[i]), key(#[trigger] s[j]))
}

// ---------------------------------------------------------------------------
// The order is a total order on keys
// ---------------------------------------------------------------------------

proof fn text_le_reflexive(a: Seq<char>)
    ensures
        text_le(a, a),
    decreases a.len(),
{
    if a.len() > 0 {
        text_le_reflexive(a.skip(1));
    }
}

proof fn text_le_total(a: Seq<char>, b: Seq<char>)
    ensures
        text_le(a, b) || text_le(b, a),
    decreases a.len(),
{
    if a.len() > 0 && b.len() > 0 && a[0] == b[0] {
        text_le_total(a.skip(1), b.skip(1));
    }
}

proof fn text_le_transitive(a: Seq<char>, b: Seq<char>, c: Seq<char>)
    requires
        text_le(a, b),
        text_le(b, c),
    ensures
        text_le(a, c),
    decreases a.len(),
{
    if a.len() > 0 && b.len() > 0 && c.len() > 0 && a[0] == b[0] && b[0] == c[0] {
        text_le_transitive(a.skip(1), b.skip(1), c.skip(1));
    }
}

/// The order on keys is total: of any two, one does not come after the other.
proof fn key_le_total(a: SortKey, b: SortKey)
    ensures
        key_le(a, a),
        key_le(a, b) || key_le(b, a),
{
    text_le_reflexive(a.1);
    text_le_total(a.1, b.1);
}

proof fn key_le_transitive(a: SortKey, b: SortKey, c: SortKey)
    requires
        key_le(a, b),
        key_le(b, c),
    ensures
        key_le(a, c),
{
    if a.0 == b.0 && b.0 == c.0 {
        text_le_transitive(a.1, b.1, c.1);
    }
}

// ---------------------------------------------------------------------------
// Sorting
// ---------------------------------------------------------------------------

proof fn placed_in_order<V>(s: Seq<V>, x: V, key: spec_fn(V) -> SortKey)
    requires
        in_order(s, key),
    ensures
        in_order(placed(s, x, key), key),
        placed(s, x, key).len() == s.len() + 1,
        placed(s, x, key).to_multiset() == s.push(x).to_multiset(),
    decreases s.len(),
{
    broadcast use vstd::seq_lib::group_to_multiset_ensures;

    key_le_total(key(x), key(x));
    if s.len() == 0 || key_le(key(s.last()), key(x)) {
        assert forall|i: int, j: int| 0 <= i <= j < s.push(x).len() implies key_le(
            key(#[trigger] s.push(x)[i]),
            key(#[trigger] s.push(x)[j]),
        ) by {
            if i < s.len() && j == s.len() {
                assert(key_le(key(s[i]), key(s[s.len() - 1])));
                key_le_transitive(key(s[i]), key(s.last()), key(x));
            }
        }
    } else {
        let front = s.drop_last();
        placed_in_order(front, x, key);
        let p = placed(front, x, key);
        key_le_total(key(x), key(s.last()));
        placed_bounded(front, x, key, key(s.last()));
        assert forall|i: int, j: int| 0 <= i <= j < p.push(s.last()).len() implies key_le(
            key(#[trigger] p.push(s.last())[i]),
            key(#[trigger] p.push(s.last())[j]),
        ) by {
            key_le_total(key(s.last()), key(s.last()));
        }
        assert(front.push(s.last()) == s);
        assert(s.push(x).to_multiset() == s.to_multiset().insert(x));
        assert(s.to_multiset() == front.to_multiset().insert(s.last()));
        assert(placed(s, x, key).to_multiset() == p.to_multiset().insert(s.last()));
        assert(front.to_multiset().insert(x).insert(s.last()) =~= front.to_multiset().insert(
            s.last(),
        ).insert(x));
    }
}

/// What bounds every element bounds them all once one more is placed.
proof fn placed_bounded<V>(s: Seq<V>, x: V, key: spec_fn(V) -> SortKey, bound: SortKey)
    requires
        forall|i: int| 0 <= i < s.len() ==> key_le(key(#[trigger] s[i]), bound),
        key_le(key(x), bound),
    ensures
        forall|i: int|
            0 <= i < placed(s, x, key).len() ==> key_le(key(#[trigger] placed(s, x, key)[i]), bound),
    decreases s.len(),
{
    if s.len() == 0 || key_le(key(s.last()), key(x)) {
    } else {
        placed_bounded(s.drop_last(), x, key, bound);
        let p = placed(s.drop_last(), x, key);
        assert forall|i: int| 0 <= i < p.push(s.last()).len() implies key_le(
            key(#[trigger] p.push(s.last())[i]),
            bound,
        ) by {
            if i == p.len() {
                assert(s.last() == s[s.len() - 1]);
            }
        }
    }
}

/// In an ordered sequence `x` goes to the one place that parts what does not
/// come after it from what does.
proof fn placed_is_insert<V>(s: Seq<V>, x: V, key: spec_fn(V) -> SortKey, at: int)
    requires
        0 <= at <= s.len(),
        forall|i: int| 0 <= i < at ==> key_le(key(#[trigger] s[i]), key(x)),
        forall|i: int| at <= i < s.len() ==> !key_le(key(#[trigger] s[i]), key(x)),
    ensures
        placed(s, x, key) == s.insert(at, x),
    decreases s.len(),
{
    if s.len() == 0 || key_le(key(s.last()), key(x)) {
        if s.len() > 0 {
            assert(key_le(key(s[s.len() - 1]), key(x)));
        }
        assert(at == s.len());
        assert(s.insert(at, x) =~= s.push(x));
    } else {
        assert(!key_le(key(s[s.len() - 1]), key(x)));
        assert(at < s.len());
        placed_is_insert(s.drop_last(), x, key, at);
        assert(s.insert(at, x) =~= s.drop_last().insert(at, x).push(s.last()));
    }
}

/// A listing is in order: folders before files, names in lexicographic order.
pub proof fn law_ordered_in_order<V>(s: Seq<V>, key: spec_fn(V) -> SortKey)
    ensures
        in_order(ordered(s, key), key),
    decreases s.len(),
{
    if s.len() > 0 {
        law_ordered_in_order(s.drop_last(), key);
        placed_in_order(ordered(s.drop_last(), key), s.last(), key);
    }
}

/// Ordering a listing neither loses nor invents an entry.
pub proof fn law_ordered_same_items<V>(s: Seq<V>, key: spec_fn(V) -> SortKey)
    ensures
        ordered(s, key).to_multiset() == s.to_multiset(),
        ordered(s, key).len() == s.len(),
    decreases s.len(),
{
    broadcast use vstd::seq_lib::group_to_multiset_ensures;

    if s.len() > 0 {
        let front = s.drop_last();
        law_ordered_same_items(front, key);
        law_ordered_in_order(front, key);
        placed_in_order(ordered(front, key), s.last(), key);
        assert(front.push(s.last()) == s);
    } else {
        assert(s == Seq::<V>::empty());
    }
}

proof fn filter_of_push<V>(s: Seq<V>, x: V, pred: spec_fn(V) -> bool)
    ensures
        s.push(x).filter(pred) == if pred(x) {
            s.filter(pred).push(x)
        } else {
            s.filter(pred)
        },
{
    reveal(Seq::filter);
    assert(s.push(x).drop_last() == s);
}

proof fn placed_filter<V>(s: Seq<V>, x: V, key: spec_fn(V) -> SortKey, k: SortKey)
    ensures
        group(placed(s, x, key), key, k) == group(s.push(x), key, k),
    decreases s.len(),
{
    let pred = has_key(key, k);
    if s.len() == 0 || key_le(key(s.last()), key(x)) {
    } else {
        let front = s.drop_last();
        placed_filter(front, x, key, k);
        key_le_total(key(x), key(x));
        assert(key(s.last()) != key(x));
        filter_of_push(placed(front, x, key), s.last(), pred);
        filter_of_push(front, x, pred);
        filter_of_push(front, s.last(), pred);
        filter_of_push(s, x, pred);
        assert(front.push(s.last()) == s);
    }
}

/// Entries with the same key keep the order in which they arrived.
pub proof fn law_ordered_stable<V>(s: Seq<V>, key: spec_fn(V) -> SortKey, k: SortKey)
    ensures
        group(ordered(s, key), key, k) == group(s, key, k),
    decreases s.len(),
{
    let pred = has_key(key, k);
    if s.len() > 0 {
        let front = s.drop_last();
        law_ordered_stable(front, key, k);
        placed_filter(ordered(front, key), s.last(), key, k);
        filter_of_push(ordered(front, key), s.last(), pred);
        filter_of_push(front, s.last(), pred);
        assert(front.push(s.last()) == s);
    }
}

/// A listing that is in order stays as it is.
pub proof fn law_ordered_keeps_order<V>(s: Seq<V>, key: spec_fn(V) -> SortKey)
    requires
        in_order(s, key),
    ensures
        ordered(s, key) == s,
    decreases s.len(),
{
    if s.len() > 0 {
        let front = s.drop_last();
        law_ordered_keeps_order(front, key);
        if front.len() > 0 {
            assert(key_le(key(s[s.len() - 2]), key(s[s.len() - 1])));
        }
        assert(front.push(s.last()) == s);
    }
}

/// Ordering a listing again changes nothing.
pub proof fn law_ordered_idempotent<V>(s: Seq<V>, key: spec_fn(V) -> SortKey)
    ensures
        ordered(ordered(s, key), key) == ordered(s, key),
{
    law_ordered_in_order(s, key);
    law_ordered_keeps_order(ordered(s, key), key);
}

proof fn text_le_antisymmetric(a: Seq<char>, b: Seq<char>)
    requires
        text_le(a, b),
        text_le(b, a),
    ensures
        a == b,
    decreases a.len(),
{
    if a.len() > 0 && b.len() > 0 {
        text_le_antisymmetric(a.skip(1), b.skip(1));
        assert(a =~= seq![a[0]] + a.skip(1));
        assert(b =~= seq![b[0]] + b.skip(1));
    } else {
        assert(a =~= b);
    }
}

proof fn filter_has<V>(s: Seq<V>, pred: spec_fn(V) -> bool)
    ensures
        s.filter(pred).len() <= s.len(),
        (exists|i: int| 0 <= i < s.len() && pred(#[trigger] s[i])) <==> s.filter(pred).len() > 0,
        s.len() > 0 && pred(s.last()) ==> s.filter(pred).len() > 0 && s.filter(pred).last()
            == s.last(),
    decreases s.len(),
{
    if s.len() > 0 {
        let front = s.drop_last();
        filter_has(front, pred);
        filter_of_push(front, s.last(), pred);
        assert(front.push(s.last()) == s);
        if s.filter(pred).len() > 0 && !pred(s.last()) {
            let i = choose|i: int| 0 <= i < front.len() && pred(#[trigger] front[i]);
            assert(pred(s[i]));
        }
        if pred(s.last()) {
            assert(pred(s[s.len() - 1]));
        }
        if exists|i: int| 0 <= i < s.len() && pred(#[trigger] s[i]) {
            let i = choose|i: int| 0 <= i < s.len() && pred(#[trigger] s[i]);
            if i < s.len() - 1 {
                assert(pred(front[i]));
            }
        }
    } else {
        reveal(Seq::filter);
    }
}

/// Whether two lists hold the same elements of every key, in the same order
/// among themselves.
pub open spec fn same_groups<V>(s: Seq<V>, t: Seq<V>, key: spec_fn(V) -> SortKey) -> bool {
    forall|k: SortKey| #[trigger] group(s, key, k) == group(t, key, k)
}

proof fn last_not_before<V>(s: Seq<V>, t: Seq<V>, key: spec_fn(V) -> SortKey)
    requires
        s.len() > 0,
        in_order(t, key),
        same_groups(s, t, key),
    ensures
        t.len() > 0,
        key_le(key(s.last()), key(t.last())),
{
    let k = key(s.last());
    let pred = has_key(key, k);
    filter_has(s, pred);
    filter_has(t, pred);
    assert(group(s, key, k) == group(t, key, k));
    let i = choose|i: int| 0 <= i < t.len() && pred(#[trigger] t[i]);
    assert(key_le(key(t[i]), key(t[t.len() - 1])));
}

/// Order and stability leave no choice: two lists that are in order and hold
/// the same elements of every key, in the same order among themselves, are the
/// same.
pub proof fn law_order_unique<V>(s: Seq<V>, t: Seq<V>, key: spec_fn(V) -> SortKey)
    requires
        in_order(s, key),
        in_order(t, key),
        same_groups(s, t, key),
    ensures
        s == t,
    decreases s.len(),
{
    if s.len() == 0 {
        if t.len() > 0 {
            last_not_before(t, s, key);
        }
        assert(s =~= t);
    } else {
        last_not_before(s, t, key);
        last_not_before(t, s, key);
        let k = key(s.last());
        if k.0 == key(t.last()).0 {
            text_le_antisymmetric(k.1, key(t.last()).1);
        }
        let pred = has_key(key, k);
        filter_has(s, pred);
        filter_has(t, pred);
        assert(group(s, key, k) == group(t, key, k));
        assert(s.last() == t.last());
        let a = s.drop_last();
        let b = t.drop_last();
        assert(a.push(s.last()) == s);
        assert(b.push(t.last()) == t);
        assert forall|j: SortKey| #[trigger] group(a, key, j) == group(b, key, j) by {
            let p = has_key(key, j);
            filter_of_push(a, s.last(), p);
            filter_of_push(b, t.last(), p);
            assert(group(s, key, j) == group(t, key, j));
            if p(s.last()) {
                assert(a.filter(p) =~= s.filter(p).drop_last());
                assert(b.filter(p) =~= t.filter(p).drop_last());
            }
        }
        law_order_unique(a, b, key);
    }
}

/// What a panel shows depends only on the entries of each key and their order
/// among themselves, not on how those of different keys came mixed.
pub proof fn law_ordered_by_groups<V>(s: Seq<V>, t: Seq<V>, key: spec_fn(V) -> SortKey)
    requires
        same_groups(s, t, key),
    ensures
        ordered(s, key) == ordered(t, key),
{
    law_ordered_in_order(s, key);
    law_ordered_in_order(t, key);
    assert forall|k: SortKey|
        #[trigger] group(ordered(s, key), key, k) == group(ordered(t, key), key, k) by {
        law_ordered_stable(s, key, k);
        law_ordered_stable(t, key, k);
        assert(group(s, key, k) == group(t, key, k));
    }
    law_order_unique(ordered(s, key), ordered(t, key), key);
}

/// A listing holds an entry if and only if it held it before it was put in
/// order.
pub proof fn law_ordered_contains<V>(s: Seq<V>, key: spec_fn(V) -> SortKey, e: V)
    ensures
        ordered(s, key).contains(e) <==> s.contains(e),
{
    broadcast use vstd::seq_lib::group_to_multiset_ensures;

    law_ordered_same_items(s, key);
    assert(ordered(s, key).to_multiset().count(e) == s.to_multiset().count(e));
}

/// What is picked is what is made of the elements, and of each that makes
/// something.
pub proof fn law_picked<A, B>(s: Seq<A>, pick: spec_fn(A) -> Option<B>, b: B)
    ensures
        picked(s, pick).len() <= s.len(),
        picked(s, pick).contains(b) <==> exists|i: int|
            0 <= i < s.len() && pick(#[trigger] s[i]) == Some(b),
    decreases s.len(),
{
    if s.len() > 0 {
        let front = s.drop_last();
        law_picked(front, pick, b);
        let head = picked(front, pick);
        let all = picked(s, pick);
        if all.contains(b) {
            let j = choose|j: int| 0 <= j < all.len() && all[j] == b;
            if j < head.len() {
                assert(head[j] == b);
                let i = choose|i: int| 0 <= i < front.len() && pick(#[trigger] front[i]) == Some(b);
                assert(pick(s[i]) == Some(b));
            } else {
                assert(pick(s[s.len() - 1]) == Some(b));
            }
        }
        if exists|i: int| 0 <= i < s.len() && pick(#[trigger] s[i]) == Some(b) {
            let i = choose|i: int| 0 <= i < s.len() && pick(#[trigger] s[i]) == Some(b);
            if i < front.len() {
                assert(pick(front[i]) == Some(b));
                let j = choose|j: int| 0 <= j < head.len() && head[j] == b;
                assert(all[j] == b);
            } else {
                assert(all[head.len() as int] == b);
            }
        }
    }
}

/// What is picked of two lists, one behind the other, is what is picked of
/// each.
pub proof fn law_picked_concat<A, B>(s: Seq<A>, t: Seq<A>, pick: spec_fn(A) -> Option<B>)
    ensures
        picked(s + t, pick) == picked(s, pick) + picked(t, pick),
    decreases t.len(),
{
    if t.len() == 0 {
        assert(s + t =~= s);
        assert(picked(s, pick) + picked(t, pick) =~= picked(s, pick));
    } else {
        law_picked_concat(s, t.drop_last(), pick);
        assert((s + t).drop_last() =~= s + t.drop_last());
        assert(picked(s + t, pick) =~= picked(s, pick) + picked(t, pick));
    }
}

/// No file stands before a folder.
pub proof fn law_folders_first(s: Seq<EntryView>, i: int, j: int)
    requires
        0 <= i <= j < ordered_entries(s).len(),
        ordered_entries(s)[j].is_dir,
    ensures
        ordered_entries(s)[i].is_dir,
{
    let key = |e: EntryView| entry_key(e);
    law_ordered_in_order(s, key);
    assert(key_le(key(ordered(s, key)[i]), key(ordered(s, key)[j])));
}

proof fn placed_map<T, V>(
    s: Seq<T>,
    x: T,
    view: spec_fn(T) -> V,
    key: spec_fn(V) -> SortKey,
    inner: spec_fn(T) -> SortKey,
)
    requires
        forall|t: T| #[trigger] inner(t) == key(view(t)),
    ensures
        placed(s, x, inner).map_values(view) == placed(s.map_values(view), view(x), key),
    decreases s.len(),
{
    let m = s.map_values(view);
    if s.len() == 0 {
        assert(s.push(x).map_values(view) =~= m.push(view(x)));
    } else {
        assert(inner(s.last()) == key(view(s.last())));
        assert(inner(x) == key(view(x)));
        assert(m.last() == view(s.last()));
        if key_le(inner(s.last()), inner(x)) {
            assert(s.push(x).map_values(view) =~= m.push(view(x)));
        } else {
            placed_map(s.drop_last(), x, view, key, inner);
            assert(m.drop_last() =~= s.drop_last().map_values(view));
            assert(placed(s.drop_last(), x, inner).push(s.last()).map_values(view) =~= placed(
                s.drop_last(),
                x,
                inner,
            ).map_values(view).push(view(s.last())));
        }
    }
}

/// Ordering values and then viewing them is the same as ordering their views.
proof fn ordered_map<T, V>(
    s: Seq<T>,
    view: spec_fn(T) -> V,
    key: spec_fn(V) -> SortKey,
    inner: spec_fn(T) -> SortKey,
)
    requires
        forall|t: T| #[trigger] inner(t) == key(view(t)),
    ensures
        ordered(s, inner).map_values(view) == ordered(s.map_values(view), key),
    decreases s.len(),
{
    let m = s.map_values(view);
    if s.len() == 0 {
        assert(ordered(s, inner).map_values(view) =~= Seq::empty());
    } else {
        ordered_map(s.drop_last(), view, key, inner);
        assert(m.drop_last() =~= s.drop_last().map_values(view));
        assert(m.last() == view(s.last()));
        placed_map(ordered(s.drop_last(), inner), s.last(), view, key, inner);
    }
}

/// What an entry is sorted by, as it is compared.
struct NameKey {
    is_dir: bool,
    name: Vec<char>,
}

impl View for NameKey {
    type V = SortKey;

    closed spec fn view(&self) -> SortKey {
        (self.is_dir, self.name@)
    }
}

fn name_key(is_dir: bool, name: &str) -> (r: NameKey)
    ensures
        r@ == (is_dir, lowercase(name@)),
{
    NameKey { is_dir, name: char_vec(lowercase_text(name).as_str()) }
}

fn chars_not_after(a: &Vec<char>, b: &Vec<char>) -> (r: bool)
    ensures
        r == text_le(a@, b@),
{
    let mut i: usize = 0;
    proof {
        assert(a@.skip(0) == a@);
        assert(b@.skip(0) == b@);
    }
    while i < a.len()
        invariant
            i <= a.len(),
            i <= b.len(),
            text_le(a@, b@) == text_le(a@.skip(i as int), b@.skip(i as int)),
        decreases a.len() - i,
    {
        if i == b.len() {
            return false;
        }
        if a[i] != b[i] {
            return a[i] < b[i];
        }
        proof {
            assert(a@.skip(i as int).skip(1) == a@.skip(i + 1));
            assert(b@.skip(i as int).skip(1) == b@.skip(i + 1));
        }
        i = i + 1;
    }
    true
}

fn key_not_after(a: &NameKey, b: &NameKey) -> (r: bool)
    ensures
        r == key_le(a@, b@),
{
    if a.is_dir != b.is_dir {
        a.is_dir
    } else {
        chars_not_after(&a.name, &b.name)
    }
}

/// Of the first `n` keys, which are in order, how many do not come after `x`.
fn upper_bound(keys: &Vec<NameKey>, n: usize, x: &NameKey) -> (at: usize)
    requires
        n <= keys.len(),
        forall|i: int, j: int|
            0 <= i <= j < n ==> key_le(#[trigger] keys@[i]@, #[trigger] keys@[j]@),
    ensures
        at <= n,
        forall|i: int| 0 <= i < at ==> key_le(#[trigger] keys@[i]@, x@),
        forall|i: int| at <= i < n ==> !key_le(#[trigger] keys@[i]@, x@),
{
    let mut lo: usize = 0;
    let mut hi: usize = n;
    while lo < hi
        invariant
            lo <= hi <= n <= keys.len(),
            forall|i: int, j: int|
                0 <= i <= j < n ==> key_le(#[trigger] keys@[i]@, #[trigger] keys@[j]@),
            forall|i: int| 0 <= i < lo ==> key_le(#[trigger] keys@[i]@, x@),
            forall|i: int| hi <= i < n ==> !key_le(#[trigger] keys@[i]@, x@),
        decreases hi - lo,
    {
        let mid: usize = lo + (hi - lo) / 2;
        if key_not_after(&keys[mid], x) {
            proof {
                assert forall|i: int| 0 <= i < mid + 1 implies key_le(#[trigger] keys@[i]@, x@) by {
                    key_le_transitive(keys@[i]@, keys@[mid as int]@, x@);
                }
            }
            lo = mid + 1;
        } else {
            proof {
                assert forall|i: int| mid <= i < n implies !key_le(#[trigger] keys@[i]@, x@) by {
                    if key_le(keys@[i]@, x@) {
                        key_le_transitive(keys@[mid as int]@, keys@[i]@, x@);
                    }
                }
            }
            hi = mid;
        }
    }
    lo
}

/// Puts `items` in the order of their keys; `keys` holds the key of each.
fn arrange<T>(items: &mut Vec<T>, keys: Vec<NameKey>, Ghost(key): Ghost<spec_fn(T) -> SortKey>)
    requires
        keys.len() == old(items).len(),
        forall|i: int| 0 <= i < keys.len() ==> (#[trigger] keys@[i])@ == key(old(items)@[i]),
    ensures
        final(items)@ == ordered(old(items)@, key),
{
    let ghost given = items@;
    let mut keys = keys;
    let n: usize = items.len();
    let mut i: usize = 0;
    proof {
        assert(given.take(0) == Seq::<T>::empty());
        assert(Seq::<T>::empty() + given.skip(0) == given);
    }
    while i < n
        invariant
            i <= n,
            n == given.len(),
            items.len() == n,
            keys.len() == n,
            items@ == ordered(given.take(i as int), key) + given.skip(i as int),
            ordered(given.take(i as int), key).len() == i,
            forall|j: int| 0 <= j < n ==> (#[trigger] keys@[j])@ == key(items@[j]),
        decreases n - i,
    {
        let ghost done = ordered(given.take(i as int), key);
        let ghost before = items@;
        let ghost keys_before = keys@;
        proof {
            law_ordered_in_order(given.take(i as int), key);
            assert forall|a: int, b: int| 0 <= a <= b < i implies key_le(
                #[trigger] keys@[a]@,
                #[trigger] keys@[b]@,
            ) by {
                assert(items@[a] == done[a]);
                assert(items@[b] == done[b]);
            }
        }
        let at: usize = upper_bound(&keys, i, &keys[i]);
        let x = items.remove(i);
        let k = keys.remove(i);
        items.insert(at, x);
        keys.insert(at, k);
        proof {
            assert(x == given[i as int]);
            assert(k@ == key(x));
            assert forall|j: int| 0 <= j < at implies key_le(key(#[trigger] done[j]), key(x)) by {
                assert(key_le(keys_before[j]@, k@));
                assert(before[j] == done[j]);
            }
            assert forall|j: int| at <= j < i implies !key_le(key(#[trigger] done[j]), key(x)) by {
                assert(!key_le(keys_before[j]@, k@));
                assert(before[j] == done[j]);
            }
            placed_is_insert(done, x, key, at as int);
            let next = given.take(i + 1);
            assert(next.drop_last() == given.take(i as int));
            assert(next.last() == x);
            assert(before.remove(i as int) =~= done + given.skip(i + 1));
            assert(items@ =~= done.insert(at as int, x) + given.skip(i + 1));
            assert forall|j: int| 0 <= j < n implies (#[trigger] keys@[j])@ == key(items@[j]) by {
                if j < at {
                    assert(keys@[j] == keys_before[j]);
                    assert(items@[j] == before[j]);
                } else if j == at {
                } else if j <= i {
                    assert(keys@[j] == keys_before[j - 1]);
                    assert(items@[j] == before[j - 1]);
                } else {
                    assert(keys@[j] == keys_before[j]);
                    assert(items@[j] == before[j]);
                }
            }
        }
        i = i + 1;
    }
    proof {
        assert(given.take(n as int) == given);
        assert(given.skip(n as int) == Seq::<T>::empty());
    }
}

/// Puts the entries of a remote folder in order: folders first, then by name
/// without regard to case.
pub fn sort_entries(entries: &mut Vec<RemoteEntry>)
    ensures
        entry_views(final(entries)@) == ordered_entries(entry_views(old(entries)@)),
{
    let ghost inner = |e: RemoteEntry| entry_key(e@);
    let mut keys: Vec<NameKey> = Vec::new();
    let mut i: usize = 0;
    while i < entries.len()
        invariant
            i <= entries.len(),
            keys.len() == i,
            inner == (|e: RemoteEntry| entry_key(e@)),
            forall|j: int| 0 <= j < i ==> (#[trigger] keys@[j])@ == inner(entries@[j]),
        decreases entries.len() - i,
    {
        keys.push(name_key(entries[i].is_dir, entries[i].name.as_str()));
        i = i + 1;
    }
    proof {
        ordered_map(
            entries@,
            |e: RemoteEntry| e@,
            |e: EntryView| entry_key(e),
            inner,
        );
    }
    arrange(entries, keys, Ghost(inner));
}

/// Puts the entries of a local folder in order: folders first, then by name
/// without regard to case.
pub fn sort_local_entries(entries: &mut Vec<LocalEntry>)
    ensures
        local_views(final(entries)@) == ordered_locals(local_views(old(entries)@)),
{
    let ghost inner = |e: LocalEntry| local_key(e@);
    let mut keys: Vec<NameKey> = Vec::new();
    let mut i: usize = 0;
    while i < entries.len()
        invariant
            i <= entries.len(),
            keys.len() == i,
            inner == (|e: LocalEntry| local_key(e@)),
            forall|j: int| 0 <= j < i ==> (#[trigger] keys@[j])@ == inner(entries@[j]),
        decreases entries.len() - i,
    {
        keys.push(name_key(entries[i].is_dir, entries[i].name.as_str()));
        i = i + 1;
    }
    proof {
        ordered_map(
            entries@,
            |e: LocalEntry| e@,
            |e: LocalEntryView| local_key(e),
            inner,
        );
    }
    arrange(entries, keys, Ghost(inner));
}

} // verus!
