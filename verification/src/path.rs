//! Paths on a server.

use crate::text::{
    begins_with, ends_with_slash, join2, join3, last_segment, law_last_segment_of, law_trim_start,
    law_trim_start_of, no_slash, slash_ended, trim_start, trim_start_slashes,
};
use vstd::prelude::*;

verus! {

/// `name` below `base`, with one slash between them where `base` does not end
/// in one.
pub open spec fn joined(base: Seq<char>, name: Seq<char>) -> Seq<char> {
    if slash_ended(base) {
        base + name
    } else {
        base + "/"@ + name
    }
}

/// `name` below `base`.
pub fn join_remote(base: &str, name: &str) -> (r: String)
    ensures
        r@ == joined(base@, name@),
{
    if ends_with_slash(base) {
        join2(base, name)
    } else {
        join3(base, "/", name)
    }
}

/// The prefix of the keys in a folder: no slash in front, one at the end; empty
/// for the top.
pub open spec fn prefix_of(path: Seq<char>) -> Seq<char> {
    let p = trim_start(path);
    if p.len() == 0 || slash_ended(p) {
        p
    } else {
        p + "/"@
    }
}

/// The prefix of the keys in the folder `path`.
pub fn norm_prefix(path: &str) -> (r: String)
    ensures
        r@ == prefix_of(path@),
{
    let p = trim_start_slashes(path);
    if p.as_str().is_empty() || ends_with_slash(p.as_str()) {
        p
    } else {
        join2(p.as_str(), "/")
    }
}

/// A prefix has no slash in front and one at the end, or is empty; normalising
/// it again changes nothing, nor does a slash in front of the path.
pub proof fn law_prefix(path: Seq<char>)
    ensures
        prefix_of(path).len() > 0 ==> prefix_of(path)[0] != '/' && slash_ended(prefix_of(path)),
        prefix_of(prefix_of(path)) == prefix_of(path),
        prefix_of("/"@ + path) == prefix_of(path),
{
    reveal_strlit("/");
    law_trim_start(path);
    law_trim_start_of("/"@, path);
    assert("/"@.skip(1) =~= Seq::empty());
    assert(trim_start("/"@) =~= Seq::empty()) by {
        reveal_with_fuel(trim_start, 2);
    }
    let p = prefix_of(path);
    if p.len() > 0 {
        assert(p[0] == trim_start(path)[0]);
        assert(trim_start(p) == p);
    }
}

/// A path joined of a folder and a name begins with the folder, and its last
/// segment is the name.
pub proof fn law_joined(base: Seq<char>, name: Seq<char>)
    requires
        no_slash(name),
    ensures
        joined(base, name).take(base.len() as int) == base,
        last_segment(joined(base, name)) == name,
        joined(base, name).len() > name.len(),
        joined(base, name)[joined(base, name).len() - name.len() - 1] == '/',
{
    reveal_strlit("/");
    assert(joined(base, name).take(base.len() as int) =~= base);
    if slash_ended(base) {
        law_last_segment_of(base, name);
    } else {
        law_last_segment_of(base + "/"@, name);
    }
}

/// The key of what stands in a folder under a name is the folder's prefix and
/// the name.
pub proof fn law_key_below(path: Seq<char>, name: Seq<char>)
    requires
        no_slash(name),
    ensures
        trim_start(joined(path, name)) == prefix_of(path) + name,
{
    reveal_strlit("/");
    law_trim_start(path);
    assert(trim_start(name) == name) by {
        if name.len() > 0 {
            assert(name[0] != '/');
        }
    }
    let top = trim_start(path);
    if slash_ended(path) {
        law_trim_start_of(path, name);
        if top.len() > 0 {
            assert(top.last() == path.last());
        } else {
            assert(top + name =~= name);
        }
    } else {
        assert(path + "/"@ + name =~= path + ("/"@ + name));
        law_trim_start_of(path, "/"@ + name);
        if top.len() > 0 {
            assert(top.last() == path.last());
            assert(top + ("/"@ + name) =~= top + "/"@ + name);
        } else {
            assert(("/"@ + name).skip(1) =~= name);
            assert(top + name =~= name);
        }
    }
}

/// The prefix of a folder that stands in a folder is that one's prefix, the
/// name and a slash.
pub proof fn law_prefix_below(path: Seq<char>, name: Seq<char>)
    requires
        no_slash(name),
        name.len() > 0,
    ensures
        prefix_of(joined(path, name)) == prefix_of(path) + name + "/"@,
{
    law_key_below(path, name);
    assert(name[name.len() - 1] != '/');
    assert((prefix_of(path) + name).last() == name.last());
}

/// Whether `p` is the path itself or leads to something in the folder there.
pub open spec fn at_or_below(p: Seq<char>, path: Seq<char>) -> bool {
    p == path || begins_with(p, joined(path, Seq::empty()))
}

/// What is at or below something in a folder is below the folder.
pub proof fn law_below_child(p: Seq<char>, path: Seq<char>, name: Seq<char>)
    requires
        at_or_below(p, joined(path, name)),
    ensures
        begins_with(p, joined(path, Seq::empty())),
        at_or_below(p, path),
{
    let folder = joined(path, Seq::empty());
    let child = joined(path, name);
    let n = folder.len() as int;
    assert(child.take(n) =~= folder);
    if p != child {
        let inside = joined(child, Seq::empty());
        assert(inside.take(n) =~= child.take(n));
        assert(p.take(n) =~= p.take(inside.len() as int).take(n));
    }
}

/// What is joined is the folder's path and the name, with a slash between them
/// unless the path ends in one.
pub proof fn law_joined_exactly(base: Seq<char>, name: Seq<char>)
    ensures
        base.len() > 0 && base[base.len() - 1] == '/' ==> joined(base, name) == base + name,
        base.len() == 0 || base[base.len() - 1] != '/' ==> joined(base, name) == base + seq!['/']
            + name,
{
    reveal_strlit("/");
    assert("/"@ =~= seq!['/']);
}

/// The prefix of the keys in a folder is its path without the slashes in front,
/// with a slash at the end unless there is one; that of the top is empty.
pub proof fn law_prefix_exactly(path: Seq<char>)
    requires
        path.len() > 0,
        path[0] != '/',
    ensures
        path[path.len() - 1] == '/' ==> prefix_of(path) == path,
        path[path.len() - 1] != '/' ==> prefix_of(path) == path + seq!['/'],
        prefix_of("/"@ + path) == prefix_of(path),
        prefix_of(Seq::empty()) == Seq::<char>::empty(),
{
    reveal_strlit("/");
    assert("/"@ =~= seq!['/']);
    law_prefix(path);
}

} // verus!
