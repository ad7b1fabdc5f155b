//! Slash-separated paths on the device.
use crate::text::{cat3, chars_of, slice_text, strip_back, trim_end_of, CharClass};
use vstd::prelude::*;

verus! {

/// What stands before the last slash; nothing when there is none.
pub open spec fn parent_of(path: Seq<char>) -> Seq<char>
    decreases path.len(),
{
    if path.len() == 0 {
        Seq::empty()
    } else if path.last() == '/' {
        path.drop_last()
    } else {
        parent_of(path.drop_last())
    }
}

/// What stands after the last slash; the whole path when there is none.
pub open spec fn name_of(path: Seq<char>) -> Seq<char>
    decreases path.len(),
{
    if path.len() == 0 || path.last() == '/' {
        Seq::empty()
    } else {
        name_of(path.drop_last()).push(path.last())
    }
}

/// A path inside a folder given with or without slashes at its end.
pub open spec fn inside(folder: Seq<char>, name: Seq<char>) -> Seq<char> {
    strip_back(folder, CharClass::Only('/')) + "/"@ + name
}

/// Cutting at the last slash: parent and name around it make up the path, and
/// the name has no slash.
pub proof fn parent_and_name(path: Seq<char>)
    ensures
        !name_of(path).contains('/'),
        parent_of(path).len() <= path.len(),
        path.contains('/') ==> path == parent_of(path).push('/') + name_of(path),
        path.contains('/') ==> parent_of(path).len() < path.len(),
        !path.contains('/') ==> parent_of(path) == Seq::<char>::empty() && name_of(path) == path,
    decreases path.len(),
{
    if path.len() > 0 {
        let init = path.drop_last();
        assert(path =~= init.push(path.last()));
        if path.last() == '/' {
            assert(path[path.len() - 1] == '/');
            assert(path =~= parent_of(path).push('/') + name_of(path));
        } else {
            parent_and_name(init);
            if path.contains('/') {
                let k = choose|k: int| 0 <= k < path.len() && path[k] == '/';
                assert(init[k] == '/');
                assert(path =~= parent_of(path).push('/') + name_of(path));
            } else {
                if init.contains('/') {
                    let k = choose|k: int| 0 <= k < init.len() && init[k] == '/';
                    assert(path[k] == '/');
                }
                assert(name_of(path) =~= path);
            }
            if name_of(path).contains('/') {
                let n = name_of(path);
                let k = choose|k: int| 0 <= k < n.len() && n[k] == '/';
                assert(name_of(init)[k] == '/');
            }
        }
    }
}

/// An entry put into a folder has that folder as its parent and keeps its name.
pub proof fn inside_then_parent(folder: Seq<char>, name: Seq<char>)
    requires
        !name.contains('/'),
    ensures
        parent_of(inside(folder, name)) == strip_back(folder, CharClass::Only('/')),
        name_of(inside(folder, name)) == name,
    decreases name.len(),
{
    let base = strip_back(folder, CharClass::Only('/'));
    reveal_strlit("/");
    let path = inside(folder, name);
    if name.len() == 0 {
        assert(path.last() == '/');
        assert(path.drop_last() =~= base);
        assert(name_of(path) =~= name);
    } else {
        let init = name.drop_last();
        if init.contains('/') {
            let k = choose|k: int| 0 <= k < init.len() && init[k] == '/';
            assert(name[k] == '/');
        }
        assert(name[name.len() - 1] != '/');
        inside_then_parent(folder, init);
        assert(path.drop_last() =~= inside(folder, init));
        assert(name =~= init.push(name.last()));
    }
}

/// Whether a path is the folder `base`, written with any number of slashes at its end.
pub open spec fn names_folder(path: Seq<char>, base: Seq<char>) -> bool {
    &&& base.len() <= path.len()
    &&& path.take(base.len() as int) == base
    &&& forall|i: int| base.len() <= i < path.len() ==> path[i] == '/'
    &&& base.len() > 0 ==> base.last() != '/'
}

/// Every path names a folder: itself without the slashes at its end.
pub proof fn path_names_a_folder(path: Seq<char>)
    ensures
        names_folder(path, strip_back(path, CharClass::Only('/'))),
    decreases path.len(),
{
    if path.len() > 0 && path.last() == '/' {
        path_names_a_folder(path.drop_last());
        let base = strip_back(path.drop_last(), CharClass::Only('/'));
        assert(path.take(base.len() as int) =~= path.drop_last().take(base.len() as int));
        assert forall|i: int| base.len() <= i < path.len() implies path[i] == '/' by {
            if i < path.len() - 1 {
                assert(path.drop_last()[i] == '/');
            }
        }
    } else {
        assert(path.take(path.len() as int) =~= path);
    }
}

/// A path names one folder only.
pub proof fn named_folder_is_unique(path: Seq<char>, a: Seq<char>, b: Seq<char>)
    requires
        names_folder(path, a),
        names_folder(path, b),
    ensures
        a == b,
{
    if a.len() < b.len() {
        assert(b.last() == path[b.len() - 1]);
    } else if b.len() < a.len() {
        assert(a.last() == path[a.len() - 1]);
    }
    assert(a =~= b);
}

/// What is put into a folder stands behind the folder and one slash, however many
/// slashes the folder was written with.
pub proof fn inside_is_behind_one_slash(path: Seq<char>, base: Seq<char>, name: Seq<char>)
    requires
        names_folder(path, base),
    ensures
        inside(path, name) == base + seq!['/'] + name,
{
    reveal_strlit("/");
    path_names_a_folder(path);
    named_folder_is_unique(path, base, strip_back(path, CharClass::Only('/')));
    assert(inside(path, name) =~= base + seq!['/'] + name);
}

/// A path is cut at its last slash.
pub proof fn cut_at_the_last_slash(folder: Seq<char>, name: Seq<char>)
    requires
        !name.contains('/'),
    ensures
        parent_of(folder + seq!['/'] + name) == folder,
        name_of(folder + seq!['/'] + name) == name,
    decreases name.len(),
{
    let path = folder + seq!['/'] + name;
    if name.len() == 0 {
        assert(path.last() == '/');
        assert(path.drop_last() =~= folder);
        assert(name_of(path) =~= name);
    } else {
        let init = name.drop_last();
        assert(name[name.len() - 1] != '/');
        assert forall|k: int| 0 <= k < init.len() implies init[k] != '/' by {
            assert(name[k] != '/');
        }
        cut_at_the_last_slash(folder, init);
        assert(path.drop_last() =~= folder + seq!['/'] + init);
        assert(name =~= init.push(name.last()));
    }
}

/// The path of the folder that holds an entry; empty at the top.
pub fn parent_path(path: &str) -> (r: String)
    ensures
        r@ == parent_of(path@),
{
    let chars = chars_of(path);
    let mut to: usize = chars.len();
    assert(path@.take(path@.len() as int) =~= path@);
    while to > 0
        invariant
            chars@ == path@,
            to <= chars@.len(),
            parent_of(path@) == parent_of(path@.take(to as int)),
        decreases to,
    {
        let ghost upto = path@.take(to as int);
        assert(upto.drop_last() =~= path@.take(to - 1));
        assert(upto.last() == path@[to - 1]);
        to = to - 1;
        if chars[to] == '/' {
            assert(chars@.subrange(0, to as int) =~= path@.take(to as int));
            return slice_text(&chars, 0, to);
        }
    }
    slice_text(&chars, 0, 0)
}

/// The last component of a path.
pub fn basename(path: &str) -> (r: String)
    ensures
        r@ == name_of(path@),
{
    let chars = chars_of(path);
    let mut from: usize = chars.len();
    assert(path@.take(path@.len() as int) =~= path@);
    assert(name_of(path@) =~= name_of(path@) + path@.skip(from as int));
    while from > 0 && chars[from - 1] != '/'
        invariant
            chars@ == path@,
            from <= chars@.len(),
            name_of(path@) == name_of(path@.take(from as int)) + path@.skip(from as int),
        decreases from,
    {
        let ghost upto = path@.take(from as int);
        assert(upto.drop_last() =~= path@.take(from - 1));
        assert(upto.last() == path@[from - 1]);
        assert(name_of(upto.drop_last()).push(upto.last()) + path@.skip(from as int) =~= name_of(
            upto.drop_last(),
        ) + path@.skip(from - 1));
        from = from - 1;
    }
    assert(name_of(path@) =~= path@.skip(from as int));
    let r = slice_text(&chars, from, chars.len());
    assert(r@ =~= path@.skip(from as int));
    r
}

/// The path of `name` inside `folder`.
pub fn path_inside(folder: &str, name: &str) -> (r: String)
    ensures
        r@ == inside(folder@, name@),
{
    let base = trim_end_of(folder, '/');
    cat3(base.as_str(), "/", name)
}

} // verus!
