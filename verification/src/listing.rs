//! Walking the folders of a device, and finding entries.
use crate::domain::{entries, RemoteEntry, RemoteEntryType, RemoteEntryView};
use crate::order::{
    before, before_irreflexive, before_total, before_transitive, comes_before,
};
use crate::paths::{parent_of, parent_path};
use crate::text::{
    cat2, contains, lowered, occurs, same, strip_back, texts, to_lower, trim_end_of, CharClass,
};
use vstd::multiset::Multiset;
use vstd::prelude::*;

verus! {

/// The paths of the folders among entries, in order.
pub open spec fn folder_paths(list: Seq<RemoteEntryView>) -> Seq<Seq<char>>
    decreases list.len(),
{
    if list.len() == 0 {
        Seq::empty()
    } else {
        let first = folder_paths(list.drop_last());
        if list.last().entry_type == RemoteEntryType::Folder {
            first.push(list.last().path)
        } else {
            first
        }
    }
}

/// A walk through folders: those still to be listed, the next one last, and the
/// entries met so far.
pub struct EntryWalk {
    pub stack: Vec<String>,
    pub out: Vec<RemoteEntry>,
}

/// The content of an [`EntryWalk`].
#[verifier::ext_equal]
pub struct WalkView {
    pub stack: Seq<Seq<char>>,
    pub out: Seq<RemoteEntryView>,
}

impl DeepView for EntryWalk {
    type V = WalkView;

    open spec fn deep_view(&self) -> WalkView {
        WalkView { stack: texts(self.stack@), out: entries(self.out@) }
    }
}

impl WalkView {
    /// The start of a walk.
    pub open spec fn at(root: Seq<char>) -> WalkView {
        WalkView { stack: seq![root], out: Seq::empty() }
    }

    /// The walk after the next folder's entries are known.
    pub open spec fn fed(self, listing: Seq<RemoteEntryView>) -> WalkView {
        WalkView {
            stack: self.stack.drop_last() + folder_paths(listing),
            out: self.out + listing,
        }
    }
}

impl EntryWalk {
    /// Starts a walk at a folder.
    pub fn new(root: &str) -> (r: EntryWalk)
        ensures
            r.deep_view() == WalkView::at(root@),
    {
        let r = EntryWalk { stack: vec![root.to_owned()], out: Vec::new() };
        assert(r.deep_view() =~= WalkView::at(root@));
        r
    }

    /// The folder to list next, if the walk is not at its end.
    pub fn next(&self) -> (r: Option<String>)
        ensures
            r.deep_view() == if self.deep_view().stack.len() == 0 {
                None
            } else {
                Some(self.deep_view().stack.last())
            },
    {
        if self.stack.len() == 0 {
            None
        } else {
            Some(self.stack[self.stack.len() - 1].as_str().to_owned())
        }
    }

    /// Goes on with the entries of the folder that was to be listed next.
    pub fn feed(&mut self, listing: Vec<RemoteEntry>)
        requires
            old(self).deep_view().stack.len() > 0,
        ensures
            final(self).deep_view() == old(self).deep_view().fed(entries(listing@)),
    {
        let ghost start = self.deep_view();
        let ghost all = entries(listing@);
        self.stack.pop();
        proof {
            assert(all.take(0) =~= Seq::<RemoteEntryView>::empty());
            assert(texts(self.stack@) =~= start.stack.drop_last() + folder_paths(all.take(0)));
            assert(entries(self.out@) =~= start.out + all.take(0));
        }
        for i in 0..listing.len()
            invariant
                all == entries(listing@),
                texts(self.stack@) == start.stack.drop_last() + folder_paths(all.take(i as int)),
                entries(self.out@) == start.out + all.take(i as int),
        {
            let ghost stack = texts(self.stack@);
            let ghost out = entries(self.out@);
            proof {
                assert(all.take(i + 1).drop_last() =~= all.take(i as int));
                assert(all.take(i + 1).last() == listing@[i as int].deep_view());
            }
            let entry = listing[i].clone();
            assert(entry.deep_view() == listing@[i as int].deep_view());
            if entry.entry_type == RemoteEntryType::Folder {
                self.stack.push(entry.path.as_str().to_owned());
                assert(texts(self.stack@) =~= stack.push(entry.path@));
            }
            assert(texts(self.stack@) =~= start.stack.drop_last() + folder_paths(all.take(i + 1)));
            self.out.push(entry);
            assert(entries(self.out@) =~= out.push(entry.deep_view()));
            assert(entries(self.out@) =~= start.out + all.take(i + 1));
        }
        assert(all.take(all.len() as int) =~= all);
    }

    /// The entries met on a walk, ordered by path; entries with one path stay in
    /// the order in which they were met.
    pub fn finish(self) -> (r: Vec<RemoteEntry>)
        ensures
            is_sorted_version(entries(r@), self.deep_view().out),
    {
        sort_by_path(self.out)
    }
}

/// Where a walk stands after some listings.
pub open spec fn walk_after(root: Seq<char>, listings: Seq<Seq<RemoteEntryView>>) -> WalkView
    decreases listings.len(),
{
    if listings.len() == 0 {
        WalkView::at(root)
    } else {
        walk_after(root, listings.drop_last()).fed(listings.last())
    }
}

/// The folder that listing `k` of a walk is of.
pub open spec fn walk_asked(root: Seq<char>, listings: Seq<Seq<RemoteEntryView>>, k: int) -> Seq<
    char,
> {
    walk_after(root, listings.take(k)).stack.last()
}

/// Whether a folder was listed on a walk.
pub open spec fn was_listed(
    root: Seq<char>,
    listings: Seq<Seq<RemoteEntryView>>,
    path: Seq<char>,
) -> bool {
    exists|k: int| 0 <= k < listings.len() && #[trigger] walk_asked(root, listings, k) == path
}

proof fn folder_path_is_found(list: Seq<RemoteEntryView>, i: int)
    requires
        0 <= i < list.len(),
        list[i].entry_type == RemoteEntryType::Folder,
    ensures
        folder_paths(list).contains(list[i].path),
    decreases list.len(),
{
    let all = folder_paths(list);
    if i == list.len() - 1 {
        assert(all[all.len() - 1] == list[i].path);
    } else {
        folder_path_is_found(list.drop_last(), i);
        let first = folder_paths(list.drop_last());
        let k = choose|k: int| 0 <= k < first.len() && first[k] == list.drop_last()[i].path;
        assert(all[k] == first[k]);
    }
}

/// A walk that has come to its end has listed its root and every folder it met.
/// (On the way, what it has not listed is still on its stack.)
pub proof fn walk_lists_every_folder(
    root: Seq<char>,
    listings: Seq<Seq<RemoteEntryView>>,
    path: Seq<char>,
)
    requires
        forall|k: int|
            0 <= k < listings.len() ==> walk_after(
                root,
                #[trigger] listings.take(k),
            ).stack.len() > 0,
        path == root || exists|i: int|
            0 <= i < walk_after(root, listings).out.len() && (#[trigger] walk_after(
                root,
                listings,
            ).out[i]).entry_type == RemoteEntryType::Folder && walk_after(root, listings).out[i].path
                == path,
    ensures
        walk_after(root, listings).stack.contains(path) || was_listed(root, listings, path),
        walk_after(root, listings).stack.len() == 0 ==> was_listed(root, listings, path),
    decreases listings.len(),
{
    let now = walk_after(root, listings);
    if listings.len() == 0 {
        assert(now.stack[0] == root);
        assert(now.stack.contains(root));
    } else {
        let init = listings.drop_last();
        let prev = walk_after(root, init);
        let listing = listings.last();
        assert(listings.take(listings.len() - 1) =~= init);
        assert(prev.stack.len() > 0);
        let met_before = path == root || exists|i: int|
            0 <= i < prev.out.len() && (#[trigger] prev.out[i]).entry_type
                == RemoteEntryType::Folder && prev.out[i].path == path;
        if met_before {
            assert forall|k: int| 0 <= k < init.len() implies walk_after(
                root,
                #[trigger] init.take(k),
            ).stack.len() > 0 by {
                assert(init.take(k) =~= listings.take(k));
            }
            walk_lists_every_folder(root, init, path);
            if was_listed(root, init, path) {
                let k = choose|k: int|
                    0 <= k < init.len() && #[trigger] walk_asked(root, init, k) == path;
                assert(init.take(k) =~= listings.take(k));
                assert(walk_asked(root, listings, k) == path);
            } else {
                let j = choose|j: int| 0 <= j < prev.stack.len() && prev.stack[j] == path;
                if j == prev.stack.len() - 1 {
                    assert(walk_asked(root, listings, listings.len() - 1) == path);
                } else {
                    assert(now.stack[j] == path);
                }
            }
        } else {
            let i = choose|i: int|
                0 <= i < now.out.len() && (#[trigger] now.out[i]).entry_type
                    == RemoteEntryType::Folder && now.out[i].path == path;
            if i < prev.out.len() {
                assert(prev.out[i] == now.out[i]);
            }
            let m = i - prev.out.len();
            assert(listing[m] == now.out[i]);
            folder_path_is_found(listing, m);
            let folders = folder_paths(listing);
            let j = choose|j: int| 0 <= j < folders.len() && folders[j] == path;
            assert(now.stack[prev.stack.len() - 1 + j] == path);
        }
    }
    if now.stack.len() == 0 && now.stack.contains(path) {
        assert(false);
    }
}

/// Whether entries are ordered by path.
pub open spec fn is_ordered(list: Seq<RemoteEntryView>) -> bool {
    forall|i: int, j: int|
        0 <= i < j < list.len() ==> !before((#[trigger] list[j]).path, (#[trigger] list[i]).path)
}

/// The entries with the given path, in order.
pub open spec fn with_path(list: Seq<RemoteEntryView>, path: Seq<char>) -> Seq<RemoteEntryView>
    decreases list.len(),
{
    if list.len() == 0 {
        Seq::empty()
    } else if list.last().path == path {
        with_path(list.drop_last(), path).push(list.last())
    } else {
        with_path(list.drop_last(), path)
    }
}

/// Whether a list is another one ordered by path: for every path it holds the
/// same entries in the same order.
pub open spec fn is_sorted_version(list: Seq<RemoteEntryView>, of: Seq<RemoteEntryView>) -> bool {
    is_ordered(list) && forall|path: Seq<char>| #[trigger]
        with_path(list, path) == with_path(of, path)
}

proof fn with_path_of_sum(a: Seq<RemoteEntryView>, b: Seq<RemoteEntryView>, path: Seq<char>)
    ensures
        with_path(a + b, path) == with_path(a, path) + with_path(b, path),
    decreases b.len(),
{
    if b.len() == 0 {
        assert(a + b =~= a);
        assert(with_path(a, path) + with_path(b, path) =~= with_path(a, path));
    } else {
        with_path_of_sum(a, b.drop_last(), path);
        assert((a + b).drop_last() =~= a + b.drop_last());
        assert((a + b).last() == b.last());
        assert(with_path(a + b, path) =~= with_path(a, path) + with_path(b, path));
    }
}

proof fn with_path_of_none(list: Seq<RemoteEntryView>, path: Seq<char>)
    requires
        forall|i: int| 0 <= i < list.len() ==> (#[trigger] list[i]).path != path,
    ensures
        with_path(list, path) == Seq::<RemoteEntryView>::empty(),
    decreases list.len(),
{
    if list.len() > 0 {
        assert(list[list.len() - 1].path != path);
        with_path_of_none(list.drop_last(), path);
    }
}

/// Inserting an entry behind all that do not come after it keeps the order, and
/// puts it behind the others with its path.
proof fn insert_keeps_order(list: Seq<RemoteEntryView>, at: int, entry: RemoteEntryView)
    requires
        is_ordered(list),
        0 <= at <= list.len(),
        forall|i: int| 0 <= i < at ==> !before(entry.path, (#[trigger] list[i]).path),
        at < list.len() ==> before(entry.path, list[at].path),
    ensures
        is_ordered(list.insert(at, entry)),
        forall|path: Seq<char>| #[trigger]
            with_path(list.insert(at, entry), path) == with_path(list.push(entry), path),
{
    let now = list.insert(at, entry);
    assert forall|k: int| at <= k < list.len() implies before(entry.path, (#[trigger] list[k]).path) by {
        if k > at {
            before_total(list[at].path, list[k].path);
            if before(list[at].path, list[k].path) {
                before_transitive(entry.path, list[at].path, list[k].path);
            }
        }
    }
    assert forall|i: int, j: int| 0 <= i < j < now.len() implies !before(
        (#[trigger] now[j]).path,
        (#[trigger] now[i]).path,
    ) by {
        let oi = if i < at { i } else { i - 1 };
        let oj = if j < at { j } else { j - 1 };
        if i == at {
            assert(now[j] == list[oj]);
            if before(list[oj].path, entry.path) {
                before_transitive(entry.path, list[oj].path, entry.path);
                before_irreflexive(entry.path);
            }
        } else if j == at {
            assert(now[i] == list[oi]);
        } else {
            assert(now[i] == list[oi] && now[j] == list[oj]);
        }
    }
    let front = list.take(at);
    let back = list.skip(at);
    let one = seq![entry];
    assert(now =~= front + one + back);
    assert(list =~= front + back);
    assert forall|path: Seq<char>| #[trigger] with_path(now, path) == with_path(
        list.push(entry),
        path,
    ) by {
        with_path_of_sum(front + one, back, path);
        with_path_of_sum(front, one, path);
        with_path_of_sum(front, back, path);
        assert(list.push(entry).drop_last() =~= list);
        assert(one.drop_last() =~= Seq::<RemoteEntryView>::empty());
        assert(with_path(one.drop_last(), path) =~= Seq::<RemoteEntryView>::empty());
        assert(one.last() == entry);
        if path == entry.path {
            assert forall|k: int| 0 <= k < back.len() implies (#[trigger] back[k]).path
                != entry.path by {
                assert(back[k] == list[at + k]);
                before_irreflexive(entry.path);
            }
            with_path_of_none(back, path);
            assert(with_path(one, path) =~= one);
            assert(with_path(now, path) =~= with_path(front, path) + one);
            assert(with_path(list, path) =~= with_path(front, path));
            assert(with_path(list.push(entry), path) =~= with_path(front, path) + one);
        } else {
            assert(with_path(one, path) =~= Seq::<RemoteEntryView>::empty());
            assert(with_path(now, path) =~= with_path(front, path) + with_path(back, path));
        }
    }
}

/// Orders entries by path; entries with one path stay in order.
pub fn sort_by_path(list: Vec<RemoteEntry>) -> (r: Vec<RemoteEntry>)
    ensures
        is_sorted_version(entries(r@), entries(list@)),
{
    let ghost all = entries(list@);
    let mut out: Vec<RemoteEntry> = Vec::new();
    assert(all.take(0) =~= entries(out@));
    for i in 0..list.len()
        invariant
            all == entries(list@),
            is_sorted_version(entries(out@), all.take(i as int)),
    {
        let ghost was = entries(out@);
        let entry = list[i].clone();
        let ghost text = entry.deep_view();
        assert(text == all[i as int]);
        let mut at: usize = 0;
        while at < out.len() && !comes_before(entry.path.as_str(), out[at].path.as_str())
            invariant
                was == entries(out@),
                at <= out@.len(),
                text == entry.deep_view(),
                forall|k: int| 0 <= k < at ==> !before(text.path, (#[trigger] was[k]).path),
            decreases out@.len() - at,
        {
            assert(was[at as int] == out@[at as int].deep_view());
            at = at + 1;
        }
        proof {
            if at < was.len() {
                assert(was[at as int] == out@[at as int].deep_view());
            }
            insert_keeps_order(was, at as int, text);
        }
        out.insert(at, entry);
        proof {
            assert(entries(out@) =~= was.insert(at as int, text));
            assert(all.take(i + 1) =~= all.take(i as int).push(text));
            assert forall|path: Seq<char>| #[trigger] with_path(entries(out@), path) == with_path(
                all.take(i + 1),
                path,
            ) by {
                assert(with_path(was, path) == with_path(all.take(i as int), path));
                assert(was.push(text).drop_last() =~= was);
                assert(all.take(i as int).push(text).drop_last() =~= all.take(i as int));
            }
        }
    }
    assert(all.take(all.len() as int) =~= all);
    out
}

/// The folder whose listing tells of the entry at a path.
pub fn stat_folder(path: &str) -> (r: String)
    ensures
        r@ == parent_of(strip_back(path@, CharClass::Only('/'))),
{
    parent_path(trim_end_of(path, '/').as_str())
}

/// The first entry with the given path.
pub open spec fn first_with_path(list: Seq<RemoteEntryView>, path: Seq<char>) -> Option<
    RemoteEntryView,
>
    decreases list.len(),
{
    if list.len() == 0 {
        None
    } else if list[0].path == path {
        Some(list[0])
    } else {
        first_with_path(list.skip(1), path)
    }
}

/// The entry at a path, slashes at its end aside, out of the listing of its
/// folder; a message where it is not there.
pub fn stat_entry(path: &str, listing: &Vec<RemoteEntry>) -> (r: Result<RemoteEntry, String>)
    ensures
        match r {
            Ok(entry) => first_with_path(
                entries(listing@),
                strip_back(path@, CharClass::Only('/')),
            ) == Some(entry.deep_view()),
            Err(message) => first_with_path(
                entries(listing@),
                strip_back(path@, CharClass::Only('/')),
            ) is None && message@ == "remote path not found: "@ + path@,
        },
{
    let wanted = trim_end_of(path, '/');
    let ghost all = entries(listing@);
    assert(all.skip(0) =~= all);
    for i in 0..listing.len()
        invariant
            all == entries(listing@),
            wanted@ == strip_back(path@, CharClass::Only('/')),
            first_with_path(all, wanted@) == first_with_path(all.skip(i as int), wanted@),
    {
        assert(all.skip(i as int)[0] == listing@[i as int].deep_view());
        if same(listing[i].path.as_str(), wanted.as_str()) {
            return Ok(listing[i].clone());
        }
        assert(all.skip(i as int).skip(1) =~= all.skip(i + 1));
    }
    Err(cat2("remote path not found: ", path))
}

/// Whether an entry's name has a text in it, upper and lower case aside.
pub open spec fn name_matches(entry: RemoteEntryView, needle: Seq<char>) -> bool {
    occurs(lowered(entry.name), lowered(needle))
}

/// The entries whose name has a text in it, upper and lower case aside.
pub fn find_entries_by_name(list: &Vec<RemoteEntry>, needle: &str) -> (r: Vec<RemoteEntry>)
    ensures
        entries(r@) == entries(list@).filter(|e: RemoteEntryView| name_matches(e, needle@)),
{
    let query = to_lower(needle);
    let ghost all = entries(list@);
    let ghost keep = |e: RemoteEntryView| name_matches(e, needle@);
    let mut out: Vec<RemoteEntry> = Vec::new();
    proof {
        reveal(Seq::filter);
        assert(all.take(0) =~= Seq::<RemoteEntryView>::empty());
        assert(entries(out@) =~= all.take(0).filter(keep));
    }
    for i in 0..list.len()
        invariant
            all == entries(list@),
            query@ == lowered(needle@),
            keep == (|e: RemoteEntryView| name_matches(e, needle@)),
            entries(out@) == all.take(i as int).filter(keep),
    {
        let ghost was = entries(out@);
        proof {
            reveal(Seq::filter);
            assert(all.take(i + 1).drop_last() =~= all.take(i as int));
            assert(all.take(i + 1).last() == list@[i as int].deep_view());
        }
        if contains(to_lower(list[i].name.as_str()).as_str(), query.as_str()) {
            let entry = list[i].clone();
            assert(entry.deep_view() == list@[i as int].deep_view());
            out.push(entry);
            assert(entries(out@) =~= was.push(entry.deep_view()));
        }
    }
    assert(all.take(all.len() as int) =~= all);
    out
}

/// Sorting neither loses nor adds an entry.
pub proof fn sorting_keeps_the_entries(list: Seq<RemoteEntryView>, of: Seq<RemoteEntryView>)
    requires
        is_sorted_version(list, of),
    ensures
        list.to_multiset() == of.to_multiset(),
        list.len() == of.len(),
{
    assert forall|e: RemoteEntryView| list.to_multiset().count(e) == of.to_multiset().count(e) by {
        counted_by_path(list, e);
        counted_by_path(of, e);
        assert(with_path(list, e.path) == with_path(of, e.path));
    }
    assert(list.to_multiset() =~= of.to_multiset());
    list.to_multiset_ensures();
    of.to_multiset_ensures();
}

proof fn counted_by_path(list: Seq<RemoteEntryView>, e: RemoteEntryView)
    ensures
        list.to_multiset().count(e) == with_path(list, e.path).to_multiset().count(e),
    decreases list.len(),
{
    broadcast use vstd::seq_lib::group_to_multiset_ensures;

    if list.len() > 0 {
        let init = list.drop_last();
        counted_by_path(init, e);
        assert(list =~= init.push(list.last()));
        assert(list.to_multiset() =~= init.to_multiset().insert(list.last()));
        if list.last().path == e.path {
            assert(with_path(list, e.path).to_multiset() =~= with_path(init, e.path).to_multiset().insert(
                list.last(),
            ));
        }
    } else {
        assert(list =~= Seq::<RemoteEntryView>::empty());
        assert(with_path(list, e.path) =~= list);
    }
}

/// The entry at the end of an ordered list has a path that none comes after, and
/// is the last one with that path.
proof fn last_of_ordered(list: Seq<RemoteEntryView>)
    requires
        is_ordered(list),
        list.len() > 0,
    ensures
        with_path(list, list.last().path).len() > 0,
        with_path(list, list.last().path).last() == list.last(),
        is_ordered(list.drop_last()),
{
}

proof fn member_by_path(list: Seq<RemoteEntryView>, path: Seq<char>)
    requires
        with_path(list, path).len() > 0,
    ensures
        exists|i: int| 0 <= i < list.len() && (#[trigger] list[i]).path == path,
    decreases list.len(),
{
    if list.last().path == path {
        assert(list[list.len() - 1].path == path);
    } else {
        member_by_path(list.drop_last(), path);
        let i = choose|i: int|
            0 <= i < list.drop_last().len() && (#[trigger] list.drop_last()[i]).path == path;
        assert(list[i].path == path);
    }
}

/// There is only one way to sort a list.
pub proof fn sorting_is_unique(
    a: Seq<RemoteEntryView>,
    b: Seq<RemoteEntryView>,
    of: Seq<RemoteEntryView>,
)
    requires
        is_sorted_version(a, of),
        is_sorted_version(b, of),
    ensures
        a == b,
{
    assert forall|path: Seq<char>| #[trigger] with_path(a, path) == with_path(b, path) by {
        assert(with_path(b, path) == with_path(of, path));
    }
    same_by_paths(a, b);
}

proof fn same_by_paths(a: Seq<RemoteEntryView>, b: Seq<RemoteEntryView>)
    requires
        is_ordered(a),
        is_ordered(b),
        forall|path: Seq<char>| #[trigger] with_path(a, path) == with_path(b, path),
    ensures
        a == b,
    decreases a.len(),
{
    if a.len() == 0 {
        if b.len() > 0 {
            last_of_ordered(b);
            assert(with_path(a, b.last().path) == with_path(b, b.last().path));
        }
        assert(a =~= b);
    } else {
        let p = a.last().path;
        last_of_ordered(a);
        assert(with_path(b, p) == with_path(a, p));
        member_by_path(b, p);
        let i = choose|i: int| 0 <= i < b.len() && (#[trigger] b[i]).path == p;
        last_of_ordered(b);
        let q = b.last().path;
        assert(with_path(a, q) == with_path(b, q));
        member_by_path(a, q);
        let j = choose|j: int| 0 <= j < a.len() && (#[trigger] a[j]).path == q;
        before_total(p, q);
        if p != q {
            assert(i < b.len() - 1);
            assert(!before(b[b.len() - 1].path, b[i].path));
            assert(j < a.len() - 1);
            assert(!before(a[a.len() - 1].path, a[j].path));
        }
        assert(p == q);
        assert(a.last() == b.last());
        let c = a.drop_last();
        let d = b.drop_last();
        assert forall|path: Seq<char>| #[trigger] with_path(c, path) == with_path(d, path) by {
            assert(with_path(a, path) == with_path(b, path));
            if path == p {
                assert(with_path(c, path) =~= with_path(a, path).drop_last());
                assert(with_path(d, path) =~= with_path(b, path).drop_last());
            }
        }
        same_by_paths(c, d);
        assert(a =~= c.push(a.last()));
        assert(b =~= d.push(b.last()));
    }
}

/// The folders of a device: what it lists for a path.
pub type Folders = spec_fn(Seq<char>) -> Seq<RemoteEntryView>;

/// Whether each listing of a walk is what the device lists for the folder that
/// was to be listed next.
pub open spec fn is_walk_of(
    folders: Folders,
    root: Seq<char>,
    listings: Seq<Seq<RemoteEntryView>>,
) -> bool {
    forall|k: int|
        #![trigger listings[k]]
        0 <= k < listings.len() ==> walk_after(root, listings.take(k)).stack.len() > 0
            && listings[k] == folders(walk_asked(root, listings, k))
}

/// All entries that a device lists for some paths.
pub open spec fn listed_for(folders: Folders, paths: Seq<Seq<char>>) -> Multiset<RemoteEntryView>
    decreases paths.len(),
{
    if paths.len() == 0 {
        Multiset::empty()
    } else {
        listed_for(folders, paths.drop_last()).add(folders(paths.last()).to_multiset())
    }
}

proof fn listed_for_sum(folders: Folders, a: Seq<Seq<char>>, b: Seq<Seq<char>>)
    ensures
        listed_for(folders, a + b) == listed_for(folders, a).add(listed_for(folders, b)),
    decreases b.len(),
{
    if b.len() == 0 {
        assert(a + b =~= a);
        assert(listed_for(folders, a).add(listed_for(folders, b)) =~= listed_for(folders, a));
    } else {
        listed_for_sum(folders, a, b.drop_last());
        assert((a + b).drop_last() =~= a + b.drop_last());
        assert((a + b).last() == b.last());
        assert(listed_for(folders, a + b) =~= listed_for(folders, a).add(listed_for(folders, b)));
    }
}

proof fn folder_paths_of_sum(a: Seq<RemoteEntryView>, b: Seq<RemoteEntryView>)
    ensures
        folder_paths(a + b) == folder_paths(a) + folder_paths(b),
    decreases b.len(),
{
    if b.len() == 0 {
        assert(a + b =~= a);
        assert(folder_paths(a) + folder_paths(b) =~= folder_paths(a));
    } else {
        folder_paths_of_sum(a, b.drop_last());
        assert((a + b).drop_last() =~= a + b.drop_last());
        assert((a + b).last() == b.last());
        assert(folder_paths(a + b) =~= folder_paths(a) + folder_paths(b));
    }
}

/// What is listed for the folders among entries does not depend on their order.
proof fn order_is_no_matter(folders: Folders, a: Seq<RemoteEntryView>, b: Seq<RemoteEntryView>)
    requires
        a.to_multiset() == b.to_multiset(),
    ensures
        listed_for(folders, folder_paths(a)) == listed_for(folders, folder_paths(b)),
    decreases a.len(),
{
    broadcast use vstd::seq_lib::group_to_multiset_ensures;

    a.to_multiset_ensures();
    b.to_multiset_ensures();
    assert(a.len() == b.len());
    if a.len() == 0 {
        assert(a =~= b);
    } else {
        let e = a.last();
        let init = a.drop_last();
        let one = seq![e];
        assert(a =~= init.push(e));
        assert(a.to_multiset() =~= init.to_multiset().insert(e));
        assert(b.to_multiset().count(e) > 0);
        assert(b.contains(e));
        let j = choose|j: int| 0 <= j < b.len() && b[j] == e;
        let front = b.take(j);
        let back = b.skip(j + 1);
        let rest = front + back;
        assert(b =~= front + one + back);
        assert(rest =~= b.remove(j));
        assert(b.remove(j).to_multiset() =~= b.to_multiset().remove(b[j]));
        assert(rest.to_multiset() =~= init.to_multiset());
        order_is_no_matter(folders, init, rest);
        folder_paths_of_sum(front, back);
        folder_paths_of_sum(front + one, back);
        folder_paths_of_sum(front, one);
        folder_paths_of_sum(init, one);
        assert(a =~= init + one);
        listed_for_sum(folders, folder_paths(front), folder_paths(back));
        listed_for_sum(folders, folder_paths(front + one), folder_paths(back));
        listed_for_sum(folders, folder_paths(front), folder_paths(one));
        listed_for_sum(folders, folder_paths(init), folder_paths(one));
        assert(listed_for(folders, folder_paths(a)) =~= listed_for(folders, folder_paths(b)));
    }
}

proof fn moved_over(
    met: Multiset<RemoteEntryView>,
    to_come: Multiset<RemoteEntryView>,
    listing: Multiset<RemoteEntryView>,
    fresh: Multiset<RemoteEntryView>,
    start: Multiset<RemoteEntryView>,
    under: Multiset<RemoteEntryView>,
)
    requires
        met.add(to_come.add(listing)) == start.add(under),
    ensures
        met.add(listing).add(to_come.add(fresh)) == start.add(under.add(fresh)),
{
    assert(met.add(listing).add(to_come.add(fresh)) =~= met.add(to_come.add(listing)).add(fresh));
    assert(start.add(under.add(fresh)) =~= start.add(under).add(fresh));
}

/// At its start, a walk has all that is listed for its root before it.
proof fn walk_starts_with_its_root(folders: Folders, root: Seq<char>)
    ensures
        WalkView::at(root).out.to_multiset().add(listed_for(folders, WalkView::at(root).stack))
            == folders(root).to_multiset().add(
            listed_for(folders, folder_paths(WalkView::at(root).out)),
        ),
{
    let start = WalkView::at(root);
    start.out.to_multiset_ensures();
    assert(start.out.to_multiset() =~= Multiset::empty());
    assert(start.stack.drop_last() =~= Seq::<Seq<char>>::empty());
    assert(listed_for(folders, start.stack.drop_last()) =~= Multiset::empty());
    assert(listed_for(folders, start.stack) =~= folders(root).to_multiset());
    assert(listed_for(folders, folder_paths(start.out)) =~= Multiset::empty());
    assert(start.out.to_multiset().add(listed_for(folders, start.stack)) =~= folders(
        root,
    ).to_multiset().add(listed_for(folders, folder_paths(start.out))));
}

/// On a walk, the entries met and those listed for the folders still to come are
/// those listed for the root and for the folders met.
#[verifier::spinoff_prover]
#[verifier::rlimit(40)]
proof fn walk_keeps_account(
    folders: Folders,
    root: Seq<char>,
    listings: Seq<Seq<RemoteEntryView>>,
)
    requires
        is_walk_of(folders, root, listings),
    ensures
        walk_after(root, listings).out.to_multiset().add(
            listed_for(folders, walk_after(root, listings).stack),
        ) == folders(root).to_multiset().add(
            listed_for(folders, folder_paths(walk_after(root, listings).out)),
        ),
    decreases listings.len(),
{
    if listings.len() == 0 {
        walk_starts_with_its_root(folders, root);
    } else {
        let init = listings.drop_last();
        let listing = listings.last();
        let last = listings.len() - 1;
        let prev = walk_after(root, init);
        assert(listings.take(last) =~= init);
        assert(listings[last] == listing);
        assert(prev.stack.len() > 0 && listing == folders(prev.stack.last()));
        assert forall|k: int| #![trigger init[k]] 0 <= k < init.len() implies walk_after(
            root,
            init.take(k),
        ).stack.len() > 0 && init[k] == folders(walk_asked(root, init, k)) by {
            assert(init.take(k) =~= listings.take(k));
            assert(listings[k] == init[k]);
        }
        walk_keeps_account(folders, root, init);
        folder_paths_of_sum(prev.out, listing);
        listed_for_sum(folders, folder_paths(prev.out), folder_paths(listing));
        listed_for_sum(folders, prev.stack.drop_last(), folder_paths(listing));
        vstd::seq_lib::lemma_multiset_commutative(prev.out, listing);
        moved_over(
            prev.out.to_multiset(),
            listed_for(folders, prev.stack.drop_last()),
            listing.to_multiset(),
            listed_for(folders, folder_paths(listing)),
            folders(root).to_multiset(),
            listed_for(folders, folder_paths(prev.out)),
        );
    }
}

/// What a walk through all folders gives: the entries that the device lists for
/// the root and for each folder among them, no more and no fewer, ordered by path.
pub proof fn walk_gives_the_tree(
    folders: Folders,
    root: Seq<char>,
    listings: Seq<Seq<RemoteEntryView>>,
    all: Seq<RemoteEntryView>,
)
    requires
        is_walk_of(folders, root, listings),
        walk_after(root, listings).stack.len() == 0,
        is_sorted_version(all, walk_after(root, listings).out),
    ensures
        all.to_multiset() == folders(root).to_multiset().add(
            listed_for(folders, folder_paths(all)),
        ),
        is_ordered(all),
{
    let now = walk_after(root, listings);
    walk_keeps_account(folders, root, listings);
    sorting_keeps_the_entries(all, now.out);
    order_is_no_matter(folders, all, now.out);
    assert(now.out.to_multiset().add(listed_for(folders, now.stack)) =~= now.out.to_multiset());
}

/// The entry at a path is the first in its folder's listing with exactly that path,
/// slashes at its end aside; the listing asked for is that of the folder before
/// the last slash.
pub proof fn entry_is_found_in_its_folder(
    path: Seq<char>,
    folder: Seq<char>,
    name: Seq<char>,
    list: Seq<RemoteEntryView>,
    i: int,
)
    requires
        !name.contains('/'),
        name.len() > 0,
        crate::paths::names_folder(path, folder + seq!['/'] + name),
        0 <= i < list.len(),
        list[i].path == folder + seq!['/'] + name,
        forall|k: int| 0 <= k < i ==> (#[trigger] list[k]).path != list[i].path,
    ensures
        parent_of(strip_back(path, CharClass::Only('/'))) == folder,
        first_with_path(list, strip_back(path, CharClass::Only('/'))) == Some(list[i]),
{
    crate::paths::path_names_a_folder(path);
    crate::paths::named_folder_is_unique(
        path,
        strip_back(path, CharClass::Only('/')),
        folder + seq!['/'] + name,
    );
    crate::paths::cut_at_the_last_slash(folder, name);
    first_is_found(list, i);
}

proof fn first_is_found(list: Seq<RemoteEntryView>, i: int)
    requires
        0 <= i < list.len(),
        forall|k: int| 0 <= k < i ==> (#[trigger] list[k]).path != list[i].path,
    ensures
        first_with_path(list, list[i].path) == Some(list[i]),
    decreases i,
{
    if i > 0 {
        let rest = list.skip(1);
        assert(list[0].path != list[i].path);
        assert(rest[i - 1] == list[i]);
        assert forall|k: int| 0 <= k < i - 1 implies (#[trigger] rest[k]).path != rest[i - 1].path by {
            assert(rest[k] == list[k + 1]);
        }
        first_is_found(rest, i - 1);
    }
}

/// A path that no entry of the listing has is not found.
pub proof fn missing_entry_is_not_found(list: Seq<RemoteEntryView>, path: Seq<char>)
    requires
        forall|k: int| 0 <= k < list.len() ==> (#[trigger] list[k]).path != path,
    ensures
        first_with_path(list, path) is None,
    decreases list.len(),
{
    if list.len() > 0 {
        let rest = list.skip(1);
        assert(list[0].path != path);
        assert forall|k: int| 0 <= k < rest.len() implies (#[trigger] rest[k]).path != path by {
            assert(rest[k] == list[k + 1]);
        }
        missing_entry_is_not_found(rest, path);
    }
}

/// An entry is found by any part of its name, whichever way the letters are
/// written: `front`, `part` and `back` make up its name, and `needle` is `part` but
/// for the case of ASCII letters.
pub proof fn entry_is_found_by_a_part_of_its_name(
    entry: RemoteEntryView,
    front: Seq<char>,
    part: Seq<char>,
    back: Seq<char>,
    needle: Seq<char>,
)
    requires
        entry.name == front + part + back,
        needle.len() == part.len(),
        forall|i: int|
            0 <= i < part.len() ==> #[trigger] needle[i] == part[i] || ('A' <= needle[i] <= 'Z'
                && part[i] as int == needle[i] as int + 32) || ('A' <= part[i] <= 'Z'
                && needle[i] as int == part[i] as int + 32),
    ensures
        name_matches(entry, needle),
{
    let hay = lowered(entry.name);
    let low = lowered(needle);
    let at = front.len() as int;
    assert forall|i: int| 0 <= i < low.len() implies hay.subrange(at, at + low.len())[i]
        == low[i] by {
        assert(entry.name[at + i] == part[i]);
        assert(needle[i] == part[i] || ('A' <= needle[i] <= 'Z' && part[i] as int
            == needle[i] as int + 32) || ('A' <= part[i] <= 'Z' && needle[i] as int
            == part[i] as int + 32));
    }
    assert(hay.subrange(at, at + low.len()) =~= low);
    assert(crate::text::stands_at(hay, low, at));
}

/// Of two entries in an ordered list, the one whose path comes first in the order
/// of texts stands first.
pub proof fn ordered_entries_follow_their_paths(list: Seq<RemoteEntryView>, i: int, j: int)
    requires
        is_ordered(list),
        0 <= i < list.len(),
        0 <= j < list.len(),
        before(list[i].path, list[j].path),
    ensures
        i < j,
{
    if i == j {
        crate::order::before_irreflexive(list[i].path);
    }
}

} // verus!
