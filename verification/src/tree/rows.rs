//! The library as a tree: which rows are visible, and which listings they lack.
use crate::domain::{entries, RemoteEntryType, RemoteEntryView};
use crate::paths::parent_and_name;
use crate::tree::collections::{
    listing_of, row_views, ListingCache, ListingView, RowView, TextSet, TreeRow,
};
use vstd::prelude::*;

verus! {

/// Whether an entry is a folder that is unfolded.
pub open spec fn is_unfolded(entry: RemoteEntryView, expanded: Set<Seq<char>>) -> bool {
    entry.entry_type == RemoteEntryType::Folder && expanded.contains(entry.path)
}

/// The rows below a folder: its entries in order, each unfolded folder followed
/// by the rows below it. A folder whose listing is not at hand has none. No more
/// than `fuel` folders are entered one inside the other.
pub open spec fn tree_rows(
    cache: Seq<ListingView>,
    expanded: Set<Seq<char>>,
    path: Seq<char>,
    depth: nat,
    fuel: nat,
) -> Seq<RowView>
    decreases fuel, 1nat, 0nat,
{
    if fuel == 0 {
        Seq::empty()
    } else {
        match listing_of(cache, path) {
            None => Seq::empty(),
            Some(list) => entry_rows(cache, expanded, list, depth, fuel),
        }
    }
}

/// The rows of some entries of one folder.
pub open spec fn entry_rows(
    cache: Seq<ListingView>,
    expanded: Set<Seq<char>>,
    list: Seq<RemoteEntryView>,
    depth: nat,
    fuel: nat,
) -> Seq<RowView>
    decreases fuel, 0nat, list.len(),
{
    if list.len() == 0 || fuel == 0 {
        Seq::empty()
    } else {
        let above = entry_rows(cache, expanded, list.drop_last(), depth, fuel).push(
            RowView { entry: list.last(), depth },
        );
        if is_unfolded(list.last(), expanded) {
            above + tree_rows(cache, expanded, list.last().path, depth + 1, (fuel - 1) as nat)
        } else {
            above
        }
    }
}

/// Adds the rows below a folder.
pub fn walk_tree(
    cache: &ListingCache,
    expanded: &TextSet,
    path: &str,
    depth: usize,
    fuel: usize,
    out: &mut Vec<TreeRow>,
)
    requires
        depth + fuel <= usize::MAX,
    ensures
        row_views(final(out)@) == row_views(old(out)@) + tree_rows(
            cache@,
            expanded@,
            path@,
            depth as nat,
            fuel as nat,
        ),
    decreases fuel,
{
    let ghost was = row_views(out@);
    let list = match cache.get(path) {
        Some(list) => list,
        None => {
            assert(row_views(out@) =~= was + Seq::<RowView>::empty());
            return;
        },
    };
    if fuel == 0 {
        assert(row_views(out@) =~= was + Seq::<RowView>::empty());
        return;
    }
    let ghost all = entries(list@);
    assert(all.take(0) =~= Seq::<RemoteEntryView>::empty());
    assert(row_views(out@) =~= was + entry_rows(
        cache@,
        expanded@,
        all.take(0),
        depth as nat,
        fuel as nat,
    ));
    for i in 0..list.len()
        invariant
            all == entries(list@),
            fuel > 0,
            depth + fuel <= usize::MAX,
            row_views(out@) == was + entry_rows(
                cache@,
                expanded@,
                all.take(i as int),
                depth as nat,
                fuel as nat,
            ),
    {
        let ghost before = row_views(out@);
        let ghost upto = all.take(i + 1);
        proof {
            assert(upto.drop_last() =~= all.take(i as int));
            assert(upto.last() == list@[i as int].deep_view());
        }
        let entry = list[i].clone();
        assert(entry.deep_view() == list@[i as int].deep_view());
        let unfold = entry.entry_type == RemoteEntryType::Folder && expanded.contains(
            entry.path.as_str(),
        );
        let path = entry.path.as_str().to_owned();
        let row = TreeRow { entry, depth };
        let ghost text = row.deep_view();
        out.push(row);
        assert(row_views(out@) =~= before.push(text));
        let ghost above = entry_rows(
            cache@,
            expanded@,
            upto.drop_last(),
            depth as nat,
            fuel as nat,
        ).push(RowView { entry: upto.last(), depth: depth as nat });
        assert(row_views(out@) =~= was + above);
        if unfold {
            walk_tree(cache, expanded, path.as_str(), depth + 1, fuel - 1, out);
            assert(row_views(out@) =~= was + entry_rows(
                cache@,
                expanded@,
                upto,
                depth as nat,
                fuel as nat,
            ));
        }
    }
    assert(all.take(all.len() as int) =~= all);
}

/// The first folder, in the order of the rows, whose listing is needed and not
/// at hand, those in `given_up` aside.
pub open spec fn first_missing(
    cache: Seq<ListingView>,
    expanded: Set<Seq<char>>,
    given_up: Set<Seq<char>>,
    path: Seq<char>,
    fuel: nat,
) -> Option<Seq<char>>
    decreases fuel, 1nat, 0nat,
{
    if fuel == 0 {
        None
    } else {
        match listing_of(cache, path) {
            None => if given_up.contains(path) {
                None
            } else {
                Some(path)
            },
            Some(list) => missing_in(cache, expanded, given_up, list, fuel),
        }
    }
}

/// The first folder below some entries whose listing is needed and not at hand.
pub open spec fn missing_in(
    cache: Seq<ListingView>,
    expanded: Set<Seq<char>>,
    given_up: Set<Seq<char>>,
    list: Seq<RemoteEntryView>,
    fuel: nat,
) -> Option<Seq<char>>
    decreases fuel, 0nat, list.len(),
{
    if list.len() == 0 || fuel == 0 {
        None
    } else if is_unfolded(list[0], expanded) {
        match first_missing(cache, expanded, given_up, list[0].path, (fuel - 1) as nat) {
            Some(path) => Some(path),
            None => missing_in(cache, expanded, given_up, list.skip(1), fuel),
        }
    } else {
        missing_in(cache, expanded, given_up, list.skip(1), fuel)
    }
}

/// Finds the first folder whose listing is needed and not at hand.
pub fn find_missing(
    cache: &ListingCache,
    expanded: &TextSet,
    given_up: &TextSet,
    path: &str,
    fuel: usize,
) -> (r: Option<String>)
    ensures
        r.deep_view() == first_missing(cache@, expanded@, given_up@, path@, fuel as nat),
    decreases fuel,
{
    if fuel == 0 {
        return None;
    }
    let list = match cache.get(path) {
        Some(list) => list,
        None => {
            return if given_up.contains(path) {
                None
            } else {
                Some(path.to_owned())
            };
        },
    };
    let ghost all = entries(list@);
    assert(all.skip(0) =~= all);
    for i in 0..list.len()
        invariant
            all == entries(list@),
            fuel > 0,
            listing_of(cache@, path@) == Some(all),
            missing_in(cache@, expanded@, given_up@, all, fuel as nat) == missing_in(
                cache@,
                expanded@,
                given_up@,
                all.skip(i as int),
                fuel as nat,
            ),
    {
        assert(all.skip(i as int)[0] == list@[i as int].deep_view());
        assert(all.skip(i as int).skip(1) =~= all.skip(i + 1));
        let entry = &list[i];
        if entry.entry_type == RemoteEntryType::Folder && expanded.contains(entry.path.as_str()) {
            let found = find_missing(cache, expanded, given_up, entry.path.as_str(), fuel - 1);
            if found.is_some() {
                return found;
            }
        }
    }
    None
}

/// Whether the folders in every listing at hand have longer paths than the
/// folder that is listed.
pub open spec fn goes_deeper(cache: Seq<ListingView>) -> bool {
    forall|k: int, i: int|
        0 <= k < cache.len() && 0 <= i < (#[trigger] cache[k]).1.len() ==> (#[trigger] cache[k].1[i]).path.len()
            > cache[k].0.len()
}

/// What is listed of a folder, named without slashes at its end, has longer
/// paths than the folder.
pub proof fn children_have_longer_paths(
    list: Seq<crate::json::JsonView>,
    path: Seq<char>,
    i: int,
)
    requires
        crate::text::strip_back(path, crate::text::CharClass::Only('/')) == path,
        0 <= i < crate::entries::children(list, path).len(),
    ensures
        crate::entries::children(list, path)[i].path.len() > path.len(),
{
    crate::entries::listed_entries_are_children(list, path, i);
    let child = crate::entries::children(list, path)[i].path;
    parent_and_name(child);
    if !child.contains('/') && child.len() == 0 {
        assert(child =~= path);
    }
}

/// How many listings at hand are of folders with paths of at least some length.
pub open spec fn count_from(cache: Seq<ListingView>, len: nat) -> nat
    decreases cache.len(),
{
    if cache.len() == 0 {
        0
    } else {
        count_from(cache.skip(1), len) + if cache[0].0.len() >= len {
            1nat
        } else {
            0nat
        }
    }
}

proof fn count_is_bounded(cache: Seq<ListingView>, a: nat, b: nat)
    requires
        a <= b,
    ensures
        count_from(cache, b) <= count_from(cache, a) <= cache.len(),
    decreases cache.len(),
{
    if cache.len() > 0 {
        count_is_bounded(cache.skip(1), a, b);
    }
}

proof fn listed_is_counted(cache: Seq<ListingView>, path: Seq<char>)
    requires
        listing_of(cache, path) is Some,
    ensures
        count_from(cache, path.len()) > count_from(cache, path.len() + 1),
        exists|k: int|
            0 <= k < cache.len() && (#[trigger] cache[k]).0 == path && Some(cache[k].1)
                == listing_of(cache, path),
    decreases cache.len(),
{
    if cache[0].0 == path {
        count_is_bounded(cache.skip(1), path.len(), path.len() + 1);
        assert(Some(cache[0].1) == listing_of(cache, path));
    } else {
        listed_is_counted(cache.skip(1), path);
        let k = choose|k: int|
            0 <= k < cache.skip(1).len() && (#[trigger] cache.skip(1)[k]).0 == path && Some(
                cache.skip(1)[k].1,
            ) == listing_of(cache.skip(1), path);
        assert(cache[k + 1] == cache.skip(1)[k]);
    }
}

proof fn rows_need_little_fuel(
    cache: Seq<ListingView>,
    expanded: Set<Seq<char>>,
    path: Seq<char>,
    depth: nat,
    a: nat,
    b: nat,
)
    requires
        goes_deeper(cache),
        count_from(cache, path.len()) <= a,
        count_from(cache, path.len()) <= b,
    ensures
        tree_rows(cache, expanded, path, depth, a) == tree_rows(cache, expanded, path, depth, b),
    decreases a, 1nat, 0nat,
{
    if let Some(list) = listing_of(cache, path) {
        listed_is_counted(cache, path);
        let k = choose|k: int|
            0 <= k < cache.len() && (#[trigger] cache[k]).0 == path && Some(cache[k].1)
                == listing_of(cache, path);
        assert forall|i: int| 0 <= i < list.len() implies (#[trigger] list[i]).path.len()
            > path.len() by {
            assert(cache[k].1[i].path.len() > cache[k].0.len());
        }
        entries_need_little_fuel(cache, expanded, list, path.len(), depth, a, b);
    }
}

proof fn entries_need_little_fuel(
    cache: Seq<ListingView>,
    expanded: Set<Seq<char>>,
    list: Seq<RemoteEntryView>,
    len: nat,
    depth: nat,
    a: nat,
    b: nat,
)
    requires
        goes_deeper(cache),
        forall|i: int| 0 <= i < list.len() ==> (#[trigger] list[i]).path.len() > len,
        count_from(cache, len + 1) < a,
        count_from(cache, len + 1) < b,
    ensures
        entry_rows(cache, expanded, list, depth, a) == entry_rows(cache, expanded, list, depth, b),
    decreases a, 0nat, list.len(),
{
    if list.len() > 0 {
        entries_need_little_fuel(cache, expanded, list.drop_last(), len, depth, a, b);
        let last = list[list.len() - 1];
        count_is_bounded(cache, len + 1, last.path.len());
        rows_need_little_fuel(
            cache,
            expanded,
            last.path,
            depth + 1,
            (a - 1) as nat,
            (b - 1) as nat,
        );
    }
}

/// As many levels as there are listings at hand are always enough: with more,
/// the visible rows are the same.
pub proof fn no_row_is_cut_off(
    cache: Seq<ListingView>,
    expanded: Set<Seq<char>>,
    path: Seq<char>,
    fuel: nat,
)
    requires
        goes_deeper(cache),
        fuel >= cache.len(),
    ensures
        tree_rows(cache, expanded, path, 0, fuel) == tree_rows(
            cache,
            expanded,
            path,
            0,
            cache.len(),
        ),
{
    count_is_bounded(cache, path.len(), path.len());
    rows_need_little_fuel(cache, expanded, path, 0, fuel, cache.len());
}

/// A folder whose listing is asked for is neither at hand nor given up, so each
/// answer brings the tree further.
pub proof fn missing_is_not_at_hand(
    cache: Seq<ListingView>,
    expanded: Set<Seq<char>>,
    given_up: Set<Seq<char>>,
    path: Seq<char>,
    fuel: nat,
)
    ensures
        first_missing(cache, expanded, given_up, path, fuel) matches Some(p) ==> listing_of(
            cache,
            p,
        ) is None && !given_up.contains(p),
    decreases fuel, 1nat, 0nat,
{
    if fuel > 0 {
        if let Some(list) = listing_of(cache, path) {
            missing_in_is_not_at_hand(cache, expanded, given_up, list, fuel);
        }
    }
}

proof fn missing_in_is_not_at_hand(
    cache: Seq<ListingView>,
    expanded: Set<Seq<char>>,
    given_up: Set<Seq<char>>,
    list: Seq<RemoteEntryView>,
    fuel: nat,
)
    ensures
        missing_in(cache, expanded, given_up, list, fuel) matches Some(p) ==> listing_of(
            cache,
            p,
        ) is None && !given_up.contains(p),
    decreases fuel, 0nat, list.len(),
{
    if list.len() > 0 && fuel > 0 {
        if is_unfolded(list[0], expanded) {
            missing_is_not_at_hand(cache, expanded, given_up, list[0].path, (fuel - 1) as nat);
        }
        missing_in_is_not_at_hand(cache, expanded, given_up, list.skip(1), fuel);
    }
}

proof fn nothing_missing_below(
    cache: Seq<ListingView>,
    expanded: Set<Seq<char>>,
    list: Seq<RemoteEntryView>,
    fuel: nat,
    i: int,
)
    requires
        fuel > 0,
        missing_in(cache, expanded, Set::empty(), list, fuel) is None,
        0 <= i < list.len(),
        is_unfolded(list[i], expanded),
    ensures
        first_missing(cache, expanded, Set::empty(), list[i].path, (fuel - 1) as nat) is None,
    decreases list.len(),
{
    if i > 0 {
        nothing_missing_below(cache, expanded, list.skip(1), fuel, i - 1);
    }
}

/// Where no listing is asked for and none was given up, every unfolded folder
/// among the visible rows has its listing at hand.
pub proof fn nothing_missing_means_complete(
    cache: Seq<ListingView>,
    expanded: Set<Seq<char>>,
    path: Seq<char>,
    depth: nat,
    fuel: nat,
    k: int,
)
    requires
        first_missing(cache, expanded, Set::empty(), path, fuel + 1) is None,
        0 <= k < tree_rows(cache, expanded, path, depth, fuel).len(),
        is_unfolded(tree_rows(cache, expanded, path, depth, fuel)[k].entry, expanded),
    ensures
        listing_of(cache, tree_rows(cache, expanded, path, depth, fuel)[k].entry.path) is Some,
    decreases fuel, 1nat, 0nat,
{
    let list = listing_of(cache, path)->Some_0;
    assert forall|i: int|
        0 <= i < list.len() && is_unfolded(#[trigger] list[i], expanded) implies first_missing(
        cache,
        expanded,
        Set::empty(),
        list[i].path,
        fuel,
    ) is None by {
        nothing_missing_below(cache, expanded, list, fuel + 1, i);
    }
    entries_are_complete(cache, expanded, list, depth, fuel, k);
}

proof fn entries_are_complete(
    cache: Seq<ListingView>,
    expanded: Set<Seq<char>>,
    list: Seq<RemoteEntryView>,
    depth: nat,
    fuel: nat,
    k: int,
)
    requires
        fuel > 0,
        forall|i: int|
            0 <= i < list.len() && is_unfolded(#[trigger] list[i], expanded) ==> first_missing(
                cache,
                expanded,
                Set::empty(),
                list[i].path,
                fuel,
            ) is None,
        0 <= k < entry_rows(cache, expanded, list, depth, fuel).len(),
        is_unfolded(entry_rows(cache, expanded, list, depth, fuel)[k].entry, expanded),
    ensures
        listing_of(cache, entry_rows(cache, expanded, list, depth, fuel)[k].entry.path) is Some,
    decreases fuel, 0nat, list.len(),
{
    let init = list.drop_last();
    let last = list[list.len() - 1];
    let above = entry_rows(cache, expanded, init, depth, fuel);
    let rows = entry_rows(cache, expanded, list, depth, fuel);
    if k < above.len() {
        assert(rows[k] == above[k]);
        entries_are_complete(cache, expanded, init, depth, fuel, k);
    } else if k == above.len() {
        assert(rows[k].entry == last);
        assert(first_missing(cache, expanded, Set::empty(), last.path, fuel) is None);
    } else {
        let below = tree_rows(cache, expanded, last.path, depth + 1, (fuel - 1) as nat);
        let j = k - above.len() - 1;
        assert(is_unfolded(last, expanded));
        assert(rows[k] == below[j]);
        nothing_missing_means_complete(
            cache,
            expanded,
            last.path,
            depth + 1,
            (fuel - 1) as nat,
            j,
        );
    }
}

/// All entries of a folder whose listing is at hand are shown, at the folder's depth.
pub proof fn entries_of_the_folder_are_shown(
    cache: Seq<ListingView>,
    expanded: Set<Seq<char>>,
    path: Seq<char>,
    list: Seq<RemoteEntryView>,
    depth: nat,
    fuel: nat,
    i: int,
)
    requires
        listing_of(cache, path) == Some(list),
        fuel > 0,
        0 <= i < list.len(),
    ensures
        tree_rows(cache, expanded, path, depth, fuel).contains(RowView { entry: list[i], depth }),
{
    entry_is_shown(cache, expanded, list, depth, fuel, i);
}

proof fn entry_is_shown(
    cache: Seq<ListingView>,
    expanded: Set<Seq<char>>,
    list: Seq<RemoteEntryView>,
    depth: nat,
    fuel: nat,
    i: int,
)
    requires
        fuel > 0,
        0 <= i < list.len(),
    ensures
        entry_rows(cache, expanded, list, depth, fuel).contains(RowView { entry: list[i], depth }),
    decreases list.len(),
{
    let all = entry_rows(cache, expanded, list, depth, fuel);
    let before = entry_rows(cache, expanded, list.drop_last(), depth, fuel);
    let row = RowView { entry: list[i], depth };
    if i == list.len() - 1 {
        assert(all[before.len() as int] == row);
    } else {
        entry_is_shown(cache, expanded, list.drop_last(), depth, fuel, i);
        let k = choose|k: int| 0 <= k < before.len() && before[k] == row;
        assert(all[k] == row);
    }
}

/// The entries of an unfolded folder whose listing is at hand are shown one deeper.
pub proof fn unfolded_folder_shows_its_entries(
    cache: Seq<ListingView>,
    expanded: Set<Seq<char>>,
    path: Seq<char>,
    list: Seq<RemoteEntryView>,
    below: Seq<RemoteEntryView>,
    depth: nat,
    fuel: nat,
    i: int,
    j: int,
)
    requires
        listing_of(cache, path) == Some(list),
        fuel > 1,
        0 <= i < list.len(),
        list[i].entry_type == RemoteEntryType::Folder,
        expanded.contains(list[i].path),
        listing_of(cache, list[i].path) == Some(below),
        0 <= j < below.len(),
    ensures
        tree_rows(cache, expanded, path, depth, fuel).contains(
            RowView { entry: below[j], depth: depth + 1 },
        ),
{
    entry_below_is_shown(cache, expanded, list, below, depth, fuel, i, j);
}

proof fn entry_below_is_shown(
    cache: Seq<ListingView>,
    expanded: Set<Seq<char>>,
    list: Seq<RemoteEntryView>,
    below: Seq<RemoteEntryView>,
    depth: nat,
    fuel: nat,
    i: int,
    j: int,
)
    requires
        fuel > 1,
        0 <= i < list.len(),
        list[i].entry_type == RemoteEntryType::Folder,
        expanded.contains(list[i].path),
        listing_of(cache, list[i].path) == Some(below),
        0 <= j < below.len(),
    ensures
        entry_rows(cache, expanded, list, depth, fuel).contains(
            RowView { entry: below[j], depth: depth + 1 },
        ),
    decreases list.len(),
{
    let all = entry_rows(cache, expanded, list, depth, fuel);
    let before = entry_rows(cache, expanded, list.drop_last(), depth, fuel);
    let row = RowView { entry: below[j], depth: depth + 1 };
    if i == list.len() - 1 {
        let inner = tree_rows(cache, expanded, list[i].path, depth + 1, (fuel - 1) as nat);
        entries_of_the_folder_are_shown(
            cache,
            expanded,
            list[i].path,
            below,
            depth + 1,
            (fuel - 1) as nat,
            j,
        );
        let k = choose|k: int| 0 <= k < inner.len() && inner[k] == row;
        assert(all[before.len() + 1 + k] == row);
    } else {
        entry_below_is_shown(cache, expanded, list.drop_last(), below, depth, fuel, i, j);
        let k = choose|k: int| 0 <= k < before.len() && before[k] == row;
        assert(all[k] == row);
    }
}

/// With nothing unfolded, the rows are the folder's entries in their order.
pub proof fn folded_tree_is_the_listing(
    cache: Seq<ListingView>,
    path: Seq<char>,
    list: Seq<RemoteEntryView>,
    depth: nat,
    fuel: nat,
)
    requires
        listing_of(cache, path) == Some(list),
        fuel > 0,
    ensures
        tree_rows(cache, Set::empty(), path, depth, fuel) == list.map_values(
            |e: RemoteEntryView| RowView { entry: e, depth },
        ),
{
    folded_entries_are_rows(cache, list, depth, fuel);
}

proof fn folded_entries_are_rows(
    cache: Seq<ListingView>,
    list: Seq<RemoteEntryView>,
    depth: nat,
    fuel: nat,
)
    requires
        fuel > 0,
    ensures
        entry_rows(cache, Set::empty(), list, depth, fuel) == list.map_values(
            |e: RemoteEntryView| RowView { entry: e, depth },
        ),
    decreases list.len(),
{
    if list.len() > 0 {
        folded_entries_are_rows(cache, list.drop_last(), depth, fuel);
    }
    assert(entry_rows(cache, Set::empty(), list, depth, fuel) =~= list.map_values(
        |e: RemoteEntryView| RowView { entry: e, depth },
    ));
}

/// A listing that is added is found under its path, where there was none before.
pub proof fn added_listing_is_found(
    cache: Seq<ListingView>,
    path: Seq<char>,
    list: Seq<RemoteEntryView>,
)
    requires
        forall|k: int| 0 <= k < cache.len() ==> (#[trigger] cache[k]).0 != path,
    ensures
        listing_of(cache, path) is None,
        listing_of(cache.push((path, list)), path) == Some(list),
    decreases cache.len(),
{
    if cache.len() > 0 {
        let rest = cache.skip(1);
        assert forall|k: int| 0 <= k < rest.len() implies (#[trigger] rest[k]).0 != path by {
            assert(rest[k] == cache[k + 1]);
        }
        added_listing_is_found(rest, path, list);
        assert(cache.push((path, list)).skip(1) =~= rest.push((path, list)));
        assert(cache.push((path, list))[0] == cache[0]);
    } else {
        assert(cache.push((path, list))[0] == (path, list));
    }
}

} // verus!
