//! Searching the library for names, folder by folder.
use crate::domain::{entries, RemoteEntry, RemoteEntryType, RemoteEntryView};
use crate::text::{cat2, contains, lowered, occurs, to_lower};
use crate::tree::collections::{row_views, RowView, TreeRow};
use vstd::prelude::*;

verus! {

/// What listing a folder gave: its entries, or an error text.
pub type Listed = Result<Vec<RemoteEntry>, String>;

/// How a search stands: it needs a folder's listing, has failed, or has come to
/// rows and whether any entry matched, after so many listings.
pub enum SearchRun {
    List(String),
    Failed(String),
    Done(Vec<TreeRow>, bool, usize),
}

/// The content of a [`SearchRun`].
pub enum SearchRunView {
    List(Seq<char>),
    Failed(Seq<char>),
    Done(Seq<RowView>, bool, nat),
}

impl DeepView for SearchRun {
    type V = SearchRunView;

    open spec fn deep_view(&self) -> SearchRunView {
        match self {
            SearchRun::List(path) => SearchRunView::List(path@),
            SearchRun::Failed(e) => SearchRunView::Failed(e@),
            SearchRun::Done(rows, matched, n) => SearchRunView::Done(
                row_views(rows@),
                *matched,
                *n as nat,
            ),
        }
    }
}

/// Searching below a folder, from listing `at` on.
pub open spec fn search_folder(
    path: Seq<char>,
    depth: nat,
    needle: Seq<char>,
    listings: Seq<Listed>,
    at: nat,
) -> SearchRunView
    decreases listings.len() - at, 0nat, 0nat,
{
    if at >= listings.len() {
        SearchRunView::List(path)
    } else {
        match listings[at as int] {
            Err(_) => SearchRunView::Failed("failed to list "@ + path),
            Ok(list) => search_entries(
                entries(list@),
                depth,
                needle,
                listings,
                at + 1,
                Seq::empty(),
                false,
            ),
        }
    }
}

/// Searching the entries of a folder, after what was found above them: an entry
/// whose name matches is found; a folder is also found where anything below it
/// is, and is followed by that. Every folder is searched.
pub open spec fn search_entries(
    list: Seq<RemoteEntryView>,
    depth: nat,
    needle: Seq<char>,
    listings: Seq<Listed>,
    at: nat,
    rows: Seq<RowView>,
    matched: bool,
) -> SearchRunView
    decreases listings.len() - at, 1nat, list.len(),
{
    if list.len() == 0 || at > listings.len() {
        SearchRunView::Done(rows, matched, at)
    } else {
        let entry = list[0];
        let row = RowView { entry, depth };
        let here = occurs(lowered(entry.name), needle);
        if entry.entry_type == RemoteEntryType::Folder {
            match search_folder(entry.path, depth + 1, needle, listings, at) {
                SearchRunView::List(path) => SearchRunView::List(path),
                SearchRunView::Failed(e) => SearchRunView::Failed(e),
                SearchRunView::Done(found, below, n) => if n <= at || n > listings.len() {
                    SearchRunView::Done(rows, matched, at)
                } else if here || below {
                    search_entries(
                        list.skip(1),
                        depth,
                        needle,
                        listings,
                        n,
                        rows.push(row) + found,
                        true,
                    )
                } else {
                    search_entries(list.skip(1), depth, needle, listings, n, rows, matched)
                },
            }
        } else if here {
            search_entries(list.skip(1), depth, needle, listings, at, rows.push(row), true)
        } else {
            search_entries(list.skip(1), depth, needle, listings, at, rows, matched)
        }
    }
}

/// Listings are used up in order, one for each folder that is searched.
proof fn folder_uses_listings(
    path: Seq<char>,
    depth: nat,
    needle: Seq<char>,
    listings: Seq<Listed>,
    at: nat,
)
    ensures
        search_folder(path, depth, needle, listings, at) matches SearchRunView::Done(_, _, n) ==> at
            < n <= listings.len(),
    decreases listings.len() - at, 0nat, 0nat,
{
    if at < listings.len() {
        if let Ok(list) = listings[at as int] {
            entries_use_listings(
                entries(list@),
                depth,
                needle,
                listings,
                at + 1,
                Seq::empty(),
                false,
            );
        }
    }
}

proof fn entries_use_listings(
    list: Seq<RemoteEntryView>,
    depth: nat,
    needle: Seq<char>,
    listings: Seq<Listed>,
    at: nat,
    rows: Seq<RowView>,
    matched: bool,
)
    requires
        at <= listings.len(),
    ensures
        search_entries(list, depth, needle, listings, at, rows, matched) matches SearchRunView::Done(
            _,
            _,
            n,
        ) ==> at <= n <= listings.len(),
    decreases listings.len() - at, 1nat, list.len(),
{
    if list.len() > 0 {
        let entry = list[0];
        let row = RowView { entry, depth };
        let here = occurs(lowered(entry.name), needle);
        if entry.entry_type == RemoteEntryType::Folder {
            folder_uses_listings(entry.path, depth + 1, needle, listings, at);
            if let SearchRunView::Done(found, below, n) = search_folder(
                entry.path,
                depth + 1,
                needle,
                listings,
                at,
            ) {
                if here || below {
                    entries_use_listings(
                        list.skip(1),
                        depth,
                        needle,
                        listings,
                        n,
                        rows.push(row) + found,
                        true,
                    );
                } else {
                    entries_use_listings(list.skip(1), depth, needle, listings, n, rows, matched);
                }
            }
        } else if here {
            entries_use_listings(list.skip(1), depth, needle, listings, at, rows.push(row), true);
        } else {
            entries_use_listings(list.skip(1), depth, needle, listings, at, rows, matched);
        }
    }
}

/// Searches below a folder, from listing `at` on.
pub fn search_walk(
    path: &str,
    depth: usize,
    needle: &str,
    listings: &Vec<Listed>,
    at: usize,
) -> (r: SearchRun)
    requires
        depth <= at <= listings@.len(),
    ensures
        r.deep_view() == search_folder(path@, depth as nat, needle@, listings@, at as nat),
        r matches SearchRun::Done(_, _, n) ==> at < n <= listings@.len(),
    decreases listings@.len() - at, 0nat,
{
    proof {
        folder_uses_listings(path@, depth as nat, needle@, listings@, at as nat);
    }
    let total: usize = listings.len();
    if at >= total {
        return SearchRun::List(path.to_owned());
    }
    let list = match &listings[at] {
        Err(_) => {
            return SearchRun::Failed(cat2("failed to list ", path));
        },
        Ok(list) => list,
    };
    let ghost all = entries(list@);
    let mut rows: Vec<TreeRow> = Vec::new();
    let mut matched = false;
    let mut n: usize = at + 1;
    proof {
        assert(all.skip(0) =~= all);
        assert(row_views(rows@) =~= Seq::<RowView>::empty());
    }
    for i in 0..list.len()
        invariant
            all == entries(list@),
            total == listings@.len(),
            depth <= at < n <= total,
            search_folder(path@, depth as nat, needle@, listings@, at as nat) == search_entries(
                all.skip(i as int),
                depth as nat,
                needle@,
                listings@,
                n as nat,
                row_views(rows@),
                matched,
            ),
    {
        let ghost was = row_views(rows@);
        proof {
            assert(all.skip(i as int)[0] == list@[i as int].deep_view());
            assert(all.skip(i as int).skip(1) =~= all.skip(i + 1));
        }
        let entry = list[i].clone();
        assert(entry.deep_view() == list@[i as int].deep_view());
        let here = contains(to_lower(entry.name.as_str()).as_str(), needle);
        if entry.entry_type == RemoteEntryType::Folder {
            match search_walk(entry.path.as_str(), depth + 1, needle, listings, n) {
                SearchRun::List(path) => {
                    return SearchRun::List(path);
                },
                SearchRun::Failed(e) => {
                    return SearchRun::Failed(e);
                },
                SearchRun::Done(found, below, m) => {
                    if here || below {
                        let mut found = found;
                        let ghost sub = row_views(found@);
                        let row = TreeRow { entry, depth };
                        let ghost text = row.deep_view();
                        rows.push(row);
                        assert(row_views(rows@) =~= was.push(text));
                        rows.append(&mut found);
                        assert(row_views(rows@) =~= was.push(text) + sub);
                        matched = true;
                    }
                    n = m;
                },
            }
        } else if here {
            let row = TreeRow { entry, depth };
            let ghost text = row.deep_view();
            rows.push(row);
            assert(row_views(rows@) =~= was.push(text));
            matched = true;
        }
    }
    SearchRun::Done(rows, matched, n)
}

/// What a search tells while it runs and when it ends.
pub enum SearchUpdate {
    Progress { query: String, current_path: String, visited_folders: usize },
    Finished { query: String, results: Vec<TreeRow>, visited_folders: usize },
    Failed { query: String, error: String },
}

/// Whether an update is the one that a search under the query has come to: it
/// goes on with a folder, or has ended.
pub open spec fn is_update(
    root: Seq<char>,
    query: Seq<char>,
    listings: Seq<Listed>,
    update: SearchUpdate,
) -> bool {
    match search_folder(root, 0, lowered(query), listings, 0) {
        SearchRunView::List(path) => update matches SearchUpdate::Progress {
            query: q,
            current_path,
            visited_folders,
        } && q@ == query && current_path@ == path && visited_folders == listings.len() + 1,
        SearchRunView::Failed(e) => update matches SearchUpdate::Failed { query: q, error } && q@
            == query && error@ == e,
        SearchRunView::Done(rows, _, n) => update matches SearchUpdate::Finished {
            query: q,
            results,
            visited_folders,
        } && q@ == query && row_views(results@) == rows && visited_folders == n,
    }
}

/// What a search has come to with the listings so far.
pub fn spawn_search_job(root: &str, query: &str, listings: &Vec<Listed>) -> (r: SearchUpdate)
    requires
        listings@.len() < usize::MAX,
    ensures
        is_update(root@, query@, listings@, r),
{
    let needle = to_lower(query);
    match search_walk(root, 0, needle.as_str(), listings, 0) {
        SearchRun::List(path) => SearchUpdate::Progress {
            query: query.to_owned(),
            current_path: path,
            visited_folders: listings.len() + 1,
        },
        SearchRun::Failed(e) => SearchUpdate::Failed { query: query.to_owned(), error: e },
        SearchRun::Done(rows, _, n) => SearchUpdate::Finished {
            query: query.to_owned(),
            results: rows,
            visited_folders: n,
        },
    }
}

/// Whether every row is a folder or has a matching name.
pub open spec fn rows_match(rows: Seq<RowView>, needle: Seq<char>) -> bool {
    forall|i: int|
        0 <= i < rows.len() ==> (#[trigger] rows[i]).entry.entry_type == RemoteEntryType::Folder
            || occurs(lowered(rows[i].entry.name), needle)
}

/// What a search finds matches, but for folders above a match; and it finds
/// something exactly where something matched.
pub proof fn search_finds_matches(
    path: Seq<char>,
    depth: nat,
    needle: Seq<char>,
    listings: Seq<Listed>,
    at: nat,
)
    ensures
        search_folder(path, depth, needle, listings, at) matches SearchRunView::Done(
            rows,
            matched,
            _,
        ) ==> rows_match(rows, needle) && (matched <==> rows.len() > 0),
    decreases listings.len() - at, 0nat, 0nat,
{
    if at < listings.len() {
        if let Ok(list) = listings[at as int] {
            entries_find_matches(
                entries(list@),
                depth,
                needle,
                listings,
                at + 1,
                Seq::empty(),
                false,
            );
        }
    }
}

proof fn entries_find_matches(
    list: Seq<RemoteEntryView>,
    depth: nat,
    needle: Seq<char>,
    listings: Seq<Listed>,
    at: nat,
    rows: Seq<RowView>,
    matched: bool,
)
    requires
        rows_match(rows, needle),
        matched <==> rows.len() > 0,
    ensures
        search_entries(list, depth, needle, listings, at, rows, matched) matches SearchRunView::Done(
            found,
            any,
            _,
        ) ==> rows_match(found, needle) && (any <==> found.len() > 0),
    decreases listings.len() - at, 1nat, list.len(),
{
    if list.len() > 0 && at <= listings.len() {
        let entry = list[0];
        let row = RowView { entry, depth };
        let here = occurs(lowered(entry.name), needle);
        if entry.entry_type == RemoteEntryType::Folder {
            search_finds_matches(entry.path, depth + 1, needle, listings, at);
            if let SearchRunView::Done(found, below, n) = search_folder(
                entry.path,
                depth + 1,
                needle,
                listings,
                at,
            ) {
                if at < n <= listings.len() {
                    if here || below {
                        entries_find_matches(
                            list.skip(1),
                            depth,
                            needle,
                            listings,
                            n,
                            rows.push(row) + found,
                            true,
                        );
                    } else {
                        entries_find_matches(
                            list.skip(1),
                            depth,
                            needle,
                            listings,
                            n,
                            rows,
                            matched,
                        );
                    }
                }
            }
        } else if here {
            entries_find_matches(list.skip(1), depth, needle, listings, at, rows.push(row), true);
        } else {
            entries_find_matches(list.skip(1), depth, needle, listings, at, rows, matched);
        }
    }
}

/// Whether rows hold an entry.
pub open spec fn holds_entry(rows: Seq<RowView>, entry: RemoteEntryView) -> bool {
    exists|i: int| 0 <= i < rows.len() && (#[trigger] rows[i]).entry == entry
}

/// Whether rows hold every matching entry of some entries.
pub open spec fn covers(
    rows: Seq<RowView>,
    list: Seq<RemoteEntryView>,
    needle: Seq<char>,
) -> bool {
    forall|i: int|
        0 <= i < list.len() && occurs(lowered((#[trigger] list[i]).name), needle) ==> holds_entry(
            rows,
            list[i],
        )
}

/// Whether rows hold every matching entry of the listings `from..to`.
pub open spec fn covers_listings(
    rows: Seq<RowView>,
    listings: Seq<Listed>,
    from: nat,
    to: nat,
    needle: Seq<char>,
) -> bool {
    forall|k: int|
        from <= k < to && k < listings.len() ==> ((#[trigger] listings[k]) matches Ok(list)
            ==> covers(rows, entries(list@), needle))
}

proof fn more_rows_hold_more(rows: Seq<RowView>, more: Seq<RowView>, entry: RemoteEntryView)
    ensures
        holds_entry(rows, entry) ==> holds_entry(rows + more, entry),
        holds_entry(more, entry) ==> holds_entry(rows + more, entry),
{
    if holds_entry(rows, entry) {
        let i = choose|i: int| 0 <= i < rows.len() && (#[trigger] rows[i]).entry == entry;
        assert((rows + more)[i].entry == entry);
    }
    if holds_entry(more, entry) {
        let i = choose|i: int| 0 <= i < more.len() && (#[trigger] more[i]).entry == entry;
        assert((rows + more)[rows.len() + i].entry == entry);
    }
}

proof fn more_rows_cover_more(
    rows: Seq<RowView>,
    more: Seq<RowView>,
    listings: Seq<Listed>,
    from: nat,
    to: nat,
    needle: Seq<char>,
)
    ensures
        covers_listings(rows, listings, from, to, needle) ==> covers_listings(
            rows + more,
            listings,
            from,
            to,
            needle,
        ),
        covers_listings(more, listings, from, to, needle) ==> covers_listings(
            rows + more,
            listings,
            from,
            to,
            needle,
        ),
{
    assert forall|e: RemoteEntryView|
        (holds_entry(rows, e) ==> #[trigger] holds_entry(rows + more, e)) && (holds_entry(more, e)
            ==> holds_entry(rows + more, e)) by {
        more_rows_hold_more(rows, more, e);
    }
    if covers_listings(rows, listings, from, to, needle) {
        assert forall|k: int| from <= k < to && k < listings.len() implies ((
        #[trigger] listings[k]) matches Ok(list) ==> covers(
            rows + more,
            entries(list@),
            needle,
        )) by {
            if let Ok(list) = listings[k] {
                assert(covers(rows, entries(list@), needle));
            }
        }
    }
    if covers_listings(more, listings, from, to, needle) {
        assert forall|k: int| from <= k < to && k < listings.len() implies ((
        #[trigger] listings[k]) matches Ok(list) ==> covers(
            rows + more,
            entries(list@),
            needle,
        )) by {
            if let Ok(list) = listings[k] {
                assert(covers(more, entries(list@), needle));
            }
        }
    }
}

/// A finished search has found every entry with a matching name in every folder
/// that was listed for it.
pub proof fn search_misses_nothing(
    path: Seq<char>,
    depth: nat,
    needle: Seq<char>,
    listings: Seq<Listed>,
    at: nat,
)
    ensures
        search_folder(path, depth, needle, listings, at) matches SearchRunView::Done(rows, _, n)
            ==> covers_listings(rows, listings, at, n, needle),
    decreases listings.len() - at, 0nat, 0nat,
{
    if at < listings.len() {
        if let Ok(list) = listings[at as int] {
            let all = entries(list@);
            entries_miss_nothing(all, depth, needle, listings, at + 1, Seq::empty(), false, at + 1);
            if let SearchRunView::Done(rows, _, n) = search_folder(
                path,
                depth,
                needle,
                listings,
                at,
            ) {
                assert forall|k: int| at <= k < n && k < listings.len() implies ((
                #[trigger] listings[k]) matches Ok(l) ==> covers(
                    rows,
                    entries(l@),
                    needle,
                )) by {
                    if k > at {
                        assert(at + 1 <= k);
                    }
                }
            }
        }
    }
}

proof fn entries_miss_nothing(
    list: Seq<RemoteEntryView>,
    depth: nat,
    needle: Seq<char>,
    listings: Seq<Listed>,
    at: nat,
    rows: Seq<RowView>,
    matched: bool,
    from: nat,
)
    requires
        at <= listings.len(),
        from <= at,
        covers_listings(rows, listings, from, at, needle),
        matched <==> rows.len() > 0,
        rows_match(rows, needle),
    ensures
        search_entries(list, depth, needle, listings, at, rows, matched) matches SearchRunView::Done(
            found,
            _,
            n,
        ) ==> covers_listings(found, listings, from, n, needle) && covers(found, list, needle)
            && forall|e: RemoteEntryView| holds_entry(rows, e) ==> #[trigger] holds_entry(found, e),
    decreases listings.len() - at, 1nat, list.len(),
{
    let end = search_entries(list, depth, needle, listings, at, rows, matched);
    if list.len() > 0 {
        let entry = list[0];
        let rest = list.skip(1);
        let row = RowView { entry, depth };
        let here = occurs(lowered(entry.name), needle);
        let one = rows.push(row);
        assert(one =~= rows + seq![row]);
        assert(seq![row][0].entry == entry);
        assert(one[rows.len() as int].entry == entry);
        if entry.entry_type == RemoteEntryType::Folder {
            let below_run = search_folder(entry.path, depth + 1, needle, listings, at);
            folder_uses_listings(entry.path, depth + 1, needle, listings, at);
            search_misses_nothing(entry.path, depth + 1, needle, listings, at);
            search_finds_matches(entry.path, depth + 1, needle, listings, at);
            if let SearchRunView::Done(found, below, n) = below_run {
                if here || below {
                    let next = one + found;
                    more_rows_cover_more(rows, seq![row], listings, from, at, needle);
                    more_rows_cover_more(one, found, listings, from, at, needle);
                    more_rows_cover_more(one, found, listings, at, n, needle);
                    assert(covers_listings(next, listings, from, n, needle)) by {
                        assert forall|k: int| from <= k < n && k < listings.len() implies ((
                        #[trigger] listings[k]) matches Ok(l) ==> covers(
                            next,
                            entries(l@),
                            needle,
                        )) by {
                            if k < at {
                                assert(from <= k < at);
                            } else {
                                assert(at <= k < n);
                            }
                        }
                    }
                    assert(rows_match(next, needle));
                    entries_miss_nothing(rest, depth, needle, listings, n, next, true, from);
                    assert forall|e: RemoteEntryView| holds_entry(rows, e) implies #[trigger] holds_entry(
                        next,
                        e,
                    ) by {
                        more_rows_hold_more(rows, seq![row], e);
                        more_rows_hold_more(one, found, e);
                    }
                    more_rows_hold_more(one, found, entry);
                    assert(holds_entry(one, entry));
                } else {
                    assert(found.len() == 0);
                    more_rows_cover_more(found, rows, listings, at, n, needle);
                    assert(found + rows =~= rows);
                    assert(covers_listings(rows, listings, from, n, needle)) by {
                        assert forall|k: int| from <= k < n && k < listings.len() implies ((
                        #[trigger] listings[k]) matches Ok(l) ==> covers(
                            rows,
                            entries(l@),
                            needle,
                        )) by {
                            if k < at {
                                assert(from <= k < at);
                            } else {
                                assert(at <= k < n);
                            }
                        }
                    }
                    entries_miss_nothing(rest, depth, needle, listings, n, rows, matched, from);
                }
            }
        } else if here {
            more_rows_cover_more(rows, seq![row], listings, from, at, needle);
            entries_miss_nothing(rest, depth, needle, listings, at, one, true, from);
            assert forall|e: RemoteEntryView| holds_entry(rows, e) implies #[trigger] holds_entry(
                one,
                e,
            ) by {
                more_rows_hold_more(rows, seq![row], e);
            }
            assert(holds_entry(one, entry));
        } else {
            entries_miss_nothing(rest, depth, needle, listings, at, rows, matched, from);
        }
        if let SearchRunView::Done(found, _, n) = end {
            assert(covers(found, list, needle)) by {
                assert forall|i: int|
                    0 <= i < list.len() && occurs(
                        lowered((#[trigger] list[i]).name),
                        needle,
                    ) implies holds_entry(found, list[i]) by {
                    if i > 0 {
                        assert(rest[i - 1] == list[i]);
                    }
                }
            }
        }
    }
}

} // verus!
