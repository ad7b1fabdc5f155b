//! A set of texts, and the folder listings that are at hand.
use crate::domain::{copy_entries, entries, RemoteEntry, RemoteEntryView};
use crate::text::{lists, same, texts};
use vstd::prelude::*;

verus! {

/// A set of texts.
pub struct TextSet {
    pub items: Vec<String>,
}

impl View for TextSet {
    type V = Set<Seq<char>>;

    open spec fn view(&self) -> Set<Seq<char>> {
        texts(self.items@).to_set()
    }
}

impl TextSet {
    /// The set with one text.
    pub fn with(item: &str) -> (r: TextSet)
        ensures
            r@ == set![item@],
    {
        let r = TextSet { items: vec![item.to_owned()] };
        proof {
            assert(texts(r.items@) =~= seq![item@]);
            assert(seq![item@][0] == item@);
            assert(r@ =~= set![item@]);
        }
        r
    }

    /// Whether the set has a text.
    pub fn contains(&self, item: &str) -> (r: bool)
        ensures
            r == self@.contains(item@),
    {
        lists(&self.items, item)
    }

    /// Puts a text into the set.
    pub fn insert(&mut self, item: &str)
        ensures
            final(self)@ == old(self)@.insert(item@),
    {
        let ghost was = texts(self.items@);
        self.items.push(item.to_owned());
        proof {
            let now = texts(self.items@);
            assert(now =~= was.push(item@));
            assert forall|x: Seq<char>| #[trigger] now.contains(x) <==> was.contains(x) || x == item@ by {
                if was.contains(x) {
                    let k = choose|k: int| 0 <= k < was.len() && was[k] == x;
                    assert(now[k] == x);
                }
                if x == item@ {
                    assert(now[was.len() as int] == x);
                }
            }
            assert(self@ =~= old(self)@.insert(item@));
        }
    }

    /// Takes a text out of the set.
    pub fn remove(&mut self, item: &str)
        ensures
            final(self)@ == old(self)@.remove(item@),
    {
        let ghost was = texts(self.items@);
        let mut kept: Vec<String> = Vec::new();
        for i in 0..self.items.len()
            invariant
                was == texts(self.items@),
                forall|x: Seq<char>| #[trigger]
                    texts(kept@).contains(x) <==> was.take(i as int).contains(x) && x != item@,
        {
            let ghost before = texts(kept@);
            let ghost part = was.take(i as int);
            let ghost longer = was.take(i + 1);
            let ghost here = was[i as int];
            let skip = same(self.items[i].as_str(), item);
            if !skip {
                kept.push(self.items[i].as_str().to_owned());
                assert(texts(kept@) =~= before.push(here));
            }
            assert forall|x: Seq<char>| #[trigger]
                texts(kept@).contains(x) <==> longer.contains(x) && x != item@ by {
                assert(before.contains(x) <==> part.contains(x) && x != item@);
                assert(longer =~= part.push(here));
                if part.contains(x) {
                    let k = choose|k: int| 0 <= k < part.len() && part[k] == x;
                    assert(longer[k] == x);
                }
                if x == here {
                    assert(longer[i as int] == x);
                }
                if longer.contains(x) && x != here {
                    let k = choose|k: int| 0 <= k < longer.len() && longer[k] == x;
                    assert(part[k] == x);
                }
                if !skip {
                    let now = texts(kept@);
                    if before.contains(x) {
                        let k = choose|k: int| 0 <= k < before.len() && before[k] == x;
                        assert(now[k] == x);
                    }
                    if x == here {
                        assert(now[before.len() as int] == x);
                    }
                    if now.contains(x) && x != here {
                        let k = choose|k: int| 0 <= k < now.len() && now[k] == x;
                        assert(before[k] == x);
                    }
                }
            }
        }
        proof {
            assert(was.take(was.len() as int) =~= was);
        }
        self.items = kept;
        assert(self@ =~= old(self)@.remove(item@));
    }

    /// Takes a text out of the set if it is there, else puts it in.
    pub fn toggle(&mut self, item: &str)
        ensures
            final(self)@ == toggled(old(self)@, item@),
    {
        if self.contains(item) {
            self.remove(item);
        } else {
            self.insert(item);
        }
    }
}

/// A set with a text taken out if it was there, else put in.
pub open spec fn toggled(s: Set<Seq<char>>, item: Seq<char>) -> Set<Seq<char>> {
    if s.contains(item) {
        s.remove(item)
    } else {
        s.insert(item)
    }
}

/// Toggling twice changes nothing.
pub proof fn toggle_twice(s: Set<Seq<char>>, item: Seq<char>)
    ensures
        toggled(toggled(s, item), item) == s,
{
    assert(toggled(toggled(s, item), item) =~= s);
}

/// The entries of one folder.
pub struct Listing {
    pub path: String,
    pub entries: Vec<RemoteEntry>,
}

/// The content of a [`Listing`].
pub type ListingView = (Seq<char>, Seq<RemoteEntryView>);

/// Folder listings that are at hand.
pub struct ListingCache {
    pub listings: Vec<Listing>,
}

impl View for ListingCache {
    type V = Seq<ListingView>;

    open spec fn view(&self) -> Seq<ListingView> {
        self.listings@.map_values(|l: Listing| (l.path@, entries(l.entries@)))
    }
}

/// The entries of a folder, if its listing is at hand.
pub open spec fn listing_of(cache: Seq<ListingView>, path: Seq<char>) -> Option<Seq<RemoteEntryView>>
    decreases cache.len(),
{
    if cache.len() == 0 {
        None
    } else if cache[0].0 == path {
        Some(cache[0].1)
    } else {
        listing_of(cache.skip(1), path)
    }
}

impl ListingCache {
    /// No listings.
    pub fn new() -> (r: ListingCache)
        ensures
            r@ == Seq::<ListingView>::empty(),
    {
        let r = ListingCache { listings: Vec::new() };
        assert(r@ =~= Seq::<ListingView>::empty());
        r
    }

    /// A copy of the entries of a folder, if its listing is at hand.
    pub fn get(&self, path: &str) -> (r: Option<Vec<RemoteEntry>>)
        ensures
            listing_of(self@, path@) == match r {
                Some(list) => Some(entries(list@)),
                None => None,
            },
    {
        assert(self@.skip(0) =~= self@);
        for i in 0..self.listings.len()
            invariant
                listing_of(self@, path@) == listing_of(self@.skip(i as int), path@),
        {
            assert(self@.skip(i as int)[0] == (
                self.listings@[i as int].path@,
                entries(self.listings@[i as int].entries@),
            ));
            if same(self.listings[i].path.as_str(), path) {
                return Some(copy_entries(&self.listings[i].entries));
            }
            assert(self@.skip(i as int).skip(1) =~= self@.skip(i + 1));
        }
        None
    }

    /// Adds a listing behind those at hand.
    pub fn add(&mut self, path: &str, list: Vec<RemoteEntry>)
        ensures
            final(self)@ == old(self)@.push((path@, entries(list@))),
    {
        let ghost was = self@;
        let ghost text = entries(list@);
        self.listings.push(Listing { path: path.to_owned(), entries: list });
        assert(self@ =~= was.push((path@, text)));
    }
}

/// A row of the library: an entry and how deep it stands.
pub struct TreeRow {
    pub entry: RemoteEntry,
    pub depth: usize,
}

/// The content of a [`TreeRow`].
#[verifier::ext_equal]
pub struct RowView {
    pub entry: RemoteEntryView,
    pub depth: nat,
}

impl DeepView for TreeRow {
    type V = RowView;

    open spec fn deep_view(&self) -> RowView {
        RowView { entry: self.entry.deep_view(), depth: self.depth as nat }
    }
}

impl Clone for TreeRow {
    fn clone(&self) -> (r: Self)
        ensures
            r.deep_view() == self.deep_view(),
    {
        TreeRow { entry: self.entry.clone(), depth: self.depth }
    }
}

/// The contents of rows.
pub open spec fn row_views(rows: Seq<TreeRow>) -> Seq<RowView> {
    rows.map_values(|r: TreeRow| r.deep_view())
}

/// A copy of rows.
pub fn copy_rows(rows: &Vec<TreeRow>) -> (r: Vec<TreeRow>)
    ensures
        row_views(r@) == row_views(rows@),
{
    let mut out: Vec<TreeRow> = Vec::new();
    for i in 0..rows.len()
        invariant
            out@.len() == i,
            forall|k: int| 0 <= k < i ==> (#[trigger] out@[k]).deep_view() == rows@[k].deep_view(),
    {
        let row = rows[i].clone();
        assert(row.deep_view() == rows@[i as int].deep_view());
        out.push(row);
    }
    assert(row_views(out@) =~= row_views(rows@));
    out
}

} // verus!
