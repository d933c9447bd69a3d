//! Listings of one category at one repository, and the snapshot that a
//! listing stands for.

use vstd::prelude::*;
use vstd::hash_map::StringHashMap;

verus! {

/// One line of a listing: an object's name and its declared size.
///
/// The name is the lowercase hexadecimal hash of the object's content. The
/// size is advisory: it serves to spot candidates for a transfer cheaply and
/// never replaces the check of the hash.
#[derive(Clone, Debug, PartialEq, Eq)]
pub struct FileInfo {
    pub name: String,
    pub size: u64,
}

/// What a `FileInfo` holds, as plain values.
pub struct Entry {
    pub name: Seq<char>,
    pub size: u64,
}

impl View for FileInfo {
    type V = Entry;

    open spec fn view(&self) -> Entry {
        Entry { name: self.name@, size: self.size }
    }
}

/// The answer of a repository to a listing request, in the order received.
#[derive(Clone, Debug, PartialEq, Eq)]
pub struct Listing {
    pub entries: Vec<FileInfo>,
}

impl View for Listing {
    type V = Seq<Entry>;

    open spec fn view(&self) -> Seq<Entry> {
        self.entries@.map_values(|info: FileInfo| info@)
    }
}

/// The names of `entries`, in order.
pub open spec fn names(entries: Seq<Entry>) -> Seq<Seq<char>> {
    entries.map_values(|entry: Entry| entry.name)
}

/// The mapping from name to declared size that `entries` stands for. Where a
/// name is listed more than once, the last line decides.
pub open spec fn snapshot(entries: Seq<Entry>) -> Map<Seq<char>, u64>
    decreases entries.len(),
{
    if entries.len() == 0 {
        Map::empty()
    } else {
        snapshot(entries.drop_last()).insert(entries.last().name, entries.last().size)
    }
}

impl Listing {
    /// The listing of a category that holds nothing.
    pub fn empty() -> (listing: Listing)
        ensures
            listing@ == Seq::<Entry>::empty(),
            snapshot(listing@) == Map::<Seq<char>, u64>::empty(),
    {
        Listing { entries: Vec::new() }
    }

    /// Builds the snapshot of this listing for lookups by name.
    pub fn sizes(&self) -> (sizes: StringHashMap<u64>)
        ensures
            sizes@ == snapshot(self@),
    {
        let mut sizes: StringHashMap<u64> = StringHashMap::new();
        let count: usize = self.entries.len();
        let mut at: usize = 0;
        while at < count
            invariant
                count == self.entries.len(),
                at <= count,
                sizes@ == snapshot(self@.take(at as int)),
            decreases count - at,
        {
            let info = &self.entries[at];
            sizes.insert(info.name.clone(), info.size);
            assert(self@.take(at + 1).drop_last() =~= self@.take(at as int));
            at += 1;
        }
        assert(self@.take(count as int) =~= self@);
        sizes
    }
}

/// A snapshot holds exactly the names that its listing mentions.
pub proof fn lemma_snapshot_names(entries: Seq<Entry>)
    ensures
        snapshot(entries).dom() =~= names(entries).to_set(),
    decreases entries.len(),
{
    if entries.len() > 0 {
        let front = entries.drop_last();
        lemma_snapshot_names(front);
        assert(names(front) =~= names(entries).drop_last());
        assert forall|name: Seq<char>|
            snapshot(entries).dom().contains(name) <==> names(entries).to_set().contains(
                name,
            ) by {
            if names(entries).contains(name) {
                let at = choose|at: int|
                    0 <= at < names(entries).len() && names(entries)[at] == name;
                if at < front.len() {
                    assert(names(front)[at] == name);
                }
            }
            if names(front).contains(name) {
                let at = choose|at: int| 0 <= at < names(front).len() && names(front)[at] == name;
                assert(names(entries)[at] == name);
            }
            if name == entries.last().name {
                assert(names(entries)[entries.len() - 1] == name);
            }
        }
    }
}

/// The size that a snapshot records for a name is the one on the last line
/// of the listing that mentions the name.
pub proof fn lemma_snapshot_last_wins(entries: Seq<Entry>, at: int)
    requires
        0 <= at < entries.len(),
        forall|later: int| at < later < entries.len() ==> entries[later].name != entries[at].name,
    ensures
        snapshot(entries).contains_key(entries[at].name),
        snapshot(entries)[entries[at].name] == entries[at].size,
    decreases entries.len(),
{
    if at < entries.len() - 1 {
        let front = entries.drop_last();
        assert(front[at] == entries[at]);
        assert forall|later: int| at < later < front.len() implies front[later].name
            != front[at].name by {
            assert(front[later] == entries[later]);
        }
        lemma_snapshot_last_wins(front, at);
    }
}

} // verus!
