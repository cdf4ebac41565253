//! The subfolders of the inbox, indexed by title.
use vstd::prelude::*;

verus! {

/// The map that a list of `(title, id)` entries stands for: where two entries
/// share a title, the later one wins.
pub open spec fn entries_map(entries: Seq<(String, String)>) -> Map<Seq<char>, Seq<char>>
    decreases entries.len(),
{
    if entries.len() == 0 {
        Map::empty()
    } else {
        entries_map(entries.drop_last()).insert(entries.last().0@, entries.last().1@)
    }
}

/// Entries at `n` and later that do not carry `key` leave its entry in the map as
/// the first `n` entries have it.
proof fn lemma_entries_map_suffix(entries: Seq<(String, String)>, n: int, key: Seq<char>)
    requires
        0 <= n <= entries.len(),
        forall|j: int| n <= j < entries.len() ==> (#[trigger] entries[j]).0@ != key,
    ensures
        entries_map(entries).contains_key(key) == entries_map(entries.take(n)).contains_key(key),
        entries_map(entries).contains_key(key) ==> entries_map(entries)[key] == entries_map(
            entries.take(n),
        )[key],
    decreases entries.len() - n,
{
    if n < entries.len() {
        assert(entries.drop_last().take(n) =~= entries.take(n));
        assert(entries.last() == entries[entries.len() - 1]);
        lemma_entries_map_suffix(entries.drop_last(), n, key);
    } else {
        assert(entries.take(n) =~= entries);
    }
}

/// A map from subfolder title to subfolder id.
pub struct ChildIndex {
    entries: Vec<(String, String)>,
}

impl View for ChildIndex {
    type V = Map<Seq<char>, Seq<char>>;

    closed spec fn view(&self) -> Map<Seq<char>, Seq<char>> {
        entries_map(self.entries@)
    }
}

impl ChildIndex {
    /// An empty index.
    pub fn new() -> (r: ChildIndex)
        ensures
            r@ == Map::<Seq<char>, Seq<char>>::empty(),
    {
        ChildIndex { entries: Vec::new() }
    }

    /// Records that the subfolder titled `title` has id `id`, replacing any
    /// earlier id for that title.
    pub fn insert(&mut self, title: String, id: String)
        ensures
            final(self)@ == old(self)@.insert(title@, id@),
    {
        let ghost before = self.entries@;
        self.entries.push((title, id));
        assert(self.entries@.drop_last() =~= before);
    }

    /// The id recorded for `title`, if any.
    pub fn get(&self, title: &String) -> (r: Option<String>)
        ensures
            r is Some <==> self@.contains_key(title@),
            r matches Some(id) ==> id@ == self@[title@],
    {
        let mut i: usize = self.entries.len();
        while i > 0
            invariant
                i <= self.entries@.len(),
                forall|j: int|
                    i <= j < self.entries@.len() ==> (#[trigger] self.entries@[j]).0@ != title@,
            decreases i,
        {
            let entry = &self.entries[i - 1];
            if entry.0 == *title {
                proof {
                    let es = self.entries@;
                    lemma_entries_map_suffix(es, i as int, title@);
                    assert(es.take(i as int).drop_last() =~= es.take(i - 1));
                    assert(es.take(i as int).last() == es[i - 1]);
                }
                return Some(entry.1.clone());
            }
            i = i - 1;
        }
        proof {
            lemma_entries_map_suffix(self.entries@, 0, title@);
            assert(self.entries@.take(0) =~= Seq::<(String, String)>::empty());
        }
        None
    }
}

} // verus!
