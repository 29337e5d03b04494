//! A small map from partition ids to strings.
use vstd::prelude::*;
use crate::text;

verus! {

/// A map from partition ids to strings. It holds a handful of configured overrides,
/// so it is a list; of two entries with one key the later counts.
#[derive(Debug, Clone)]
pub struct PartitionMap {
    entries: Vec<(String, String)>,
}

/// The map that a list of entries stands for.
pub open spec fn map_of(entries: Seq<(Seq<char>, Seq<char>)>) -> Map<Seq<char>, Seq<char>>
    decreases entries.len(),
{
    if entries.len() == 0 {
        Map::empty()
    } else {
        map_of(entries.drop_last()).insert(entries.last().0, entries.last().1)
    }
}

impl View for PartitionMap {
    type V = Map<Seq<char>, Seq<char>>;

    closed spec fn view(&self) -> Map<Seq<char>, Seq<char>> {
        map_of(crate::abi::header_views(self.entries@))
    }
}

impl Default for PartitionMap {
    fn default() -> (r: Self)
        ensures
            r@ == Map::<Seq<char>, Seq<char>>::empty(),
    {
        PartitionMap::new()
    }
}

impl PartitionMap {
    /// The empty map.
    #[must_use]
    pub fn new() -> (r: Self)
        ensures
            r@ == Map::<Seq<char>, Seq<char>>::empty(),
    {
        PartitionMap { entries: Vec::new() }
    }

    /// Sets the string of a partition.
    pub fn insert(&mut self, partition: &str, value: &str)
        ensures
            final(self)@ == old(self)@.insert(partition@, value@),
    {
        let ghost before = crate::abi::header_views(self.entries@);
        self.entries.push((partition.to_owned(), value.to_owned()));
        proof {
            let after = crate::abi::header_views(self.entries@);
            assert(after.drop_last() =~= before);
        }
    }

    /// The string of a partition, if it has one.
    #[must_use]
    pub fn get(&self, partition: &str) -> (r: Option<&str>)
        ensures
            match r {
                Some(value) => self@.dom().contains(partition@) && self@[partition@] == value@,
                None => !self@.dom().contains(partition@),
            },
    {
        let ghost all = crate::abi::header_views(self.entries@);
        let mut i: usize = self.entries.len();
        assert(all.take(i as int) =~= all);
        while i > 0
            invariant
                i <= self.entries@.len(),
                all == crate::abi::header_views(self.entries@),
                self@ == map_of(all),
                self@.dom().contains(partition@) == map_of(all.take(i as int)).dom().contains(
                    partition@,
                ),
                self@.dom().contains(partition@) ==> self@[partition@] == map_of(
                    all.take(i as int),
                )[partition@],
            decreases i,
        {
            proof {
                assert(all.take(i as int).drop_last() =~= all.take(i - 1));
                assert(all.take(i as int).last() == all[i - 1]);
            }
            if text::same(self.entries[i - 1].0.as_str(), partition) {
                return Some(self.entries[i - 1].1.as_str());
            }
            i -= 1;
        }
        None
    }

    /// A copy of the map.
    #[must_use]
    pub fn copy(&self) -> (r: Self)
        ensures
            r@ == self@,
    {
        PartitionMap { entries: crate::abi::copy_headers(self.entries.as_slice()) }
    }
}

} // verus!
