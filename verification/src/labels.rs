//! The label table.
//!
//! Pass 1 records each label declaration with the address of the next
//! instruction-emitting line; pass 2 reads the table and never writes
//! it.  A name declared twice keeps its later address, as a
//! last-write-wins map.  The table's mathematical view is a
//! `Map<Seq<char>, u32>` from label name to byte address.

use vstd::prelude::*;
use crate::text::chars_eq;

verus! {

/// The map an entry list denotes: entries inserted in order, so a
/// later entry for the same name wins.
pub open spec fn spec_entries_map(s: Seq<(Vec<char>, u32)>) -> Map<Seq<char>, u32>
    decreases s.len(),
{
    if s.len() == 0 {
        Map::empty()
    } else {
        spec_entries_map(s.drop_last()).insert(s.last().0@, s.last().1)
    }
}

/// A label table: an insertion-ordered list of name/address entries,
/// viewed as a last-write-wins map.
pub struct LabelTable {
    entries: Vec<(Vec<char>, u32)>,
}

impl View for LabelTable {
    type V = Map<Seq<char>, u32>;

    closed spec fn view(&self) -> Map<Seq<char>, u32> {
        spec_entries_map(self.entries@)
    }
}

impl LabelTable {
    /// An empty table.
    pub fn new() -> (t: LabelTable)
        ensures
            t@ == Map::<Seq<char>, u32>::empty(),
    {
        LabelTable { entries: Vec::new() }
    }

    /// Records a label at an address, overwriting any earlier entry of
    /// the same name.
    pub fn insert(&mut self, name: Vec<char>, addr: u32)
        ensures
            final(self)@ == old(self)@.insert(name@, addr),
    {
        let ghost n = name@;
        self.entries.push((name, addr));
        proof {
            assert(self.entries@.drop_last() =~= old(self).entries@);
            assert(self.entries@.last().0@ == n);
        }
    }

    /// Looks a name up: its address, or `None` for a name never
    /// declared.
    pub fn get(&self, name: &[char]) -> (r: Option<u32>)
        ensures
            r == (if self@.contains_key(name@) {
                Some(self@[name@])
            } else {
                None::<u32>
            }),
    {
        let mut j: usize = self.entries.len();
        proof {
            assert(self.entries@.take(j as int) =~= self.entries@);
        }
        while j > 0
            invariant
                j <= self.entries@.len(),
                self@.contains_key(name@) == spec_entries_map(
                    self.entries@.take(j as int),
                ).contains_key(name@),
                self@.contains_key(name@) ==> self@[name@] == spec_entries_map(
                    self.entries@.take(j as int),
                )[name@],
            decreases j,
        {
            proof {
                assert(self.entries@.take(j as int).drop_last() =~= self.entries@.take(
                    j as int - 1,
                ));
                assert(self.entries@.take(j as int).last() == self.entries@[j - 1]);
            }
            let entry: &(Vec<char>, u32) = &self.entries[j - 1];
            if chars_eq(entry.0.as_slice(), name) {
                return Some(entry.1);
            }
            j = j - 1;
        }
        proof {
            assert(self.entries@.take(0).len() == 0);
        }
        None
    }
}

} // verus!
