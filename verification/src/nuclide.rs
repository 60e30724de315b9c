//! Nuclear species data and the mass table that resolves a (Z, A) pair to
//! it.
//!
//! The table itself is filled by the caller from whatever mass evaluation
//! the application ships; this crate only defines the lookup, which is a
//! deterministic first-match scan, and represents an unknown nuclide as an
//! absent value rather than an error.

use vstd::prelude::*;

verus! {

/// Resolved physical data of one nuclide: its display label (for example
/// `"12C"`), its rest mass in micro-MeV, and its charge number.
#[derive(Clone, Debug, PartialEq, Eq)]
pub struct NuclideData {
    /// Isotope label shown in reaction identifiers.
    pub isotope: String,
    /// Rest mass in micro-MeV.
    pub mass: u64,
    /// Charge number in elementary charges.
    pub z: i32,
}

impl NuclideData {
    /// An exact copy, with the copy's equality to the original carried in
    /// the contract (a derived clone says nothing to the verifier).
    pub fn duplicate(&self) -> (r: NuclideData)
        ensures
            r == *self,
    {
        NuclideData { isotope: self.isotope.clone(), mass: self.mass, z: self.z }
    }
}

/// One row of the mass table: a (Z, A) key and the data it resolves to.
pub struct MassEntry {
    /// Charge number key.
    pub z: i32,
    /// Mass number key.
    pub a: i32,
    /// The resolved nuclide.
    pub data: NuclideData,
}

/// The first entry of `entries` keyed (z, a), if any.
pub open spec fn lookup_spec(entries: Seq<MassEntry>, z: int, a: int) -> Option<NuclideData>
    decreases entries.len(),
{
    if entries.len() == 0 {
        None
    } else if entries[0].z == z && entries[0].a == a {
        Some(entries[0].data)
    } else {
        lookup_spec(entries.skip(1), z, a)
    }
}

/// A mass table keyed by charge and mass number.  Lookup is pure and
/// deterministic: the first entry with the requested key wins.
pub struct MassTable {
    /// The rows, in insertion order.
    pub entries: Vec<MassEntry>,
}

impl MassTable {
    /// An empty table.
    pub fn new() -> (t: MassTable)
        ensures
            t.entries@.len() == 0,
    {
        MassTable { entries: Vec::new() }
    }

    /// Append one row to the table.
    pub fn insert(&mut self, z: i32, a: i32, data: NuclideData)
        ensures
            final(self).entries@ == old(self).entries@.push(MassEntry { z, a, data }),
    {
        self.entries.push(MassEntry { z, a, data });
    }

    /// Resolve a (Z, A) pair to its nuclide data; absence means the nuclide
    /// is unknown, never an error.
    pub fn get_data(&self, z: i32, a: i32) -> (r: Option<NuclideData>)
        ensures
            r == lookup_spec(self.entries@, z as int, a as int),
    {
        let n = self.entries.len();
        let mut i: usize = 0;
        proof {
            assert(self.entries@.skip(0) =~= self.entries@);
        }
        while i < n
            invariant
                i <= n,
                n == self.entries@.len(),
                lookup_spec(self.entries@, z as int, a as int) == lookup_spec(
                    self.entries@.skip(i as int), z as int, a as int),
            decreases n - i,
        {
            let entry = &self.entries[i];
            proof {
                assert(self.entries@.skip(i as int)[0] == self.entries@[i as int]);
                assert(self.entries@.skip(i as int).skip(1) =~= self.entries@.skip(
                    i as int + 1));
            }
            if entry.z == z && entry.a == a {
                return Some(entry.data.duplicate());
            }
            i = i + 1;
        }
        proof {
            assert(self.entries@.skip(n as int) =~= Seq::<MassEntry>::empty());
        }
        None
    }
}

} // verus!
