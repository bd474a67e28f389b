//! The sector store's pure face: sector-access naming and the capacity a
//! sector class offers. Opening, reading and writing the named files is the
//! embedder's concern.

use vstd::prelude::*;
use crate::metadata::SectorClass;
use crate::text::{spec_dec, u64_to_string};

verus! {

/// Bytes of caller data a sector of the given size can hold, after the
/// bit-padding overhead of one byte in every 128 is set aside.
pub open spec fn spec_max_unsealed_bytes(sector_size: u64) -> int {
    sector_size - sector_size / 128
}

/// The access name of the staged (or unseal-scratch) file of a sector.
pub open spec fn spec_staging_access(miner: Seq<char>, sector_id: u64, for_unseal: bool) -> Seq<
    char,
> {
    miner + (if for_unseal {
        "/unseal-"@
    } else {
        "/staging-"@
    }) + spec_dec(sector_id as int)
}

/// The access name of the sealed file of a sector.
pub open spec fn spec_sealed_access(miner: Seq<char>, sector_id: u64) -> Seq<char> {
    miner + "/sealed-"@ + spec_dec(sector_id as int)
}

/// Allocates access names and advertises capacity for one sector class.
///
/// Access names are deterministic in the sector id, so a restart reproduces
/// the same paths.
#[derive(Debug, Clone, Copy, PartialEq, Eq, Structural)]
pub struct SectorStore {
    pub sector_class: SectorClass,
}

impl SectorStore {
    pub fn new(sector_class: SectorClass) -> (s: Self)
        ensures
            s.sector_class == sector_class,
    {
        SectorStore { sector_class }
    }

    /// How many bytes of caller data fit in one staged sector.
    pub fn max_unsealed_bytes_per_sector(&self) -> (r: u64)
        ensures
            r as int == spec_max_unsealed_bytes(self.sector_class.sector_size),
    {
        self.sector_class.sector_size - self.sector_class.sector_size / 128
    }

    /// A fresh, collision-free handle for the staged file of the given
    /// sector (or for the scratch file an unseal writes into).
    pub fn new_staging_sector_access(&self, miner: &str, sector_id: u64, for_unseal: bool) -> (r:
        String)
        ensures
            r@ == spec_staging_access(miner@, sector_id, for_unseal),
    {
        let mut s = miner.to_owned();
        if for_unseal {
            s.append("/unseal-");
        } else {
            s.append("/staging-");
        }
        s.append(u64_to_string(sector_id).as_str());
        s
    }

    /// A fresh, collision-free handle for the sealed file of the given
    /// sector.
    pub fn new_sealed_sector_access(&self, miner: &str, sector_id: u64) -> (r: String)
        ensures
            r@ == spec_sealed_access(miner@, sector_id),
    {
        let mut s = miner.to_owned();
        s.append("/sealed-");
        s.append(u64_to_string(sector_id).as_str());
        s
    }
}

} // verus!
