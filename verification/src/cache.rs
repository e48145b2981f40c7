//! The per-provider cache: everything previously learned from the remote
//! service. All mutations are insertions or overwrites keyed by id or slug;
//! nothing is ever deleted, so a failed operation leaves earlier knowledge
//! intact.

use vstd::prelude::*;
use crate::types::{BlobRef, ModioMod};
use crate::vecmap::{IdMap, SlugMap};

verus! {

/// The provider cache: slug index, mod index, dependency index, blob index
/// and the timestamp of the last completed bulk update.
pub struct ModioCache {
    /// slug -> mod id
    pub mod_id_map: SlugMap,
    /// file id -> stored blob
    pub modfile_blobs: IdMap<BlobRef>,
    /// mod id -> dependency mod ids; present-and-empty is distinct from
    /// never fetched
    pub dependencies: IdMap<Vec<u32>>,
    /// mod id -> latest known metadata
    pub mods: IdMap<ModioMod>,
    /// seconds since the epoch of the instant the last bulk update started
    pub last_update_time: Option<u64>,
}

impl ModioCache {
    pub open spec fn wf(&self) -> bool {
        &&& self.mod_id_map.wf()
        &&& self.modfile_blobs.wf()
        &&& self.dependencies.wf()
        &&& self.mods.wf()
    }

    /// A fresh cache, stamped with the current time so that the first bulk
    /// update does not reach back before the cache existed.
    pub fn new(now_secs: u64) -> (r: Self)
        ensures
            r.wf(),
            r.mod_id_map@ == Map::<Seq<char>, u32>::empty(),
            r.modfile_blobs@ == Map::<u32, BlobRef>::empty(),
            r.dependencies@ == Map::<u32, Vec<u32>>::empty(),
            r.mods@ == Map::<u32, ModioMod>::empty(),
            r.last_update_time == Some(now_secs),
    {
        ModioCache {
            mod_id_map: SlugMap::new(),
            modfile_blobs: IdMap::new(),
            dependencies: IdMap::new(),
            mods: IdMap::new(),
            last_update_time: Some(now_secs),
        }
    }
}

/// The new cache state knows at least everything the old one knew.
pub open spec fn cache_maps_extend(new: ModioCache, old: ModioCache) -> bool {
    &&& old.mods@.dom().subset_of(new.mods@.dom())
    &&& old.dependencies@.dom().subset_of(new.dependencies@.dom())
    &&& old.modfile_blobs@.dom().subset_of(new.modfile_blobs@.dom())
    &&& old.mod_id_map@.dom().subset_of(new.mod_id_map@.dom())
}

/// The new cache state knows at least everything the old one knew, and the
/// update timestamp is untouched.
pub open spec fn cache_extends(new: ModioCache, old: ModioCache) -> bool {
    &&& cache_maps_extend(new, old)
    &&& new.last_update_time == old.last_update_time
}

/// Whether everything a pinned resolution of `mod_id` needs is already
/// cached: the mod, its dependency list, and a name for every dependency.
pub open spec fn pinned_cache_complete(cache: ModioCache, mod_id: u32) -> bool {
    &&& cache.mods@.contains_key(mod_id)
    &&& cache.dependencies@.contains_key(mod_id)
    &&& forall|i: int|
        0 <= i < cache.dependencies@[mod_id]@.len() ==> cache.mods@.contains_key(
            #[trigger] cache.dependencies@[mod_id]@[i],
        )
}

} // verus!
