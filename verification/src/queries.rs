//! Cache-only queries: the same result shapes as the resolution engine,
//! reconstructed purely from the cache with no backend access.

use vstd::prelude::*;
use vstd::string::StrSliceExecFns;
use vstd::string::StringExecFns;
use crate::cache::ModioCache;
use crate::codec::{append_u32, parse_reference, spec_parse, spec_u32_digits};
use crate::resolve::{
    cache_names, pinned_with_deps, resolved_info_ok, ModInfo, ModResponse, PinnedCtx, ResolveStep,
};
use crate::types::{duplicate_ids, ModSpecification, ModioFile};

verus! {

/// The mod id a reference denotes against a cache: the id component when
/// present, else the cached id of the slug.
pub open spec fn spec_ref_mod_id(cache: ModioCache, url: Seq<char>) -> Option<u32> {
    match spec_parse(url) {
        None => None,
        Some((slug, mid, _)) => match mid {
            Some(id) => Some(id),
            None => if cache.mod_id_map@.contains_key(slug) {
                Some(cache.mod_id_map@[slug])
            } else {
                None
            },
        },
    }
}

/// Whether the reference carries a file-id component.
pub fn is_pinned(spec: &ModSpecification, _cache: &ModioCache) -> (r: bool)
    ensures
        r == (spec_parse(spec.url@) matches Some(p) && p.2 is Some),
{
    match parse_reference(spec.url.as_str()) {
        Some(p) => p.file_id.is_some(),
        None => false,
    }
}

/// First file with the given id in a file list.
pub open spec fn spec_find_file(files: Seq<ModioFile>, f: u32) -> Option<ModioFile>
    decreases files.len(),
{
    if files.len() == 0 {
        None
    } else if files[0].id == f {
        Some(files[0])
    } else {
        spec_find_file(files.drop_first(), f)
    }
}

/// The human label of a pinned file: its id, and the version label when one
/// is cached.
pub open spec fn spec_file_label(f: u32, file: Option<ModioFile>) -> Seq<char> {
    match file {
        Some(fd) => match fd.version {
            Some(v) => spec_u32_digits(f as nat) + " - "@ + v@,
            None => spec_u32_digits(f as nat),
        },
        None => spec_u32_digits(f as nat),
    }
}

/// What [`get_version_name`] answers: nothing unless the referenced mod is
/// cached; `latest` for an unpinned reference; else the file label.
pub open spec fn version_name_post(cache: ModioCache, url: Seq<char>, r: Option<String>) -> bool {
    match spec_ref_mod_id(cache, url) {
        None => r is None,
        Some(id) => if !cache.mods@.contains_key(id) {
            r is None
        } else {
            match spec_parse(url) {
                Some((_, _, Some(f))) => r matches Some(v) && v@ == spec_file_label(
                    f,
                    spec_find_file(cache.mods@[id].modfiles@, f),
                ),
                _ => r matches Some(v) && v@ == "latest"@,
            }
        },
    }
}

fn file_label(f: u32, version: &Option<String>) -> (r: String)
    ensures
        match version {
            Some(v) => r@ == spec_u32_digits(f as nat) + " - "@ + v@,
            None => r@ == spec_u32_digits(f as nat),
        },
{
    let mut s = String::new();
    append_u32(&mut s, f);
    proof {
        assert(s@ =~= spec_u32_digits(f as nat));
    }
    match version {
        Some(v) => {
            s.append(" - ");
            s.append(v.as_str());
        },
        None => {},
    }
    s
}

/// Cache lookup producing a human label for the referenced version:
/// `latest` when unpinned, the file label when pinned, nothing when the mod
/// itself is not cached or the reference does not parse.
pub fn get_version_name(spec: &ModSpecification, cache: &ModioCache) -> (r: Option<String>)
    requires
        cache.wf(),
    ensures
        version_name_post(*cache, spec.url@, r),
{
    let parsed = match parse_reference(spec.url.as_str()) {
        Some(p) => p,
        None => {
            return None;
        },
    };
    let id = match parsed.mod_id {
        Some(id) => id,
        None => match cache.mod_id_map.get(&parsed.slug) {
            Some(id) => id,
            None => {
                return None;
            },
        },
    };
    let m = match cache.mods.get(id) {
        Some(m) => m,
        None => {
            return None;
        },
    };
    match parsed.file_id {
        Some(f) => {
            let n = m.modfiles.len();
            proof {
                assert(m.modfiles@.skip(0) =~= m.modfiles@);
            }
            let mut i: usize = 0;
            #[verifier::loop_isolation(false)]
            while i < n
                invariant
                    0 <= i <= n == m.modfiles@.len(),
                    spec_find_file(m.modfiles@, f) == spec_find_file(
                        m.modfiles@.skip(i as int),
                        f,
                    ),
                decreases n - i,
            {
                proof {
                    assert(m.modfiles@.skip(i as int)[0] == m.modfiles@[i as int]);
                    assert(m.modfiles@.skip(i as int).drop_first() =~= m.modfiles@.skip(i + 1));
                }
                if m.modfiles[i].id == f {
                    proof {
                        assert(spec_find_file(m.modfiles@, f) == Some(m.modfiles@[i as int]));
                    }
                    return Some(file_label(f, &m.modfiles[i].version));
                }
                i = i + 1;
            }
            proof {
                assert(m.modfiles@.skip(n as int) =~= Seq::<ModioFile>::empty());
            }
            Some(file_label(f, &None))
        },
        None => Some(String::from_str("latest")),
    }
}

/// What [`get_mod_info`] answers: the same result as a pinned resolution,
/// purely from cache, and only when the mod, its dependency list and every
/// dependency's name are all cached.
pub open spec fn mod_info_query_post(cache: ModioCache, url: Seq<char>, r: Option<ModInfo>) -> bool {
    match spec_ref_mod_id(cache, url) {
        None => r is None,
        Some(id) => {
            if cache.mods@.contains_key(id) && cache.dependencies@.contains_key(id) && (forall|
                i: int,
            |
                0 <= i < cache.dependencies@[id]@.len() ==> cache.mods@.contains_key(
                    #[trigger] cache.dependencies@[id]@[i],
                )) {
                r matches Some(info) && resolved_info_ok(
                    info,
                    url,
                    id,
                    cache.mods@[id],
                    cache.dependencies@[id]@,
                    cache_names(cache.mods@),
                )
            } else {
                r is None
            }
        },
    }
}

/// Reconstructs the resolved description of a mod purely from the cache;
/// nothing when the mod, its dependency list or any dependency's name is
/// not cached.
pub fn get_mod_info(spec: &ModSpecification, cache: &ModioCache) -> (r: Option<ModInfo>)
    requires
        cache.wf(),
    ensures
        mod_info_query_post(*cache, spec.url@, r),
{
    let parsed = match parse_reference(spec.url.as_str()) {
        Some(p) => p,
        None => {
            return None;
        },
    };
    let id = match parsed.mod_id {
        Some(id) => id,
        None => match cache.mod_id_map.get(&parsed.slug) {
            Some(id) => id,
            None => {
                return None;
            },
        },
    };
    let m = match cache.mods.get(id) {
        Some(m) => m.duplicate(),
        None => {
            return None;
        },
    };
    let dep_ids = match cache.dependencies.get(id) {
        Some(d) => duplicate_ids(d),
        None => {
            return None;
        },
    };
    // the file id plays no part in a cache-only reconstruction; the
    // download locator keeps the reference exactly as given
    let ctx = PinnedCtx { url: spec.url.clone(), mod_id: id, file_id: 0, update: false };
    match pinned_with_deps(ctx, m, dep_ids, cache) {
        ResolveStep::Done(ModResponse::Resolve(info)) => Some(info),
        _ => None,
    }
}

} // verus!
