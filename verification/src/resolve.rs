//! The resolution engine: a single-step state machine that narrows a mod
//! reference to either a terminal result or a strictly more specified
//! reference. Remote calls are not made here; whenever one is needed the
//! machine hands out a [`BackendRequest`] together with the state to resume
//! from, and is advanced with [`resolve_next`] once the response is in.
//!
//! The caller loops: a `Redirect` is fed back into [`resolve_start`]; the
//! narrowing is monotonic, so at most two redirects can occur.

use vstd::prelude::*;
use vstd::string::StringExecFns;
use crate::cache::{cache_extends, pinned_cache_complete, ModioCache};
use crate::codec::{
    contains_preview_marker, format_spec, has_preview_marker, parse_reference, spec_format,
    spec_parse,
};
use crate::tags::{contains_tag, is_version_tag, process_modio_tags, has_tag, sorted_strings, ModioTags};
use crate::types::{
    mod_eqv, BackendRequest, BackendResponse, ModResolution, ModSpecification, ModSummary,
    ModioMod,
};
use crate::vecmap::IdMap;

verus! {

/// The fully resolved description of a mod, as handed back to the caller.
#[derive(Debug, PartialEq, Eq)]
pub struct ModInfo {
    /// Provider id, always `modio`.
    pub provider: String,
    /// Canonical, id-based but unpinned reference: mod identity.
    pub spec: ModSpecification,
    pub name: String,
    /// Every known version, as fully pinned references.
    pub versions: Vec<ModSpecification>,
    /// The download locator: keeps the exact reference that was resolved.
    pub resolution: ModResolution,
    pub suggested_require: bool,
    /// Unpinned references to the mod's dependencies.
    pub suggested_dependencies: Vec<ModSpecification>,
    pub modio_tags: Option<ModioTags>,
    pub modio_id: Option<u32>,
}

/// Outcome of one resolution step: terminal, or a more specified reference.
#[derive(Debug, PartialEq, Eq)]
pub enum ModResponse {
    Resolve(ModInfo),
    Redirect(ModSpecification),
}

#[derive(Debug, PartialEq, Eq)]
pub enum ResolveError {
    /// The reference string does not match the grammar.
    InvalidReference,
    /// The reference carries the preview marker, rejected up front.
    PreviewNotSupported,
    /// A slug search returned no match.
    NotFound,
    /// A slug search returned more than one match.
    AmbiguousSlug,
    /// The mod has never published a file and latest was requested.
    NoFileAvailable,
    /// The response fed back does not answer the request that was handed out.
    UnexpectedResponse,
}

/// What a pinned resolution remembers between steps.
pub struct PinnedCtx {
    /// The reference string as given, kept for the download locator.
    pub url: String,
    pub mod_id: u32,
    pub file_id: u32,
    /// Whether cached knowledge is to be bypassed and overwritten.
    pub update: bool,
}

/// The resume point handed out with every [`BackendRequest`].
pub enum ResolveState {
    PinnedMod { ctx: PinnedCtx },
    PinnedDeps { ctx: PinnedCtx, mod_: ModioMod },
    PinnedNames { ctx: PinnedCtx, mod_: ModioMod, dep_ids: Vec<u32>, names: IdMap<String> },
    PinnedFiles {
        ctx: PinnedCtx,
        mod_: ModioMod,
        dep_ids: Vec<u32>,
        names: IdMap<String>,
        remaining: Vec<ModSummary>,
        idx: usize,
    },
    IdOnly { url: String, mod_id: u32 },
    SlugLatest { url: String, slug: String, mod_id: u32 },
    SlugSearch { url: String, slug: String },
    SlugFound { url: String, slug: String, mod_id: u32 },
}

/// Result of one machine step.
pub enum ResolveStep {
    Done(ModResponse),
    Failed(ResolveError),
    Need { request: BackendRequest, state: ResolveState },
}

pub open spec fn state_wf(s: ResolveState) -> bool {
    match s {
        ResolveState::PinnedNames { names, .. } => names.wf(),
        ResolveState::PinnedFiles { names, remaining, idx, .. } => names.wf() && idx
            < remaining@.len(),
        _ => true,
    }
}

/// The slug each cached mod would be named by.
pub open spec fn cache_names(mods: Map<u32, ModioMod>) -> Map<u32, String> {
    Map::new(|k: u32| mods.contains_key(k), |k: u32| mods[k].name_id)
}

/// The unpinned dependency references derived from a dependency-id list:
/// ids with a known name, in order, each formatted with that name; ids
/// without a name are dropped.
pub open spec fn spec_dep_urls(dep_ids: Seq<u32>, names: Map<u32, String>) -> Seq<Seq<char>>
    decreases dep_ids.len(),
{
    if dep_ids.len() == 0 {
        Seq::empty()
    } else {
        let rest = spec_dep_urls(dep_ids.drop_first(), names);
        if names.contains_key(dep_ids[0]) {
            seq![spec_format(names[dep_ids[0]]@, dep_ids[0], None)] + rest
        } else {
            rest
        }
    }
}

/// The derived tag summary is the one [`process_modio_tags`] specifies.
pub open spec fn tags_summary_ok(tg: ModioTags, tags: Seq<String>) -> bool {
    &&& tg.qol == contains_tag(tags, "QoL"@)
    &&& tg.gameplay == contains_tag(tags, "Gameplay"@)
    &&& tg.audio == contains_tag(tags, "Audio"@)
    &&& tg.visual == contains_tag(tags, "Visual"@)
    &&& tg.framework == contains_tag(tags, "Framework"@)
    &&& tg.required_status == (if contains_tag(tags, "RequiredByAll"@) {
        crate::tags::RequiredStatus::RequiredByAll
    } else {
        crate::tags::RequiredStatus::Optional
    })
    &&& tg.approval_status == (if contains_tag(tags, "Verified"@) || contains_tag(
        tags,
        "Auto-Verified"@,
    ) {
        crate::tags::ApprovalStatus::Verified
    } else if contains_tag(tags, "Approved"@) {
        crate::tags::ApprovalStatus::Approved
    } else {
        crate::tags::ApprovalStatus::Sandbox
    })
    &&& sorted_strings(tg.versions@)
    &&& forall|t: Seq<char>|
        #![trigger contains_tag(tg.versions@, t)]
        #![trigger contains_tag(tags, t)]
        contains_tag(tg.versions@, t) <==> contains_tag(tags, t) && is_version_tag(t)
}

/// The reference strings of a list of references.
pub open spec fn urls_of(v: Seq<ModSpecification>) -> Seq<Seq<char>> {
    Seq::new(v.len(), |i: int| v[i].url@)
}

/// What a terminal `Resolve` answer must hold, given the resolved mod's
/// metadata `m`, its dependency ids and the names known for them.
pub open spec fn resolved_info_ok(
    info: ModInfo,
    url: Seq<char>,
    mod_id: u32,
    m: ModioMod,
    dep_ids: Seq<u32>,
    names: Map<u32, String>,
) -> bool {
    &&& info.provider@ == "modio"@
    &&& info.spec.url@ == spec_format(m.name_id@, mod_id, None)
    &&& info.name@ == m.name@
    &&& info.versions@.len() == m.modfiles@.len()
    &&& forall|i: int|
        0 <= i < m.modfiles@.len() ==> (#[trigger] info.versions@[i]).url@ == spec_format(
            m.name_id@,
            mod_id,
            Some(m.modfiles@[i].id),
        )
    &&& info.resolution.url@ == url
    &&& info.suggested_require == contains_tag(m.tags@, "RequiredByAll"@)
    &&& urls_of(info.suggested_dependencies@) == spec_dep_urls(dep_ids, names)
    &&& info.modio_tags matches Some(tg) && tags_summary_ok(tg, m.tags@)
    &&& info.modio_id == Some(mod_id)
}

/// A batch-lookup request carries exactly the dependency ids that are not
/// yet named in the cache.
pub open spec fn missing_ok(missing: Seq<u32>, dep_ids: Seq<u32>, mods: Map<u32, ModioMod>) -> bool {
    &&& forall|i: int|
        0 <= i < missing.len() ==> dep_ids.contains(#[trigger] missing[i]) && !mods.contains_key(
            missing[i],
        )
    &&& forall|i: int|
        0 <= i < dep_ids.len() ==> mods.contains_key(#[trigger] dep_ids[i]) || missing.contains(
            dep_ids[i],
        )
}

/// Every name the machine has collected from the cache is the cached one.
pub open spec fn names_from_cache_ok(names: Map<u32, String>, mods: Map<u32, ModioMod>) -> bool {
    forall|k: u32|
        #[trigger] names.contains_key(k) ==> mods.contains_key(k) && names[k]@ == mods[k].name_id@
}

/// A mod entry for `id` equivalent to `m` was inserted; nothing else moved.
pub open spec fn mods_inserted(
    new: Map<u32, ModioMod>,
    old: Map<u32, ModioMod>,
    id: u32,
    m: ModioMod,
) -> bool {
    exists|d: ModioMod| #![auto] mod_eqv(d, m) && new == old.insert(id, d)
}

/// A dependency list with the given ids was inserted; nothing else moved.
pub open spec fn deps_inserted(
    new: Map<u32, Vec<u32>>,
    old: Map<u32, Vec<u32>>,
    id: u32,
    d: Seq<u32>,
) -> bool {
    exists|dv: Vec<u32>| #![auto] dv@ == d && new == old.insert(id, dv)
}

/// Caching a fetched mod entry: the mod index and the slug index gain the
/// entry; dependency and blob indices are untouched.
pub open spec fn mod_cached(new: ModioCache, old: ModioCache, id: u32, m: ModioMod) -> bool {
    &&& mods_inserted(new.mods@, old.mods@, id, m)
    &&& new.mod_id_map@ == old.mod_id_map@.insert(m.name_id@, id)
    &&& new.dependencies@ == old.dependencies@
    &&& new.modfile_blobs@ == old.modfile_blobs@
    &&& new.last_update_time == old.last_update_time
}

pub open spec fn ctx_ok(ctx: PinnedCtx, url: Seq<char>, id: u32, file: u32, update: bool) -> bool {
    ctx.url@ == url && ctx.mod_id == id && ctx.file_id == file && ctx.update == update
}

/// What proceeding with a known mod entry and dependency list yields:
/// a terminal answer when every dependency is named in the cache, else a
/// batch lookup of the unnamed ones.
pub open spec fn pinned_deps_post(
    url: Seq<char>,
    id: u32,
    file: u32,
    update: bool,
    cache: ModioCache,
    mod_: ModioMod,
    dep_ids: Seq<u32>,
    r: ResolveStep,
) -> bool {
    if forall|i: int| 0 <= i < dep_ids.len() ==> cache.mods@.contains_key(#[trigger] dep_ids[i]) {
        &&& r matches ResolveStep::Done(ModResponse::Resolve(info))
        &&& resolved_info_ok(info, url, id, mod_, dep_ids, cache_names(cache.mods@))
    } else {
        &&& r matches ResolveStep::Need { request, state }
        &&& request matches BackendRequest::FetchModsByIds { mod_ids } && missing_ok(
            mod_ids@,
            dep_ids,
            cache.mods@,
        )
        &&& state matches ResolveState::PinnedNames { ctx, mod_: m2, dep_ids: d2, names }
        &&& ctx_ok(ctx, url, id, file, update)
        &&& mod_eqv(m2, mod_)
        &&& d2@ == dep_ids
        &&& names.wf()
        &&& names_from_cache_ok(names@, cache.mods@)
        &&& forall|i: int|
            0 <= i < dep_ids.len() && cache.mods@.contains_key(#[trigger] dep_ids[i])
                ==> names@.contains_key(dep_ids[i])
    }
}

/// What the first step on a reference yields, by the shape of the
/// reference and the state of the cache.
pub open spec fn resolve_start_post(
    spec: ModSpecification,
    update: bool,
    cache: ModioCache,
    r: ResolveStep,
) -> bool {
    let url = spec.url@;
    &&& (has_preview_marker(url) ==> r == ResolveStep::Failed(ResolveError::PreviewNotSupported))
    &&& (!has_preview_marker(url) && spec_parse(url) is None ==> r == ResolveStep::Failed(
        ResolveError::InvalidReference,
    ))
    &&& (!has_preview_marker(url) ==> match spec_parse(url) {
        Some((slug, Some(id), Some(file))) => {
            if update || !cache.mods@.contains_key(id) {
                &&& r matches ResolveStep::Need { request, state }
                &&& request == (BackendRequest::FetchMod { mod_id: id })
                &&& state matches ResolveState::PinnedMod { ctx }
                &&& ctx_ok(ctx, url, id, file, update)
            } else if update || !cache.dependencies@.contains_key(id) {
                &&& r matches ResolveStep::Need { request, state }
                &&& request == (BackendRequest::FetchDependencies { mod_id: id })
                &&& state matches ResolveState::PinnedDeps { ctx, mod_ }
                &&& ctx_ok(ctx, url, id, file, update)
                &&& mod_eqv(mod_, cache.mods@[id])
            } else {
                pinned_deps_post(
                    url,
                    id,
                    file,
                    update,
                    cache,
                    cache.mods@[id],
                    cache.dependencies@[id]@,
                    r,
                )
            }
        },
        Some((slug, Some(id), None)) => {
            if update || !cache.mods@.contains_key(id) {
                &&& r matches ResolveStep::Need { request, state }
                &&& request == (BackendRequest::FetchMod { mod_id: id })
                &&& state matches ResolveState::IdOnly { url: u2, mod_id }
                &&& u2@ == url && mod_id == id
            } else {
                match cache.mods@[id].latest_modfile {
                    Some(f) => {
                        &&& r matches ResolveStep::Done(ModResponse::Redirect(s2))
                        &&& s2.url@ == spec_format(cache.mods@[id].name_id@, id, Some(f))
                    },
                    None => r == ResolveStep::Failed(ResolveError::NoFileAvailable),
                }
            }
        },
        Some((slug, None, None)) => {
            if !update && cache.mod_id_map@.contains_key(slug) {
                let id = cache.mod_id_map@[slug];
                if cache.mods@.contains_key(id) && cache.mods@[id].latest_modfile is Some {
                    &&& r matches ResolveStep::Done(ModResponse::Redirect(s2))
                    &&& s2.url@ == spec_format(
                        slug,
                        id,
                        Some(cache.mods@[id].latest_modfile->Some_0),
                    )
                    &&& spec_parse(s2.url@) == Some(
                        (slug, Some(id), cache.mods@[id].latest_modfile),
                    )
                } else {
                    &&& r matches ResolveStep::Need { request, state }
                    &&& request == (BackendRequest::FetchMod { mod_id: id })
                    &&& state matches ResolveState::SlugLatest { url: u2, slug: sl2, mod_id }
                    &&& u2@ == url && sl2@ == slug && mod_id == id
                }
            } else {
                &&& r matches ResolveStep::Need { request, state }
                &&& request matches BackendRequest::FetchModsByName { name_id } && name_id@ == slug
                &&& state matches ResolveState::SlugSearch { url: u2, slug: sl2 }
                &&& u2@ == url && sl2@ == slug
            }
        },
        _ => true,
    })
    &&& (r matches ResolveStep::Done(ModResponse::Resolve(_)) ==> !has_preview_marker(url) && (
    spec_parse(url) matches Some(p) && p.1 is Some && p.2 is Some))
    &&& (r matches ResolveStep::Need { state, .. } ==> state_wf(state))
}

/// What one resume step yields, by the state resumed from and the
/// response fed in.
pub open spec fn resolve_next_post(
    state: ResolveState,
    resp: BackendResponse,
    old_c: ModioCache,
    new_c: ModioCache,
    r: ResolveStep,
) -> bool {
    match state {
        ResolveState::PinnedMod { ctx } => match resp {
            BackendResponse::Mod(m) => {
                &&& mod_cached(new_c, old_c, ctx.mod_id, m)
                &&& (r is Done ==> pinned_cache_complete(new_c, ctx.mod_id))
                &&& if ctx.update || !new_c.dependencies@.contains_key(ctx.mod_id) {
                    &&& r matches ResolveStep::Need { request, state }
                    &&& request == (BackendRequest::FetchDependencies { mod_id: ctx.mod_id })
                    &&& state matches ResolveState::PinnedDeps { ctx: c2, mod_ }
                    &&& c2 == ctx
                    &&& mod_eqv(mod_, m)
                } else {
                    pinned_deps_post(
                        ctx.url@,
                        ctx.mod_id,
                        ctx.file_id,
                        ctx.update,
                        new_c,
                        m,
                        new_c.dependencies@[ctx.mod_id]@,
                        r,
                    )
                }
            },
            _ => r == ResolveStep::Failed(ResolveError::UnexpectedResponse) && new_c == old_c,
        },
        ResolveState::PinnedDeps { ctx, mod_ } => match resp {
            BackendResponse::Dependencies(d) => {
                &&& deps_inserted(new_c.dependencies@, old_c.dependencies@, ctx.mod_id, d@)
                &&& ((r is Done) && old_c.mods@.contains_key(ctx.mod_id)
                    ==> pinned_cache_complete(new_c, ctx.mod_id))
                &&& new_c.mods@ == old_c.mods@
                &&& new_c.mod_id_map@ == old_c.mod_id_map@
                &&& new_c.modfile_blobs@ == old_c.modfile_blobs@
                &&& new_c.last_update_time == old_c.last_update_time
                &&& pinned_deps_post(
                    ctx.url@,
                    ctx.mod_id,
                    ctx.file_id,
                    ctx.update,
                    new_c,
                    mod_,
                    d@,
                    r,
                )
            },
            _ => r == ResolveStep::Failed(ResolveError::UnexpectedResponse) && new_c == old_c,
        },
        ResolveState::PinnedNames { ctx, mod_, dep_ids, names } => match resp {
            BackendResponse::Summaries(sums) => {
                &&& new_c == old_c
                &&& if sums@.len() == 0 {
                    &&& r matches ResolveStep::Done(ModResponse::Resolve(info))
                    &&& resolved_info_ok(info, ctx.url@, ctx.mod_id, mod_, dep_ids@, names@)
                } else {
                    &&& r matches ResolveStep::Need { request, state }
                    &&& request == (BackendRequest::FetchFiles { mod_id: sums@[0].id })
                    &&& state matches ResolveState::PinnedFiles {
                        ctx: c2,
                        mod_: m2,
                        dep_ids: d2,
                        names: n2,
                        remaining,
                        idx,
                    }
                    &&& c2 == ctx
                    &&& mod_eqv(m2, mod_)
                    &&& d2@ == dep_ids@
                    &&& n2@ == names_with_summaries(names@, sums@)
                    &&& remaining@ == sums@
                    &&& idx == 0
                }
            },
            _ => r == ResolveStep::Failed(ResolveError::UnexpectedResponse) && new_c == old_c,
        },
        ResolveState::PinnedFiles { ctx, mod_, dep_ids, names, remaining, idx } => match resp {
            BackendResponse::Mod(m) => {
                &&& mod_cached(new_c, old_c, remaining@[idx as int].id, m)
                &&& if idx + 1 < remaining@.len() {
                    &&& r matches ResolveStep::Need { request, state }
                    &&& request == (BackendRequest::FetchFiles {
                        mod_id: remaining@[idx + 1].id,
                    })
                    &&& state matches ResolveState::PinnedFiles {
                        ctx: c2,
                        mod_: m2,
                        dep_ids: d2,
                        names: n2,
                        remaining: r2,
                        idx: i2,
                    }
                    &&& c2 == ctx
                    &&& mod_eqv(m2, mod_)
                    &&& d2@ == dep_ids@
                    &&& n2@ == names@
                    &&& r2@ == remaining@
                    &&& i2 == idx + 1
                } else {
                    &&& r matches ResolveStep::Done(ModResponse::Resolve(info))
                    &&& resolved_info_ok(info, ctx.url@, ctx.mod_id, mod_, dep_ids@, names@)
                }
            },
            _ => r == ResolveStep::Failed(ResolveError::UnexpectedResponse) && new_c == old_c,
        },
        ResolveState::IdOnly { url, mod_id } => match resp {
            BackendResponse::Mod(m) => {
                &&& mod_cached(new_c, old_c, mod_id, m)
                &&& match m.latest_modfile {
                    Some(f) => {
                        &&& r matches ResolveStep::Done(ModResponse::Redirect(s2))
                        &&& s2.url@ == spec_format(m.name_id@, mod_id, Some(f))
                    },
                    None => r == ResolveStep::Failed(ResolveError::NoFileAvailable),
                }
            },
            _ => r == ResolveStep::Failed(ResolveError::UnexpectedResponse) && new_c == old_c,
        },
        ResolveState::SlugLatest { url, slug, mod_id } => match resp {
            BackendResponse::Mod(m) => {
                &&& mod_cached(new_c, old_c, mod_id, m)
                &&& match m.latest_modfile {
                    Some(f) => {
                        &&& r matches ResolveStep::Done(ModResponse::Redirect(s2))
                        &&& s2.url@ == spec_format(slug@, mod_id, Some(f))
                    },
                    None => r == ResolveStep::Failed(ResolveError::NoFileAvailable),
                }
            },
            _ => r == ResolveStep::Failed(ResolveError::UnexpectedResponse) && new_c == old_c,
        },
        ResolveState::SlugSearch { url, slug } => match resp {
            BackendResponse::SearchResults(v) => {
                &&& new_c == old_c
                &&& if v@.len() > 1 {
                    r == ResolveStep::Failed(ResolveError::AmbiguousSlug)
                } else if v@.len() == 0 {
                    r == ResolveStep::Failed(ResolveError::NotFound)
                } else {
                    &&& r matches ResolveStep::Need { request, state }
                    &&& request == (BackendRequest::FetchMod { mod_id: v@[0].id })
                    &&& state matches ResolveState::SlugFound { url: u2, slug: sl2, mod_id }
                    &&& u2@ == url@ && sl2@ == slug@ && mod_id == v@[0].id
                }
            },
            _ => r == ResolveStep::Failed(ResolveError::UnexpectedResponse) && new_c == old_c,
        },
        ResolveState::SlugFound { url, slug, mod_id } => match resp {
            BackendResponse::Mod(m) => {
                &&& mod_cached(new_c, old_c, mod_id, m)
                &&& match m.latest_modfile {
                    Some(f) => {
                        &&& r matches ResolveStep::Done(ModResponse::Redirect(s2))
                        &&& s2.url@ == spec_format(slug@, mod_id, Some(f))
                    },
                    None => r == ResolveStep::Failed(ResolveError::NoFileAvailable),
                }
            },
            _ => r == ResolveStep::Failed(ResolveError::UnexpectedResponse) && new_c == old_c,
        },
    }
}

/// Whether a state belongs to the pinned flow, the only flow that can end
/// in a terminal `Resolve`.
pub open spec fn state_is_pinned(s: ResolveState) -> bool {
    match s {
        ResolveState::PinnedMod { .. } => true,
        ResolveState::PinnedDeps { .. } => true,
        ResolveState::PinnedNames { .. } => true,
        ResolveState::PinnedFiles { .. } => true,
        _ => false,
    }
}

pub open spec fn state_is_slug(s: ResolveState) -> bool {
    match s {
        ResolveState::SlugLatest { .. } => true,
        ResolveState::SlugSearch { .. } => true,
        ResolveState::SlugFound { .. } => true,
        _ => false,
    }
}

/// The names map after the batch summaries are merged in.
pub open spec fn names_with_summaries(names: Map<u32, String>, sums: Seq<ModSummary>) -> Map<
    u32,
    String,
>
    decreases sums.len(),
{
    if sums.len() == 0 {
        names
    } else {
        names_with_summaries(names, sums.drop_last()).insert(
            sums.last().id,
            sums.last().name_id,
        )
    }
}

/// A reference produced by the grammar always carries a slug the grammar
/// accepts back.
proof fn lemma_parse_gives_valid_slug(s: Seq<char>)
    requires
        spec_parse(s) is Some,
    ensures
        match spec_parse(s) {
            Some(p) => crate::codec::valid_slug(p.0),
            None => true,
        },
{
}

/// `spec_dep_urls` only looks names up at the dependency ids, so maps that
/// agree there give the same references.
proof fn lemma_dep_urls_agree(dep_ids: Seq<u32>, a: Map<u32, String>, b: Map<u32, String>)
    requires
        forall|i: int|
            0 <= i < dep_ids.len() ==> (a.contains_key(#[trigger] dep_ids[i])
                <==> b.contains_key(dep_ids[i])),
        forall|i: int|
            0 <= i < dep_ids.len() && a.contains_key(#[trigger] dep_ids[i]) ==> a[dep_ids[i]]
                == b[dep_ids[i]],
    ensures
        spec_dep_urls(dep_ids, a) == spec_dep_urls(dep_ids, b),
    decreases dep_ids.len(),
{
    if dep_ids.len() > 0 {
        assert forall|i: int| 0 <= i < dep_ids.drop_first().len() implies (a.contains_key(
            #[trigger] dep_ids.drop_first()[i],
        ) <==> b.contains_key(dep_ids.drop_first()[i])) && (a.contains_key(
            dep_ids.drop_first()[i],
        ) ==> a[dep_ids.drop_first()[i]] == b[dep_ids.drop_first()[i]]) by {
            assert(dep_ids.drop_first()[i] == dep_ids[i + 1]);
        }
        lemma_dep_urls_agree(dep_ids.drop_first(), a, b);
        assert(dep_ids[0] == dep_ids[0]);
    }
}

/// Builds the terminal `Resolve` answer from the mod entry, its dependency
/// ids and the names collected for them.
fn finish_resolved(
    ctx: PinnedCtx,
    mod_: ModioMod,
    dep_ids: &Vec<u32>,
    names: &IdMap<String>,
) -> (r: ResolveStep)
    requires
        names.wf(),
    ensures
        r matches ResolveStep::Done(ModResponse::Resolve(info)) && resolved_info_ok(
            info,
            ctx.url@,
            ctx.mod_id,
            mod_,
            dep_ids@,
            names@,
        ),
{
    let suggested_require = has_tag(&mod_.tags, "RequiredByAll");
    let tags_summary = process_modio_tags(&mod_.tags);
    let mut versions: Vec<ModSpecification> = Vec::new();
    let mut i: usize = 0;
    while i < mod_.modfiles.len()
        invariant
            0 <= i <= mod_.modfiles@.len(),
            versions@.len() == i,
            forall|t: int|
                0 <= t < i ==> (#[trigger] versions@[t]).url@ == spec_format(
                    mod_.name_id@,
                    ctx.mod_id,
                    Some(mod_.modfiles@[t].id),
                ),
        decreases mod_.modfiles@.len() - i,
    {
        let f_id = mod_.modfiles[i].id;
        versions.push(format_spec(mod_.name_id.as_str(), ctx.mod_id, Some(f_id)));
        i = i + 1;
    }
    let mut deps: Vec<ModSpecification> = Vec::new();
    proof {
        assert(dep_ids@.skip(0) =~= dep_ids@);
        assert(urls_of(deps@) =~= Seq::<Seq<char>>::empty());
        assert(urls_of(deps@) + spec_dep_urls(dep_ids@, names@) =~= spec_dep_urls(
            dep_ids@,
            names@,
        ));
    }
    let mut j: usize = 0;
    while j < dep_ids.len()
        invariant
            0 <= j <= dep_ids@.len(),
            names.wf(),
            spec_dep_urls(dep_ids@, names@) == urls_of(deps@) + spec_dep_urls(
                dep_ids@.skip(j as int),
                names@,
            ),
        decreases dep_ids@.len() - j,
    {
        let id = dep_ids[j];
        proof {
            assert(dep_ids@.skip(j as int).drop_first() =~= dep_ids@.skip(j + 1));
            assert(dep_ids@.skip(j as int)[0] == dep_ids@[j as int]);
        }
        let ghost pre = deps@;
        match names.get(id) {
            Some(name) => {
                let newspec = format_spec(name.as_str(), id, None);
                let ghost nv = newspec;
                deps.push(newspec);
                proof {
                    assert(deps@ == pre.push(nv));
                    assert(nv.url@ == spec_format(names@[id]@, id, None));
                    assert forall|t: int| 0 <= t < deps@.len() implies urls_of(deps@)[t] == (
                    urls_of(pre) + seq![spec_format(names@[id]@, id, None)])[t] by {
                        if t < pre.len() {
                            assert(deps@[t] == pre[t]);
                        } else {
                            assert(deps@[t] == nv);
                        }
                    }
                    assert(urls_of(deps@) =~= urls_of(pre) + seq![
                        spec_format(names@[id]@, id, None),
                    ]);
                    assert(spec_dep_urls(dep_ids@.skip(j as int), names@) == seq![
                        spec_format(names@[id]@, id, None),
                    ] + spec_dep_urls(dep_ids@.skip(j + 1), names@));
                    assert(urls_of(deps@) + spec_dep_urls(dep_ids@.skip(j + 1), names@) =~= urls_of(
                        pre,
                    ) + spec_dep_urls(dep_ids@.skip(j as int), names@));
                }
            },
            None => {
                proof {
                    assert(spec_dep_urls(dep_ids@.skip(j as int), names@) == spec_dep_urls(
                        dep_ids@.skip(j + 1),
                        names@,
                    ));
                }
            },
        }
        j = j + 1;
    }
    proof {
        assert(dep_ids@.skip(dep_ids@.len() as int) =~= Seq::<u32>::empty());
        assert(spec_dep_urls(dep_ids@, names@) =~= urls_of(deps@));
    }
    let info = ModInfo {
        provider: crate::provider_id(),
        spec: format_spec(mod_.name_id.as_str(), ctx.mod_id, None),
        name: mod_.name,
        versions,
        resolution: ModResolution { url: ctx.url },
        suggested_require,
        suggested_dependencies: deps,
        modio_tags: Some(tags_summary),
        modio_id: Some(ctx.mod_id),
    };
    ResolveStep::Done(ModResponse::Resolve(info))
}

/// Proceeds once the mod entry and its dependency ids are known: names the
/// dependencies from the cache, finishing immediately when all are named,
/// else asking for the unnamed ones in one batch.
pub(crate) fn pinned_with_deps(
    ctx: PinnedCtx,
    mod_: ModioMod,
    dep_ids: Vec<u32>,
    cache: &ModioCache,
) -> (r: ResolveStep)
    requires
        cache.wf(),
    ensures
        pinned_deps_post(
            ctx.url@,
            ctx.mod_id,
            ctx.file_id,
            ctx.update,
            *cache,
            mod_,
            dep_ids@,
            r,
        ),
        r matches ResolveStep::Need { state, .. } ==> state_wf(state) && state_is_pinned(state),
        !(r is Failed),
{
    let mut names: IdMap<String> = IdMap::new();
    let mut missing: Vec<u32> = Vec::new();
    let n = dep_ids.len();
    let mut i: usize = 0;
    while i < n
        invariant
            0 <= i <= n == dep_ids@.len(),
            cache.wf(),
            names.wf(),
            names_from_cache_ok(names@, cache.mods@),
            forall|t: int|
                0 <= t < i && cache.mods@.contains_key(#[trigger] dep_ids@[t])
                    ==> names@.contains_key(dep_ids@[t]) && names@[dep_ids@[t]]
                    == cache.mods@[dep_ids@[t]].name_id,
            forall|t: int|
                0 <= t < missing@.len() ==> dep_ids@.contains(#[trigger] missing@[t])
                    && !cache.mods@.contains_key(missing@[t]),
            forall|t: int|
                0 <= t < i ==> cache.mods@.contains_key(#[trigger] dep_ids@[t])
                    || missing@.contains(dep_ids@[t]),
        decreases n - i,
    {
        let id = dep_ids[i];
        match cache.mods.get(id) {
            Some(m) => {
                names.insert(id, m.name_id.clone());
            },
            None => {
                let ghost premissing = missing@;
                missing.push(id);
                proof {
                    assert(missing@[premissing.len() as int] == id);
                    assert(dep_ids@.contains(id)) by {
                        assert(dep_ids@[i as int] == id);
                    }
                    assert forall|t: int|
                        0 <= t < i + 1 implies cache.mods@.contains_key(#[trigger] dep_ids@[t])
                        || missing@.contains(dep_ids@[t]) by {
                        if t < i {
                            if !cache.mods@.contains_key(dep_ids@[t]) {
                                let x = choose|x: int|
                                    0 <= x < premissing.len() && premissing[x] == dep_ids@[t];
                                assert(missing@[x] == dep_ids@[t]);
                            }
                        } else {
                            assert(missing@[premissing.len() as int] == dep_ids@[t]);
                        }
                    }
                }
            },
        }
        i = i + 1;
    }
    if missing.len() == 0 {
        proof {
            assert forall|t: int| 0 <= t < dep_ids@.len() implies cache.mods@.contains_key(
                #[trigger] dep_ids@[t],
            ) by {
                if !cache.mods@.contains_key(dep_ids@[t]) {
                    assert(missing@.contains(dep_ids@[t]));
                    let x = choose|x: int| 0 <= x < missing@.len() && missing@[x] == dep_ids@[t];
                }
            }
        }
        let r = finish_resolved(ctx, mod_, &dep_ids, &names);
        proof {
            assert forall|t: int| 0 <= t < dep_ids@.len() implies (names@.contains_key(
                #[trigger] dep_ids@[t],
            ) <==> cache_names(cache.mods@).contains_key(dep_ids@[t])) && (names@.contains_key(
                dep_ids@[t],
            ) ==> names@[dep_ids@[t]] == cache_names(cache.mods@)[dep_ids@[t]]) by {
                assert(cache.mods@.contains_key(dep_ids@[t]));
                assert(names@.contains_key(dep_ids@[t]));
                assert(names@[dep_ids@[t]] == cache.mods@[dep_ids@[t]].name_id);
            }
            lemma_dep_urls_agree(dep_ids@, names@, cache_names(cache.mods@));
        }
        r
    } else {
        proof {
            assert(!cache.mods@.contains_key(missing@[0]));
            assert(exists|t: int|
                0 <= t < dep_ids@.len() && !cache.mods@.contains_key(#[trigger] dep_ids@[t])) by {
                let x = choose|x: int| 0 <= x < dep_ids@.len() && dep_ids@[x] == missing@[0];
                assert(dep_ids@.contains(missing@[0]));
                let y = choose|y: int| 0 <= y < dep_ids@.len() && dep_ids@[y] == missing@[0];
                assert(!cache.mods@.contains_key(dep_ids@[y]));
            }
        }
        ResolveStep::Need {
            request: BackendRequest::FetchModsByIds { mod_ids: missing },
            state: ResolveState::PinnedNames { ctx, mod_, dep_ids, names },
        }
    }
}

/// One resolution step on a reference, from the cache alone: either a
/// terminal result, or the first backend request of this resolution
/// together with the state to resume from. Never touches the cache.
///
/// With `update` set, cached knowledge about the referenced mod is bypassed
/// and a backend request is always issued for a well-formed reference.
pub fn resolve_start(spec: &ModSpecification, update: bool, cache: &ModioCache) -> (r: ResolveStep)
    requires
        cache.wf(),
    ensures
        resolve_start_post(*spec, update, *cache, r),
        update && !has_preview_marker(spec.url@) && spec_parse(spec.url@) is Some ==> (r
            is Need || r is Failed),
        !update ==> (spec_parse(spec.url@) matches Some((slug, Some(id), Some(file)))
            && !has_preview_marker(spec.url@) && pinned_cache_complete(*cache, id) ==> r
            is Done),
{
    if contains_preview_marker(spec.url.as_str()) {
        return ResolveStep::Failed(ResolveError::PreviewNotSupported);
    }
    let parsed = match parse_reference(spec.url.as_str()) {
        Some(p) => p,
        None => {
            return ResolveStep::Failed(ResolveError::InvalidReference);
        },
    };
    proof {
        lemma_parse_gives_valid_slug(spec.url@);
    }
    match (parsed.mod_id, parsed.file_id) {
        (Some(id), Some(file)) => {
            let ctx = PinnedCtx { url: spec.url.clone(), mod_id: id, file_id: file, update };
            if update {
                return ResolveStep::Need {
                    request: BackendRequest::FetchMod { mod_id: id },
                    state: ResolveState::PinnedMod { ctx },
                };
            }
            let mod_ = match cache.mods.get(id) {
                Some(m) => m.duplicate(),
                None => {
                    return ResolveStep::Need {
                        request: BackendRequest::FetchMod { mod_id: id },
                        state: ResolveState::PinnedMod { ctx },
                    };
                },
            };
            let dep_ids = match cache.dependencies.get(id) {
                Some(d) => crate::types::duplicate_ids(d),
                None => {
                    return ResolveStep::Need {
                        request: BackendRequest::FetchDependencies { mod_id: id },
                        state: ResolveState::PinnedDeps { ctx, mod_ },
                    };
                },
            };
            pinned_with_deps(ctx, mod_, dep_ids, cache)
        },
        (Some(id), None) => {
            if update {
                return ResolveStep::Need {
                    request: BackendRequest::FetchMod { mod_id: id },
                    state: ResolveState::IdOnly { url: spec.url.clone(), mod_id: id },
                };
            }
            match cache.mods.get(id) {
                Some(m) => match m.latest_modfile {
                    Some(f) => ResolveStep::Done(
                        ModResponse::Redirect(format_spec(m.name_id.as_str(), id, Some(f))),
                    ),
                    None => ResolveStep::Failed(ResolveError::NoFileAvailable),
                },
                None => ResolveStep::Need {
                    request: BackendRequest::FetchMod { mod_id: id },
                    state: ResolveState::IdOnly { url: spec.url.clone(), mod_id: id },
                },
            }
        },
        (None, _) => {
            let slug = parsed.slug;
            let cached_id = if update {
                None
            } else {
                cache.mod_id_map.get(&slug)
            };
            match cached_id {
                Some(id) => {
                    let latest = match cache.mods.get(id) {
                        Some(m) => m.latest_modfile,
                        None => None,
                    };
                    match latest {
                        Some(f) => {
                            let redirect = format_spec(slug.as_str(), id, Some(f));
                            proof {
                                crate::codec::lemma_parse_format_round_trip(slug@, id, Some(f));
                            }
                            ResolveStep::Done(ModResponse::Redirect(redirect))
                        },
                        None => ResolveStep::Need {
                            request: BackendRequest::FetchMod { mod_id: id },
                            state: ResolveState::SlugLatest {
                                url: spec.url.clone(),
                                slug,
                                mod_id: id,
                            },
                        },
                    }
                },
                None => ResolveStep::Need {
                    request: BackendRequest::FetchModsByName { name_id: slug.clone() },
                    state: ResolveState::SlugSearch { url: spec.url.clone(), slug },
                },
            }
        },
    }
}

/// A slug-only reference never resolves directly to a terminal `Resolve`:
/// the first step on it either fails or asks the backend, and the only
/// terminal answer it can produce is a redirect to a fully pinned
/// reference.
pub proof fn lemma_slug_only_never_resolves_directly(
    spec: ModSpecification,
    update: bool,
    cache: ModioCache,
    r: ResolveStep,
)
    requires
        resolve_start_post(spec, update, cache, r),
        spec_parse(spec.url@) matches Some((slug, mid, fid)) && mid is None,
    ensures
        !(r matches ResolveStep::Done(ModResponse::Resolve(_))),
        r matches ResolveStep::Done(ModResponse::Redirect(s2)) ==> (spec_parse(s2.url@)
            matches Some(p2) && p2.1 is Some && p2.2 is Some),
{
}

/// A pinned resolution that had to fetch its mod leaves the cache complete
/// for that mod, so resolving the same mod again without a forced refresh
/// finishes from the cache alone: the metadata and dependency calls happen
/// at most once across the two resolutions.
pub proof fn lemma_second_resolution_is_cache_hit(
    ctx: PinnedCtx,
    m: ModioMod,
    old_c: ModioCache,
    new_c: ModioCache,
    r1: ResolveStep,
    spec2: ModSpecification,
    r2: ResolveStep,
)
    requires
        resolve_next_post(
            ResolveState::PinnedMod { ctx },
            BackendResponse::Mod(m),
            old_c,
            new_c,
            r1,
        ),
        r1 is Done,
        resolve_start_post(spec2, false, new_c, r2),
        !has_preview_marker(spec2.url@),
        spec_parse(spec2.url@) matches Some((slug, mid, fid)) && mid == Some(ctx.mod_id) && fid
            is Some,
    ensures
        r2 is Done,
{
    assert(pinned_cache_complete(new_c, ctx.mod_id));
}

/// Caches a fetched mod entry under `id`: the mod index and the slug index
/// are overwritten, nothing is deleted.
fn cache_mod(cache: &mut ModioCache, id: u32, m: &ModioMod)
    requires
        old(cache).wf(),
    ensures
        final(cache).wf(),
        mod_cached(*final(cache), *old(cache), id, *m),
        cache_extends(*final(cache), *old(cache)),
{
    let dup = m.duplicate();
    cache.mods.insert(id, dup);
    cache.mod_id_map.insert(m.name_id.clone(), id);
}

/// Advances a resolution with the response to the request that was handed
/// out. Caches what the response taught, then either finishes, redirects,
/// or hands out the next request.
pub fn resolve_next(state: ResolveState, resp: BackendResponse, cache: &mut ModioCache) -> (r:
    ResolveStep)
    requires
        old(cache).wf(),
        state_wf(state),
    ensures
        final(cache).wf(),
        cache_extends(*final(cache), *old(cache)),
        resolve_next_post(state, resp, *old(cache), *final(cache), r),
        r matches ResolveStep::Need { state: s2, .. } ==> state_wf(s2),
        r matches ResolveStep::Done(ModResponse::Resolve(_)) ==> state_is_pinned(state),
        state_is_pinned(state) ==> (r matches ResolveStep::Need { state: s2, .. }
            ==> state_is_pinned(s2)),
{
    match state {
        ResolveState::PinnedMod { ctx } => match resp {
            BackendResponse::Mod(m) => {
                cache_mod(cache, ctx.mod_id, &m);
                if ctx.update {
                    return ResolveStep::Need {
                        request: BackendRequest::FetchDependencies { mod_id: ctx.mod_id },
                        state: ResolveState::PinnedDeps { ctx, mod_: m },
                    };
                }
                let dep_ids = match cache.dependencies.get(ctx.mod_id) {
                    Some(d) => crate::types::duplicate_ids(d),
                    None => {
                        return ResolveStep::Need {
                            request: BackendRequest::FetchDependencies { mod_id: ctx.mod_id },
                            state: ResolveState::PinnedDeps { ctx, mod_: m },
                        };
                    },
                };
                let r = pinned_with_deps(ctx, m, dep_ids, cache);
                proof {
                    if r is Done {
                        assert(pinned_cache_complete(*cache, ctx.mod_id));
                    }
                }
                r
            },
            _ => ResolveStep::Failed(ResolveError::UnexpectedResponse),
        },
        ResolveState::PinnedDeps { ctx, mod_ } => match resp {
            BackendResponse::Dependencies(d) => {
                let dup = crate::types::duplicate_ids(&d);
                cache.dependencies.insert(ctx.mod_id, dup);
                let r = pinned_with_deps(ctx, mod_, d, cache);
                proof {
                    if r is Done && old(cache).mods@.contains_key(ctx.mod_id) {
                        assert(pinned_cache_complete(*cache, ctx.mod_id));
                    }
                }
                r
            },
            _ => ResolveStep::Failed(ResolveError::UnexpectedResponse),
        },
        ResolveState::PinnedNames { ctx, mod_, dep_ids, names } => match resp {
            BackendResponse::Summaries(sums) => {
                let mut names = names;
                let ghost orig_names = names@;
                let n = sums.len();
                let mut i: usize = 0;
                while i < n
                    invariant
                        0 <= i <= n == sums@.len(),
                        names.wf(),
                        names@ == names_with_summaries(orig_names, sums@.take(i as int)),
                    decreases n - i,
                {
                    names.insert(sums[i].id, sums[i].name_id.clone());
                    proof {
                        assert(sums@.take(i + 1).drop_last() =~= sums@.take(i as int));
                        assert(sums@.take(i + 1).last() == sums@[i as int]);
                    }
                    i = i + 1;
                }
                proof {
                    assert(sums@.take(n as int) =~= sums@);
                }
                if sums.len() == 0 {
                    finish_resolved(ctx, mod_, &dep_ids, &names)
                } else {
                    let first = sums[0].id;
                    ResolveStep::Need {
                        request: BackendRequest::FetchFiles { mod_id: first },
                        state: ResolveState::PinnedFiles {
                            ctx,
                            mod_,
                            dep_ids,
                            names,
                            remaining: sums,
                            idx: 0,
                        },
                    }
                }
            },
            _ => ResolveStep::Failed(ResolveError::UnexpectedResponse),
        },
        ResolveState::PinnedFiles { ctx, mod_, dep_ids, names, remaining, idx } => match resp {
            BackendResponse::Mod(m) => {
                proof {
                    assert(state_wf(state));
                    assert(idx < remaining@.len());
                }
                let id = remaining[idx].id;
                cache_mod(cache, id, &m);
                let n = remaining.len();
                if idx + 1 < n {
                    let next = remaining[idx + 1].id;
                    ResolveStep::Need {
                        request: BackendRequest::FetchFiles { mod_id: next },
                        state: ResolveState::PinnedFiles {
                            ctx,
                            mod_,
                            dep_ids,
                            names,
                            remaining,
                            idx: idx + 1,
                        },
                    }
                } else {
                    finish_resolved(ctx, mod_, &dep_ids, &names)
                }
            },
            _ => ResolveStep::Failed(ResolveError::UnexpectedResponse),
        },
        ResolveState::IdOnly { url, mod_id } => match resp {
            BackendResponse::Mod(m) => {
                cache_mod(cache, mod_id, &m);
                match m.latest_modfile {
                    Some(f) => ResolveStep::Done(
                        ModResponse::Redirect(format_spec(m.name_id.as_str(), mod_id, Some(f))),
                    ),
                    None => ResolveStep::Failed(ResolveError::NoFileAvailable),
                }
            },
            _ => ResolveStep::Failed(ResolveError::UnexpectedResponse),
        },
        ResolveState::SlugLatest { url, slug, mod_id } => match resp {
            BackendResponse::Mod(m) => {
                cache_mod(cache, mod_id, &m);
                match m.latest_modfile {
                    Some(f) => ResolveStep::Done(
                        ModResponse::Redirect(format_spec(slug.as_str(), mod_id, Some(f))),
                    ),
                    None => ResolveStep::Failed(ResolveError::NoFileAvailable),
                }
            },
            _ => ResolveStep::Failed(ResolveError::UnexpectedResponse),
        },
        ResolveState::SlugSearch { url, slug } => match resp {
            BackendResponse::SearchResults(v) => {
                if v.len() > 1 {
                    ResolveStep::Failed(ResolveError::AmbiguousSlug)
                } else if v.len() == 0 {
                    ResolveStep::Failed(ResolveError::NotFound)
                } else {
                    let id = v[0].id;
                    ResolveStep::Need {
                        request: BackendRequest::FetchMod { mod_id: id },
                        state: ResolveState::SlugFound { url, slug, mod_id: id },
                    }
                }
            },
            _ => ResolveStep::Failed(ResolveError::UnexpectedResponse),
        },
        ResolveState::SlugFound { url, slug, mod_id } => match resp {
            BackendResponse::Mod(m) => {
                cache_mod(cache, mod_id, &m);
                match m.latest_modfile {
                    Some(f) => ResolveStep::Done(
                        ModResponse::Redirect(format_spec(slug.as_str(), mod_id, Some(f))),
                    ),
                    None => ResolveStep::Failed(ResolveError::NoFileAvailable),
                }
            },
            _ => ResolveStep::Failed(ResolveError::UnexpectedResponse),
        },
    }
}

} // verus!
