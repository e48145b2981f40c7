//! Resolution engine and update walker, driven against an in-memory
//! backend that records every call.

use std::collections::HashMap;

use modio_provider::cache::ModioCache;
use modio_provider::queries::{get_mod_info, get_version_name};
use modio_provider::resolve::{
    resolve_next, resolve_start, ModResponse, ResolveError, ResolveStep,
};
use modio_provider::types::{
    BackendRequest, BackendResponse, ModSpecification, ModSummary, ModioFile, ModioMod,
    ModioModResponse,
};
use modio_provider::update::{update_next, update_start, UpdateAction};

struct FakeModRecord {
    name_id: String,
    name: String,
    latest_modfile: Option<u32>,
    modfiles: Vec<(u32, u64, Option<String>)>,
    tags: Vec<String>,
    dependencies: Vec<u32>,
}

#[derive(Default)]
struct FakeBackend {
    mods: HashMap<u32, FakeModRecord>,
    calls_fetch_mod: Vec<u32>,
    calls_fetch_files: Vec<u32>,
    calls_fetch_dependencies: Vec<u32>,
    calls_search: Vec<String>,
    calls_by_ids: Vec<Vec<u32>>,
    calls_changed: usize,
    changed_ids: Vec<u32>,
}

impl FakeBackend {
    fn make_mod(&self, id: u32) -> ModioMod {
        let rec = self.mods.get(&id).expect("backend asked for unknown mod");
        ModioMod {
            name_id: rec.name_id.clone(),
            name: rec.name.clone(),
            latest_modfile: rec.latest_modfile,
            modfiles: rec
                .modfiles
                .iter()
                .map(|(fid, date, version)| ModioFile {
                    id: *fid,
                    date_added: *date,
                    version: version.clone(),
                    changelog: None,
                })
                .collect(),
            tags: rec.tags.clone(),
        }
    }

    fn handle(&mut self, request: BackendRequest) -> BackendResponse {
        match request {
            BackendRequest::FetchMod { mod_id } => {
                self.calls_fetch_mod.push(mod_id);
                BackendResponse::Mod(self.make_mod(mod_id))
            }
            BackendRequest::FetchFiles { mod_id } => {
                self.calls_fetch_files.push(mod_id);
                BackendResponse::Mod(self.make_mod(mod_id))
            }
            BackendRequest::FetchDependencies { mod_id } => {
                self.calls_fetch_dependencies.push(mod_id);
                BackendResponse::Dependencies(self.mods[&mod_id].dependencies.clone())
            }
            BackendRequest::FetchModsByName { name_id } => {
                self.calls_search.push(name_id.clone());
                let rows = self
                    .mods
                    .iter()
                    .filter(|(_, rec)| rec.name_id == name_id)
                    .map(|(id, _)| ModioModResponse { id: *id })
                    .collect();
                BackendResponse::SearchResults(rows)
            }
            BackendRequest::FetchModsByIds { mod_ids } => {
                self.calls_by_ids.push(mod_ids.clone());
                let rows = mod_ids
                    .iter()
                    .filter(|id| self.mods.contains_key(id))
                    .map(|id| ModSummary {
                        id: *id,
                        name_id: self.mods[id].name_id.clone(),
                    })
                    .collect();
                BackendResponse::Summaries(rows)
            }
            BackendRequest::FetchModUpdatesSince { .. } => {
                self.calls_changed += 1;
                BackendResponse::ChangedSince(self.changed_ids.clone())
            }
        }
    }
}

/// Loops one resolution step to a terminal answer, the way callers do.
fn resolve_once(
    backend: &mut FakeBackend,
    spec: &ModSpecification,
    update: bool,
    cache: &mut ModioCache,
) -> Result<ModResponse, ResolveError> {
    let mut step = resolve_start(spec, update, cache);
    loop {
        match step {
            ResolveStep::Done(resp) => return Ok(resp),
            ResolveStep::Failed(e) => return Err(e),
            ResolveStep::Need { request, state } => {
                let response = backend.handle(request);
                step = resolve_next(state, response, cache);
            }
        }
    }
}

/// Loops resolution until `Resolve`, following redirects.
fn resolve_to_terminal(
    backend: &mut FakeBackend,
    spec: &ModSpecification,
    update: bool,
    cache: &mut ModioCache,
) -> Result<ModResponse, ResolveError> {
    let mut current = spec.duplicate();
    let mut hops = 0;
    loop {
        match resolve_once(backend, &current, update, cache)? {
            ModResponse::Resolve(info) => return Ok(ModResponse::Resolve(info)),
            ModResponse::Redirect(next) => {
                current = next;
                hops += 1;
                assert!(hops <= 2, "narrowing is monotonic: at most two redirects");
            }
        }
    }
}

fn simple_backend() -> FakeBackend {
    let mut backend = FakeBackend::default();
    backend.mods.insert(
        3,
        FakeModRecord {
            name_id: "test-mod".to_string(),
            name: "Test Mod".to_string(),
            latest_modfile: Some(5),
            modfiles: vec![(5, 12345, None)],
            tags: Vec::new(),
            dependencies: vec![],
        },
    );
    backend
}

#[test]
fn test_fetch_mod_simple() {
    let mut backend = simple_backend();
    let mut cache = ModioCache::new(0);

    let spec = ModSpecification::new("https://mod.io/g/drg/m/test-mod".to_string());
    let resolved = resolve_once(&mut backend, &spec, false, &mut cache).unwrap();
    let redirected = match resolved {
        ModResponse::Redirect(spec) => spec,
        _ => unreachable!(),
    };
    assert_eq!(redirected.url, "https://mod.io/g/drg/m/test-mod#3/5");
    let _resolved = resolve_once(&mut backend, &redirected, false, &mut cache).unwrap();

    // each backend lookup was made exactly once
    assert_eq!(backend.calls_search, vec!["test-mod".to_string()]);
    assert_eq!(backend.calls_fetch_mod, vec![3]);
    assert_eq!(backend.calls_fetch_dependencies, vec![3]);

    // cache afterwards: slug index, empty-but-present dependency list, mod entry
    assert_eq!(cache.mod_id_map.len(), 1);
    assert_eq!(cache.mod_id_map.get(&"test-mod".to_string()), Some(3));
    assert_eq!(cache.dependencies.len(), 1);
    assert_eq!(cache.dependencies.get(3), Some(&vec![]));
    assert_eq!(cache.mods.len(), 1);
    let entry = cache.mods.get(3).unwrap();
    assert_eq!(entry.name_id, "test-mod");
    assert_eq!(entry.name, "Test Mod");
    assert_eq!(entry.latest_modfile, Some(5));
    assert_eq!(entry.modfiles.len(), 1);
    assert_eq!(entry.modfiles[0].id, 5);
    assert_eq!(entry.modfiles[0].date_added, 12345);
}

#[test]
fn test_slug_only_yields_single_redirect() {
    let mut backend = simple_backend();
    let mut cache = ModioCache::new(0);
    let spec = ModSpecification::new("https://mod.io/g/drg/m/test-mod".to_string());
    // a slug-only reference never resolves directly: exactly one redirect,
    // and to a fully pinned reference
    match resolve_once(&mut backend, &spec, false, &mut cache).unwrap() {
        ModResponse::Redirect(next) => {
            assert_eq!(next.url, "https://mod.io/g/drg/m/test-mod#3/5");
        }
        ModResponse::Resolve(_) => panic!("slug-only reference resolved directly"),
    }
}

#[test]
fn test_slug_search_failures() {
    let mut backend = simple_backend();
    let mut cache = ModioCache::new(0);
    let missing = ModSpecification::new("https://mod.io/g/drg/m/absent".to_string());
    assert_eq!(
        resolve_once(&mut backend, &missing, false, &mut cache),
        Err(ResolveError::NotFound)
    );
    // two mods sharing a slug make it ambiguous
    backend.mods.insert(
        7,
        FakeModRecord {
            name_id: "test-mod".to_string(),
            name: "Copycat".to_string(),
            latest_modfile: Some(9),
            modfiles: vec![(9, 1, None)],
            tags: Vec::new(),
            dependencies: vec![],
        },
    );
    let spec = ModSpecification::new("https://mod.io/g/drg/m/test-mod".to_string());
    assert_eq!(
        resolve_once(&mut backend, &spec, false, &mut cache),
        Err(ResolveError::AmbiguousSlug)
    );
}

#[test]
fn test_no_file_available() {
    let mut backend = FakeBackend::default();
    backend.mods.insert(
        8,
        FakeModRecord {
            name_id: "fileless".to_string(),
            name: "Fileless".to_string(),
            latest_modfile: None,
            modfiles: vec![],
            tags: Vec::new(),
            dependencies: vec![],
        },
    );
    let mut cache = ModioCache::new(0);
    let spec = ModSpecification::new("https://mod.io/g/drg/m/fileless#8".to_string());
    assert_eq!(
        resolve_once(&mut backend, &spec, false, &mut cache),
        Err(ResolveError::NoFileAvailable)
    );
}

#[test]
fn test_invalid_and_preview_references() {
    let mut backend = simple_backend();
    let mut cache = ModioCache::new(0);
    let bad = ModSpecification::new("https://mod.io/g/drg/m/".to_string());
    assert_eq!(
        resolve_once(&mut backend, &bad, false, &mut cache),
        Err(ResolveError::InvalidReference)
    );
    let preview =
        ModSpecification::new("https://mod.io/g/drg/m/test-mod?preview=abcd".to_string());
    assert_eq!(
        resolve_once(&mut backend, &preview, false, &mut cache),
        Err(ResolveError::PreviewNotSupported)
    );
    // rejected before any backend access
    assert!(backend.calls_search.is_empty());
    assert!(backend.calls_fetch_mod.is_empty());
}

#[test]
fn test_cached_resolution_issues_no_backend_calls() {
    let mut backend = simple_backend();
    let mut cache = ModioCache::new(0);
    let pinned = ModSpecification::new("https://mod.io/g/drg/m/test-mod#3/5".to_string());

    let first = resolve_once(&mut backend, &pinned, false, &mut cache).unwrap();
    assert!(matches!(first, ModResponse::Resolve(_)));
    assert_eq!(backend.calls_fetch_mod, vec![3]);
    assert_eq!(backend.calls_fetch_dependencies, vec![3]);

    // the second resolution is a pure cache hit: call counts do not move
    let second = resolve_once(&mut backend, &pinned, false, &mut cache).unwrap();
    assert!(matches!(second, ModResponse::Resolve(_)));
    assert_eq!(backend.calls_fetch_mod, vec![3]);
    assert_eq!(backend.calls_fetch_dependencies, vec![3]);
}

#[test]
fn test_force_refresh_overwrites_cache() {
    let mut backend = simple_backend();
    let mut cache = ModioCache::new(0);
    let pinned = ModSpecification::new("https://mod.io/g/drg/m/test-mod#3/5".to_string());
    resolve_once(&mut backend, &pinned, false, &mut cache).unwrap();
    assert_eq!(cache.mods.get(3).unwrap().name, "Test Mod");

    // the backend now knows a newer state of the mod
    backend.mods.get_mut(&3).unwrap().name = "Test Mod Reborn".to_string();
    backend.mods.get_mut(&3).unwrap().latest_modfile = Some(6);

    // forced refresh bypasses the warm cache: the calls happen again and
    // the cache is overwritten with the fresh result
    resolve_once(&mut backend, &pinned, true, &mut cache).unwrap();
    assert_eq!(backend.calls_fetch_mod, vec![3, 3]);
    assert_eq!(backend.calls_fetch_dependencies, vec![3, 3]);
    assert_eq!(cache.mods.get(3).unwrap().name, "Test Mod Reborn");
    assert_eq!(cache.mods.get(3).unwrap().latest_modfile, Some(6));
}

#[test]
fn test_empty_dependency_list_cached_as_present() {
    let mut backend = simple_backend();
    let mut cache = ModioCache::new(0);
    let pinned = ModSpecification::new("https://mod.io/g/drg/m/test-mod#3/5".to_string());
    resolve_once(&mut backend, &pinned, false, &mut cache).unwrap();
    // present and empty, distinguishable from never fetched
    assert_eq!(cache.dependencies.get(3), Some(&vec![]));
    assert_eq!(cache.dependencies.get(99), None);
}

#[test]
fn test_dependencies_resolved_and_named() {
    let mut backend = simple_backend();
    backend.mods.get_mut(&3).unwrap().dependencies = vec![21, 22];
    backend.mods.insert(
        21,
        FakeModRecord {
            name_id: "framework".to_string(),
            name: "Framework".to_string(),
            latest_modfile: Some(1),
            modfiles: vec![(1, 1, None)],
            tags: vec!["RequiredByAll".to_string()],
            dependencies: vec![],
        },
    );
    backend.mods.insert(
        22,
        FakeModRecord {
            name_id: "assets".to_string(),
            name: "Assets".to_string(),
            latest_modfile: Some(2),
            modfiles: vec![(2, 2, None)],
            tags: Vec::new(),
            dependencies: vec![],
        },
    );
    let mut cache = ModioCache::new(0);
    let pinned = ModSpecification::new("https://mod.io/g/drg/m/test-mod#3/5".to_string());
    let info = match resolve_once(&mut backend, &pinned, false, &mut cache).unwrap() {
        ModResponse::Resolve(info) => info,
        _ => unreachable!(),
    };
    // the two unnamed dependencies were batch-fetched once, then detailed
    assert_eq!(backend.calls_by_ids, vec![vec![21, 22]]);
    assert_eq!(backend.calls_fetch_files, vec![21, 22]);
    let dep_urls: Vec<&str> = info
        .suggested_dependencies
        .iter()
        .map(|d| d.url.as_str())
        .collect();
    assert_eq!(
        dep_urls,
        vec![
            "https://mod.io/g/drg/m/framework#21",
            "https://mod.io/g/drg/m/assets#22"
        ]
    );
    // dependency references are unpinned; identity is id-based, the
    // download locator keeps the exact input
    assert_eq!(info.spec.url, "https://mod.io/g/drg/m/test-mod#3");
    assert_eq!(info.resolution.url, "https://mod.io/g/drg/m/test-mod#3/5");
    assert_eq!(info.versions.len(), 1);
    assert_eq!(info.versions[0].url, "https://mod.io/g/drg/m/test-mod#3/5");
    assert_eq!(info.modio_id, Some(3));
    // both dependencies are now cached under their slugs
    assert_eq!(cache.mod_id_map.get(&"framework".to_string()), Some(21));
    assert_eq!(cache.mod_id_map.get(&"assets".to_string()), Some(22));
}

#[test]
fn test_unnamed_dependency_dropped_without_error() {
    let mut backend = simple_backend();
    // one dependency the backend can name, one it cannot
    backend.mods.get_mut(&3).unwrap().dependencies = vec![21, 99];
    backend.mods.insert(
        21,
        FakeModRecord {
            name_id: "framework".to_string(),
            name: "Framework".to_string(),
            latest_modfile: Some(1),
            modfiles: vec![(1, 1, None)],
            tags: Vec::new(),
            dependencies: vec![],
        },
    );
    let mut cache = ModioCache::new(0);
    let pinned = ModSpecification::new("https://mod.io/g/drg/m/test-mod#3/5".to_string());
    let info = match resolve_once(&mut backend, &pinned, false, &mut cache).unwrap() {
        ModResponse::Resolve(info) => info,
        _ => unreachable!(),
    };
    // the resolution still succeeds; the unnameable id is silently dropped
    assert_eq!(info.suggested_dependencies.len(), 1);
    assert_eq!(
        info.suggested_dependencies[0].url,
        "https://mod.io/g/drg/m/framework#21"
    );
}

#[test]
fn test_update_walk_cycle_terminates() {
    let mut backend = FakeBackend::default();
    backend.mods.insert(
        1,
        FakeModRecord {
            name_id: "alpha".to_string(),
            name: "Alpha".to_string(),
            latest_modfile: Some(11),
            modfiles: vec![(11, 1, None)],
            tags: Vec::new(),
            dependencies: vec![2],
        },
    );
    backend.mods.insert(
        2,
        FakeModRecord {
            name_id: "beta".to_string(),
            name: "Beta".to_string(),
            latest_modfile: Some(22),
            modfiles: vec![(22, 2, None)],
            tags: Vec::new(),
            dependencies: vec![1],
        },
    );
    backend.changed_ids = vec![1, 2];

    // warm the cache so the walker knows both mods
    let mut cache = ModioCache::new(0);
    for url in [
        "https://mod.io/g/drg/m/alpha#1/11",
        "https://mod.io/g/drg/m/beta#2/22",
    ] {
        let spec = ModSpecification::new(url.to_string());
        resolve_to_terminal(&mut backend, &spec, false, &mut cache).unwrap();
    }
    backend.calls_fetch_dependencies.clear();
    backend.calls_fetch_mod.clear();

    let (request, mut state) = update_start(&cache, 777);
    let mut action;
    {
        let response = backend.handle(request);
        action = update_next(state, response, &mut cache);
    }
    let mut steps = 0;
    loop {
        match action {
            UpdateAction::Done => break,
            UpdateAction::Failed { error } => panic!("walk failed: {:?}", error),
            UpdateAction::Request { request, state: s } => {
                state = s;
                let response = backend.handle(request);
                action = update_next(state, response, &mut cache);
            }
        }
        steps += 1;
        assert!(steps < 100, "cyclic dependencies must not loop the walk");
    }
    // despite the dependency cycle, each mod's dependencies were walked
    // exactly once in this walk
    let mut dep_calls = backend.calls_fetch_dependencies.clone();
    dep_calls.sort();
    assert_eq!(dep_calls, vec![1, 2]);
    assert_eq!(backend.calls_changed, 1);
    // the walk stamps the cache with the instant the walk started
    assert_eq!(cache.last_update_time, Some(777));
}

#[test]
fn test_update_walk_skips_unknown_ids() {
    let mut backend = simple_backend();
    backend.changed_ids = vec![3, 999];
    let mut cache = ModioCache::new(5);
    let pinned = ModSpecification::new("https://mod.io/g/drg/m/test-mod#3/5".to_string());
    resolve_once(&mut backend, &pinned, false, &mut cache).unwrap();

    let (request, state) = update_start(&cache, 1000);
    let response = backend.handle(request);
    let mut action = update_next(state, response, &mut cache);
    let mut steps = 0;
    while let UpdateAction::Request { request, state } = action {
        let response = backend.handle(request);
        action = update_next(state, response, &mut cache);
        steps += 1;
        assert!(steps < 50);
    }
    assert!(matches!(action, UpdateAction::Done));
    assert_eq!(cache.last_update_time, Some(1000));
}

#[test]
fn test_get_mod_info_from_cache() {
    let mut backend = simple_backend();
    let mut cache = ModioCache::new(0);
    let pinned = ModSpecification::new("https://mod.io/g/drg/m/test-mod#3/5".to_string());

    // nothing cached yet: no answer, and never a backend call
    assert!(get_mod_info(&pinned, &cache).is_none());

    resolve_once(&mut backend, &pinned, false, &mut cache).unwrap();
    let info = get_mod_info(&pinned, &cache).expect("fully cached mod");
    assert_eq!(info.name, "Test Mod");
    assert_eq!(info.spec.url, "https://mod.io/g/drg/m/test-mod#3");
    assert_eq!(info.resolution.url, "https://mod.io/g/drg/m/test-mod#3/5");
    assert!(info.suggested_dependencies.is_empty());

    // the slug form answers too, through the slug index
    let slug = ModSpecification::new("https://mod.io/g/drg/m/test-mod".to_string());
    assert!(get_mod_info(&slug, &cache).is_some());
}

#[test]
fn test_get_version_name() {
    let mut backend = simple_backend();
    backend.mods.get_mut(&3).unwrap().modfiles = vec![(5, 12345, Some("0.9.1".to_string()))];
    let mut cache = ModioCache::new(0);
    let pinned = ModSpecification::new("https://mod.io/g/drg/m/test-mod#3/5".to_string());

    // mod not cached: no answer
    assert!(get_version_name(&pinned, &cache).is_none());

    resolve_once(&mut backend, &pinned, false, &mut cache).unwrap();
    assert_eq!(
        get_version_name(&pinned, &cache),
        Some("5 - 0.9.1".to_string())
    );
    let unpinned = ModSpecification::new("https://mod.io/g/drg/m/test-mod#3".to_string());
    assert_eq!(get_version_name(&unpinned, &cache), Some("latest".to_string()));
    // a pinned file the cache has no version label for is named by its id
    let other = ModSpecification::new("https://mod.io/g/drg/m/test-mod#3/77".to_string());
    assert_eq!(get_version_name(&other, &cache), Some("77".to_string()));
}
