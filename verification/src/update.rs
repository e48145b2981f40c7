//! The update walker: incremental bulk refresh of everything already in
//! the cache. It asks which of the known mods changed since the last walk,
//! then resolves each changed reference — and, transitively, each newly
//! suggested dependency — exactly once, always bypassing the cache. When
//! the pending set drains, the walk stamps the cache with the instant the
//! walk started, so changes made during the walk are not missed.
//!
//! The driver loop lives with the caller: every step either finishes,
//! fails, or hands out one backend request with the state to resume from.

use vstd::prelude::*;
use crate::cache::{cache_maps_extend, ModioCache};
use crate::codec::{format_spec, spec_format};
use crate::resolve::{
    resolve_next, resolve_next_post, resolve_start, resolve_start_post, state_wf, urls_of,
    ModResponse, ResolveError, ResolveState, ResolveStep,
};
use crate::types::{BackendRequest, BackendResponse, ModSpecification, ModioMod};

verus! {

/// Where a walk stands between steps.
pub struct UpdateState {
    /// The instant the walk started, stamped into the cache at the end.
    pub now: u64,
    /// References still to resolve; entries already marked done are
    /// skipped when popped.
    pub pending: Vec<ModSpecification>,
    /// Reference strings already resolved (both as given and in canonical
    /// form): none of these is ever resolved again.
    pub done_urls: Vec<String>,
    pub phase: UpdatePhase,
}

pub enum UpdatePhase {
    /// Waiting for the set of changed mod ids.
    AwaitChanged,
    /// Resolving one reference, with the embedded resolution state.
    Resolving { original: ModSpecification, inner: ResolveState },
}

/// One step's outcome.
pub enum UpdateAction {
    Request { request: BackendRequest, state: UpdateState },
    Failed { error: ResolveError },
    Done,
}

pub open spec fn update_state_wf(s: UpdateState) -> bool {
    match s.phase {
        UpdatePhase::Resolving { original, inner } => state_wf(inner) && !url_marked(
            s.done_urls@,
            original.url@,
        ),
        _ => true,
    }
}

/// Whether a reference string is already marked done.
pub open spec fn url_marked(done: Seq<String>, u: Seq<char>) -> bool {
    exists|i: int| 0 <= i < done.len() && (#[trigger] done[i])@ == u
}

/// Marks only grow: everything marked stays marked.
pub open spec fn marks_kept(new: Seq<String>, old: Seq<String>) -> bool {
    forall|u: Seq<char>| #[trigger] url_marked(old, u) ==> url_marked(new, u)
}

/// How the cache relates to its old state after a walker step: knowledge
/// only grows, and the timestamp moves — to the walk's start instant —
/// exactly when the walk completes.
pub open spec fn walk_cache_ok(
    old_c: ModioCache,
    new_c: ModioCache,
    now: u64,
    r: UpdateAction,
) -> bool {
    &&& cache_maps_extend(new_c, old_c)
    &&& if r is Done {
        new_c.last_update_time == Some(now)
    } else {
        new_c.last_update_time == old_c.last_update_time
    }
}

/// What every step that hands out a request guarantees about the new
/// state: the walk instant is kept, marks only grow, and whatever is being
/// resolved was not already marked done.
pub open spec fn step_state_ok(s2: UpdateState, now: u64, done: Seq<String>) -> bool {
    &&& update_state_wf(s2)
    &&& s2.now == now
    &&& marks_kept(s2.done_urls@, done)
    &&& (s2.phase matches UpdatePhase::Resolving { original, .. } ==> !url_marked(
        s2.done_urls@,
        original.url@,
    ))
}

/// A reference once marked done is never resolved again: any later step
/// that starts or continues a resolution does so for a reference that is
/// not marked, and marks never disappear. With the finite pending set this
/// bounds the walk: each reference is visited at most once, a cycle among
/// dependencies included.
pub proof fn lemma_done_reference_not_revisited(
    s2: UpdateState,
    now: u64,
    done: Seq<String>,
    u: Seq<char>,
)
    requires
        step_state_ok(s2, now, done),
        url_marked(done, u),
    ensures
        s2.phase matches UpdatePhase::Resolving { original, .. } ==> original.url@ != u,
{
    assert(url_marked(s2.done_urls@, u));
}

/// The references a changed-id response seeds: for each id, in order, the
/// unpinned reference of its cached entry; ids with no cached entry are
/// skipped.
pub open spec fn seed_urls(ids: Seq<u32>, mods: Map<u32, ModioMod>) -> Seq<Seq<char>>
    decreases ids.len(),
{
    if ids.len() == 0 {
        Seq::empty()
    } else {
        (if mods.contains_key(ids[0]) {
            seq![spec_format(mods[ids[0]].name_id@, ids[0], None)]
        } else {
            Seq::empty()
        }) + seed_urls(ids.drop_first(), mods)
    }
}

/// The dependency references a finished resolution enqueues: those of its
/// suggested dependencies not already marked done, in order.
pub open spec fn unmarked_dep_urls(deps: Seq<ModSpecification>, done: Seq<String>) -> Seq<
    Seq<char>,
>
    decreases deps.len(),
{
    if deps.len() == 0 {
        Seq::empty()
    } else {
        (if url_marked(done, deps[0].url@) {
            Seq::empty()
        } else {
            seq![deps[0].url@]
        }) + unmarked_dep_urls(deps.drop_first(), done)
    }
}

/// What draining a pending set yields. `Done` is allowed only when every
/// pending reference is already marked done; otherwise the step hands out
/// exactly the first request of a forced resolution of some unmarked
/// pending reference, with the marks untouched.
pub open spec fn advance_post(
    pending_urls: Seq<Seq<char>>,
    done: Seq<String>,
    now: u64,
    new_c: ModioCache,
    r: UpdateAction,
) -> bool {
    match r {
        UpdateAction::Done => forall|i: int|
            0 <= i < pending_urls.len() ==> url_marked(done, #[trigger] pending_urls[i]),
        UpdateAction::Request { request, state: s2 } => {
            &&& s2.now == now
            &&& s2.done_urls@ == done
            &&& s2.phase matches UpdatePhase::Resolving { original, inner }
            &&& pending_urls.contains(original.url@)
            &&& !url_marked(done, original.url@)
            &&& resolve_start_post(
                original,
                true,
                new_c,
                ResolveStep::Need { request, state: inner },
            )
        },
        UpdateAction::Failed { .. } => true,
    }
}

/// A resolution step that hands the walk a further request: the walk state
/// keeps its pending set and marks, stays on the same reference, and
/// embeds the resolution state to resume.
pub open spec fn continue_request(
    orig_url: Seq<char>,
    rq: BackendRequest,
    inner2: ResolveState,
    pending_urls: Seq<Seq<char>>,
    done: Seq<String>,
    now: u64,
    mid: ModioCache,
    new_c: ModioCache,
    r: UpdateAction,
) -> bool {
    &&& new_c == mid
    &&& r matches UpdateAction::Request { request, state: s2 }
    &&& request == rq
    &&& s2.now == now
    &&& s2.done_urls@ == done
    &&& urls_of(s2.pending@) == pending_urls
    &&& s2.phase matches UpdatePhase::Resolving { original: o2, inner: i2 }
    &&& o2.url@ == orig_url
    &&& i2 == inner2
}

/// How the walk continues once the embedded resolution step is known: a
/// failure aborts the walk; a further request is passed through; a
/// redirect is chased with one forced restart; a terminal answer marks the
/// reference (as given, and in canonical form), enqueues its unmarked
/// suggested dependencies, and drains the pending set.
pub open spec fn resolved_step_continue(
    original: ModSpecification,
    step: ResolveStep,
    mid: ModioCache,
    pending_urls: Seq<Seq<char>>,
    done: Seq<String>,
    now: u64,
    new_c: ModioCache,
    r: UpdateAction,
) -> bool {
    match step {
        ResolveStep::Failed(e) => r == (UpdateAction::Failed { error: e }) && new_c == mid,
        ResolveStep::Need { request: rq, state: inner2 } => continue_request(
            original.url@,
            rq,
            inner2,
            pending_urls,
            done,
            now,
            mid,
            new_c,
            r,
        ),
        ResolveStep::Done(ModResponse::Redirect(rs)) => exists|step2: ResolveStep|
            #[trigger] resolve_start_post(rs, true, mid, step2) && (match step2 {
                ResolveStep::Failed(e) => r == (UpdateAction::Failed { error: e }) && new_c
                    == mid,
                ResolveStep::Need { request: rq, state: inner2 } => continue_request(
                    original.url@,
                    rq,
                    inner2,
                    pending_urls,
                    done,
                    now,
                    mid,
                    new_c,
                    r,
                ),
                ResolveStep::Done(_) => false,
            }),
        ResolveStep::Done(ModResponse::Resolve(info)) => {
            let done2 = done.push(original.url).push(info.spec.url);
            advance_post(
                pending_urls + unmarked_dep_urls(info.suggested_dependencies@, done2),
                done2,
                now,
                new_c,
                r,
            )
        },
    }
}

/// What advancing a walk in its resolving phase yields, through the
/// embedded resolution step on some intermediate cache state.
pub open spec fn resolving_step_post(
    original: ModSpecification,
    inner: ResolveState,
    resp: BackendResponse,
    pending_urls: Seq<Seq<char>>,
    done: Seq<String>,
    now: u64,
    old_c: ModioCache,
    new_c: ModioCache,
    r: UpdateAction,
) -> bool {
    exists|step: ResolveStep, mid: ModioCache|
        #[trigger] resolve_next_post(inner, resp, old_c, mid, step) && resolved_step_continue(
            original,
            step,
            mid,
            pending_urls,
            done,
            now,
            new_c,
            r,
        )
}

proof fn lemma_marks_push(done: Seq<String>, x: String)
    ensures
        marks_kept(done.push(x), done),
{
    assert forall|u: Seq<char>| #[trigger] url_marked(done, u) implies url_marked(
        done.push(x),
        u,
    ) by {
        let i = choose|i: int| 0 <= i < done.len() && (#[trigger] done[i])@ == u;
        assert(done.push(x)[i]@ == u);
    }
}

fn is_marked(done: &Vec<String>, u: &String) -> (r: bool)
    ensures
        r == url_marked(done@, u@),
{
    let n = done.len();
    let mut i: usize = 0;
    while i < n
        invariant
            0 <= i <= n == done@.len(),
            forall|t: int| 0 <= t < i ==> (#[trigger] done@[t])@ != u@,
        decreases n - i,
    {
        if done[i].eq(u) {
            proof {
                assert(done@[i as int]@ == u@);
            }
            return true;
        }
        i = i + 1;
    }
    false
}

/// Starts a bulk update: asks which of the currently-known mods changed
/// since the last walk. `now_secs` is the instant the walk starts.
pub fn update_start(cache: &ModioCache, now_secs: u64) -> (r: (BackendRequest, UpdateState))
    requires
        cache.wf(),
    ensures
        r.0 matches BackendRequest::FetchModUpdatesSince { mod_ids, last_update } && (forall|
            t: int,
        |
            0 <= t < mod_ids@.len() ==> cache.mods@.contains_key(#[trigger] mod_ids@[t]))
            && (forall|k: u32| cache.mods@.contains_key(k) ==> mod_ids@.contains(k))
            && last_update == (match cache.last_update_time {
            Some(t) => t,
            None => 0u64,
        }),
        r.1.now == now_secs,
        r.1.pending@.len() == 0,
        r.1.done_urls@.len() == 0,
        r.1.phase is AwaitChanged,
        update_state_wf(r.1),
{
    let mod_ids = cache.mods.keys();
    let last_update = match cache.last_update_time {
        Some(t) => t,
        None => 0,
    };
    let request = BackendRequest::FetchModUpdatesSince { mod_ids, last_update };
    let state = UpdateState {
        now: now_secs,
        pending: Vec::new(),
        done_urls: Vec::new(),
        phase: UpdatePhase::AwaitChanged,
    };
    (request, state)
}

/// Drains the pending set: skips references already marked done, starts
/// resolving the first that is not, and completes the walk — stamping the
/// cache with the walk's start instant — when none is left.
fn walker_advance(
    now: u64,
    pending: Vec<ModSpecification>,
    done_urls: Vec<String>,
    cache: &mut ModioCache,
) -> (r: UpdateAction)
    requires
        old(cache).wf(),
    ensures
        final(cache).wf(),
        walk_cache_ok(*old(cache), *final(cache), now, r),
        advance_post(urls_of(pending@), done_urls@, now, *final(cache), r),
        r matches UpdateAction::Request { state: s2, .. } ==> step_state_ok(
            s2,
            now,
            done_urls@,
        ),
{
    let mut pending = pending;
    let ghost orig = pending@;
    proof {
        assert(orig.take(orig.len() as int) =~= orig);
    }
    #[verifier::loop_isolation(false)]
    loop
        invariant
            cache.wf(),
            cache == old(cache),
            pending@.len() <= orig.len(),
            pending@ == orig.take(pending@.len() as int),
            forall|i: int|
                pending@.len() <= i < orig.len() ==> url_marked(
                    done_urls@,
                    (#[trigger] orig[i]).url@,
                ),
        decreases pending@.len(),
    {
        let ghost l = pending@.len() as int;
        let spec = match pending.pop() {
            Some(s) => s,
            None => {
                cache.last_update_time = Some(now);
                proof {
                    assert forall|i: int| 0 <= i < urls_of(orig).len() implies url_marked(
                        done_urls@,
                        #[trigger] urls_of(orig)[i],
                    ) by {
                        assert(urls_of(orig)[i] == orig[i].url@);
                    }
                }
                return UpdateAction::Done;
            },
        };
        proof {
            assert(pending@ =~= orig.take(l - 1));
            assert(spec == orig.take(l)[l - 1]);
            assert(spec == orig[l - 1]);
        }
        if is_marked(&done_urls, &spec.url) {
            continue ;
        }
        proof {
            assert(urls_of(orig)[l - 1] == orig[l - 1].url@);
            assert(urls_of(orig).contains(spec.url@));
        }
        match resolve_start(&spec, true, cache) {
            ResolveStep::Need { request, state } => {
                return UpdateAction::Request {
                    request,
                    state: UpdateState {
                        now,
                        pending,
                        done_urls,
                        phase: UpdatePhase::Resolving { original: spec, inner: state },
                    },
                };
            },
            ResolveStep::Failed(e) => {
                return UpdateAction::Failed { error: e };
            },
            ResolveStep::Done(_) => {
                proof {
                    assert(false);
                }
            },
        }
    }
}

/// Advances a walk with the response to the request that was handed out.
/// A finished resolution marks both the reference as given and its
/// canonical form done, enqueues its suggested dependencies, and moves on.
pub fn update_next(state: UpdateState, resp: BackendResponse, cache: &mut ModioCache) -> (r:
    UpdateAction)
    requires
        old(cache).wf(),
        update_state_wf(state),
    ensures
        final(cache).wf(),
        walk_cache_ok(*old(cache), *final(cache), state.now, r),
        r matches UpdateAction::Request { state: s2, .. } ==> step_state_ok(
            s2,
            state.now,
            state.done_urls@,
        ),
        state.phase is AwaitChanged ==> match resp {
            BackendResponse::ChangedSince(ids) => advance_post(
                urls_of(state.pending@) + seed_urls(ids@, old(cache).mods@),
                state.done_urls@,
                state.now,
                *final(cache),
                r,
            ),
            _ => r == (UpdateAction::Failed { error: ResolveError::UnexpectedResponse })
                && *final(cache) == *old(cache),
        },
        (state.phase matches UpdatePhase::Resolving { original, inner } ==> resolving_step_post(
            original,
            inner,
            resp,
            urls_of(state.pending@),
            state.done_urls@,
            state.now,
            *old(cache),
            *final(cache),
            r,
        )),
{
    let UpdateState { now, pending, done_urls, phase } = state;
    match phase {
        UpdatePhase::AwaitChanged => match resp {
            BackendResponse::ChangedSince(ids) => {
                let mut pending = pending;
                let ghost p0 = pending@;
                let n = ids.len();
                let mut i: usize = 0;
                proof {
                    assert(ids@.skip(0) =~= ids@);
                }
                #[verifier::loop_isolation(false)]
                while i < n
                    invariant
                        0 <= i <= n == ids@.len(),
                        cache.wf(),
                        cache == old(cache),
                        urls_of(pending@) + seed_urls(ids@.skip(i as int), cache.mods@)
                            == urls_of(p0) + seed_urls(ids@, cache.mods@),
                    decreases n - i,
                {
                    let id = ids[i];
                    proof {
                        assert(ids@.skip(i as int)[0] == ids@[i as int]);
                        assert(ids@.skip(i as int).drop_first() =~= ids@.skip(i + 1));
                    }
                    let ghost pre = pending@;
                    match cache.mods.get(id) {
                        Some(m) => {
                            let seeded = format_spec(m.name_id.as_str(), id, None);
                            let ghost sv = seeded;
                            pending.push(seeded);
                            proof {
                                assert forall|t: int| 0 <= t < pending@.len() implies urls_of(
                                    pending@,
                                )[t] == (urls_of(pre) + seq![
                                    spec_format(cache.mods@[id].name_id@, id, None),
                                ])[t] by {
                                    if t < pre.len() {
                                        assert(pending@[t] == pre[t]);
                                    } else {
                                        assert(pending@[t] == sv);
                                    }
                                }
                                assert(urls_of(pending@) =~= urls_of(pre) + seq![
                                    spec_format(cache.mods@[id].name_id@, id, None),
                                ]);
                                assert(urls_of(pending@) + seed_urls(ids@.skip(i + 1), cache.mods@)
                                    =~= urls_of(pre) + seed_urls(ids@.skip(i as int), cache.mods@));
                            }
                        },
                        None => {
                            proof {
                                assert(seed_urls(ids@.skip(i as int), cache.mods@) =~= seed_urls(
                                    ids@.skip(i + 1),
                                    cache.mods@,
                                ));
                            }
                        },
                    }
                    i = i + 1;
                }
                proof {
                    assert(ids@.skip(n as int) =~= Seq::<u32>::empty());
                    assert(urls_of(pending@) + seed_urls(ids@.skip(n as int), cache.mods@)
                        =~= urls_of(pending@));
                    assert(urls_of(pending@) == urls_of(p0) + seed_urls(ids@, cache.mods@));
                }
                walker_advance(now, pending, done_urls, cache)
            },
            _ => UpdateAction::Failed { error: ResolveError::UnexpectedResponse },
        },
        UpdatePhase::Resolving { original, inner } => {
            let st = resolve_next(inner, resp, cache);
            let ghost gstep = st;
            let ghost mid = *cache;
            proof {
                assert(resolve_next_post(inner, resp, *old(cache), mid, gstep));
            }
            match st {
                ResolveStep::Need { request, state: st } => UpdateAction::Request {
                    request,
                    state: UpdateState {
                        now,
                        pending,
                        done_urls,
                        phase: UpdatePhase::Resolving { original, inner: st },
                    },
                },
                ResolveStep::Failed(e) => UpdateAction::Failed { error: e },
                ResolveStep::Done(ModResponse::Redirect(spec2)) => {
                    let st2 = resolve_start(&spec2, true, cache);
                    let ghost gstep2 = st2;
                    proof {
                        assert(resolve_start_post(spec2, true, mid, gstep2));
                    }
                    match st2 {
                        ResolveStep::Need { request, state: st } => UpdateAction::Request {
                            request,
                            state: UpdateState {
                                now,
                                pending,
                                done_urls,
                                phase: UpdatePhase::Resolving { original, inner: st },
                            },
                        },
                        ResolveStep::Failed(e) => UpdateAction::Failed { error: e },
                        ResolveStep::Done(_) => {
                            proof {
                                assert(false);
                            }
                            UpdateAction::Failed { error: ResolveError::UnexpectedResponse }
                        },
                    }
                },
                ResolveStep::Done(ModResponse::Resolve(info)) => {
                    let mut pending = pending;
                    let mut done_urls = done_urls;
                    let ghost cache_snap = *cache;
                    let ghost p0 = pending@;
                    proof {
                        lemma_marks_push(done_urls@, original.url);
                    }
                    done_urls.push(original.url);
                    proof {
                        lemma_marks_push(done_urls@, info.spec.url);
                    }
                    done_urls.push(info.spec.url.clone());
                    let ghost done2 = state.done_urls@.push(original.url).push(info.spec.url);
                    proof {
                        assert(done_urls@ =~= done2);
                        assert(info.suggested_dependencies@.skip(0)
                            =~= info.suggested_dependencies@);
                    }
                    let n = info.suggested_dependencies.len();
                    let mut i: usize = 0;
                    #[verifier::loop_isolation(false)]
                    while i < n
                        invariant
                            0 <= i <= n == info.suggested_dependencies@.len(),
                            cache.wf(),
                            *cache == cache_snap,
                            done_urls@ == done2,
                            marks_kept(done_urls@, state.done_urls@),
                            urls_of(pending@) + unmarked_dep_urls(
                                info.suggested_dependencies@.skip(i as int),
                                done2,
                            ) == urls_of(p0) + unmarked_dep_urls(
                                info.suggested_dependencies@,
                                done2,
                            ),
                        decreases n - i,
                    {
                        let ghost deps = info.suggested_dependencies@;
                        proof {
                            assert(deps.skip(i as int)[0] == deps[i as int]);
                            assert(deps.skip(i as int).drop_first() =~= deps.skip(i + 1));
                        }
                        let d = &info.suggested_dependencies[i];
                        let ghost pre = pending@;
                        if !is_marked(&done_urls, &d.url) {
                            let dup = d.duplicate();
                            let ghost dv = dup;
                            pending.push(dup);
                            proof {
                                assert forall|t: int| 0 <= t < pending@.len() implies urls_of(
                                    pending@,
                                )[t] == (urls_of(pre) + seq![deps[i as int].url@])[t] by {
                                    if t < pre.len() {
                                        assert(pending@[t] == pre[t]);
                                    } else {
                                        assert(pending@[t] == dv);
                                    }
                                }
                                assert(urls_of(pending@) =~= urls_of(pre) + seq![
                                    deps[i as int].url@,
                                ]);
                                assert(urls_of(pending@) + unmarked_dep_urls(
                                    deps.skip(i + 1),
                                    done2,
                                ) =~= urls_of(pre) + unmarked_dep_urls(deps.skip(i as int), done2));
                            }
                        } else {
                            proof {
                                assert(unmarked_dep_urls(deps.skip(i as int), done2)
                                    =~= unmarked_dep_urls(deps.skip(i + 1), done2));
                            }
                        }
                        i = i + 1;
                    }
                    proof {
                        let deps = info.suggested_dependencies@;
                        assert(deps.skip(n as int) =~= Seq::<ModSpecification>::empty());
                        assert(urls_of(pending@) + unmarked_dep_urls(deps.skip(n as int), done2)
                            =~= urls_of(pending@));
                        assert(urls_of(pending@) == urls_of(p0) + unmarked_dep_urls(deps, done2));
                    }
                    walker_advance(now, pending, done_urls, cache)
                },
            }
        },
    }
}

} // verus!
