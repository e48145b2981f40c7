//! The fetch pipeline: given a fully pinned reference, produce the local
//! path of its payload. A blob-indexed file is answered from the store with
//! no backend call; otherwise the payload is streamed chunk by chunk, with
//! one progress event per chunk and exactly one completion event at the
//! end, then written to the blob store and recorded in the cache.
//!
//! As with resolution, the machine performs no I/O: it hands out a
//! [`FetchRequest`], and is advanced with the resulting [`FetchEvent`].

use vstd::prelude::*;
use crate::cache::ModioCache;
use crate::codec::{parse_reference, spec_parse};
use crate::types::{BlobRef, ModResolution, ModioFileMeta};

verus! {

#[derive(Debug, PartialEq, Eq)]
pub enum FetchError {
    /// The reference string does not match the grammar.
    InvalidReference,
    /// The reference is not fully pinned; a download needs an exact file.
    UnpinnedDownload,
    /// The event fed back does not answer the request that was handed out.
    UnexpectedEvent,
}

/// One call the pipeline asks the application to make, against the blob
/// store or the remote repository.
pub enum FetchRequest {
    /// Ask the blob store for the path of a stored blob.
    GetBlobPath { blob: BlobRef },
    /// Ask the backend for the file's metadata (its size) and open the
    /// download.
    FetchFileMeta { mod_id: u32, file_id: u32 },
    /// Pull the next chunk of the open download.
    NextChunk,
    /// Write the assembled payload to the blob store.
    WriteBlob { data: Vec<u8> },
}

/// The outcome of a [`FetchRequest`].
pub enum FetchEvent {
    BlobPath { path: Option<String> },
    FileMeta { meta: ModioFileMeta },
    Chunk { data: Vec<u8> },
    StreamEnd,
    BlobWritten { blob: BlobRef, path: String },
}

/// A progress report on the single-consumer channel of one fetch call.
#[derive(Debug, PartialEq, Eq)]
pub enum FetchProgress {
    Progress { resolution: ModResolution, progress: u64, size: u64 },
    Complete { resolution: ModResolution },
}

/// The resume point of a fetch in flight.
pub enum FetchState {
    AwaitPath { url: String, mod_id: u32, file_id: u32 },
    AwaitMeta { url: String, mod_id: u32, file_id: u32 },
    Streaming { url: String, file_id: u32, size: u64, buf: Vec<u8> },
    AwaitWrite { url: String, file_id: u32 },
}

pub enum FetchAction {
    Request { request: FetchRequest, state: FetchState },
    Done { path: String },
    Failed { error: FetchError },
}

/// One step's outcome: the progress events to deliver, in order, then the
/// action to take.
pub struct FetchStep {
    pub events: Vec<FetchProgress>,
    pub action: FetchAction,
}

/// Progress events are ordered: any number of `Progress` reports, and
/// exactly one `Complete` exactly when the fetch finishes.
pub open spec fn events_ok(step: FetchStep) -> bool {
    if step.action is Done {
        step.events@.len() == 1 && step.events@[0] is Complete
    } else {
        forall|i: int| 0 <= i < step.events@.len() ==> (#[trigger] step.events@[i]) is Progress
    }
}

/// What the first step on a resolution yields: an error for an unparsable
/// or unpinned reference; a blob-store path lookup when the file is
/// already indexed (no backend call); else the file-metadata request that
/// starts the download.
pub open spec fn fetch_start_post(res: ModResolution, cache: ModioCache, r: FetchStep) -> bool {
    let url = res.url@;
    &&& events_ok(r)
    &&& r.events@.len() == 0
    &&& match spec_parse(url) {
        None => r.action == FetchAction::Failed { error: FetchError::InvalidReference },
        Some((slug, mid, fid)) => {
            if !(mid is Some && fid is Some) {
                r.action == FetchAction::Failed { error: FetchError::UnpinnedDownload }
            } else {
                let id = mid->Some_0;
                let f = fid->Some_0;
                if cache.modfile_blobs@.contains_key(f) {
                    &&& r.action matches FetchAction::Request { request, state }
                    &&& request matches FetchRequest::GetBlobPath { blob } && blob
                        == cache.modfile_blobs@[f]
                    &&& state matches FetchState::AwaitPath { url: u2, mod_id, file_id }
                    &&& u2@ == url && mod_id == id && file_id == f
                } else {
                    &&& r.action matches FetchAction::Request { request, state }
                    &&& request == (FetchRequest::FetchFileMeta { mod_id: id, file_id: f })
                    &&& state matches FetchState::AwaitMeta { url: u2, mod_id, file_id }
                    &&& u2@ == url && mod_id == id && file_id == f
                }
            }
        },
    }
}

/// What advancing a fetch yields, by the state and the event.
pub open spec fn fetch_next_post(
    state: FetchState,
    ev: FetchEvent,
    old_c: ModioCache,
    new_c: ModioCache,
    r: FetchStep,
) -> bool {
    &&& events_ok(r)
    &&& match state {
        FetchState::AwaitPath { url, mod_id, file_id } => match ev {
            FetchEvent::BlobPath { path } => match path {
                Some(p) => {
                    &&& new_c == old_c
                    &&& r.action matches FetchAction::Done { path: p2 } && p2@ == p@
                    &&& r.events@.len() == 1
                    &&& r.events@[0] matches FetchProgress::Complete { resolution } && resolution.url@
                        == url@
                },
                None => {
                    &&& new_c == old_c
                    &&& r.events@.len() == 0
                    &&& r.action matches FetchAction::Request { request, state }
                    &&& request == (FetchRequest::FetchFileMeta { mod_id, file_id })
                    &&& state matches FetchState::AwaitMeta { url: u2, mod_id: m2, file_id: f2 }
                    &&& u2@ == url@ && m2 == mod_id && f2 == file_id
                },
            },
            _ => unexpected(new_c, old_c, r),
        },
        FetchState::AwaitMeta { url, mod_id, file_id } => match ev {
            FetchEvent::FileMeta { meta } => {
                &&& new_c == old_c
                &&& r.events@.len() == 0
                &&& r.action matches FetchAction::Request { request, state }
                &&& request is NextChunk
                &&& state matches FetchState::Streaming { url: u2, file_id: f2, size, buf }
                &&& u2@ == url@ && f2 == file_id && size == meta.filesize && buf@.len() == 0
            },
            _ => unexpected(new_c, old_c, r),
        },
        FetchState::Streaming { url, file_id, size, buf } => match ev {
            FetchEvent::Chunk { data } => {
                &&& new_c == old_c
                &&& r.events@.len() == 1
                &&& r.events@[0] matches FetchProgress::Progress {
                    resolution,
                    progress,
                    size: s2,
                }
                &&& resolution.url@ == url@ && progress == buf@.len() + data@.len() && s2 == size
                &&& r.action matches FetchAction::Request { request, state }
                &&& request is NextChunk
                &&& state matches FetchState::Streaming { url: u2, file_id: f2, size: sz2, buf: b2 }
                &&& u2@ == url@ && f2 == file_id && sz2 == size && b2@ == buf@ + data@
            },
            FetchEvent::StreamEnd => {
                &&& new_c == old_c
                &&& r.events@.len() == 0
                &&& r.action matches FetchAction::Request { request, state }
                &&& request matches FetchRequest::WriteBlob { data } && data@ == buf@
                &&& state matches FetchState::AwaitWrite { url: u2, file_id: f2 }
                &&& u2@ == url@ && f2 == file_id
            },
            _ => unexpected(new_c, old_c, r),
        },
        FetchState::AwaitWrite { url, file_id } => match ev {
            FetchEvent::BlobWritten { blob, path } => {
                &&& new_c.modfile_blobs@ == old_c.modfile_blobs@.insert(file_id, blob)
                &&& new_c.mods@ == old_c.mods@
                &&& new_c.dependencies@ == old_c.dependencies@
                &&& new_c.mod_id_map@ == old_c.mod_id_map@
                &&& new_c.last_update_time == old_c.last_update_time
                &&& r.action matches FetchAction::Done { path: p2 } && p2@ == path@
                &&& r.events@.len() == 1
                &&& r.events@[0] matches FetchProgress::Complete { resolution } && resolution.url@
                    == url@
            },
            _ => unexpected(new_c, old_c, r),
        },
    }
}

pub open spec fn unexpected(new_c: ModioCache, old_c: ModioCache, r: FetchStep) -> bool {
    &&& new_c == old_c
    &&& r.events@.len() == 0
    &&& r.action == FetchAction::Failed { error: FetchError::UnexpectedEvent }
}

/// A fetch of a file already in the blob index asks only the blob store
/// and, once the store answers with a path, finishes at once with exactly
/// one `Complete` event and no backend request at any point.
pub proof fn lemma_cached_fetch_completes_immediately(
    res: ModResolution,
    cache: ModioCache,
    r1: FetchStep,
    ev: FetchEvent,
    cache2: ModioCache,
    r2: FetchStep,
)
    requires
        fetch_start_post(res, cache, r1),
        spec_parse(res.url@) is Some,
        spec_parse(res.url@)->Some_0.1 is Some,
        spec_parse(res.url@)->Some_0.2 is Some,
        cache.modfile_blobs@.contains_key(spec_parse(res.url@)->Some_0.2->Some_0),
        r1.action matches FetchAction::Request { state, .. } && fetch_next_post(
            state,
            ev,
            cache,
            cache2,
            r2,
        ),
        ev matches FetchEvent::BlobPath { path } && path is Some,
    ensures
        r1.events@.len() == 0,
        r1.action matches FetchAction::Request { request, .. } && request is GetBlobPath,
        r2.action is Done,
        r2.events@.len() == 1 && r2.events@[0] is Complete,
        cache2 == cache,
{
}

/// Starts a fetch of a pinned reference. A file already in the blob index
/// is answered via the blob store alone, with no backend request.
pub fn fetch_start(res: &ModResolution, cache: &ModioCache) -> (r: FetchStep)
    requires
        cache.wf(),
    ensures
        fetch_start_post(*res, *cache, r),
{
    let parsed = match parse_reference(res.url.as_str()) {
        Some(p) => p,
        None => {
            return FetchStep {
                events: Vec::new(),
                action: FetchAction::Failed { error: FetchError::InvalidReference },
            };
        },
    };
    let (mod_id, file_id) = match (parsed.mod_id, parsed.file_id) {
        (Some(id), Some(f)) => (id, f),
        _ => {
            return FetchStep {
                events: Vec::new(),
                action: FetchAction::Failed { error: FetchError::UnpinnedDownload },
            };
        },
    };
    match cache.modfile_blobs.get(file_id) {
        Some(blob) => FetchStep {
            events: Vec::new(),
            action: FetchAction::Request {
                request: FetchRequest::GetBlobPath { blob: blob.duplicate() },
                state: FetchState::AwaitPath { url: res.url.clone(), mod_id, file_id },
            },
        },
        None => FetchStep {
            events: Vec::new(),
            action: FetchAction::Request {
                request: FetchRequest::FetchFileMeta { mod_id, file_id },
                state: FetchState::AwaitMeta { url: res.url.clone(), mod_id, file_id },
            },
        },
    }
}

/// Advances a fetch with the outcome of the request that was handed out.
pub fn fetch_next(state: FetchState, ev: FetchEvent, cache: &mut ModioCache) -> (r: FetchStep)
    requires
        old(cache).wf(),
    ensures
        final(cache).wf(),
        fetch_next_post(state, ev, *old(cache), *final(cache), r),
{
    match state {
        FetchState::AwaitPath { url, mod_id, file_id } => match ev {
            FetchEvent::BlobPath { path } => match path {
                Some(p) => {
                    let mut events: Vec<FetchProgress> = Vec::new();
                    events.push(
                        FetchProgress::Complete { resolution: ModResolution { url } },
                    );
                    FetchStep { events, action: FetchAction::Done { path: p } }
                },
                None => FetchStep {
                    events: Vec::new(),
                    action: FetchAction::Request {
                        request: FetchRequest::FetchFileMeta { mod_id, file_id },
                        state: FetchState::AwaitMeta { url, mod_id, file_id },
                    },
                },
            },
            _ => unexpected_step(),
        },
        FetchState::AwaitMeta { url, mod_id, file_id } => match ev {
            FetchEvent::FileMeta { meta } => FetchStep {
                events: Vec::new(),
                action: FetchAction::Request {
                    request: FetchRequest::NextChunk,
                    state: FetchState::Streaming {
                        url,
                        file_id,
                        size: meta.filesize,
                        buf: Vec::new(),
                    },
                },
            },
            _ => unexpected_step(),
        },
        FetchState::Streaming { url, file_id, size, buf } => match ev {
            FetchEvent::Chunk { data } => {
                let mut buf = buf;
                let mut data = data;
                buf.append(&mut data);
                let progress = buf.len() as u64;
                let mut events: Vec<FetchProgress> = Vec::new();
                events.push(
                    FetchProgress::Progress {
                        resolution: ModResolution { url: url.clone() },
                        progress,
                        size,
                    },
                );
                FetchStep {
                    events,
                    action: FetchAction::Request {
                        request: FetchRequest::NextChunk,
                        state: FetchState::Streaming { url, file_id, size, buf },
                    },
                }
            },
            FetchEvent::StreamEnd => FetchStep {
                events: Vec::new(),
                action: FetchAction::Request {
                    request: FetchRequest::WriteBlob { data: buf },
                    state: FetchState::AwaitWrite { url, file_id },
                },
            },
            _ => unexpected_step(),
        },
        FetchState::AwaitWrite { url, file_id } => match ev {
            FetchEvent::BlobWritten { blob, path } => {
                cache.modfile_blobs.insert(file_id, blob);
                let mut events: Vec<FetchProgress> = Vec::new();
                events.push(
                    FetchProgress::Complete { resolution: ModResolution { url } },
                );
                FetchStep { events, action: FetchAction::Done { path } }
            },
            _ => unexpected_step(),
        },
    }
}

fn unexpected_step() -> (r: FetchStep)
    ensures
        r.events@.len() == 0,
        r.action == (FetchAction::Failed { error: FetchError::UnexpectedEvent }),
{
    FetchStep { events: Vec::new(), action: FetchAction::Failed { error: FetchError::UnexpectedEvent } }
}

} // verus!
