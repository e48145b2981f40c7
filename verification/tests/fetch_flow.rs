//! Fetch pipeline: cache hits, streaming with ordered progress events,
//! and error cases.

use modio_provider::cache::ModioCache;
use modio_provider::fetch::{
    fetch_next, fetch_start, FetchAction, FetchError, FetchEvent, FetchProgress, FetchRequest,
};
use modio_provider::types::{BlobRef, ModResolution, ModioFileMeta};

#[test]
fn test_fetch_cached_blob_completes_immediately() {
    let mut cache = ModioCache::new(0);
    cache
        .modfile_blobs
        .insert(5, BlobRef::new("blob-5".to_string()));
    let res = ModResolution::resolvable("https://mod.io/g/drg/m/test-mod#3/5".to_string());

    // the only request is to the blob store: zero backend calls
    let step = fetch_start(&res, &cache);
    assert!(step.events.is_empty());
    let state = match step.action {
        FetchAction::Request { request, state } => {
            match request {
                FetchRequest::GetBlobPath { blob } => assert_eq!(blob.key, "blob-5"),
                _ => panic!("expected a blob-store lookup"),
            }
            state
        }
        _ => panic!("expected a request"),
    };

    // one immediate completion event, and the stored path
    let step = fetch_next(
        state,
        FetchEvent::BlobPath {
            path: Some("/blobs/blob-5".to_string()),
        },
        &mut cache,
    );
    match step.action {
        FetchAction::Done { path } => assert_eq!(path, "/blobs/blob-5"),
        _ => panic!("expected completion"),
    }
    assert_eq!(step.events.len(), 1);
    assert!(matches!(step.events[0], FetchProgress::Complete { .. }));
}

#[test]
fn test_fetch_streams_and_records_blob() {
    let mut cache = ModioCache::new(0);
    let res = ModResolution::resolvable("https://mod.io/g/drg/m/test-mod#3/5".to_string());

    let step = fetch_start(&res, &cache);
    let state = match step.action {
        FetchAction::Request { request, state } => {
            assert!(matches!(
                request,
                FetchRequest::FetchFileMeta {
                    mod_id: 3,
                    file_id: 5
                }
            ));
            state
        }
        _ => panic!("expected the file-metadata request"),
    };

    let step = fetch_next(
        state,
        FetchEvent::FileMeta {
            meta: ModioFileMeta { filesize: 5 },
        },
        &mut cache,
    );
    assert!(step.events.is_empty());
    let state = expect_request(step.action, "chunk");

    // two chunks, each reported with cumulative progress and total size
    let step = fetch_next(
        state,
        FetchEvent::Chunk {
            data: vec![1, 2, 3],
        },
        &mut cache,
    );
    assert_eq!(
        progress_of(&step.events),
        vec![(3, 5)],
        "cumulative bytes and total size"
    );
    let state = expect_request(step.action, "chunk");

    let step = fetch_next(state, FetchEvent::Chunk { data: vec![4, 5] }, &mut cache);
    assert_eq!(progress_of(&step.events), vec![(5, 5)]);
    let state = expect_request(step.action, "chunk");

    // stream end: the full payload goes to the blob store
    let step = fetch_next(state, FetchEvent::StreamEnd, &mut cache);
    assert!(step.events.is_empty());
    let state = match step.action {
        FetchAction::Request { request, state } => {
            match request {
                FetchRequest::WriteBlob { data } => assert_eq!(data, vec![1, 2, 3, 4, 5]),
                _ => panic!("expected the blob write"),
            }
            state
        }
        _ => panic!("expected the blob write request"),
    };

    let step = fetch_next(
        state,
        FetchEvent::BlobWritten {
            blob: BlobRef::new("blob-5".to_string()),
            path: "/blobs/blob-5".to_string(),
        },
        &mut cache,
    );
    match step.action {
        FetchAction::Done { path } => assert_eq!(path, "/blobs/blob-5"),
        _ => panic!("expected completion"),
    }
    assert_eq!(step.events.len(), 1);
    assert!(matches!(step.events[0], FetchProgress::Complete { .. }));
    // the blob is now indexed: a later fetch is a pure cache hit
    assert_eq!(
        cache.modfile_blobs.get(5),
        Some(&BlobRef::new("blob-5".to_string()))
    );
}

#[test]
fn test_fetch_rejects_unpinned_and_invalid() {
    let cache = ModioCache::new(0);
    let unpinned = ModResolution::resolvable("https://mod.io/g/drg/m/test-mod#3".to_string());
    let step = fetch_start(&unpinned, &cache);
    assert!(matches!(
        step.action,
        FetchAction::Failed {
            error: FetchError::UnpinnedDownload
        }
    ));
    let slug_only = ModResolution::resolvable("https://mod.io/g/drg/m/test-mod".to_string());
    let step = fetch_start(&slug_only, &cache);
    assert!(matches!(
        step.action,
        FetchAction::Failed {
            error: FetchError::UnpinnedDownload
        }
    ));
    let invalid = ModResolution::resolvable("nonsense".to_string());
    let step = fetch_start(&invalid, &cache);
    assert!(matches!(
        step.action,
        FetchAction::Failed {
            error: FetchError::InvalidReference
        }
    ));
}

fn expect_request(
    action: FetchAction,
    what: &str,
) -> modio_provider::fetch::FetchState {
    match action {
        FetchAction::Request { request, state } => {
            match (what, request) {
                ("chunk", FetchRequest::NextChunk) => {}
                (_, _) => panic!("unexpected request while waiting for {}", what),
            }
            state
        }
        _ => panic!("expected a request for {}", what),
    }
}

fn progress_of(events: &[FetchProgress]) -> Vec<(u64, u64)> {
    events
        .iter()
        .map(|e| match e {
            FetchProgress::Progress { progress, size, .. } => (*progress, *size),
            FetchProgress::Complete { .. } => panic!("unexpected completion event"),
        })
        .collect()
}
