//! The functional model of the read engine.
//!
//! Every step of a read — the routing, the eviction check, the cache
//! consultations, the choice between the prefix and the tail regime, and
//! the counter movements — is a mathematical function from the engine state
//! and the backend's answers to the next state and the next action. The
//! executable engine is proved to follow this model step by step, and the
//! engine's laws are proved over it.
use vstd::prelude::*;
use vstd::utf8::encode_utf8;
use crate::head_cache::first_other;
use crate::metrics::{metrics_text, Metrics};
use crate::text::clamp_slice;
use crate::{EIO, ENOENT};

verus! {

/// The engine state the read path reads and writes: the track table's ids
/// and URLs (index `i` is inode `i + 2`), the two tunables, the two caches,
/// and the counters.
#[verifier::ext_equal]
pub ghost struct FsModel {
    pub server: Seq<char>,
    pub ids: Seq<Seq<char>>,
    pub urls: Seq<Seq<char>>,
    pub cache_head: u64,
    pub cache_max: u64,
    pub lengths: Map<Seq<char>, u64>,
    pub head_order: Seq<u64>,
    pub head_data: Map<u64, Seq<u8>>,
    pub metrics: Metrics,
}

/// What the engine asks of its caller next: reply to the kernel, fail with
/// an error number, or perform one HTTP request and feed the answer back.
#[verifier::ext_equal]
pub ghost enum StepModel {
    /// Reply with these bytes.
    Reply(Seq<u8>),
    /// Reply with this error number.
    Fail(int),
    /// Issue `HEAD url` and report the `Content-Length`.
    NeedLength(Seq<char>),
    /// Issue `GET url` with `Range: bytes=first-last` (both inclusive) and
    /// hand the body back.
    NeedRange { url: Seq<char>, first: int, last: int },
}

/// What a HEAD request came back with.
pub ghost enum LenOracle {
    /// A parsed `Content-Length`.
    Length(u64),
    /// A response without a usable `Content-Length`.
    NoLength,
    /// A transport failure.
    Failed,
}

pub open spec fn metrics_ino_of(m: FsModel) -> int {
    m.ids.len() as int + 2
}

pub open spec fn is_track(m: FsModel, ino: u64) -> bool {
    2 <= ino && ino < m.ids.len() + 2
}

pub open spec fn track_id(m: FsModel, ino: u64) -> Seq<char> {
    m.ids[ino - 2]
}

pub open spec fn track_url(m: FsModel, ino: u64) -> Seq<char> {
    m.urls[ino - 2]
}

/// The state invariant the model transitions preserve: the tables agree,
/// the head-cache index has no duplicates and lists exactly the cached
/// inodes, and inode numbers fit.
pub open spec fn model_wf(m: FsModel) -> bool {
    &&& m.urls.len() == m.ids.len()
    &&& m.ids.len() + 2 <= u64::MAX
    &&& m.head_order.no_duplicates()
    &&& m.head_data.dom() == m.head_order.to_set()
}

/// The eviction check: when more inodes are cached than `cache_max`
/// allows, the oldest entry whose inode is not `ino` leaves both the data
/// map and the index. When only `ino` itself is cached, nothing happens.
pub open spec fn evict_state(m: FsModel, ino: u64) -> FsModel {
    let j = first_other(m.head_order, ino);
    if m.head_order.len() > m.cache_max && j >= 0 {
        FsModel {
            head_order: m.head_order.remove(j),
            head_data: m.head_data.remove(m.head_order[j]),
            ..m
        }
    } else {
        m
    }
}

/// The bytes the metrics file holds: the rendered counter snapshot.
pub open spec fn metrics_page(m: FsModel) -> Seq<u8> {
    encode_utf8(metrics_text(m.metrics, m.server))
}

/// The exclusive end of the logical chunk: `min(offset + size, len)`.
pub open spec fn chunk_end(offset: u64, size: u32, len: u64) -> int {
    if offset + size <= len {
        offset + size
    } else {
        len as int
    }
}

/// Once the content length is at hand: an out-of-range offset or an empty
/// chunk replies empty without a request; a chunk ending strictly inside
/// the head window is served from the head cache or fetched as the full
/// window; anything else is fetched uncached as `bytes=offset-(end-1)`.
pub open spec fn regime_model(m: FsModel, ino: u64, offset: u64, size: u32, len: u64) -> (
    FsModel,
    StepModel,
) {
    if offset >= len || size == 0 {
        (m, StepModel::Reply(Seq::empty()))
    } else {
        let end = chunk_end(offset, size, len);
        if end < m.cache_head {
            if m.head_data.contains_key(ino) {
                (
                    FsModel { metrics: m.metrics.with_data_hit(), ..m },
                    StepModel::Reply(clamp_slice(m.head_data[ino], offset as int, end)),
                )
            } else {
                let lim = if m.cache_head <= len {
                    m.cache_head as int
                } else {
                    len as int
                };
                (
                    FsModel { metrics: m.metrics.with_data_miss(), ..m },
                    StepModel::NeedRange { url: track_url(m, ino), first: 0, last: lim - 1 },
                )
            }
        } else {
            (
                FsModel { metrics: m.metrics.with_tail_request(), ..m },
                StepModel::NeedRange { url: track_url(m, ino), first: offset as int, last: end - 1 },
            )
        }
    }
}

/// The first step of a read: the metrics inode replies immediately and
/// touches nothing; an unknown inode fails; a track inode runs the eviction
/// check and then consults the length cache, asking for a HEAD on a miss.
pub open spec fn start_model(m: FsModel, ino: u64, offset: u64, size: u32) -> (
    FsModel,
    StepModel,
) {
    if ino == metrics_ino_of(m) {
        (m, StepModel::Reply(clamp_slice(metrics_page(m), offset as int, offset + size)))
    } else if !is_track(m, ino) {
        (m, StepModel::Fail(ENOENT as int))
    } else {
        let m1 = evict_state(m, ino);
        if m1.lengths.contains_key(track_id(m, ino)) {
            regime_model(
                FsModel { metrics: m1.metrics.with_len_hit(), ..m1 },
                ino,
                offset,
                size,
                m1.lengths[track_id(m, ino)],
            )
        } else {
            (
                FsModel { metrics: m1.metrics.with_len_miss(), ..m1 },
                StepModel::NeedLength(track_url(m, ino)),
            )
        }
    }
}

/// The step after a HEAD: a transport failure costs `EIO` and a counter, a
/// missing `Content-Length` costs `EIO` alone, and a length is cached (an
/// already-cached value is never displaced) before the regime is picked.
pub open spec fn length_model(m: FsModel, ino: u64, offset: u64, size: u32, o: LenOracle) -> (
    FsModel,
    StepModel,
) {
    if !is_track(m, ino) {
        (m, StepModel::Fail(EIO as int))
    } else {
        match o {
            LenOracle::Failed => (
                FsModel { metrics: m.metrics.with_transport_error(), ..m },
                StepModel::Fail(EIO as int),
            ),
            LenOracle::NoLength => (m, StepModel::Fail(EIO as int)),
            LenOracle::Length(l) => {
                let id = track_id(m, ino);
                if m.lengths.contains_key(id) {
                    regime_model(m, ino, offset, size, m.lengths[id])
                } else {
                    regime_model(
                        FsModel { lengths: m.lengths.insert(id, l), ..m },
                        ino,
                        offset,
                        size,
                        l,
                    )
                }
            },
        }
    }
}

/// The step after a GET: a transport failure costs `EIO` and a counter;
/// otherwise the body's length joins `ingress`, a prefix-regime body is
/// cached under the inode (if it is not cached yet) and sliced from base
/// zero, and a tail-regime body is returned sliced from base `offset`,
/// uncached.
pub open spec fn body_model(m: FsModel, ino: u64, offset: u64, size: u32, b: Option<Seq<u8>>) -> (
    FsModel,
    Result<Seq<u8>, int>,
) {
    if !is_track(m, ino) {
        (m, Err(EIO as int))
    } else {
        match b {
            None => (FsModel { metrics: m.metrics.with_transport_error(), ..m }, Err(EIO as int)),
            Some(body) => {
                let id = track_id(m, ino);
                if !m.lengths.contains_key(id) {
                    (m, Err(EIO as int))
                } else {
                    let len = m.lengths[id];
                    if offset >= len || size == 0 {
                        (m, Ok(Seq::empty()))
                    } else {
                        let end = chunk_end(offset, size, len);
                        let m1 = FsModel { metrics: m.metrics.with_ingress(body.len()), ..m };
                        if end < m.cache_head {
                            let m2 = if m1.head_data.contains_key(ino) {
                                m1
                            } else {
                                FsModel {
                                    head_order: m1.head_order.push(ino),
                                    head_data: m1.head_data.insert(ino, body),
                                    ..m1
                                }
                            };
                            (m2, Ok(clamp_slice(body, offset as int, end)))
                        } else {
                            (m1, Ok(clamp_slice(body, 0, end - offset)))
                        }
                    }
                }
            },
        }
    }
}

/// The trace of one whole read call driven to completion: the final state,
/// the reply, and how many HEAD and GET requests went out.
#[verifier::ext_equal]
pub ghost struct ReadTrace {
    pub post: FsModel,
    pub reply: Result<Seq<u8>, int>,
    pub heads: nat,
    pub gets: nat,
}

/// One whole read call, with the backend's answers supplied as oracles:
/// `o` answers the HEAD (if one is asked) and `b` the GET (if one is
/// asked).
pub open spec fn full_read(
    m: FsModel,
    ino: u64,
    offset: u64,
    size: u32,
    o: LenOracle,
    b: Option<Seq<u8>>,
) -> ReadTrace {
    let (m1, s1) = start_model(m, ino, offset, size);
    match s1 {
        StepModel::Reply(bytes) => ReadTrace { post: m1, reply: Ok(bytes), heads: 0, gets: 0 },
        StepModel::Fail(e) => ReadTrace { post: m1, reply: Err(e), heads: 0, gets: 0 },
        StepModel::NeedRange { .. } => {
            let (m2, r) = body_model(m1, ino, offset, size, b);
            ReadTrace { post: m2, reply: r, heads: 0, gets: 1 }
        },
        StepModel::NeedLength(_) => {
            let (m2, s2) = length_model(m1, ino, offset, size, o);
            match s2 {
                StepModel::Reply(bytes) => ReadTrace {
                    post: m2,
                    reply: Ok(bytes),
                    heads: 1,
                    gets: 0,
                },
                StepModel::Fail(e) => ReadTrace { post: m2, reply: Err(e), heads: 1, gets: 0 },
                StepModel::NeedRange { .. } => {
                    let (m3, r) = body_model(m2, ino, offset, size, b);
                    ReadTrace { post: m3, reply: r, heads: 1, gets: 1 }
                },
                // a HEAD is never asked for twice within one read
                StepModel::NeedLength(_) => ReadTrace {
                    post: m2,
                    reply: Err(EIO as int),
                    heads: 1,
                    gets: 0,
                },
            }
        },
    }
}

} // verus!
