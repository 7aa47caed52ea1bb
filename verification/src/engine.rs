//! The read engine.
//!
//! The engine owns the inode table, the two caches and the counters, and
//! services `read(ino, offset, size)` without performing I/O itself: when
//! it needs the network it returns a [`ReadStep`] naming one HTTP request,
//! and the caller feeds the response back through [`Fs::on_length`] or
//! [`Fs::on_body`]. Every step is proved equal to the functional model in
//! [`crate::model`], so the laws proved over the model hold of the
//! executable engine as well.
use vstd::prelude::*;
use vstd::string::StrSliceExecFns;
use crate::head_cache::HeadCache;
use crate::length_cache::LengthCache;
use crate::metrics::{render_metrics, Metrics};
use crate::model::{
    body_model, chunk_end, evict_state, is_track, length_model, metrics_ino_of, metrics_page,
    model_wf, regime_model, start_model, track_id, FsModel, LenOracle, StepModel,
};
use crate::table::InodeTable;
use crate::text::{clamp_slice, slice_bytes};
use crate::track::Track;
use crate::{EIO, ENOENT};

verus! {

/// What the engine asks of its caller next: reply, or perform one HTTP
/// request and feed the answer back in.
pub enum ReadStep {
    /// The read is finished: reply with the bytes or the error number.
    Done(Result<Vec<u8>, i32>),
    /// Issue `HEAD url` and call [`Fs::on_length`] with the outcome.
    FetchLength { url: String },
    /// Issue `GET url` with `Range: bytes=first-last` (both inclusive) and
    /// call [`Fs::on_body`] with the outcome.
    FetchRange { url: String, first: u64, last: u64 },
}

/// What a HEAD request came back with.
pub enum HeadResult {
    /// The parsed `Content-Length`.
    Length(u64),
    /// A response without a usable `Content-Length`.
    NoLength,
    /// A transport failure.
    Failed,
}

/// What a ranged GET came back with.
pub enum GetResult {
    /// The response body.
    Data(Vec<u8>),
    /// A transport failure.
    Failed,
}

/// A [`ReadStep`] as the model sees it.
pub open spec fn step_view(r: ReadStep) -> StepModel {
    match r {
        ReadStep::Done(Ok(v)) => StepModel::Reply(v@),
        ReadStep::Done(Err(e)) => StepModel::Fail(e as int),
        ReadStep::FetchLength { url } => StepModel::NeedLength(url@),
        ReadStep::FetchRange { url, first, last } => StepModel::NeedRange {
            url: url@,
            first: first as int,
            last: last as int,
        },
    }
}

/// A [`HeadResult`] as the model sees it.
pub open spec fn head_view(r: HeadResult) -> LenOracle {
    match r {
        HeadResult::Length(l) => LenOracle::Length(l),
        HeadResult::NoLength => LenOracle::NoLength,
        HeadResult::Failed => LenOracle::Failed,
    }
}

/// A [`GetResult`] as the model sees it.
pub open spec fn get_view(r: GetResult) -> Option<Seq<u8>> {
    match r {
        GetResult::Data(v) => Some(v@),
        GetResult::Failed => None,
    }
}

/// The filesystem engine: the immutable inode table, the two tunables, the
/// two caches, and the counters.
pub struct Fs {
    pub table: InodeTable,
    pub cache_head: u64,
    pub cache_max_count: u64,
    pub lengths: LengthCache,
    pub heads: HeadCache,
    pub metrics: Metrics,
}

impl View for Fs {
    type V = FsModel;

    open spec fn view(&self) -> FsModel {
        FsModel {
            server: self.table.server@,
            ids: self.table.tracks@.map_values(|t: Track| t.id@),
            urls: self.table.urls@.map_values(|u: String| u@),
            cache_head: self.cache_head,
            cache_max: self.cache_max_count,
            lengths: self.lengths@,
            head_order: self.heads.order(),
            head_data: self.heads.contents(),
            metrics: self.metrics,
        }
    }
}

impl Fs {
    /// Well-formed: the table is complete and the caches' internal
    /// structures are consistent.
    pub open spec fn wf(&self) -> bool {
        &&& self.table.wf()
        &&& self.lengths.wf()
        &&& self.heads.wf()
    }

    /// A well-formed engine has a well-formed model state.
    pub proof fn lemma_model_wf(&self)
        requires
            self.wf(),
        ensures
            model_wf(self@),
    {
        crate::head_cache::lemma_head_structures_agree(&self.heads);
        assert(self@.head_data.dom() =~= self@.head_order.to_set());
    }

    /// Mounts the engine over a catalog: builds the inode table and starts
    /// with empty caches and zeroed counters.
    pub fn new(
        tracks: Vec<Track>,
        server: String,
        cache_head: u64,
        cache_max_count: u64,
        mount_time: u64,
    ) -> (r: Fs)
        requires
            tracks@.len() + 3 <= u64::MAX,
            tracks@.len() + 3 <= usize::MAX,
        ensures
            r.wf(),
            r.table.tracks@ == tracks@,
            r.table.server@ == server@,
            r.table.mount_time == mount_time,
            r.cache_head == cache_head,
            r.cache_max_count == cache_max_count,
            r@.server == server@,
            r@.ids.len() == tracks@.len(),
            forall|i: int|
                0 <= i < tracks@.len() ==> (#[trigger] r@.ids[i]) == tracks@[i].id@ && r@.urls[i]
                    == server@ + tracks@[i].path@,
            r@.lengths == Map::<Seq<char>, u64>::empty(),
            r@.head_order == Seq::<u64>::empty(),
            r@.head_data == Map::<u64, Seq<u8>>::empty(),
            r.metrics == Metrics::zero(),
    {
        let table = InodeTable::build(tracks, server, mount_time);
        let r = Fs {
            table,
            cache_head,
            cache_max_count,
            lengths: LengthCache::new(),
            heads: HeadCache::new(),
            metrics: Metrics::new(),
        };
        r
    }

    /// The inode of the synthetic metrics file: the catalog size plus two.
    pub fn metrics_ino(&self) -> (r: u64)
        requires
            self.wf(),
        ensures
            r as int == metrics_ino_of(self@),
    {
        (self.table.tracks.len() as u64) + 2
    }

    /// Picks the regime once the content length is at hand, moving the
    /// data-cache counters and serving a head-cache hit directly.
    fn after_length(&mut self, ino: u64, offset: u64, size: u32, l: u64) -> (r: ReadStep)
        requires
            old(self).wf(),
            is_track(old(self)@, ino),
        ensures
            final(self).wf(),
            final(self)@ == regime_model(old(self)@, ino, offset, size, l).0,
            step_view(r) == regime_model(old(self)@, ino, offset, size, l).1,
    {
        if offset >= l || size == 0 {
            return ReadStep::Done(Ok(Vec::new()));
        }
        let remaining: u64 = l - offset;
        let want: u64 = if (size as u64) < remaining {
            size as u64
        } else {
            remaining
        };
        let end: u64 = offset + want;
        assert(end as int == chunk_end(offset, size, l));
        let idx: usize = (ino - 2) as usize;
        if end < self.cache_head {
            match self.heads.get(ino) {
                Some(data) => {
                    let out = slice_bytes(data, offset, end);
                    self.metrics.data_hit();
                    ReadStep::Done(Ok(out))
                },
                None => {
                    self.metrics.data_miss();
                    let lim: u64 = if self.cache_head <= l {
                        self.cache_head
                    } else {
                        l
                    };
                    ReadStep::FetchRange { url: self.table.urls[idx].clone(), first: 0, last: lim
                        - 1 }
                },
            }
        } else {
            self.metrics.tail_request();
            ReadStep::FetchRange { url: self.table.urls[idx].clone(), first: offset, last: end
                - 1 }
        }
    }

    /// The first step of `read(ino, offset, size)`.
    ///
    /// The metrics inode replies at once with the rendered counter snapshot
    /// sliced to the requested range, touching no cache. A track inode runs
    /// the eviction check and consults the length cache: a hit proceeds to
    /// the regime decision, a miss asks the caller for a HEAD. Any other
    /// inode fails with `ENOENT`. A cached length is never re-fetched, and
    /// the inode being read is never evicted.
    pub fn read_start(&mut self, ino: u64, offset: u64, size: u32) -> (r: ReadStep)
        requires
            old(self).wf(),
        ensures
            final(self).wf(),
            final(self)@ == start_model(old(self)@, ino, offset, size).0,
            step_view(r) == start_model(old(self)@, ino, offset, size).1,
            forall|id: Seq<char>|
                old(self)@.lengths.contains_key(id) ==> final(self)@.lengths.contains_key(id)
                    && final(self)@.lengths[id] == old(self)@.lengths[id],
            is_track(old(self)@, ino) && old(self)@.lengths.contains_key(
                track_id(old(self)@, ino),
            ) ==> !(step_view(r) is NeedLength),
            old(self)@.head_data.contains_key(ino) ==> final(self)@.head_data.contains_key(ino)
                && final(self)@.head_data[ino] == old(self)@.head_data[ino],
    {
        let mino = self.metrics_ino();
        if ino == mino {
            let text = render_metrics(&self.metrics, self.table.server.as_str());
            let bytes = text.as_str().as_bytes_vec();
            let page_len: usize = bytes.len();
            let hi: u64 = offset.saturating_add(size as u64);
            let out = slice_bytes(&bytes, offset, hi);
            proof {
                assert(bytes@ == metrics_page(old(self)@));
                assert(bytes@.len() == page_len);
                assert(bytes@.len() <= u64::MAX);
                if offset + size <= u64::MAX {
                    assert(hi == offset + size);
                } else {
                    assert(hi == u64::MAX);
                }
                assert(out@ =~= clamp_slice(
                    metrics_page(old(self)@),
                    offset as int,
                    offset + size,
                ));
            }
            return ReadStep::Done(Ok(out));
        }
        if ino < 2 || ino - 2 >= self.table.tracks.len() as u64 {
            return ReadStep::Done(Err(ENOENT));
        }
        let idx: usize = (ino - 2) as usize;
        self.heads.evict_for(ino, self.cache_max_count);
        proof {
            assert(self@ =~= evict_state(old(self)@, ino));
        }
        let ghost m1 = evict_state(old(self)@, ino);
        match self.lengths.get(&self.table.tracks[idx].id) {
            Some(l) => {
                proof {
                    assert(self.table.tracks@[idx as int].id@ == track_id(old(self)@, ino));
                    assert(l == m1.lengths[track_id(old(self)@, ino)]);
                }
                self.metrics.len_hit();
                proof {
                    assert(self@ =~= (FsModel { metrics: m1.metrics.with_len_hit(), ..m1 }));
                }
                let step = self.after_length(ino, offset, size, l);
                step
            },
            None => {
                self.metrics.len_miss();
                proof {
                    assert(self@ =~= (FsModel { metrics: m1.metrics.with_len_miss(), ..m1 }));
                }
                ReadStep::FetchLength { url: self.table.urls[idx].clone() }
            },
        }
    }

    /// The step after the caller's HEAD request.
    ///
    /// A transport failure is `EIO` and counts a connect error; a missing
    /// `Content-Length` is `EIO` alone. Otherwise the length joins the
    /// length cache — an already-cached value is kept, never displaced —
    /// and the read proceeds to the regime decision.
    pub fn on_length(&mut self, ino: u64, offset: u64, size: u32, res: HeadResult) -> (r: ReadStep)
        requires
            old(self).wf(),
        ensures
            final(self).wf(),
            final(self)@ == length_model(old(self)@, ino, offset, size, head_view(res)).0,
            step_view(r) == length_model(old(self)@, ino, offset, size, head_view(res)).1,
            forall|id: Seq<char>|
                old(self)@.lengths.contains_key(id) ==> final(self)@.lengths.contains_key(id)
                    && final(self)@.lengths[id] == old(self)@.lengths[id],
    {
        let mino = self.metrics_ino();
        if ino < 2 || ino >= mino {
            return ReadStep::Done(Err(EIO));
        }
        match res {
            HeadResult::Failed => {
                self.metrics.transport_error();
                ReadStep::Done(Err(EIO))
            },
            HeadResult::NoLength => ReadStep::Done(Err(EIO)),
            HeadResult::Length(l) => {
                let idx: usize = (ino - 2) as usize;
                proof {
                    assert(self.table.tracks@[idx as int].id@ == track_id(old(self)@, ino));
                }
                match self.lengths.get(&self.table.tracks[idx].id) {
                    Some(c) => self.after_length(ino, offset, size, c),
                    None => {
                        let id = self.table.tracks[idx].id.clone();
                        self.lengths.insert_new(id, l);
                        proof {
                            assert(self@ =~= (FsModel {
                                lengths: old(self)@.lengths.insert(
                                    track_id(old(self)@, ino),
                                    l,
                                ),
                                ..old(self)@
                            }));
                        }
                        self.after_length(ino, offset, size, l)
                    },
                }
            },
        }
    }

    /// The step after the caller's ranged GET.
    ///
    /// A transport failure is `EIO` and counts a connect error. Otherwise
    /// the body's length joins `ingress`; in the prefix regime the body is
    /// cached under the inode (unless one is cached already) and the reply
    /// is the body sliced from base zero, while in the tail regime the
    /// reply is the body sliced from base `offset` and nothing is cached.
    /// At most one inode joins the head cache.
    pub fn on_body(&mut self, ino: u64, offset: u64, size: u32, res: GetResult) -> (r: Result<
        Vec<u8>,
        i32,
    >)
        requires
            old(self).wf(),
        ensures
            final(self).wf(),
            final(self)@ == body_model(old(self)@, ino, offset, size, get_view(res)).0,
            (match r {
                Ok(v) => body_model(old(self)@, ino, offset, size, get_view(res)).1 == Ok::<
                    Seq<u8>,
                    int,
                >(v@),
                Err(e) => body_model(old(self)@, ino, offset, size, get_view(res)).1 == Err::<
                    Seq<u8>,
                    int,
                >(e as int),
            }),
            final(self)@.lengths == old(self)@.lengths,
            final(self)@.head_order.len() <= old(self)@.head_order.len() + 1,
    {
        let mino = self.metrics_ino();
        if ino < 2 || ino >= mino {
            return Err(EIO);
        }
        match res {
            GetResult::Failed => {
                self.metrics.transport_error();
                Err(EIO)
            },
            GetResult::Data(body) => {
                let ghost bview = body@;
                let idx: usize = (ino - 2) as usize;
                proof {
                    assert(self.table.tracks@[idx as int].id@ == track_id(old(self)@, ino));
                }
                match self.lengths.get(&self.table.tracks[idx].id) {
                    None => Err(EIO),
                    Some(l) => {
                        if offset >= l || size == 0 {
                            return Ok(Vec::new());
                        }
                        let remaining: u64 = l - offset;
                        let want: u64 = if (size as u64) < remaining {
                            size as u64
                        } else {
                            remaining
                        };
                        let end: u64 = offset + want;
                        assert(end as int == chunk_end(offset, size, l));
                        let blen: u64 = body.len() as u64;
                        if end < self.cache_head {
                            self.metrics.add_ingress(blen);
                            let out = slice_bytes(&body, offset, end);
                            if !self.heads.contains(ino) {
                                self.heads.insert(ino, body);
                            }
                            proof {
                                assert(self@ =~= body_model(
                                    old(self)@,
                                    ino,
                                    offset,
                                    size,
                                    Some(bview),
                                ).0);
                            }
                            Ok(out)
                        } else {
                            self.metrics.add_ingress(blen);
                            let out = slice_bytes(&body, 0, end - offset);
                            Ok(out)
                        }
                    },
                }
            },
        }
    }
}

} // verus!
