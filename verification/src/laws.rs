//! Laws of the read engine, proved over the functional model in
//! [`crate::model`]. Since every step of the executable engine is proved
//! equal to the model, these laws hold of any sequence of engine calls that
//! follows the read protocol.
use vstd::prelude::*;
use vstd::seq_lib::*;
use crate::head_cache::{first_other, lemma_first_other_props};
use crate::model::{
    body_model, evict_state, full_read, is_track, length_model, model_wf, regime_model,
    start_model, track_id, FsModel, LenOracle, ReadTrace, StepModel,
};

verus! {

pub proof fn lemma_to_set_remove(s: Seq<u64>, j: int)
    requires
        0 <= j < s.len(),
        s.no_duplicates(),
    ensures
        s.remove(j).no_duplicates(),
        s.remove(j).to_set() == s.to_set().remove(s[j]),
{
    let r = s.remove(j);
    assert forall|x: u64| r.to_set().contains(x) implies s.to_set().remove(s[j]).contains(x) by {
        assert(r.contains(x));
        let i = choose|i: int| 0 <= i < r.len() && r[i] == x;
        if i < j {
            assert(s[i] == x);
        } else {
            assert(s[i + 1] == x);
        }
        assert(s.contains(x));
    }
    assert forall|x: u64| s.to_set().remove(s[j]).contains(x) implies r.to_set().contains(x) by {
        assert(s.contains(x) && x != s[j]);
        let i = choose|i: int| 0 <= i < s.len() && s[i] == x;
        assert(i != j);
        if i < j {
            assert(r[i] == x);
        } else {
            assert(r[i - 1] == x);
        }
        assert(r.contains(x));
    }
    assert(r.to_set() =~= s.to_set().remove(s[j]));
}

pub proof fn lemma_to_set_push(s: Seq<u64>, x: u64)
    ensures
        s.push(x).to_set() == s.to_set().insert(x),
        !s.to_set().contains(x) && s.no_duplicates() ==> s.push(x).no_duplicates(),
{
    let p = s.push(x);
    assert forall|y: u64| p.to_set().contains(y) implies s.to_set().insert(x).contains(y) by {
        let i = choose|i: int| 0 <= i < p.len() && p[i] == y;
        if i < s.len() {
            assert(s[i] == y);
            assert(s.contains(y));
        }
    }
    assert forall|y: u64| s.to_set().insert(x).contains(y) implies p.to_set().contains(y) by {
        if y == x {
            assert(p[s.len() as int] == y);
        } else {
            let i = choose|i: int| 0 <= i < s.len() && s[i] == y;
            assert(p[i] == y);
        }
        assert(p.contains(y));
    }
    assert(p.to_set() =~= s.to_set().insert(x));
    if !s.to_set().contains(x) && s.no_duplicates() {
        assert forall|a: int, b: int|
            0 <= a < p.len() && 0 <= b < p.len() && a != b implies p[a] != p[b] by {
            if a < s.len() && b < s.len() {
            } else if a < s.len() {
                assert(s.contains(s[a]));
            } else if b < s.len() {
                assert(s.contains(s[b]));
            }
        }
    }
}

/// The eviction check never touches the inode being read: its cached bytes
/// (if any) survive unchanged, and no other inode's entry appears.
pub proof fn lemma_evict_spares_current(m: FsModel, ino: u64)
    ensures
        evict_state(m, ino).head_data.contains_key(ino) == m.head_data.contains_key(ino),
        m.head_data.contains_key(ino) ==> evict_state(m, ino).head_data[ino]
            == m.head_data[ino],
        forall|k: u64|
            evict_state(m, ino).head_data.contains_key(k) ==> m.head_data.contains_key(k)
                && evict_state(m, ino).head_data[k] == m.head_data[k],
{
    lemma_first_other_props(m.head_order, ino);
}

/// Eviction preserves the model invariant, and leaves at most `cache_max`
/// entries whenever it was over budget with a victim available.
pub proof fn lemma_evict_wf(m: FsModel, ino: u64)
    requires
        model_wf(m),
    ensures
        model_wf(evict_state(m, ino)),
        evict_state(m, ino).head_order.len() <= m.head_order.len(),
        m.head_order.len() > m.cache_max && m.head_order.len() >= 2 ==> evict_state(
            m,
            ino,
        ).head_order.len() == m.head_order.len() - 1,
        m.head_order.len() > m.cache_max && m.head_order.len() == 1 && first_other(
            m.head_order,
            ino,
        ) == -1 ==> m.head_data.contains_key(ino),
{
    lemma_first_other_props(m.head_order, ino);
    let j = first_other(m.head_order, ino);
    if m.head_order.len() > m.cache_max && j >= 0 {
        lemma_to_set_remove(m.head_order, j);
        assert(evict_state(m, ino).head_data.dom() =~= evict_state(m, ino).head_order.to_set());
    } else if m.head_order.len() > m.cache_max {
        // no victim: every cached inode is the current one
        assert(m.head_order[0] == ino);
        assert(m.head_order.to_set().contains(ino));
        if m.head_order.len() >= 2 {
            assert(m.head_order[0] == ino && m.head_order[1] == ino);
            assert(false);
        }
    }
}

/// The bound the head cache keeps: a whole read call never leaves more
/// than `cache_max + 1` inodes cached, and keeps the model invariant.
pub proof fn lemma_read_bounds_cache(
    m: FsModel,
    ino: u64,
    offset: u64,
    size: u32,
    o: LenOracle,
    b: Option<Seq<u8>>,
)
    requires
        model_wf(m),
        m.head_order.len() <= m.cache_max + 1,
    ensures
        model_wf(full_read(m, ino, offset, size, o, b).post),
        full_read(m, ino, offset, size, o, b).post.head_order.len() <= m.cache_max + 1,
{
    if ino != crate::model::metrics_ino_of(m) && is_track(m, ino) {
        let m1 = evict_state(m, ino);
        lemma_evict_wf(m, ino);
        lemma_evict_spares_current(m, ino);
        // after the eviction check, either the cache is within budget, or
        // the only entry over budget is the current inode itself (and then
        // a prefix miss, the one thing that inserts, cannot happen)
        assert(m1.head_order.len() <= m.cache_max || m1.head_data.contains_key(ino));
        lemma_body_grows_by_current(m1, ino, offset, size, b, o);
        lemma_full_read_decomposes(m, ino, offset, size, o, b);
    }
}

/// Helper: the body step preserves the invariant and grows the head cache
/// only by the current inode, and only when it was absent.
proof fn lemma_body_step(m3: FsModel, ino: u64, offset: u64, size: u32, b: Option<Seq<u8>>)
    requires
        model_wf(m3),
        m3.head_order.len() <= m3.cache_max || m3.head_data.contains_key(ino),
        m3.head_order.len() <= m3.cache_max + 1,
    ensures
        ({
            let (m4, _r) = body_model(m3, ino, offset, size, b);
            &&& model_wf(m4)
            &&& m4.head_order.len() <= m3.cache_max + 1
            &&& m4.cache_max == m3.cache_max
        }),
{
    let (m4, _r) = body_model(m3, ino, offset, size, b);
    if m4.head_order != m3.head_order {
        // the body step inserted: the current inode was absent, so the
        // cache was within budget before the insertion
        assert(!m3.head_data.contains_key(ino));
        lemma_to_set_push(m3.head_order, ino);
        assert(m4.head_data.dom() =~= m4.head_order.to_set());
    }
}

/// Helper: every way a read can continue after the eviction check keeps
/// the invariant and the `cache_max + 1` bound.
proof fn lemma_body_grows_by_current(
    m1: FsModel,
    ino: u64,
    offset: u64,
    size: u32,
    b: Option<Seq<u8>>,
    o: LenOracle,
)
    requires
        model_wf(m1),
        is_track(m1, ino),
        m1.head_order.len() <= m1.cache_max || m1.head_data.contains_key(ino),
        m1.head_order.len() <= m1.cache_max + 1,
    ensures
        ({
            let t = resume_read(m1, ino, offset, size, o, b);
            &&& model_wf(t.post)
            &&& t.post.head_order.len() <= m1.cache_max + 1
            &&& t.post.cache_max == m1.cache_max
        }),
{
    if m1.lengths.contains_key(track_id(m1, ino)) {
        let m2 = FsModel { metrics: m1.metrics.with_len_hit(), ..m1 };
        let (m3, s) = regime_model(m2, ino, offset, size, m1.lengths[track_id(m1, ino)]);
        assert(m3.head_order == m1.head_order && m3.head_data == m1.head_data && m3.cache_max
            == m1.cache_max);
        match s {
            StepModel::Reply(_) => {},
            StepModel::Fail(_) => {},
            _ => {
                lemma_body_step(m3, ino, offset, size, b);
            },
        }
    } else {
        let m2 = FsModel { metrics: m1.metrics.with_len_miss(), ..m1 };
        let (m3, s) = length_model(m2, ino, offset, size, o);
        assert(m3.head_order == m1.head_order && m3.head_data == m1.head_data && m3.cache_max
            == m1.cache_max);
        match s {
            StepModel::Reply(_) => {},
            StepModel::Fail(_) => {},
            _ => {
                lemma_body_step(m3, ino, offset, size, b);
            },
        }
    }
}

/// What a read looks like from just after the eviction check: the length
/// consultation and whatever follows.
pub open spec fn resume_read(
    m1: FsModel,
    ino: u64,
    offset: u64,
    size: u32,
    o: LenOracle,
    b: Option<Seq<u8>>,
) -> ReadTrace {
    if m1.lengths.contains_key(track_id(m1, ino)) {
        let m2 = FsModel { metrics: m1.metrics.with_len_hit(), ..m1 };
        let (m3, s) = regime_model(m2, ino, offset, size, m1.lengths[track_id(m1, ino)]);
        match s {
            StepModel::Reply(bytes) => ReadTrace { post: m3, reply: Ok(bytes), heads: 0, gets: 0 },
            StepModel::Fail(e) => ReadTrace { post: m3, reply: Err(e), heads: 0, gets: 0 },
            _ => {
                let (m4, r) = body_model(m3, ino, offset, size, b);
                ReadTrace { post: m4, reply: r, heads: 0, gets: 1 }
            },
        }
    } else {
        let m2 = FsModel { metrics: m1.metrics.with_len_miss(), ..m1 };
        let (m3, s) = length_model(m2, ino, offset, size, o);
        match s {
            StepModel::Reply(bytes) => ReadTrace { post: m3, reply: Ok(bytes), heads: 1, gets: 0 },
            StepModel::Fail(e) => ReadTrace { post: m3, reply: Err(e), heads: 1, gets: 0 },
            _ => {
                let (m4, r) = body_model(m3, ino, offset, size, b);
                ReadTrace { post: m4, reply: r, heads: 1, gets: 1 }
            },
        }
    }
}

/// Once a length is cached for a track's id, it is never removed and never
/// changed, and a read of that track asks for no further HEAD.
pub proof fn lemma_length_cached_stays(
    m: FsModel,
    ino: u64,
    offset: u64,
    size: u32,
    o: LenOracle,
    b: Option<Seq<u8>>,
    id: Seq<char>,
)
    requires
        m.lengths.contains_key(id),
    ensures
        ({
            let t = full_read(m, ino, offset, size, o, b);
            &&& t.post.lengths.contains_key(id)
            &&& t.post.lengths[id] == m.lengths[id]
            &&& (is_track(m, ino) && id == track_id(m, ino) ==> t.heads == 0)
        }),
{
}

/// Two consecutive reads of the same slice, lying strictly inside the head
/// window, cost at most one GET in total: the second is served from the
/// head cache, asks nothing of the backend, and returns the identical
/// bytes.
pub proof fn lemma_prefix_reads_coalesce(
    m: FsModel,
    ino: u64,
    offset: u64,
    size: u32,
    o: LenOracle,
    b: Option<Seq<u8>>,
    o2: LenOracle,
    b2: Option<Seq<u8>>,
)
    requires
        model_wf(m),
        is_track(m, ino),
        offset + size < m.cache_head,
        o matches LenOracle::Length(_),
        b is Some,
    ensures
        ({
            let t1 = full_read(m, ino, offset, size, o, b);
            let t2 = full_read(t1.post, ino, offset, size, o2, b2);
            &&& t1.reply is Ok
            &&& t1.gets <= 1
            &&& t2.heads == 0
            &&& t2.gets == 0
            &&& t2.reply == t1.reply
        }),
{
    let t1 = full_read(m, ino, offset, size, o, b);
    let t2 = full_read(t1.post, ino, offset, size, o2, b2);
    let id = track_id(m, ino);
    let m1 = evict_state(m, ino);
    lemma_evict_spares_current(m, ino);
    lemma_full_read_decomposes(m, ino, offset, size, o, b);
    assert(is_track(t1.post, ino));
    lemma_evict_spares_current(t1.post, ino);
    lemma_full_read_decomposes(t1.post, ino, offset, size, o2, b2);
}

/// Two consecutive reads at or past the head window each cost one GET —
/// the tail regime never caches — and, when the backend returns the same
/// body twice, they return the identical bytes.
pub proof fn lemma_tail_reads_uncached(
    m: FsModel,
    ino: u64,
    offset: u64,
    size: u32,
    o: LenOracle,
    b: Option<Seq<u8>>,
    o2: LenOracle,
    b2: Option<Seq<u8>>,
)
    requires
        model_wf(m),
        is_track(m, ino),
        m.lengths.contains_key(track_id(m, ino)),
        offset >= m.cache_head,
        offset < m.lengths[track_id(m, ino)],
        size >= 1,
        b is Some,
        b2 is Some,
    ensures
        ({
            let t1 = full_read(m, ino, offset, size, o, b);
            let t2 = full_read(t1.post, ino, offset, size, o2, b2);
            &&& t1.heads == 0 && t2.heads == 0
            &&& t1.gets == 1 && t2.gets == 1
            &&& forall|k: u64|
                t2.post.head_data.contains_key(k) ==> m.head_data.contains_key(k)
                    && t2.post.head_data[k] == m.head_data[k]
            &&& (b2 == b ==> t2.reply == t1.reply)
        }),
{
    let t1 = full_read(m, ino, offset, size, o, b);
    lemma_evict_spares_current(m, ino);
    lemma_full_read_decomposes(m, ino, offset, size, o, b);
    assert(is_track(t1.post, ino));
    lemma_evict_spares_current(t1.post, ino);
    lemma_full_read_decomposes(t1.post, ino, offset, size, o2, b2);
}

/// A read at or past the end of the file returns empty bytes and no error,
/// and asks nothing of the backend.
pub proof fn lemma_read_at_end_empty(
    m: FsModel,
    ino: u64,
    offset: u64,
    size: u32,
    o: LenOracle,
    b: Option<Seq<u8>>,
)
    requires
        is_track(m, ino),
        m.lengths.contains_key(track_id(m, ino)),
        offset >= m.lengths[track_id(m, ino)],
    ensures
        full_read(m, ino, offset, size, o, b).reply == Ok::<Seq<u8>, int>(Seq::empty()),
        full_read(m, ino, offset, size, o, b).heads == 0,
        full_read(m, ino, offset, size, o, b).gets == 0,
{
    lemma_full_read_decomposes(m, ino, offset, size, o, b);
}

/// A read that runs past the end of the file returns exactly the bytes
/// that exist: `len - offset` of them (shown here from a cold start, with
/// the backend answering the requested range in full).
pub proof fn lemma_short_read_clipped(
    m: FsModel,
    ino: u64,
    offset: u64,
    size: u32,
    l: u64,
    body: Seq<u8>,
)
    requires
        model_wf(m),
        is_track(m, ino),
        !m.lengths.contains_key(track_id(m, ino)),
        !m.head_data.contains_key(ino),
        offset < l,
        offset + size > l,
        body.len() == if l < m.cache_head {
            l as int
        } else {
            l - offset
        },
    ensures
        ({
            let t = full_read(m, ino, offset, size, LenOracle::Length(l), Some(body));
            t.reply matches Ok(rep) && rep.len() == l - offset
        }),
{
    lemma_evict_spares_current(m, ino);
    lemma_full_read_decomposes(m, ino, offset, size, LenOracle::Length(l), Some(body));
}

/// A chunk ending exactly at the head window falls into the tail regime:
/// the comparison is strict, the GET is based at `offset`, and nothing new
/// is cached.
pub proof fn lemma_boundary_is_tail(
    m: FsModel,
    ino: u64,
    offset: u64,
    size: u32,
    o: LenOracle,
    b: Option<Seq<u8>>,
)
    requires
        model_wf(m),
        is_track(m, ino),
        size >= 1,
        m.lengths.contains_key(track_id(m, ino)),
        offset + size == m.cache_head,
        m.lengths[track_id(m, ino)] >= offset + size,
    ensures
        ({
            let s = full_read(m, ino, offset, size, o, b);
            &&& start_model(m, ino, offset, size).1 matches StepModel::NeedRange {
                url,
                first,
                last,
            } && first == offset && last == offset + size - 1
            &&& forall|k: u64|
                s.post.head_data.contains_key(k) ==> m.head_data.contains_key(k)
        }),
{
    lemma_evict_spares_current(m, ino);
    lemma_full_read_decomposes(m, ino, offset, size, o, b);
}

/// `full_read` on a track inode is the eviction check followed by
/// `resume_read`.
pub proof fn lemma_full_read_decomposes(
    m: FsModel,
    ino: u64,
    offset: u64,
    size: u32,
    o: LenOracle,
    b: Option<Seq<u8>>,
)
    requires
        is_track(m, ino),
        ino != crate::model::metrics_ino_of(m),
    ensures
        full_read(m, ino, offset, size, o, b) == resume_read(
            evict_state(m, ino),
            ino,
            offset,
            size,
            o,
            b,
        ),
{
    let m1 = evict_state(m, ino);
    assert(track_id(m, ino) == track_id(m1, ino));
    assert(crate::model::track_url(m, ino) == crate::model::track_url(m1, ino));
    assert(full_read(m, ino, offset, size, o, b) =~= resume_read(m1, ino, offset, size, o, b));
}

} // verus!
