//! End-to-end tests of the read engine, driving the step protocol against a
//! simulated backend.
use mus_fuse::engine::{Fs, GetResult, HeadResult, ReadStep};
use mus_fuse::track::Track;

fn track(id: &str, path: &str, size: i64) -> Track {
    Track {
        id: id.to_string(),
        path: path.to_string(),
        size,
        name: None,
        artist: None,
        album: None,
        genre: None,
        year: None,
        format: None,
        filetype: None,
    }
}

fn backend_bytes(len: usize) -> Vec<u8> {
    (0..len).map(|i| (i % 251) as u8).collect()
}

/// Drives one read call to completion against `backend`, recording each
/// HTTP request the engine asks for in `log` as `("HEAD"|"GET", url, first, last)`.
fn drive(
    fs: &mut Fs,
    ino: u64,
    offset: u64,
    size: u32,
    backend: &[u8],
    log: &mut Vec<(String, String, u64, u64)>,
) -> Result<Vec<u8>, i32> {
    let mut step = fs.read_start(ino, offset, size);
    loop {
        match step {
            ReadStep::Done(r) => return r,
            ReadStep::FetchLength { url } => {
                log.push(("HEAD".to_string(), url, 0, 0));
                step = fs.on_length(ino, offset, size, HeadResult::Length(backend.len() as u64));
            }
            ReadStep::FetchRange { url, first, last } => {
                log.push(("GET".to_string(), url, first, last));
                let body = backend[first as usize..=last as usize].to_vec();
                return fs.on_body(ino, offset, size, GetResult::Data(body));
            }
        }
    }
}

fn one_track_fs() -> Fs {
    Fs::new(
        vec![track("t1", "/a.mp3", 2_000_000)],
        "http://s".to_string(),
        768 * 1024,
        2,
        1000,
    )
}

#[test]
fn prefix_cold_read_fetches_head_window() {
    let mut fs = one_track_fs();
    let backend = backend_bytes(2_000_000);
    let mut log = Vec::new();
    let got = drive(&mut fs, 2, 0, 4096, &backend, &mut log).unwrap();
    assert_eq!(got.len(), 4096);
    assert_eq!(&got[..], &backend[0..4096]);
    assert_eq!(log.len(), 2);
    assert_eq!(log[0].0, "HEAD");
    assert_eq!(log[0].1, "http://s/a.mp3");
    assert_eq!(log[1].0, "GET");
    assert_eq!(log[1].1, "http://s/a.mp3");
    assert_eq!(log[1].2, 0);
    assert_eq!(log[1].3, 786431);
    assert_eq!(fs.metrics.miss_len_cache, 1);
    assert_eq!(fs.metrics.miss_data_cache, 1);
    assert_eq!(fs.metrics.http_requests, 2);
    assert_eq!(fs.metrics.ingress, 786432);
}

#[test]
fn prefix_warm_read_is_served_from_cache() {
    let mut fs = one_track_fs();
    let backend = backend_bytes(2_000_000);
    let mut log = Vec::new();
    drive(&mut fs, 2, 0, 4096, &backend, &mut log).unwrap();
    let calls_after_first = log.len();
    let got = drive(&mut fs, 2, 4096, 4096, &backend, &mut log).unwrap();
    assert_eq!(&got[..], &backend[4096..8192]);
    assert_eq!(log.len(), calls_after_first, "warm read must touch the backend zero times");
    assert_eq!(fs.metrics.hit_len_cache, 1);
    assert_eq!(fs.metrics.hit_data_cache, 1);
}

#[test]
fn tail_read_is_ranged_and_uncached() {
    let mut fs = one_track_fs();
    let backend = backend_bytes(2_000_000);
    let mut log = Vec::new();
    drive(&mut fs, 2, 0, 4096, &backend, &mut log).unwrap();
    drive(&mut fs, 2, 4096, 4096, &backend, &mut log).unwrap();
    let cached_before = fs.heads.count();
    let got = drive(&mut fs, 2, 1_000_000, 65536, &backend, &mut log).unwrap();
    assert_eq!(&got[..], &backend[1_000_000..1_065_536]);
    let last = log.last().unwrap();
    assert_eq!(last.0, "GET");
    assert_eq!(last.2, 1_000_000);
    assert_eq!(last.3, 1_065_535);
    assert_eq!(fs.metrics.http_requests, 3);
    assert_eq!(fs.heads.count(), cached_before, "tail regime must not cache");
}

#[test]
fn tail_reads_fetch_twice_and_agree() {
    let mut fs = one_track_fs();
    let backend = backend_bytes(2_000_000);
    let mut log = Vec::new();
    let a = drive(&mut fs, 2, 1_000_000, 65536, &backend, &mut log).unwrap();
    let b = drive(&mut fs, 2, 1_000_000, 65536, &backend, &mut log).unwrap();
    assert_eq!(a, b);
    let gets = log.iter().filter(|c| c.0 == "GET").count();
    assert_eq!(gets, 2, "the tail regime never caches, so both reads issue a GET");
}

#[test]
fn read_past_eof_is_empty_not_an_error() {
    let mut fs = one_track_fs();
    let backend = backend_bytes(2_000_000);
    let mut log = Vec::new();
    let got = drive(&mut fs, 2, 2_000_000, 4096, &backend, &mut log).unwrap();
    assert!(got.is_empty());
    let got2 = drive(&mut fs, 2, 3_000_000, 4096, &backend, &mut log).unwrap();
    assert!(got2.is_empty());
}

#[test]
fn read_crossing_eof_is_clipped() {
    let mut fs = one_track_fs();
    let backend = backend_bytes(2_000_000);
    let mut log = Vec::new();
    let got = drive(&mut fs, 2, 1_999_000, 4096, &backend, &mut log).unwrap();
    assert_eq!(got.len(), 1000);
    assert_eq!(&got[..], &backend[1_999_000..2_000_000]);
}

#[test]
fn chunk_ending_at_window_boundary_is_tail() {
    // a small window so that offset + size lands exactly on it
    let mut fs = Fs::new(
        vec![track("t1", "/a.mp3", 2_000_000)],
        "http://s".to_string(),
        8192,
        2,
        1000,
    );
    let backend = backend_bytes(2_000_000);
    let mut log = Vec::new();
    let got = drive(&mut fs, 2, 4096, 4096, &backend, &mut log).unwrap();
    assert_eq!(&got[..], &backend[4096..8192]);
    let last = log.last().unwrap();
    assert_eq!(last.0, "GET");
    assert_eq!(last.2, 4096, "the boundary chunk is fetched from `offset`, not from zero");
    assert_eq!(last.3, 8191);
    assert_eq!(fs.heads.count(), 0, "the boundary chunk is not cached");
}

#[test]
fn metrics_file_reports_counters() {
    let mut fs = one_track_fs();
    let backend = backend_bytes(2_000_000);
    let mut log = Vec::new();
    drive(&mut fs, 2, 0, 4096, &backend, &mut log).unwrap();
    drive(&mut fs, 2, 4096, 4096, &backend, &mut log).unwrap();
    drive(&mut fs, 2, 1_000_000, 65536, &backend, &mut log).unwrap();
    let metrics_ino = fs.metrics_ino();
    assert_eq!(metrics_ino, 3);
    let before = log.len();
    let got = drive(&mut fs, metrics_ino, 0, 4096, &backend, &mut log).unwrap();
    assert_eq!(log.len(), before, "the metrics file never touches the backend");
    let text = String::from_utf8(got).unwrap();
    assert!(text.contains("http_requests: 3\n"), "got: {text}");
    assert!(text.contains("server_addr: http://s\n"), "got: {text}");
    assert_eq!(text.lines().count(), 8);
}

#[test]
fn metrics_read_is_sliced_to_the_request() {
    let mut fs = one_track_fs();
    let backend = backend_bytes(100);
    let mut log = Vec::new();
    let whole = drive(&mut fs, 3, 0, 4096, &backend, &mut log).unwrap();
    let first = drive(&mut fs, 3, 0, 4, &backend, &mut log).unwrap();
    assert_eq!(&first[..], &whole[0..4]);
    let past = drive(&mut fs, 3, 100_000, 4096, &backend, &mut log).unwrap();
    assert!(past.is_empty());
}

#[test]
fn eviction_picks_a_prior_track_never_the_current() {
    let mut fs = Fs::new(
        vec![
            track("t1", "/a.mp3", 100_000),
            track("t2", "/b.mp3", 100_000),
            track("t3", "/c.mp3", 100_000),
        ],
        "http://s".to_string(),
        768 * 1024,
        1,
        1000,
    );
    let backend = backend_bytes(100_000);
    let mut log = Vec::new();
    drive(&mut fs, 2, 0, 4096, &backend, &mut log).unwrap();
    drive(&mut fs, 3, 0, 4096, &backend, &mut log).unwrap();
    assert_eq!(fs.heads.count(), 2);
    drive(&mut fs, 4, 0, 4096, &backend, &mut log).unwrap();
    assert_eq!(fs.heads.count(), 2, "one of the prior two must have been evicted");
    assert!(fs.heads.contains(4), "the inode being read is never evicted");
    assert!(fs.heads.contains(2) ^ fs.heads.contains(3));
}

#[test]
fn length_is_fetched_once_per_track() {
    let mut fs = one_track_fs();
    let backend = backend_bytes(2_000_000);
    let mut log = Vec::new();
    drive(&mut fs, 2, 0, 16, &backend, &mut log).unwrap();
    drive(&mut fs, 2, 1_000_000, 16, &backend, &mut log).unwrap();
    drive(&mut fs, 2, 1_500_000, 16, &backend, &mut log).unwrap();
    let heads = log.iter().filter(|c| c.0 == "HEAD").count();
    assert_eq!(heads, 1, "the content length is discovered once and never re-fetched");
}

#[test]
fn transport_failure_on_head_is_eio() {
    let mut fs = one_track_fs();
    let step = fs.read_start(2, 0, 4096);
    assert!(matches!(step, ReadStep::FetchLength { .. }));
    let step2 = fs.on_length(2, 0, 4096, HeadResult::Failed);
    match step2 {
        ReadStep::Done(Err(e)) => assert_eq!(e, mus_fuse::EIO),
        other => panic!("expected EIO, got {:?}", step_kind(&other)),
    }
    assert_eq!(fs.metrics.connect_errors, 1);
}

#[test]
fn missing_content_length_is_eio_without_connect_error() {
    let mut fs = one_track_fs();
    fs.read_start(2, 0, 4096);
    let step = fs.on_length(2, 0, 4096, HeadResult::NoLength);
    match step {
        ReadStep::Done(Err(e)) => assert_eq!(e, mus_fuse::EIO),
        other => panic!("expected EIO, got {:?}", step_kind(&other)),
    }
    assert_eq!(fs.metrics.connect_errors, 0);
}

#[test]
fn transport_failure_on_get_is_eio() {
    let mut fs = one_track_fs();
    fs.read_start(2, 0, 4096);
    let step = fs.on_length(2, 0, 4096, HeadResult::Length(2_000_000));
    assert!(matches!(step, ReadStep::FetchRange { .. }));
    let r = fs.on_body(2, 0, 4096, GetResult::Failed);
    assert_eq!(r.unwrap_err(), mus_fuse::EIO);
    assert_eq!(fs.metrics.connect_errors, 1);
}

#[test]
fn unknown_inode_read_is_enoent() {
    let mut fs = one_track_fs();
    match fs.read_start(99, 0, 4096) {
        ReadStep::Done(Err(e)) => assert_eq!(e, mus_fuse::ENOENT),
        other => panic!("expected ENOENT, got {:?}", step_kind(&other)),
    }
    match fs.read_start(1, 0, 4096) {
        ReadStep::Done(Err(e)) => assert_eq!(e, mus_fuse::ENOENT),
        other => panic!("expected ENOENT, got {:?}", step_kind(&other)),
    }
}

#[test]
fn short_backend_body_never_panics() {
    // a backend that lies: it advertises 2_000_000 bytes but serves only 10
    let mut fs = one_track_fs();
    fs.read_start(2, 0, 4096);
    let step = fs.on_length(2, 0, 4096, HeadResult::Length(2_000_000));
    assert!(matches!(step, ReadStep::FetchRange { .. }));
    let r = fs.on_body(2, 0, 4096, GetResult::Data(vec![9u8; 10])).unwrap();
    assert_eq!(r, vec![9u8; 10], "the reply is clipped to the bytes that arrived");
}

fn step_kind(s: &ReadStep) -> &'static str {
    match s {
        ReadStep::Done(Ok(_)) => "Done(Ok)",
        ReadStep::Done(Err(_)) => "Done(Err)",
        ReadStep::FetchLength { .. } => "FetchLength",
        ReadStep::FetchRange { .. } => "FetchRange",
    }
}
