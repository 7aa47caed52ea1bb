//! Tests of the byte helpers and the metrics rendering.
use mus_fuse::metrics::{render_metrics, Metrics};
use mus_fuse::text::{basename_bytes, bytes_eq, clone_bytes, percent_decode_bytes, slice_bytes};

#[test]
fn percent_decoding_handles_escapes_and_passthrough() {
    let decode = |s: &[u8]| percent_decode_bytes(&s.to_vec());
    assert_eq!(decode(b"a.mp3"), b"a.mp3".to_vec());
    assert_eq!(decode(b"b%20c.mp3"), b"b c.mp3".to_vec());
    assert_eq!(decode(b"%41B%2520"), b"AB%20".to_vec());
    assert_eq!(decode(b"%ZZ"), b"%ZZ".to_vec(), "bad hex digits pass through");
    assert_eq!(decode(b"%4"), b"%4".to_vec(), "a truncated escape passes through");
    assert_eq!(decode(b""), b"".to_vec());
    assert_eq!(decode(b"%e2%82%ac"), "\u{20ac}".as_bytes().to_vec());
}

#[test]
fn basenames_follow_the_last_slash() {
    let base = |s: &[u8]| basename_bytes(&s.to_vec());
    assert_eq!(base(b"/x/y.mp3"), b"y.mp3".to_vec());
    assert_eq!(base(b"y.mp3"), b"y.mp3".to_vec());
    assert_eq!(base(b"/x/"), b"".to_vec());
    assert_eq!(base(b""), b"".to_vec());
    assert_eq!(base(b"/a"), b"a".to_vec());
}

#[test]
fn byte_slicing_clamps_to_what_is_there() {
    let v = vec![0u8, 1, 2, 3, 4];
    assert_eq!(slice_bytes(&v, 1, 3), vec![1, 2]);
    assert_eq!(slice_bytes(&v, 0, 100), vec![0, 1, 2, 3, 4]);
    assert_eq!(slice_bytes(&v, 4, 2), Vec::<u8>::new());
    assert_eq!(slice_bytes(&v, 9, 12), Vec::<u8>::new());
    assert_eq!(clone_bytes(&v), v);
    assert!(bytes_eq(&v, &v.clone()));
    assert!(!bytes_eq(&v, &[0, 1, 2]));
}

#[test]
fn metrics_render_matches_the_fixed_layout() {
    let m = Metrics::new();
    let text = render_metrics(&m, "http://music");
    assert_eq!(
        text,
        "http_requests: 0\nconnect_errors: 0\ningress: 0\nhit_len_cache: 0\nhit_data_cache: 0\nmiss_len_cache: 0\nmiss_data_cache: 0\nserver_addr: http://music\n"
    );
}

#[test]
fn metrics_render_prints_large_counters_in_decimal() {
    let m = Metrics {
        http_requests: 1234567890,
        connect_errors: 7,
        ingress: u64::MAX,
        hit_len_cache: 10,
        hit_data_cache: 0,
        miss_len_cache: 101,
        miss_data_cache: 99,
    };
    let text = render_metrics(&m, "s");
    assert!(text.contains("http_requests: 1234567890\n"));
    assert!(text.contains("ingress: 18446744073709551615\n"));
    assert!(text.contains("hit_len_cache: 10\n"));
    assert!(text.contains("miss_data_cache: 99\n"));
}

#[test]
fn counters_saturate_instead_of_wrapping() {
    let mut m = Metrics::new();
    m.ingress = u64::MAX - 1;
    m.add_ingress(100);
    assert_eq!(m.ingress, u64::MAX);
    m.http_requests = u64::MAX;
    m.tail_request();
    assert_eq!(m.http_requests, u64::MAX);
}
