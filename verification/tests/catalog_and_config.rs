//! Tests of the inode table, the directory listing, and the configuration
//! resolution.
use mus_fuse::attr::FileKind;
use mus_fuse::config::{resolve, Config, ConfigError, RawSettings};
use mus_fuse::engine::Fs;
use mus_fuse::track::{Entry, Track};

fn track(id: &str, path: &str, size: i64) -> Track {
    Track {
        id: id.to_string(),
        path: path.to_string(),
        size,
        name: None,
        artist: None,
        album: None,
        genre: None,
        year: None,
        format: None,
        filetype: None,
    }
}

fn three_track_fs() -> Fs {
    Fs::new(
        vec![
            track("t1", "/x/a.mp3", 111),
            track("t2", "/x/b%20c.mp3", 222),
            track("t3", "/x/d.flac", 333),
        ],
        "http://s".to_string(),
        768 * 1024,
        10,
        5000,
    )
}

#[test]
fn table_has_one_entry_per_track_plus_root_and_metrics() {
    let fs = three_track_fs();
    assert_eq!(fs.table.attrs.len(), 5);
    assert_eq!(fs.table.names.len(), 5);
}

#[test]
fn root_attributes() {
    let fs = three_track_fs();
    let a = fs.table.getattr(1).unwrap();
    assert_eq!(a.ino, 1);
    assert_eq!(a.kind, FileKind::Directory);
    assert_eq!(a.perm, 0o755);
    assert_eq!(a.mtime, 5000);
    assert_eq!(a.uid, 0);
}

#[test]
fn track_attributes_use_catalog_order_and_size() {
    let fs = three_track_fs();
    let a = fs.table.getattr(3).unwrap();
    assert_eq!(a.ino, 3);
    assert_eq!(a.size, 222);
    assert_eq!(a.kind, FileKind::RegularFile);
    assert_eq!(a.perm, 0o644);
}

#[test]
fn negative_catalog_size_clamps_to_zero() {
    let fs = Fs::new(
        vec![track("t1", "/a.mp3", -5)],
        "http://s".to_string(),
        768 * 1024,
        10,
        0,
    );
    assert_eq!(fs.table.getattr(2).unwrap().size, 0);
}

#[test]
fn metrics_file_attributes() {
    let fs = three_track_fs();
    let a = fs.table.getattr(5).unwrap();
    assert_eq!(a.ino, 5);
    assert_eq!(a.size, 4096);
    assert_eq!(a.perm, 0o444);
    assert_eq!(a.kind, FileKind::RegularFile);
}

#[test]
fn unknown_inode_has_no_attributes() {
    let fs = three_track_fs();
    assert!(fs.table.getattr(0).is_none());
    assert!(fs.table.getattr(6).is_none());
}

#[test]
fn lookup_resolves_decoded_basenames() {
    let fs = three_track_fs();
    let (ino, attr) = fs.table.lookup_by_name(b"a.mp3").unwrap();
    assert_eq!(ino, 2);
    assert_eq!(attr.ino, 2);
    let (ino2, _) = fs.table.lookup_by_name(b"b c.mp3").unwrap();
    assert_eq!(ino2, 3);
    let (mino, mattr) = fs.table.lookup_by_name(b"METRICS.TXT").unwrap();
    assert_eq!(mino, 5);
    assert_eq!(mattr.size, 4096);
    assert!(fs.table.lookup_by_name(b"nope.mp3").is_none());
}

#[test]
fn lookup_collision_is_won_by_the_later_track() {
    let fs = Fs::new(
        vec![track("t1", "/x/same.mp3", 1), track("t2", "/y/same.mp3", 2)],
        "http://s".to_string(),
        768 * 1024,
        10,
        0,
    );
    let (ino, _) = fs.table.lookup_by_name(b"same.mp3").unwrap();
    assert_eq!(ino, 3);
}

#[test]
fn readdir_lists_dot_entries_then_tracks_then_metrics() {
    let fs = three_track_fs();
    let all = fs.table.readdir(1, 0).unwrap();
    assert_eq!(all.len(), 6);
    assert_eq!(all[0].name, b".".to_vec());
    assert_eq!(all[0].ino, 1);
    assert_eq!(all[1].name, b"..".to_vec());
    assert_eq!(all[1].ino, 1);
    assert_eq!(all[2].name, b"a.mp3".to_vec());
    assert_eq!(all[2].ino, 2);
    assert_eq!(all[3].name, b"b c.mp3".to_vec());
    assert_eq!(all[4].name, b"d.flac".to_vec());
    assert_eq!(all[5].name, b"METRICS.TXT".to_vec());
    assert_eq!(all[5].ino, 5);
    assert_eq!(all[5].kind, FileKind::RegularFile);
    for (i, e) in all.iter().enumerate() {
        assert_eq!(e.cookie, i as u64 + 1);
    }
}

#[test]
fn readdir_resumes_at_the_cookie() {
    let fs = three_track_fs();
    let all = fs.table.readdir(1, 0).unwrap();
    let rest = fs.table.readdir(1, all[2].cookie).unwrap();
    assert_eq!(rest.len(), 3);
    assert_eq!(rest[0].name, b"b c.mp3".to_vec());
    let none = fs.table.readdir(1, 6).unwrap();
    assert!(none.is_empty());
}

#[test]
fn readdir_outside_root_is_enoent() {
    let fs = three_track_fs();
    assert_eq!(fs.table.readdir(2, 0).unwrap_err(), mus_fuse::ENOENT);
}

#[test]
fn empty_catalog_still_has_root_and_metrics() {
    let mut fs = Fs::new(Vec::new(), "http://s".to_string(), 768 * 1024, 10, 0);
    assert_eq!(fs.table.attrs.len(), 2);
    assert_eq!(fs.table.names.len(), 2);
    assert_eq!(fs.metrics_ino(), 2);
    let all = fs.table.readdir(1, 0).unwrap();
    assert_eq!(all.len(), 3);
    assert_eq!(all[2].name, b"METRICS.TXT".to_vec());
    // inode 2 is the metrics file here, not a track
    match fs.read_start(2, 0, 4096) {
        mus_fuse::engine::ReadStep::Done(Ok(bytes)) => {
            let text = String::from_utf8(bytes).unwrap();
            assert!(text.starts_with("http_requests: 0\n"));
        }
        _ => panic!("the metrics inode must reply immediately"),
    }
}

fn raw() -> RawSettings {
    RawSettings {
        cli_server: None,
        cfg_server: None,
        cli_mountpoint: None,
        cfg_mountpoint: None,
        cli_cache_head: None,
        cfg_cache_head: None,
        cli_cache_max: None,
        cfg_cache_max: None,
        http_user: None,
        http_pass: None,
        config_file: "/etc/mus-fuse.yaml".to_string(),
    }
}

#[test]
fn resolve_fails_without_a_server() {
    let r = resolve(raw());
    assert_eq!(r.unwrap_err(), ConfigError::MissingServer);
}

#[test]
fn resolve_fails_without_a_mountpoint() {
    let mut s = raw();
    s.cfg_server = Some("http://s".to_string());
    assert_eq!(resolve(s).unwrap_err(), ConfigError::MissingMountpoint);
}

#[test]
fn resolve_applies_defaults() {
    let mut s = raw();
    s.cfg_server = Some("http://s".to_string());
    s.cfg_mountpoint = Some("/mnt".to_string());
    let c = resolve(s).unwrap();
    assert_eq!(c.server, "http://s");
    assert_eq!(c.mountpoint, "/mnt");
    assert_eq!(c.cache_head, 768 * 1024);
    assert_eq!(c.cache_max_count, 10);
    assert_eq!(c.config_file, "/etc/mus-fuse.yaml");
}

#[test]
fn resolve_lets_the_command_line_win() {
    let mut s = raw();
    s.cfg_server = Some("http://cfg".to_string());
    s.cli_server = Some("http://cli".to_string());
    s.cfg_mountpoint = Some("/cfg".to_string());
    s.cli_mountpoint = Some("/cli".to_string());
    s.cfg_cache_head = Some(100);
    s.cli_cache_head = Some(64);
    s.cfg_cache_max = Some(5);
    s.cli_cache_max = Some(7);
    let c = resolve(s).unwrap();
    assert_eq!(c.server, "http://cli");
    assert_eq!(c.mountpoint, "/cli");
    assert_eq!(c.cache_head, 64 * 1024, "the cache head is given in KiB");
    assert_eq!(c.cache_max_count, 7);
}

#[test]
fn resolve_encodes_basic_auth() {
    let mut s = raw();
    s.cfg_server = Some("http://s".to_string());
    s.cfg_mountpoint = Some("/mnt".to_string());
    s.http_user = Some("user".to_string());
    s.http_pass = Some("pass".to_string());
    let c = resolve(s).unwrap();
    assert_eq!(c.basic_auth, "dXNlcjpwYXNz");
}

#[test]
fn resolve_encodes_empty_credentials() {
    let mut s = raw();
    s.cfg_server = Some("http://s".to_string());
    s.cfg_mountpoint = Some("/mnt".to_string());
    let c = resolve(s).unwrap();
    assert_eq!(c.basic_auth, "Og==", "no credentials still yields base64 of \":\"");
}

#[test]
fn config_and_entry_records_hold_their_fields() {
    let c = Config {
        server: "http://s".to_string(),
        mountpoint: "/mnt".to_string(),
        config_file: "/etc/mus-fuse.yaml".to_string(),
        cache_max_count: 10,
        cache_head: 786432,
        basic_auth: String::new(),
    };
    assert_eq!(c.clone(), c);
    let e = Entry {
        name: Some("a.mp3".to_string()),
        entry_type: Some("file".to_string()),
        mtime: None,
        size: Some(123),
    };
    assert_eq!(e.size, Some(123));
    assert_eq!(Entry::default().name, None);
}
