//! Resolution of the mount configuration: command-line values win over the
//! configuration file, defaults fill the rest, and the HTTP Basic
//! authorization token is derived from the configured credentials.
use vstd::prelude::*;
use vstd::string::StringExecFns;

verus! {

/// The resolved mount configuration.
#[derive(Default, Debug, Clone, PartialEq)]
pub struct Config {
    pub server: String,
    pub mountpoint: String,
    pub config_file: String,
    pub cache_max_count: u64,
    pub cache_head: u64,
    pub basic_auth: String,
}

/// The raw settings as the command line and the configuration file supply
/// them, before precedence and defaults are applied. `cache_head` values are
/// in KiB.
#[derive(Default, Debug, Clone)]
pub struct RawSettings {
    pub cli_server: Option<String>,
    pub cfg_server: Option<String>,
    pub cli_mountpoint: Option<String>,
    pub cfg_mountpoint: Option<String>,
    pub cli_cache_head: Option<u64>,
    pub cfg_cache_head: Option<u64>,
    pub cli_cache_max: Option<u64>,
    pub cfg_cache_max: Option<u64>,
    pub http_user: Option<String>,
    pub http_pass: Option<String>,
    pub config_file: String,
}

/// Why a configuration cannot be resolved.
#[derive(Debug, Clone, Copy, PartialEq, Eq, Structural)]
pub enum ConfigError {
    MissingServer,
    MissingMountpoint,
}

/// The server address that precedence picks: the command line first, then
/// the configuration file.
pub open spec fn chosen_server(raw: RawSettings) -> Option<Seq<char>> {
    match raw.cli_server {
        Some(s) => Some(s@),
        None => match raw.cfg_server {
            Some(s) => Some(s@),
            None => None,
        },
    }
}

/// The mount point that precedence picks.
pub open spec fn chosen_mountpoint(raw: RawSettings) -> Option<Seq<char>> {
    match raw.cli_mountpoint {
        Some(s) => Some(s@),
        None => match raw.cfg_mountpoint {
            Some(s) => Some(s@),
            None => None,
        },
    }
}

/// The head-cache window in bytes: the chosen KiB value (default 768)
/// scaled by 1024.
pub open spec fn chosen_cache_head(raw: RawSettings) -> int {
    1024 * (match raw.cli_cache_head {
        Some(v) => v as int,
        None => match raw.cfg_cache_head {
            Some(v) => v as int,
            None => 768,
        },
    })
}

/// The head-cache entry bound (default 10).
pub open spec fn chosen_cache_max(raw: RawSettings) -> u64 {
    match raw.cli_cache_max {
        Some(v) => v,
        None => match raw.cfg_cache_max {
            Some(v) => v,
            None => 10,
        },
    }
}

/// The `user:pass` string that is base64-encoded into the Basic
/// authorization token; absent credentials count as empty.
pub open spec fn auth_source(raw: RawSettings) -> Seq<char> {
    (match raw.http_user {
        Some(u) => u@,
        None => Seq::empty(),
    }) + ":"@ + (match raw.http_pass {
        Some(p) => p@,
        None => Seq::empty(),
    })
}

/// The base64 rendering (standard alphabet, padded) of the UTF-8 bytes of a
/// string. The encoding itself is done by an outside crate; this name
/// stands for its result.
pub uninterp spec fn base64_of(s: Seq<char>) -> Seq<char>;

/// Relies on `base64::encode`: the standard-alphabet, padded base64 encoding
/// of the UTF-8 bytes of its input; the result depends on the input alone.
/// The length bound keeps the encoder's output-size computation in range.
#[verifier::external_body]
fn base64_encode(s: &str) -> (r: String)
    requires
        s@.len() <= usize::MAX / 8,
    ensures
        r@ == base64_of(s@),
{
    base64::encode(s)
}

/// Applies precedence (command line over configuration file), fills
/// defaults, scales the head-cache size from KiB to bytes, and derives the
/// Basic authorization token. Fails exactly when neither source names a
/// server, or a server is named but neither source names a mount point.
pub fn resolve(raw: RawSettings) -> (r: Result<Config, ConfigError>)
    requires
        raw.cli_cache_head matches Some(v) ==> v <= u64::MAX / 1024,
        raw.cfg_cache_head matches Some(v) ==> v <= u64::MAX / 1024,
        (match raw.http_user {
            Some(u) => u@.len(),
            None => 0,
        }) <= usize::MAX / 32,
        (match raw.http_pass {
            Some(p) => p@.len(),
            None => 0,
        }) <= usize::MAX / 32,
    ensures
        match r {
            Ok(c) => {
                &&& chosen_server(raw) == Some(c.server@)
                &&& chosen_mountpoint(raw) == Some(c.mountpoint@)
                &&& c.config_file@ == raw.config_file@
                &&& c.cache_head as int == chosen_cache_head(raw)
                &&& c.cache_max_count == chosen_cache_max(raw)
                &&& c.basic_auth@ == base64_of(auth_source(raw))
            },
            Err(ConfigError::MissingServer) => chosen_server(raw) is None,
            Err(ConfigError::MissingMountpoint) => chosen_server(raw) is Some
                && chosen_mountpoint(raw) is None,
        },
{
    let server: String = match raw.cli_server {
        Some(s) => s,
        None => match raw.cfg_server {
            Some(s) => s,
            None => {
                return Err(ConfigError::MissingServer);
            },
        },
    };
    let mountpoint: String = match raw.cli_mountpoint {
        Some(s) => s,
        None => match raw.cfg_mountpoint {
            Some(s) => s,
            None => {
                return Err(ConfigError::MissingMountpoint);
            },
        },
    };
    let head_kib: u64 = match raw.cli_cache_head {
        Some(v) => v,
        None => match raw.cfg_cache_head {
            Some(v) => v,
            None => 768,
        },
    };
    let cache_head: u64 = 1024 * head_kib;
    let cache_max_count: u64 = match raw.cli_cache_max {
        Some(v) => v,
        None => match raw.cfg_cache_max {
            Some(v) => v,
            None => 10,
        },
    };
    let mut buf: String = match &raw.http_user {
        Some(u) => u.as_str().to_owned(),
        None => String::new(),
    };
    buf.append(":");
    match &raw.http_pass {
        Some(p) => buf.append(p.as_str()),
        None => (),
    }
    proof {
        reveal_strlit(":");
    }
    assert(buf@ =~= auth_source(raw));
    assert(buf@.len() <= usize::MAX / 8);
    let basic_auth = base64_encode(buf.as_str());
    Ok(
        Config {
            server,
            mountpoint,
            config_file: raw.config_file,
            cache_max_count,
            cache_head,
            basic_auth,
        },
    )
}

} // verus!
