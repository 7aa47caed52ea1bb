//! Records describing what the remote library serves.
use vstd::prelude::*;
use vstd::string::StringExecFns;

verus! {

/// One track of the remote catalog. `id` is an opaque key used by the
/// length cache, `path` is the server-relative, percent-encoded URL path
/// (expected to begin with `/`), and `size` is the byte count the catalog
/// advertises, which may differ from the true content length. The remaining
/// fields are descriptive only and are preserved for display.
#[derive(Debug, Clone)]
pub struct Track {
    pub id: String,
    pub path: String,
    pub size: i64,
    pub name: Option<String>,
    pub artist: Option<String>,
    pub album: Option<String>,
    pub genre: Option<String>,
    pub year: Option<i64>,
    pub format: Option<String>,
    pub filetype: Option<String>,
}

/// The URL the catalog is fetched from: `{server}/songs`.
pub fn catalog_url(server: &str) -> (r: String)
    ensures
        r@ == server@ + "/songs"@,
{
    let mut u: String = server.to_owned();
    u.append("/songs");
    u
}

/// One record of a remote directory listing, as HTTP index endpoints
/// publish it. Every field is optional; the record is kept for display.
#[derive(Default, Debug, Clone, PartialEq)]
pub struct Entry {
    pub name: Option<String>,
    pub entry_type: Option<String>,
    pub mtime: Option<String>,
    pub size: Option<u64>,
}

} // verus!
