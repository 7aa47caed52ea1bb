//! The inode table, built once from the catalog and immutable afterwards.
//!
//! Inode `1` is the mount root; inodes `2..=k+1` are the `k` tracks in
//! catalog order, so index `ino - 2` selects the track record; inode `k+2`
//! is the synthetic metrics file. Directory names are the percent-decoded
//! basenames of the tracks' URL paths; on a collision the last track wins.
use vstd::prelude::*;
use vstd::string::StrSliceExecFns;
use vstd::utf8::encode_utf8;
use crate::attr::{
    make_metrics_attr, make_root_attr, make_track_attr, metrics_attr, root_attr, track_attr,
    FileAttr, FileKind,
};
use crate::text::{basename, bytes_eq, clone_bytes, basename_bytes, percent_decode, percent_decode_bytes};
use crate::track::Track;
use crate::ENOENT;

verus! {

/// One name known inside the mount root, with the inode it resolves to.
pub struct NameEntry {
    pub name: Vec<u8>,
    pub ino: u64,
}

/// One entry of a directory listing, with the offset cookie at which the
/// listing resumes after it.
#[derive(Debug)]
pub struct DirEntry {
    pub ino: u64,
    pub cookie: u64,
    pub kind: FileKind,
    pub name: Vec<u8>,
}

/// The name of the synthetic metrics file, as bytes.
pub open spec fn metrics_name() -> Seq<u8> {
    seq![77u8, 69u8, 84u8, 82u8, 73u8, 67u8, 83u8, 46u8, 84u8, 88u8, 84u8]
}

/// The directory name a track gets: the percent-decoded basename of its
/// URL path's UTF-8 bytes.
pub open spec fn track_name(path: Seq<char>) -> Seq<u8> {
    percent_decode(basename(encode_utf8(path)))
}

/// The index of the last name entry matching `n`, or `-1`: on a basename
/// collision the later track wins.
pub open spec fn last_match(names: Seq<NameEntry>, n: Seq<u8>) -> int
    decreases names.len(),
{
    if names.len() == 0 {
        -1
    } else if names.last().name@ == n {
        names.len() - 1
    } else {
        last_match(names.drop_last(), n)
    }
}

/// The inode table.
pub struct InodeTable {
    pub tracks: Vec<Track>,
    pub attrs: Vec<FileAttr>,
    pub names: Vec<NameEntry>,
    pub urls: Vec<String>,
    pub server: String,
    pub mount_time: u64,
}

impl InodeTable {
    /// Well-formed: attribute, name and URL tables are complete and pinned
    /// to the catalog.
    pub open spec fn wf(&self) -> bool {
        &&& self.tracks@.len() + 3 <= u64::MAX
        &&& self.tracks@.len() + 3 <= usize::MAX
        &&& self.attrs@.len() == self.tracks@.len() + 2
        &&& self.names@.len() == self.tracks@.len() + 2
        &&& self.urls@.len() == self.tracks@.len()
        &&& self.attrs@[0] == root_attr(self.mount_time)
        &&& forall|i: int|
            0 <= i < self.tracks@.len() ==> self.attrs@[i + 1] == track_attr(
                (i + 2) as u64,
                self.tracks@[i].size,
                self.mount_time,
            )
        &&& self.attrs@[self.tracks@.len() as int + 1] == metrics_attr(
            (self.tracks@.len() + 2) as u64,
            self.mount_time,
        )
        &&& self.names@[0].ino == 1 && self.names@[0].name@ == seq![46u8]
        &&& forall|i: int|
            0 <= i < self.tracks@.len() ==> (#[trigger] self.names@[i + 1]).ino == i + 2
                && self.names@[i + 1].name@ == track_name(self.tracks@[i].path@)
        &&& self.names@[self.tracks@.len() as int + 1].ino == self.tracks@.len() + 2
        &&& self.names@[self.tracks@.len() as int + 1].name@ == metrics_name()
        &&& forall|i: int|
            0 <= i < self.tracks@.len() ==> (#[trigger] self.urls@[i])@ == self.server@
                + self.tracks@[i].path@
    }

    /// Every name entry points at a real inode.
    pub proof fn lemma_name_inos_in_range(&self)
        requires
            self.wf(),
        ensures
            forall|i: int|
                0 <= i < self.names@.len() ==> 1 <= (#[trigger] self.names@[i]).ino
                    <= self.attrs@.len(),
    {
        assert forall|i: int|
            0 <= i < self.names@.len() implies 1 <= (#[trigger] self.names@[i]).ino
            <= self.attrs@.len() by {
            if i == 0 {
            } else if i < self.names@.len() - 1 {
                assert(self.names@[(i - 1) + 1].ino == (i - 1) + 2);
            }
        }
    }

    /// Builds the table from the catalog. Attribute and name tables get one
    /// entry for the root, one per track, and one for the metrics file.
    pub fn build(tracks: Vec<Track>, server: String, mount_time: u64) -> (r: InodeTable)
        requires
            tracks@.len() + 3 <= u64::MAX,
            tracks@.len() + 3 <= usize::MAX,
        ensures
            r.wf(),
            r.tracks@ == tracks@,
            r.server@ == server@,
            r.mount_time == mount_time,
    {
        let k: usize = tracks.len();
        let mut attrs: Vec<FileAttr> = Vec::new();
        let mut names: Vec<NameEntry> = Vec::new();
        let mut urls: Vec<String> = Vec::new();
        attrs.push(make_root_attr(mount_time));
        let mut dot: Vec<u8> = Vec::new();
        dot.push(46);
        assert(dot@ =~= seq![46u8]);
        names.push(NameEntry { name: dot, ino: 1 });
        let mut i: usize = 0;
        while i < k
            invariant
                i <= k,
                k == tracks@.len(),
                tracks@.len() + 3 <= u64::MAX,
                tracks@.len() + 3 <= usize::MAX,
                attrs@.len() == i + 1,
                names@.len() == i + 1,
                urls@.len() == i,
                attrs@[0] == root_attr(mount_time),
                names@[0].ino == 1 && names@[0].name@ == seq![46u8],
                forall|t: int|
                    0 <= t < i ==> attrs@[t + 1] == track_attr(
                        (t + 2) as u64,
                        tracks@[t].size,
                        mount_time,
                    ),
                forall|t: int|
                    0 <= t < i ==> (#[trigger] names@[t + 1]).ino == t + 2 && names@[t
                        + 1].name@ == track_name(tracks@[t].path@),
                forall|t: int|
                    0 <= t < i ==> (#[trigger] urls@[t])@ == server@ + tracks@[t].path@,
            decreases k - i,
        {
            let ino: u64 = (i as u64) + 2;
            attrs.push(make_track_attr(ino, tracks[i].size, mount_time));
            let path_bytes = tracks[i].path.as_str().as_bytes_vec();
            let base = basename_bytes(&path_bytes);
            let decoded = percent_decode_bytes(&base);
            names.push(NameEntry { name: decoded, ino });
            let mut u: String = server.as_str().to_owned();
            u.append(tracks[i].path.as_str());
            urls.push(u);
            i = i + 1;
        }
        let metrics_ino: u64 = (k as u64) + 2;
        attrs.push(make_metrics_attr(metrics_ino, mount_time));
        let mut mname: Vec<u8> = Vec::new();
        mname.push(77);
        mname.push(69);
        mname.push(84);
        mname.push(82);
        mname.push(73);
        mname.push(67);
        mname.push(83);
        mname.push(46);
        mname.push(84);
        mname.push(88);
        mname.push(84);
        assert(mname@ =~= metrics_name());
        names.push(NameEntry { name: mname, ino: metrics_ino });
        InodeTable { tracks, attrs, names, urls, server, mount_time }
    }

    /// The attributes of `ino`, if it exists.
    pub fn getattr(&self, ino: u64) -> (r: Option<FileAttr>)
        requires
            self.wf(),
        ensures
            r == if 1 <= ino && ino <= self.attrs@.len() {
                Some(self.attrs@[ino - 1])
            } else {
                None::<FileAttr>
            },
    {
        if ino >= 1 && ino <= self.attrs.len() as u64 {
            Some(self.attrs[(ino - 1) as usize])
        } else {
            None
        }
    }

    /// Resolves a name inside the mount root. On a collision the latest
    /// entry wins; a miss means `ENOENT` to the caller.
    pub fn lookup_by_name(&self, name: &[u8]) -> (r: Option<(u64, FileAttr)>)
        requires
            self.wf(),
        ensures
            ({
                let j = last_match(self.names@, name@);
                if j >= 0 {
                    r == Some(
                        (self.names@[j].ino, self.attrs@[self.names@[j].ino - 1]),
                    )
                } else {
                    r is None
                }
            }),
    {
        let n = self.names.len();
        let mut i: usize = n;
        proof {
            assert(self.names@.take(n as int) =~= self.names@);
        }
        while i > 0
            invariant
                i <= n,
                n == self.names@.len(),
                self.wf(),
                last_match(self.names@, name@) == last_match(self.names@.take(i as int), name@),
            decreases i,
        {
            proof {
                assert(self.names@.take(i as int).drop_last() =~= self.names@.take(i as int - 1));
                assert(self.names@.take(i as int).last() == self.names@[i as int - 1]);
            }
            if bytes_eq(self.names[i - 1].name.as_slice(), name) {
                proof {
                    self.lemma_name_inos_in_range();
                }
                let ino = self.names[i - 1].ino;
                return Some((ino, self.attrs[(ino - 1) as usize]));
            }
            i = i - 1;
        }
        proof {
            assert(self.names@.take(0) =~= Seq::<NameEntry>::empty());
        }
        None
    }

    /// How many entries a full listing of the root has: `.` and `..`, one
    /// per track, and the metrics file.
    pub open spec fn dir_len(&self) -> int {
        self.tracks@.len() as int + 3
    }

    /// The inode at position `j` of the full listing.
    pub open spec fn dir_ino(&self, j: int) -> u64 {
        if j < 2 {
            1
        } else {
            self.names@[j - 1].ino
        }
    }

    /// The name at position `j` of the full listing.
    pub open spec fn dir_name(&self, j: int) -> Seq<u8> {
        if j == 0 {
            seq![46u8]
        } else if j == 1 {
            seq![46u8, 46u8]
        } else {
            self.names@[j - 1].name@
        }
    }

    /// The kind at position `j` of the full listing.
    pub open spec fn dir_kind(&self, j: int) -> FileKind {
        if j < 2 {
            FileKind::Directory
        } else {
            self.attrs@[self.dir_ino(j) - 1].kind
        }
    }

    /// Lists the root directory from `offset` on: `.` and `..` first, then
    /// every non-root inode in name-table order. Each entry carries the
    /// offset at which the listing resumes after it.
    pub fn list_entries(&self, offset: u64) -> (r: Vec<DirEntry>)
        requires
            self.wf(),
        ensures
            r@.len() == if offset < self.dir_len() {
                self.dir_len() - offset
            } else {
                0
            },
            forall|t: int|
                0 <= t < r@.len() ==> {
                    &&& (#[trigger] r@[t]).ino == self.dir_ino(offset + t)
                    &&& r@[t].name@ == self.dir_name(offset + t)
                    &&& r@[t].kind == self.dir_kind(offset + t)
                    &&& r@[t].cookie == offset + t + 1
                },
    {
        let total: u64 = self.tracks.len() as u64 + 3;
        let mut out: Vec<DirEntry> = Vec::new();
        if offset >= total {
            return out;
        }
        let mut j: u64 = offset;
        while j < total
            invariant
                offset <= j <= total,
                self.wf(),
                total == self.dir_len(),
                out@.len() == j - offset,
                forall|t: int|
                    0 <= t < out@.len() ==> {
                        &&& (#[trigger] out@[t]).ino == self.dir_ino(offset + t)
                        &&& out@[t].name@ == self.dir_name(offset + t)
                        &&& out@[t].kind == self.dir_kind(offset + t)
                        &&& out@[t].cookie == offset + t + 1
                    },
            decreases total - j,
        {
            proof {
                self.lemma_name_inos_in_range();
            }
            let entry: DirEntry = if j == 0 {
                let mut dot: Vec<u8> = Vec::new();
                dot.push(46);
                assert(dot@ =~= seq![46u8]);
                DirEntry { ino: 1, cookie: j + 1, kind: FileKind::Directory, name: dot }
            } else if j == 1 {
                let mut dotdot: Vec<u8> = Vec::new();
                dotdot.push(46);
                dotdot.push(46);
                assert(dotdot@ =~= seq![46u8, 46u8]);
                DirEntry { ino: 1, cookie: j + 1, kind: FileKind::Directory, name: dotdot }
            } else {
                let ne_ino = self.names[(j - 1) as usize].ino;
                let nm = clone_bytes(&self.names[(j - 1) as usize].name);
                let kind = self.attrs[(ne_ino - 1) as usize].kind;
                DirEntry { ino: ne_ino, cookie: j + 1, kind, name: nm }
            };
            assert(entry.ino == self.dir_ino(j as int));
            assert(entry.name@ == self.dir_name(j as int));
            assert(entry.kind == self.dir_kind(j as int));
            out.push(entry);
            j = j + 1;
        }
        out
    }

    /// Serves a `readdir` upcall: only the root is a directory; any other
    /// inode is answered with `ENOENT`.
    pub fn readdir(&self, ino: u64, offset: u64) -> (r: Result<Vec<DirEntry>, i32>)
        requires
            self.wf(),
        ensures
            match r {
                Ok(v) => ino == 1 && v@.len() == if offset < self.dir_len() {
                    self.dir_len() - offset
                } else {
                    0
                } && forall|t: int|
                    0 <= t < v@.len() ==> {
                        &&& (#[trigger] v@[t]).ino == self.dir_ino(offset + t)
                        &&& v@[t].name@ == self.dir_name(offset + t)
                        &&& v@[t].kind == self.dir_kind(offset + t)
                        &&& v@[t].cookie == offset + t + 1
                    },
                Err(e) => ino != 1 && e == ENOENT,
            },
    {
        if ino != 1 {
            return Err(ENOENT);
        }
        Ok(self.list_entries(offset))
    }
}

} // verus!
