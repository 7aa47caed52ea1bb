//! File attributes as the filesystem bridge reports them: one record per
//! inode, fixed at mount time.
use vstd::prelude::*;

verus! {

/// What an inode is: the mount root, or a regular file (a track or the
/// synthetic metrics file).
#[derive(Clone, Copy, Debug, PartialEq, Eq, Structural)]
pub enum FileKind {
    Directory,
    RegularFile,
}

/// Attributes of one inode. All timestamps are the mount time, since the
/// remote library is read-only; uid, gid, nlink, rdev and flags are zero.
#[derive(Clone, Copy, Debug, PartialEq, Eq, Structural)]
pub struct FileAttr {
    pub ino: u64,
    pub size: u64,
    pub atime: u64,
    pub mtime: u64,
    pub ctime: u64,
    pub crtime: u64,
    pub kind: FileKind,
    pub perm: u16,
    pub nlink: u32,
    pub uid: u32,
    pub gid: u32,
    pub rdev: u32,
    pub flags: u32,
}

/// A catalog size is advertised as a signed count; a negative value is
/// clamped to zero when it becomes a file size.
pub open spec fn size_to_u64(s: i64) -> u64 {
    if s < 0 {
        0
    } else {
        s as u64
    }
}

/// Attributes of the mount root: a directory with mode `0o755`.
pub open spec fn root_attr(mount_time: u64) -> FileAttr {
    FileAttr {
        ino: 1,
        size: 0,
        atime: mount_time,
        mtime: mount_time,
        ctime: mount_time,
        crtime: mount_time,
        kind: FileKind::Directory,
        perm: 0o755,
        nlink: 0,
        uid: 0,
        gid: 0,
        rdev: 0,
        flags: 0,
    }
}

/// Attributes of a track file: a regular file with mode `0o644` whose size
/// is the catalog's advertised byte count.
pub open spec fn track_attr(ino: u64, size: i64, mount_time: u64) -> FileAttr {
    FileAttr {
        ino: ino,
        size: size_to_u64(size),
        atime: mount_time,
        mtime: mount_time,
        ctime: mount_time,
        crtime: mount_time,
        kind: FileKind::RegularFile,
        perm: 0o644,
        nlink: 0,
        uid: 0,
        gid: 0,
        rdev: 0,
        flags: 0,
    }
}

/// The advertised size of the synthetic metrics file. Its actual contents
/// are shorter; reads are sliced to what is really there.
pub const METRICS_FILE_SIZE: u64 = 4096;

/// Attributes of the synthetic metrics file: read-only, mode `0o444`.
pub open spec fn metrics_attr(ino: u64, mount_time: u64) -> FileAttr {
    FileAttr {
        ino: ino,
        size: METRICS_FILE_SIZE,
        atime: mount_time,
        mtime: mount_time,
        ctime: mount_time,
        crtime: mount_time,
        kind: FileKind::RegularFile,
        perm: 0o444,
        nlink: 0,
        uid: 0,
        gid: 0,
        rdev: 0,
        flags: 0,
    }
}

fn attr_with(ino: u64, size: u64, kind: FileKind, perm: u16, mount_time: u64) -> (r: FileAttr)
    ensures
        r == (FileAttr {
            ino,
            size,
            atime: mount_time,
            mtime: mount_time,
            ctime: mount_time,
            crtime: mount_time,
            kind,
            perm,
            nlink: 0,
            uid: 0,
            gid: 0,
            rdev: 0,
            flags: 0,
        }),
{
    FileAttr {
        ino,
        size,
        atime: mount_time,
        mtime: mount_time,
        ctime: mount_time,
        crtime: mount_time,
        kind,
        perm,
        nlink: 0,
        uid: 0,
        gid: 0,
        rdev: 0,
        flags: 0,
    }
}

/// Builds the root directory's attributes.
pub fn make_root_attr(mount_time: u64) -> (r: FileAttr)
    ensures
        r == root_attr(mount_time),
{
    attr_with(1, 0, FileKind::Directory, 0o755, mount_time)
}

/// Builds a track file's attributes from its inode and advertised size.
pub fn make_track_attr(ino: u64, size: i64, mount_time: u64) -> (r: FileAttr)
    ensures
        r == track_attr(ino, size, mount_time),
{
    let sz: u64 = if size < 0 {
        0
    } else {
        size as u64
    };
    attr_with(ino, sz, FileKind::RegularFile, 0o644, mount_time)
}

/// Builds the metrics file's attributes from its inode.
pub fn make_metrics_attr(ino: u64, mount_time: u64) -> (r: FileAttr)
    ensures
        r == metrics_attr(ino, mount_time),
{
    attr_with(ino, METRICS_FILE_SIZE, FileKind::RegularFile, 0o444, mount_time)
}

} // verus!
