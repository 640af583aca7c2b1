//! What several handlers share: the kind of a file from its mode, the
//! attributes that are reported for it, and the check of permission bits.

use crate::fasthashes::fast_set_contains;
use crate::mirrorfs::FsError;
use crate::mirrorfs::MirrorFS;
use crate::mirrorfs::Settings;
use vstd::prelude::*;

verus! {

broadcast use vstd::std_specs::hash::group_hash_axioms;

/// The bits of a mode that hold the kind of the file.
pub const S_IFMT: u32 = 0o170000;

pub const S_IFIFO: u32 = 0o010000;

pub const S_IFCHR: u32 = 0o020000;

pub const S_IFDIR: u32 = 0o040000;

pub const S_IFBLK: u32 = 0o060000;

pub const S_IFREG: u32 = 0o100000;

pub const S_IFLNK: u32 = 0o120000;

/// The kinds of file that are reported to the kernel.
#[derive(Clone, Copy, Debug, PartialEq, Eq, Structural)]
pub enum FileType {
    NamedPipe,
    CharDevice,
    BlockDevice,
    Directory,
    RegularFile,
    Symlink,
}

/// A point in time: seconds, and nanoseconds within the second.
#[derive(Clone, Copy, Debug, PartialEq, Eq, Structural)]
pub struct Timespec {
    pub sec: i64,
    pub nsec: i32,
}

/// What the backing filesystem tells of a file.
#[derive(Clone, Copy, Debug, PartialEq, Eq, Structural)]
pub struct Metadata {
    pub ino: u64,
    pub size: u64,
    pub blocks: u64,
    pub atime: i64,
    pub atime_nsec: i64,
    pub mtime: i64,
    pub mtime_nsec: i64,
    pub ctime: i64,
    pub ctime_nsec: i64,
    /// The kind of the file and its permission bits.
    pub mode: u32,
    pub nlink: u64,
    pub uid: u32,
    pub gid: u32,
    pub rdev: u64,
}

/// The attributes of a file as they are reported to the kernel.
#[derive(Clone, Copy, Debug, PartialEq, Eq, Structural)]
pub struct FileAttr {
    pub ino: u64,
    pub size: u64,
    pub blocks: u64,
    pub atime: Timespec,
    pub mtime: Timespec,
    pub ctime: Timespec,
    /// The time of creation, which the backing filesystem does not tell.
    pub crtime: Timespec,
    pub kind: FileType,
    pub perm: u16,
    pub nlink: u32,
    pub uid: u32,
    pub gid: u32,
    pub rdev: u32,
    pub flags: u32,
}

/// The kind of file that a mode stands for. Sockets, and modes of no known
/// kind, are reported as regular files.
pub open spec fn kind_of_mode(mode: u32) -> FileType {
    let kind = mode & S_IFMT;
    if kind == S_IFDIR {
        FileType::Directory
    } else if kind == S_IFREG {
        FileType::RegularFile
    } else if kind == S_IFLNK {
        FileType::Symlink
    } else if kind == S_IFBLK {
        FileType::BlockDevice
    } else if kind == S_IFIFO {
        FileType::NamedPipe
    } else if kind == S_IFCHR {
        FileType::CharDevice
    } else {
        FileType::RegularFile
    }
}

pub fn fuse_file_type(mode: u32) -> (kind: FileType)
    ensures
        kind == kind_of_mode(mode),
{
    let kind: u32 = mode & S_IFMT;
    if kind == S_IFDIR {
        FileType::Directory
    } else if kind == S_IFREG {
        FileType::RegularFile
    } else if kind == S_IFLNK {
        FileType::Symlink
    } else if kind == S_IFBLK {
        FileType::BlockDevice
    } else if kind == S_IFIFO {
        FileType::NamedPipe
    } else if kind == S_IFCHR {
        FileType::CharDevice
    } else {
        FileType::RegularFile
    }
}

/// The attributes reported for a file with metadata `md`. The nanoseconds,
/// the permissions, the number of links and the device are cut to the width
/// of their fields.
pub open spec fn attr_of(md: Metadata) -> FileAttr {
    FileAttr {
        ino: md.ino,
        size: md.size,
        blocks: md.blocks,
        atime: Timespec { sec: md.atime, nsec: md.atime_nsec as i32 },
        mtime: Timespec { sec: md.mtime, nsec: md.mtime_nsec as i32 },
        ctime: Timespec { sec: md.ctime, nsec: md.ctime_nsec as i32 },
        crtime: Timespec { sec: 0, nsec: 0 },
        kind: kind_of_mode(md.mode),
        perm: md.mode as u16,
        nlink: md.nlink as u32,
        uid: md.uid,
        gid: md.gid,
        rdev: md.rdev as u32,
        flags: 0,
    }
}

pub fn fill_file_attr(md: &Metadata) -> (attr: FileAttr)
    ensures
        attr == attr_of(*md),
{
    FileAttr {
        ino: md.ino,
        size: md.size,
        blocks: md.blocks,
        atime: Timespec { sec: md.atime, nsec: #[verifier::truncate] (md.atime_nsec as i32) },
        mtime: Timespec { sec: md.mtime, nsec: #[verifier::truncate] (md.mtime_nsec as i32) },
        ctime: Timespec { sec: md.ctime, nsec: #[verifier::truncate] (md.ctime_nsec as i32) },
        crtime: Timespec { sec: 0, nsec: 0 },
        kind: fuse_file_type(md.mode),
        perm: #[verifier::truncate] (md.mode as u16),
        nlink: #[verifier::truncate] (md.nlink as u32),
        uid: md.uid,
        gid: md.gid,
        rdev: #[verifier::truncate] (md.rdev as u32),
        flags: 0,
    }
}

/// The permission bits are the low sixteen bits of the mode, and a time that
/// the backing filesystem gives with nanoseconds below a second keeps them.
pub proof fn lemma_attr_fields(md: Metadata)
    ensures
        attr_of(md).perm == md.mode & 0xffff,
        attr_of(md).nlink == md.nlink & 0xffff_ffff,
        attr_of(md).rdev == md.rdev & 0xffff_ffff,
        0 <= md.atime_nsec < 1_000_000_000 ==> attr_of(md).atime.nsec == md.atime_nsec,
        0 <= md.mtime_nsec < 1_000_000_000 ==> attr_of(md).mtime.nsec == md.mtime_nsec,
        0 <= md.ctime_nsec < 1_000_000_000 ==> attr_of(md).ctime.nsec == md.ctime_nsec,
{
    let mode = md.mode;
    let nlink = md.nlink;
    let rdev = md.rdev;
    assert(mode as u16 == mode & 0xffff) by (bit_vector);
    assert(nlink as u32 == nlink & 0xffff_ffff) by (bit_vector);
    assert(rdev as u32 == rdev & 0xffff_ffff) by (bit_vector);
}

/// The classes of users that permission bits are kept for.
#[derive(Clone, Copy, Debug, PartialEq, Eq, Structural)]
pub enum AccessClass {
    Owner,
    Group,
    Other,
}

/// The class that a user falls in for a file: its owner, else a member of
/// its group, else any other.
pub open spec fn class_of(uid: u32, gid: u32, md: Metadata) -> AccessClass {
    if uid == md.uid {
        AccessClass::Owner
    } else if gid == md.gid {
        AccessClass::Group
    } else {
        AccessClass::Other
    }
}

/// The bits of a mode that `mask` asks for in a class. `mask` holds the
/// wanted kinds of access in its low three bits: 4 to read, 2 to write, 1 to
/// execute.
pub open spec fn wanted_bits(mask: u32, class: AccessClass) -> u32 {
    match class {
        AccessClass::Owner => mask << 6u32,
        AccessClass::Group => mask << 3u32,
        AccessClass::Other => mask,
    }
}

/// Whether the permission bits `mode` grant all that `mask` asks for to the
/// class.
pub open spec fn mode_grants(mode: u32, mask: u32, class: AccessClass) -> bool {
    mode & wanted_bits(mask, class) == wanted_bits(mask, class)
}

/// Whether the permission bits of a file grant `mask` to the user.
pub fn mode_allows(uid: u32, gid: u32, md: &Metadata, mask: u32) -> (granted: bool)
    ensures
        granted == mode_grants(md.mode, mask, class_of(uid, gid, *md)),
{
    let mode: u32 = md.mode;
    let wanted: u32 = if uid == md.uid {
        mask << 6u32
    } else if gid == md.gid {
        mask << 3u32
    } else {
        mask
    };
    assert((mode | wanted == mode) == (mode & wanted == wanted)) by (bit_vector);
    mode | wanted == mode
}

/// Whether a request of `uid` and `gid` is granted the access `mask` to a
/// file. A user with full access is granted everything. For any other, the
/// answer of the backing filesystem decides: its error, where it gave no
/// metadata, and else the permission bits of the user's class.
pub open spec fn access_outcome(
    settings: &Settings,
    uid: u32,
    gid: u32,
    md: Result<Metadata, i32>,
    mask: u32,
) -> Result<(), FsError> {
    let user = settings.mapped_user(uid);
    let group = settings.mapped_group(gid);
    if settings.almighty(user) {
        Ok(())
    } else {
        match md {
            Err(errno) => Err(FsError::Host(errno)),
            Ok(md) => if mode_grants(md.mode, mask, class_of(user, group, md)) {
                Ok(())
            } else {
                Err(FsError::NoPermission)
            },
        }
    }
}

impl<F> MirrorFS<F> {
    /// Whether the user of a request gets every access, so that the file
    /// need not be looked at.
    pub fn is_almighty(&self, uid: u32, gid: u32) -> (almighty: bool)
        ensures
            almighty == self.settings.almighty(self.settings.mapped_user(uid)),
    {
        let (user, group) = self.usermap(uid, gid);
        fast_set_contains(&self.settings.fullaccess, &user)
    }

    /// Allows or denies the access `mask` to a file by the permission bits
    /// of user, group and others. `md` is what the backing filesystem told
    /// of the file, without following a symbolic link.
    pub fn u_access(&self, uid: u32, gid: u32, md: Result<Metadata, i32>, mask: u32) -> (granted: Result<
        (),
        FsError,
    >)
        ensures
            granted == access_outcome(&self.settings, uid, gid, md, mask),
    {
        let (user, group) = self.usermap(uid, gid);
        if fast_set_contains(&self.settings.fullaccess, &user) {
            return Ok(());
        }
        match md {
            Ok(md) => {
                if mode_allows(user, group, &md, mask) {
                    Ok(())
                } else {
                    Err(FsError::NoPermission)
                }
            },
            Err(errno) => Err(FsError::Host(errno)),
        }
    }
}

} // verus!
