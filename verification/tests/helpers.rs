use mirrorfs::fasthashes::{FastHasher, FastMap, FastSet};
use mirrorfs::helper::{
    fill_file_attr, fuse_file_type, mode_allows, FileType, Metadata, Timespec, S_IFBLK, S_IFCHR,
    S_IFDIR, S_IFIFO, S_IFLNK, S_IFMT, S_IFREG,
};
use mirrorfs::mirrorfs::{Capabilities, Capability, FsError, MirrorFS};

fn md(mode: u32, uid: u32, gid: u32) -> Metadata {
    Metadata {
        ino: 77,
        size: 1234,
        blocks: 8,
        atime: 10,
        atime_nsec: 11,
        mtime: 20,
        mtime_nsec: 21,
        ctime: 30,
        ctime_nsec: 31,
        mode,
        nlink: 2,
        uid,
        gid,
        rdev: 0,
    }
}

fn fs(fullaccess: &[u32]) -> MirrorFS<u32> {
    let mut full: FastSet<u32> = FastSet::with_capacity(4);
    for uid in fullaccess {
        full.insert(*uid);
    }
    MirrorFS::new(
        b"/base",
        b"/mnt",
        1000,
        1000,
        FastMap::with_capacity(0),
        FastMap::with_capacity(0),
        full,
        Capabilities { permitted: vec![] },
    )
}

#[test]
fn mode_constants_are_those_of_the_host() {
    assert_eq!(S_IFMT, libc::S_IFMT);
    assert_eq!(S_IFDIR, libc::S_IFDIR);
    assert_eq!(S_IFREG, libc::S_IFREG);
    assert_eq!(S_IFLNK, libc::S_IFLNK);
    assert_eq!(S_IFBLK, libc::S_IFBLK);
    assert_eq!(S_IFIFO, libc::S_IFIFO);
    assert_eq!(S_IFCHR, libc::S_IFCHR);
}

#[test]
fn each_kind_of_file_is_told_from_its_mode() {
    assert_eq!(fuse_file_type(0o040755), FileType::Directory);
    assert_eq!(fuse_file_type(0o100644), FileType::RegularFile);
    assert_eq!(fuse_file_type(0o120777), FileType::Symlink);
    assert_eq!(fuse_file_type(0o060660), FileType::BlockDevice);
    assert_eq!(fuse_file_type(0o010600), FileType::NamedPipe);
    assert_eq!(fuse_file_type(0o020620), FileType::CharDevice);
}

#[test]
fn a_socket_is_reported_as_a_regular_file() {
    assert_eq!(fuse_file_type(0o140755), FileType::RegularFile);
    assert_eq!(fuse_file_type(0), FileType::RegularFile);
}

#[test]
fn attributes_follow_the_metadata() {
    let attr = fill_file_attr(&md(0o100644, 5, 6));
    assert_eq!(attr.ino, 77);
    assert_eq!(attr.size, 1234);
    assert_eq!(attr.blocks, 8);
    assert_eq!(attr.atime, Timespec { sec: 10, nsec: 11 });
    assert_eq!(attr.mtime, Timespec { sec: 20, nsec: 21 });
    assert_eq!(attr.ctime, Timespec { sec: 30, nsec: 31 });
    assert_eq!(attr.crtime, Timespec { sec: 0, nsec: 0 });
    assert_eq!(attr.kind, FileType::RegularFile);
    assert_eq!(attr.perm, 0o100644u32 as u16);
    assert_eq!(attr.perm, 0o100644 & 0xffff);
    assert_eq!(attr.nlink, 2);
    assert_eq!(attr.uid, 5);
    assert_eq!(attr.gid, 6);
    assert_eq!(attr.rdev, 0);
    assert_eq!(attr.flags, 0);
}

#[test]
fn wide_fields_are_cut_to_their_width() {
    let mut m = md(0o40755, 0, 0);
    m.nlink = 0x1_0000_0003;
    m.rdev = 0x2_0000_0805;
    m.mode = 0x0001_41ed;
    let attr = fill_file_attr(&m);
    assert_eq!(attr.nlink, 3);
    assert_eq!(attr.rdev, 0x805);
    assert_eq!(attr.perm, 0x41ed);
}

#[test]
fn the_owner_is_judged_by_the_owner_bits() {
    let m = md(0o100640, 5, 6);
    assert!(mode_allows(5, 99, &m, 4));
    assert!(mode_allows(5, 99, &m, 2));
    assert!(mode_allows(5, 99, &m, 6));
    assert!(!mode_allows(5, 99, &m, 1));
    // The owner is not judged by the group bits, even as a member.
    let m = md(0o100060, 5, 6);
    assert!(!mode_allows(5, 6, &m, 4));
}

#[test]
fn a_group_member_is_judged_by_the_group_bits() {
    let m = md(0o100640, 5, 6);
    assert!(mode_allows(9, 6, &m, 4));
    assert!(!mode_allows(9, 6, &m, 2));
}

#[test]
fn others_are_judged_by_the_other_bits() {
    let m = md(0o100644, 5, 6);
    assert!(mode_allows(9, 9, &m, 4));
    assert!(!mode_allows(9, 9, &m, 2));
    let m = md(0o100640, 5, 6);
    assert!(!mode_allows(9, 9, &m, 4));
}

#[test]
fn access_is_denied_without_the_bits() {
    let f = fs(&[]);
    assert_eq!(f.u_access(9, 9, Ok(md(0o100640, 5, 6)), 4), Err(FsError::NoPermission));
    assert_eq!(f.u_access(5, 9, Ok(md(0o100640, 5, 6)), 4), Ok(()));
    assert_eq!(FsError::NoPermission.errno(), libc::EACCES);
}

#[test]
fn access_fails_with_the_error_of_the_host() {
    let f = fs(&[]);
    assert_eq!(f.u_access(5, 6, Err(libc::ENOENT), 4), Err(FsError::Host(libc::ENOENT)));
}

#[test]
fn full_access_needs_no_bits() {
    let f = fs(&[9]);
    assert!(f.is_almighty(9, 9));
    assert!(!f.is_almighty(5, 9));
    assert_eq!(f.u_access(9, 9, Ok(md(0o100000, 5, 6)), 6), Ok(()));
    assert_eq!(f.u_access(9, 9, Err(libc::ENOENT), 6), Ok(()));
    assert_eq!(f.u_access(8, 9, Ok(md(0o100000, 5, 6)), 6), Err(FsError::NoPermission));
}

#[test]
fn a_capability_is_held_when_it_is_permitted() {
    let caps = Capabilities { permitted: vec![Capability::Setuid, Capability::Fowner] };
    assert!(caps.check(Capability::Setuid));
    assert!(caps.check(Capability::Fowner));
    assert!(!caps.check(Capability::Setgid));
    assert!(!Capabilities { permitted: vec![] }.check(Capability::Chown));
}

#[test]
fn fast_collections_start_empty() {
    let m: FastMap<u64, u64> = FastMap::with_capacity(10);
    assert!(m.is_empty());
    let s: FastSet<u32> = FastSet::with_capacity(10);
    assert!(s.is_empty());
}
