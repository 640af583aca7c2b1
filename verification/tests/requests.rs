use mirrorfs::fasthashes::{FastHasher, FastMap, FastSet};
use mirrorfs::helper::{fill_file_attr, Metadata, Timespec};
use mirrorfs::mirrorfs::{
    chown_ids, done_reply, getattr, getxattr_probe, holds, listxattr_probe, mknod_mode, open_mode,
    push_path, read_step, readlink, setattr_steps, statfs, status_reply, ttl, xattr_settled,
    Capabilities, FsError, MirrorFS, OpenMode, ReadEvent, ReadNext, Reply, SetattrRequest,
    SetattrStep, Statfs, XattrProbe, EACCES, EEXIST, ENOENT, ENOSYS, O_APPEND, O_RDONLY, O_RDWR,
    O_TRUNC, O_WRONLY,
};

fn md(ino: u64) -> Metadata {
    Metadata {
        ino,
        size: 3,
        blocks: 1,
        atime: 1,
        atime_nsec: 0,
        mtime: 2,
        mtime_nsec: 0,
        ctime: 3,
        ctime_nsec: 0,
        mode: 0o100644,
        nlink: 1,
        uid: 10,
        gid: 20,
        rdev: 0,
    }
}

fn fs() -> MirrorFS<u32> {
    MirrorFS::new(
        b"/base",
        b"/mnt",
        1000,
        1000,
        FastMap::with_capacity(0),
        FastMap::with_capacity(0),
        FastSet::with_capacity(0),
        Capabilities { permitted: vec![] },
    )
}

fn nothing() -> SetattrRequest {
    SetattrRequest {
        mode: None,
        uid: None,
        gid: None,
        size: None,
        atime: None,
        mtime: None,
        crtime: None,
        chgtime: None,
        bkuptime: None,
        flags: None,
    }
}

#[test]
fn host_constants_are_those_of_the_host() {
    assert_eq!(O_RDONLY as i32, libc::O_RDONLY);
    assert_eq!(O_WRONLY as i32, libc::O_WRONLY);
    assert_eq!(O_RDWR as i32, libc::O_RDWR);
    assert_eq!(O_APPEND as i32, libc::O_APPEND);
    assert_eq!(O_TRUNC as i32, libc::O_TRUNC);
    assert_eq!(ENOENT, libc::ENOENT);
    assert_eq!(EACCES, libc::EACCES);
    assert_eq!(EEXIST, libc::EEXIST);
    assert_eq!(ENOSYS, libc::ENOSYS);
}

#[test]
fn each_failure_has_its_error_number() {
    assert_eq!(FsError::NoEntry.errno(), 2);
    assert_eq!(FsError::NoPermission.errno(), 13);
    assert_eq!(FsError::Exists.errno(), 17);
    assert_eq!(FsError::Unsupported.errno(), 38);
    assert_eq!(FsError::Host(5).errno(), 5);
}

#[test]
fn the_root_is_cached_and_pinned_from_the_start() {
    let f = fs();
    assert_eq!(f.inodes.resolve(1), b"/base".to_vec());
    assert!(f.inodes.hot_files.is_hot(1));
    assert_eq!(f.inodes.hot_files.last_handle(), 1);
    assert_eq!(f.base_path, b"/base".to_vec());
    assert_eq!(f.virtual_path, b"/mnt".to_vec());
    assert_eq!(f.inodes.journal_len(), 30);
    assert_eq!(f.inodes.inode_mutex.min_age(), 2);
    assert!(f.has_room());
}

#[test]
fn pushing_a_part_onto_a_path() {
    let mut p = b"/base".to_vec();
    push_path(&mut p, b"dir");
    assert_eq!(p, b"/base/dir".to_vec());
    push_path(&mut p, b"/other");
    assert_eq!(p, b"/other".to_vec());
    let mut p = b"/base/".to_vec();
    push_path(&mut p, b"x");
    assert_eq!(p, b"/base/x".to_vec());
    let mut p = Vec::new();
    push_path(&mut p, b"x");
    assert_eq!(p, b"x".to_vec());
    let mut p = b"/base".to_vec();
    push_path(&mut p, b"");
    assert_eq!(p, b"/base/".to_vec());
}

#[test]
fn names_are_found_below_their_parents() {
    let mut f = fs();
    assert_eq!(f.name2original(b"file", 1), b"/base/file".to_vec());
    f.inodes.store_at(5, b"/base/dir", 0, 0);
    assert_eq!(f.name2original(b"file", 5), b"/base/dir/file".to_vec());
    // A parent that is not cached resolves to the empty path.
    assert_eq!(f.name2original(b"file", 6), b"/base/file".to_vec());
}

#[test]
fn an_entry_is_stored_and_reported() {
    let mut f = fs();
    let reply = f.entry(b"/base/a", Ok(md(42)), 7);
    assert_eq!(reply, Reply::Entry { ttl: ttl(), attr: fill_file_attr(&md(42)), generation: 0 });
    assert_eq!(ttl(), Timespec { sec: 1, nsec: 0 });
    assert_eq!(f.inodes.resolve(42), b"/base/a".to_vec());
}

#[test]
fn an_entry_that_is_not_there_is_an_error() {
    let mut f = fs();
    let reply = f.entry(b"/base/a", Err(libc::ENOENT), 7);
    assert_eq!(reply, Reply::Error(FsError::Host(libc::ENOENT)));
    assert!(!f.inodes.contains(42));
}

#[test]
fn forgetting_drops_the_inode() {
    let mut f = fs();
    f.entry(b"/base/a", Ok(md(42)), 7);
    f.entry(b"/base/b", Ok(md(42)), 7);
    f.forget(42, 1, 7);
    assert!(!f.inodes.contains(42));
    f.forget(43, 1, 7);
}

#[test]
fn unlinking_drops_the_path() {
    let mut f = fs();
    f.entry(b"/base/a", Ok(md(42)), 7);
    f.entry(b"/base/b", Ok(md(42)), 7);
    assert_eq!(f.unlink(b"/base/a", Ok(42)), Reply::Done);
    assert_eq!(f.inodes.resolve(42), b"/base/b".to_vec());
    assert_eq!(f.unlink(b"/base/b", Err(libc::EACCES)), Reply::Error(FsError::Host(libc::EACCES)));
    assert_eq!(f.inodes.resolve(42), b"/base/b".to_vec());
    assert_eq!(f.unlink(b"/base/b", Ok(42)), Reply::Done);
    assert!(!f.inodes.contains(42));
}

#[test]
fn renaming_moves_the_path() {
    let mut f = fs();
    f.entry(b"/base/a", Ok(md(42)), 7);
    assert_eq!(f.rename(b"/base/a", b"/base/z", Ok(42), 7), Reply::Done);
    assert_eq!(f.inodes.resolve(42), b"/base/z".to_vec());
    assert_eq!(f.inodes.inode_mutex.link_count(42), 1);
    assert_eq!(
        f.rename(b"/base/z", b"/base/y", Err(libc::EXDEV), 7),
        Reply::Error(FsError::Host(libc::EXDEV))
    );
    assert_eq!(f.inodes.resolve(42), b"/base/z".to_vec());
}

#[test]
fn a_link_onto_itself_exists() {
    let mut f = fs();
    f.entry(b"/base/a", Ok(md(42)), 7);
    assert_eq!(f.link_paths(42, 1, b"a"), Err(FsError::Exists));
    assert_eq!(FsError::Exists.errno(), libc::EEXIST);
    assert_eq!(f.link_paths(42, 1, b"b"), Ok((b"/base/a".to_vec(), b"/base/b".to_vec())));
}

#[test]
fn handles_are_made_and_released() {
    let mut f = fs();
    assert_eq!(f.opendir(5, 0o4000), Reply::Opened { fh: 2, flags: 0o4000 });
    assert!(f.inodes.hot_files.is_hot(5));
    assert!(!f.inodes.hot_files.has_file(2));
    assert_eq!(f.open(6, 2, Ok(33)), Reply::Opened { fh: 3, flags: 2 });
    assert!(f.inodes.hot_files.has_file(3));
    assert_eq!(f.open(7, 2, Err(libc::EACCES)), Reply::Error(FsError::Host(libc::EACCES)));
    assert!(!f.inodes.hot_files.is_hot(7));
    assert_eq!(f.release(2), Reply::Done);
    assert!(!f.inodes.hot_files.is_hot(5));
    assert_eq!(f.release(3), Reply::Done);
    assert!(!f.inodes.hot_files.is_hot(6));
    assert!(f.inodes.hot_files.is_hot(1));
}

#[test]
fn a_created_file_is_stored_and_opened() {
    let mut f = fs();
    let reply = f.create(b"/base/new", 0o102, Ok((55, md(42))), 7);
    assert_eq!(
        reply,
        Reply::Created { ttl: ttl(), attr: fill_file_attr(&md(42)), generation: 0, fh: 2, flags: 0o102 }
    );
    assert_eq!(f.inodes.resolve(42), b"/base/new".to_vec());
    assert!(f.inodes.hot_files.is_hot(42));
    assert_eq!(f.inodes.hot_files.take_file(2), 55);
    let reply = f.create(b"/base/new", 0o102, Err(libc::EEXIST), 7);
    assert_eq!(reply, Reply::Error(FsError::Host(libc::EEXIST)));
}

#[test]
fn flags_are_read_bit_by_bit() {
    assert!(holds(0o1002, O_RDWR));
    assert!(!holds(0o1001, O_RDWR));
    assert!(holds(5, 0));
    assert_eq!(
        open_mode(O_RDONLY),
        OpenMode { read: true, write: false, append: false, truncate: false }
    );
    assert_eq!(
        open_mode(O_WRONLY),
        OpenMode { read: true, write: true, append: false, truncate: false }
    );
    assert_eq!(
        open_mode(O_RDWR | O_APPEND),
        OpenMode { read: true, write: true, append: true, truncate: false }
    );
    assert_eq!(
        open_mode(O_WRONLY | O_TRUNC),
        OpenMode { read: true, write: true, append: false, truncate: true }
    );
}

#[test]
fn a_mode_splits_into_kind_and_permissions() {
    assert_eq!(mknod_mode(0o100644), (0o100000, 0o644));
    assert_eq!(mknod_mode(0o010600), (0o010000, 0o600));
    assert_eq!(mknod_mode(0o020666), (0o020000, 0o666));
    assert_eq!(mknod_mode(0o4755), (0, 0o4755));
    assert_eq!(mknod_mode(0xffff_ffff), (0o170000, 0o7777));
    assert_eq!(mknod_mode(0o1200000), (0, 0));
}

#[test]
fn setattr_takes_its_steps_in_order() {
    assert_eq!(setattr_steps(&nothing()), vec![SetattrStep::Report]);
    let all = SetattrRequest {
        mode: Some(0o600),
        uid: Some(5),
        gid: None,
        size: Some(10),
        atime: Some(Timespec { sec: 100, nsec: 5 }),
        mtime: None,
        ..nothing()
    };
    assert_eq!(
        setattr_steps(&all),
        vec![
            SetattrStep::Chmod(0o600),
            SetattrStep::Truncate(10),
            SetattrStep::Chown { uid: Some(5), gid: None },
            SetattrStep::Utimes { atime: 100, mtime: 0 },
            SetattrStep::Report,
        ]
    );
    let times = SetattrRequest { mtime: Some(Timespec { sec: 7, nsec: 0 }), ..nothing() };
    assert_eq!(
        setattr_steps(&times),
        vec![SetattrStep::Utimes { atime: 0, mtime: 7 }, SetattrStep::Report]
    );
}

#[test]
fn setattr_refuses_what_is_not_supported() {
    let t = Some(Timespec { sec: 1, nsec: 0 });
    for request in [
        SetattrRequest { crtime: t, ..nothing() },
        SetattrRequest { chgtime: t, ..nothing() },
        SetattrRequest { bkuptime: t, ..nothing() },
        SetattrRequest { flags: Some(1), ..nothing() },
    ] {
        assert_eq!(setattr_steps(&request), vec![SetattrStep::Refuse]);
    }
    let mixed = SetattrRequest { mode: Some(0o644), flags: Some(0), ..nothing() };
    assert_eq!(setattr_steps(&mixed), vec![SetattrStep::Chmod(0o644), SetattrStep::Refuse]);
    assert_eq!(FsError::Unsupported.errno(), libc::ENOSYS);
}

#[test]
fn chown_keeps_what_is_not_asked_for() {
    assert_eq!(chown_ids(Some(1), Some(2), &md(1)), (1, 2));
    assert_eq!(chown_ids(None, Some(2), &md(1)), (10, 2));
    assert_eq!(chown_ids(Some(1), None, &md(1)), (1, 20));
    assert_eq!(chown_ids(None, None, &md(1)), (10, 20));
}

#[test]
fn a_read_goes_on_until_the_buffer_is_full() {
    assert_eq!(read_step(0, 100, ReadEvent::Read(40)), ReadNext::More { filled: 40 });
    assert_eq!(read_step(40, 100, ReadEvent::Read(60)), ReadNext::Finish { filled: 100 });
    assert_eq!(read_step(40, 100, ReadEvent::Read(0)), ReadNext::Finish { filled: 40 });
    assert_eq!(read_step(40, 100, ReadEvent::Interrupted), ReadNext::More { filled: 40 });
    assert_eq!(
        read_step(40, 100, ReadEvent::Failed(libc::EIO)),
        ReadNext::Fail(FsError::Host(libc::EIO))
    );
    // No more counts than the buffer has room for, and a full buffer is
    // not read into.
    assert_eq!(read_step(40, 100, ReadEvent::Read(70)), ReadNext::Finish { filled: 100 });
    assert_eq!(read_step(100, 100, ReadEvent::Read(5)), ReadNext::Finish { filled: 100 });
    assert_eq!(read_step(0, 0, ReadEvent::Interrupted), ReadNext::Finish { filled: 0 });
}

#[test]
fn extended_attributes_are_asked_for_twice() {
    assert_eq!(listxattr_probe(-1, libc::ENOTSUP), XattrProbe::Fail(FsError::Host(libc::ENOTSUP)));
    assert_eq!(listxattr_probe(0, 0), XattrProbe::Empty);
    assert_eq!(listxattr_probe(17, 0), XattrProbe::Fetch(17));
    assert_eq!(getxattr_probe(-1, libc::ENODATA), XattrProbe::Fail(FsError::Host(libc::ENODATA)));
    assert_eq!(getxattr_probe(0, 0), XattrProbe::Fetch(0));
    assert_eq!(getxattr_probe(17, 0), XattrProbe::Fetch(17));
}

#[test]
fn a_race_on_extended_attributes_is_tried_again() {
    // The host announces seventeen bytes and then gives twenty: the
    // attributes changed in between. The next round agrees.
    let mut answers = vec![(17isize, 20isize), (20, 20)].into_iter();
    let mut rounds = 0;
    let fetched = loop {
        let (announced, fetched) = answers.next().unwrap();
        rounds += 1;
        match listxattr_probe(announced, 0) {
            XattrProbe::Fetch(size) => {
                if xattr_settled(size, fetched) {
                    break fetched;
                }
            }
            _ => panic!("nothing to fetch"),
        }
    };
    assert_eq!(rounds, 2);
    assert_eq!(fetched, 20);
    assert!(!xattr_settled(17, -1));
}

#[test]
fn replies_follow_the_host() {
    assert_eq!(status_reply(0, libc::EPERM), Reply::Done);
    assert_eq!(status_reply(-1, libc::EPERM), Reply::Error(FsError::Host(libc::EPERM)));
    assert_eq!(done_reply(Ok(())), Reply::Done);
    assert_eq!(done_reply(Err(libc::EIO)), Reply::Error(FsError::Host(libc::EIO)));
    assert_eq!(getattr(Ok(md(3))), Reply::Attr { ttl: ttl(), attr: fill_file_attr(&md(3)) });
    assert_eq!(getattr(Err(libc::ENOENT)), Reply::Error(FsError::Host(libc::ENOENT)));
    assert_eq!(readlink(Ok(b"../x".to_vec())), Reply::Data(b"../x".to_vec()));
    assert_eq!(readlink(Err(libc::EINVAL)), Reply::Error(FsError::Host(libc::EINVAL)));
    assert_eq!(mirrorfs::mirrorfs::write(Ok(4096)), Reply::Written(4096));
    assert_eq!(
        mirrorfs::mirrorfs::write(Err(libc::ENOSPC)),
        Reply::Error(FsError::Host(libc::ENOSPC))
    );
}

#[test]
fn statfs_cuts_the_sizes() {
    let stats = Statfs {
        blocks: 1 << 40,
        bfree: 2,
        bavail: 3,
        files: 4,
        ffree: 5,
        bsize: 4096,
        namelen: 255,
        frsize: 0x1_0000_1000,
    };
    assert_eq!(
        statfs(Ok(stats)),
        Reply::Statfs {
            blocks: 1 << 40,
            bfree: 2,
            bavail: 3,
            files: 4,
            ffree: 5,
            bsize: 4096,
            namelen: 255,
            frsize: 0x1000,
        }
    );
    assert_eq!(statfs(Err(libc::EIO)), Reply::Error(FsError::Host(libc::EIO)));
}
