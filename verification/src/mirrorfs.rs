//! The mirror filesystem: its settings and its state, and what each request
//! makes of that state once the backing filesystem has answered.

use crate::cachelaws::lemma_remove_wf;
use crate::cachelaws::lemma_store_binds;
use crate::cachelaws::lemma_store_keeps_hot_path;
use crate::dentries::Dentry;
use crate::dentries::DentryCache;
use crate::dentries::DentryView;
use crate::dentries::DirItem;
use crate::dentries::Resume;
use crate::dentries::entries_view;
use crate::dentries::items_view;
use crate::dentries::page_items;
use crate::dentries::resume_of;
use crate::fasthashes::FastMap;
use crate::fasthashes::FastSet;
use crate::filehandles::FileHandle;
use crate::filehandles::Inode;
use crate::filehandles::lemma_make_wf;
use crate::filehandles::lemma_release_wf;
use crate::helper::FileAttr;
use crate::helper::Metadata;
use crate::helper::S_IFMT;
use crate::helper::Timespec;
use crate::helper::attr_of;
use crate::helper::fill_file_attr;
use crate::inodecache::InodeCache;
use crate::inodecache::same_path;
use crate::journal::MARGIN;
use nix::sys::stat::Mode;
use nix::sys::stat::SFlag;
use vstd::prelude::*;
use vstd::slice::slice_to_vec;

verus! {

pub type Uid = u32;

pub type Gid = u32;

/// The inode of the mount's root.
pub const ROOT_INODE: Inode = 1;

/// The handle that pins the root: the first that is made.
pub const ROOT_HANDLE: FileHandle = 1;

/// The byte that separates the parts of a path.
pub const SEPARATOR: u8 = 47;

/// The privileges that the filesystem may hold.
#[derive(Clone, Copy, Debug, PartialEq, Eq, Structural)]
pub enum Capability {
    Chown,
    DacOverride,
    Fowner,
    Mknod,
    Setfcap,
    Setgid,
    Setuid,
}

/// The privileges that the process is permitted to raise.
pub struct Capabilities {
    pub permitted: Vec<Capability>,
}

impl Capabilities {
    pub open spec fn permits(&self, cap: Capability) -> bool {
        self.permitted@.contains(cap)
    }

    /// Whether `cap` is among the permitted privileges.
    pub fn check(&self, cap: Capability) -> (held: bool)
        ensures
            held == self.permits(cap),
    {
        let mut i: usize = 0;
        while i < self.permitted.len()
            invariant
                i <= self.permitted.len(),
                forall|k: int| 0 <= k < i ==> self.permitted@[k] != cap,
            decreases self.permitted.len() - i,
        {
            if self.permitted[i] == cap {
                return true;
            }
            i += 1;
        }
        false
    }
}

/// Why a request fails.
#[derive(Clone, Copy, Debug, PartialEq, Eq, Structural)]
pub enum FsError {
    /// There is no such entry.
    NoEntry,
    /// The entry exists already.
    Exists,
    /// The permission bits do not grant the access.
    NoPermission,
    /// The request asks for what is not supported.
    Unsupported,
    /// The error number that the backing filesystem gave.
    Host(i32),
}

pub struct Settings {
    /// The user and the group that the filesystem runs as.
    pub uid: Uid,
    pub gid: Gid,
    /// The users that get every access.
    pub fullaccess: FastSet<u32>,
    /// The users and groups that act as others on the backing filesystem.
    pub user_map: FastMap<Uid, Uid>,
    pub group_map: FastMap<Gid, Gid>,
    pub caps: Capabilities,
}

impl Settings {
    pub fn has_cap(&self, cap: Capability) -> (held: bool)
        ensures
            held == self.caps.permits(cap),
    {
        self.caps.check(cap)
    }
}

/// The path `base` with `part` pushed onto it: a part that starts at the
/// root takes the place of the base, any other is put behind it, after a
/// separator where the base does not end in one.
pub open spec fn pushed(base: Seq<u8>, part: Seq<u8>) -> Seq<u8> {
    if part.len() > 0 && part[0] == SEPARATOR {
        part
    } else if base.len() > 0 && base.last() != SEPARATOR {
        base.push(SEPARATOR) + part
    } else {
        base + part
    }
}

pub fn push_path(base: &mut Vec<u8>, part: &[u8])
    ensures
        final(base)@ == pushed(old(base)@, part@),
{
    if part.len() > 0 && part[0] == SEPARATOR {
        base.clear();
    } else if base.len() > 0 && base[base.len() - 1] != SEPARATOR {
        base.push(SEPARATOR);
    }
    let ghost start = base@;
    let mut i: usize = 0;
    while i < part.len()
        invariant
            i <= part.len(),
            base@ == start + part@.take(i as int),
        decreases part.len() - i,
    {
        base.push(part[i]);
        i += 1;
    }
    assert(part@.take(part.len() as int) =~= part@);
    assert(Seq::<u8>::empty() + part@ =~= part@);
}

/// The filesystem, over any type of opened file.
pub struct MirrorFS<F> {
    /// Where the filesystem looks into.
    pub base_path: Vec<u8>,
    /// Where the filesystem is mounted.
    pub virtual_path: Vec<u8>,
    pub inodes: InodeCache<F>,
    pub dentry_cache: DentryCache,
    pub settings: Settings,
}

impl<F> MirrorFS<F> {
    pub open spec fn wf(&self) -> bool {
        self.inodes.wf() && self.dentry_cache.wf()
    }

    /// The root is pinned by its own handle.
    pub open spec fn root_pinned(&self) -> bool {
        self.inodes.hot_files@.holds(ROOT_INODE, ROOT_HANDLE)
    }

    /// The root is cached and resolves to the base path.
    pub open spec fn root_mapped(&self) -> bool {
        self.inodes@.map.contains_key(ROOT_INODE) && self.inodes@.resolve(ROOT_INODE)
            == self.base_path@
    }

    /// The root is as it was in `before`: pinned if it was pinned, and, as
    /// long as it is pinned, cached under the base path if it was.
    pub open spec fn root_kept(&self, before: &MirrorFS<F>) -> bool {
        &&& before.root_pinned() ==> self.root_pinned()
        &&& before.root_pinned() && before.root_mapped() ==> self.root_mapped()
    }

    /// A store leaves the root as it was.
    pub proof fn lemma_store_keeps_root(before: &MirrorFS<F>, after: &MirrorFS<F>, ino: Inode, path: Seq<u8>)
        requires
            before.wf(),
            before.can_store(),
            after.base_path == before.base_path,
            after.inodes.hot_files == before.inodes.hot_files,
            before.inodes.state().stored_into(after.inodes.state(), before.inodes.hot(), ino, path),
        ensures
            after.root_kept(before),
    {
        if before.root_pinned() && before.root_mapped() {
            let hot = before.inodes.hot();
            let now = choose|now: u128| after.inodes.state() == before.inodes.state().store(hot, ino, path, now);
            assert(before.inodes.hot_files@.holders.contains_key(ROOT_INODE));
            assert(hot.contains(ROOT_INODE));
            lemma_store_keeps_hot_path(before.inodes@, hot, ino, path, now, ROOT_INODE);
        }
    }

    /// The backing path of `name` in the directory `parent`.
    pub open spec fn backing_path(&self, name: Seq<u8>, parent: Inode) -> Seq<u8> {
        pushed(
            if parent != ROOT_INODE {
                pushed(self.base_path@, self.inodes@.resolve(parent))
            } else {
                self.base_path@
            },
            name,
        )
    }

    /// A filesystem over `base_path`. The root inode is cached under that
    /// path and pinned by a handle of its own, so that it never leaves.
    pub fn new(
        base_path: &[u8],
        virtual_path: &[u8],
        uid: Uid,
        gid: Gid,
        user_map: FastMap<Uid, Uid>,
        group_map: FastMap<Gid, Gid>,
        fullaccess: FastSet<u32>,
        caps: Capabilities,
    ) -> (fs: MirrorFS<F>)
        ensures
            fs.wf(),
            fs.root_pinned(),
            fs.root_mapped(),
            fs.base_path@ == base_path@,
            fs.virtual_path@ == virtual_path@,
            fs.inodes@.resolve(ROOT_INODE) == base_path@,
            fs.inodes.hot() == set![ROOT_INODE],
            fs.inodes.hot_files@.count == 1,
            fs.dentry_cache@ == Map::<Inode, Seq<DentryView>>::empty(),
            fs.settings.uid == uid,
            fs.settings.gid == gid,
            fs.settings.user_map == user_map,
            fs.settings.group_map == group_map,
            fs.settings.fullaccess == fullaccess,
            fs.settings.caps == caps,
    {
        let mut fs = MirrorFS {
            base_path: slice_to_vec(base_path),
            virtual_path: slice_to_vec(virtual_path),
            inodes: InodeCache::new(10, 2),
            dentry_cache: DentryCache::new(),
            settings: Settings {
                uid: uid,
                gid: gid,
                fullaccess: fullaccess,
                user_map: user_map,
                group_map: group_map,
                caps: caps,
            },
        };
        let ghost empty = fs.inodes@;
        let ghost start = fs.inodes.state();
        fs.inodes.store(ROOT_INODE, base_path, 0);
        proof {
            let now = choose|now: u128|
                fs.inodes.state() == start.store(Set::<Inode>::empty(), ROOT_INODE, base_path@, now);
            lemma_store_binds(empty, Set::<Inode>::empty(), ROOT_INODE, base_path@, now);
        }
        let ghost registry = fs.inodes.hot_files@;
        fs.inodes.hot_files.make_handle(None, ROOT_INODE);
        proof {
            lemma_make_wf(registry, None, ROOT_INODE);
        }
        assert(fs.inodes.hot() =~= set![ROOT_INODE]);
        fs
    }

    /// The backing path of `name` in the directory `parent`. The root is the
    /// base path itself; any other directory is looked up in the cache.
    pub fn name2original(&self, name: &[u8], parent: Inode) -> (path: Vec<u8>)
        requires
            self.wf(),
        ensures
            path@ == self.backing_path(name@, parent),
    {
        let mut path: Vec<u8> = self.base_path.clone();
        if parent != ROOT_INODE {
            let parent_path: Vec<u8> = self.inodes.resolve(parent);
            push_path(&mut path, parent_path.as_slice());
        }
        push_path(&mut path, name);
        path
    }
}

/// The bits of the flags of `open`, as the host counts them.
pub const O_RDONLY: u32 = 0;

pub const O_WRONLY: u32 = 1;

pub const O_RDWR: u32 = 2;

pub const O_TRUNC: u32 = 0o1000;

pub const O_APPEND: u32 = 0o2000;

/// The error numbers of the host for the failures that the filesystem itself
/// finds.
pub const ENOENT: i32 = 2;

pub const EACCES: i32 = 13;

pub const EEXIST: i32 = 17;

pub const ENOSYS: i32 = 38;

impl FsError {
    pub open spec fn spec_errno(self) -> i32 {
        match self {
            FsError::NoEntry => ENOENT,
            FsError::Exists => EEXIST,
            FsError::NoPermission => EACCES,
            FsError::Unsupported => ENOSYS,
            FsError::Host(errno) => errno,
        }
    }

    /// The error number that the kernel is told.
    pub fn errno(&self) -> (errno: i32)
        ensures
            errno == self.spec_errno(),
    {
        match self {
            FsError::NoEntry => ENOENT,
            FsError::Exists => EEXIST,
            FsError::NoPermission => EACCES,
            FsError::Unsupported => ENOSYS,
            FsError::Host(errno) => *errno,
        }
    }
}

/// How long the kernel may keep what it is told of a file.
pub open spec fn spec_ttl() -> Timespec {
    Timespec { sec: 1, nsec: 0 }
}

pub fn ttl() -> (ttl: Timespec)
    ensures
        ttl == spec_ttl(),
{
    Timespec { sec: 1, nsec: 0 }
}

/// What the kernel is told at the end of a request.
#[derive(Debug, PartialEq, Eq)]
pub enum Reply {
    /// An entry of a directory and its attributes.
    Entry { ttl: Timespec, attr: FileAttr, generation: u64 },
    /// The attributes of a file.
    Attr { ttl: Timespec, attr: FileAttr },
    /// A handle to an opened file or directory.
    Opened { fh: FileHandle, flags: u32 },
    /// A new file, its attributes and a handle to it.
    Created { ttl: Timespec, attr: FileAttr, generation: u64, fh: FileHandle, flags: u32 },
    /// The bytes asked for.
    Data(Vec<u8>),
    /// The number of bytes written.
    Written(u32),
    /// The outlines of the backing filesystem.
    Statfs {
        blocks: u64,
        bfree: u64,
        bavail: u64,
        files: u64,
        ffree: u64,
        bsize: u32,
        namelen: u32,
        frsize: u32,
    },
    /// The request is done, and there is nothing to tell.
    Done,
    /// The request failed.
    Error(FsError),
}

/// How a file is to be opened.
#[derive(Clone, Copy, Debug, PartialEq, Eq, Structural)]
pub struct OpenMode {
    pub read: bool,
    pub write: bool,
    pub append: bool,
    pub truncate: bool,
}

/// Whether `flags` holds every bit of `bits`.
pub open spec fn has_bits(flags: u32, bits: u32) -> bool {
    flags & bits == bits
}

/// How the flags of `open` read: for reading and writing by the access
/// bits, to append and to truncate by theirs. Reading only has no bit of its
/// own, so every file is opened for reading.
pub open spec fn mode_of_flags(flags: u32) -> OpenMode {
    OpenMode {
        read: has_bits(flags, O_RDWR) || has_bits(flags, O_RDONLY),
        write: has_bits(flags, O_RDWR) || has_bits(flags, O_WRONLY),
        append: has_bits(flags, O_APPEND),
        truncate: has_bits(flags, O_TRUNC),
    }
}

pub fn holds(flags: u32, bits: u32) -> (held: bool)
    ensures
        held == has_bits(flags, bits),
{
    assert((flags | bits == flags) == (flags & bits == bits)) by (bit_vector);
    flags | bits == flags
}

pub fn open_mode(flags: u32) -> (mode: OpenMode)
    ensures
        mode == mode_of_flags(flags),
        mode.read,
{
    assert(flags & 0u32 == 0u32) by (bit_vector);
    OpenMode {
        read: holds(flags, O_RDWR) || holds(flags, O_RDONLY),
        write: holds(flags, O_RDWR) || holds(flags, O_WRONLY),
        append: holds(flags, O_APPEND),
        truncate: holds(flags, O_TRUNC),
    }
}

/// The bits of a mode that are permissions.
pub const PERMISSION_BITS: u32 = 0o7777;

/// `SFlag::from_bits_truncate`, then `bits`: the bits of `mode` that name a
/// kind of file on this host, the others dropped.
#[verifier::external_body]
fn kind_bits(mode: u32) -> (bits: u32)
    ensures
        bits == mode & S_IFMT,
{
    SFlag::from_bits_truncate(mode).bits()
}

/// `Mode::from_bits_truncate`, then `bits`: the permission bits of `mode`,
/// the others dropped.
#[verifier::external_body]
fn permission_bits(mode: u32) -> (bits: u32)
    ensures
        bits == mode & PERMISSION_BITS,
{
    Mode::from_bits_truncate(mode).bits()
}

/// The kind of node and the permissions that a mode asks for.
pub fn mknod_mode(mode: u32) -> (parts: (u32, u32))
    ensures
        parts.0 == mode & S_IFMT,
        parts.1 == mode & PERMISSION_BITS,
{
    (kind_bits(mode), permission_bits(mode))
}

/// One step of `setattr`, in the order they are taken. The first that fails
/// ends the request with its error.
#[derive(Clone, Copy, Debug, PartialEq, Eq, Structural)]
pub enum SetattrStep {
    /// Set the permissions.
    Chmod(u32),
    /// Cut or lengthen the file.
    Truncate(u64),
    /// Set the owner and the group; one that is absent stays as the file has
    /// it.
    Chown { uid: Option<u32>, gid: Option<u32> },
    /// Set the times of access and of modification, in seconds.
    Utimes { atime: u64, mtime: u64 },
    /// The request asks for what is not supported, and fails.
    Refuse,
    /// Tell the attributes that the file now has.
    Report,
}

/// What `setattr` is asked to change.
#[derive(Clone, Copy, Debug, PartialEq, Eq, Structural)]
pub struct SetattrRequest {
    pub mode: Option<u32>,
    pub uid: Option<u32>,
    pub gid: Option<u32>,
    pub size: Option<u64>,
    pub atime: Option<Timespec>,
    pub mtime: Option<Timespec>,
    pub crtime: Option<Timespec>,
    pub chgtime: Option<Timespec>,
    pub bkuptime: Option<Timespec>,
    pub flags: Option<u32>,
}

/// The seconds of a time, zero where there is none.
pub open spec fn seconds_of(time: Option<Timespec>) -> u64 {
    match time {
        Some(time) => time.sec as u64,
        None => 0,
    }
}

impl SetattrRequest {
    /// Whether the request asks for a change that is not supported: of the
    /// times of creation, of change or of backup, or of the flags.
    pub open spec fn unsupported(self) -> bool {
        self.bkuptime is Some || self.chgtime is Some || self.crtime is Some || self.flags is Some
    }

    /// The steps of the request: permissions, length, owner, times, each
    /// where it is asked for, and at the end the refusal of what is not
    /// supported or the report of the new attributes.
    pub open spec fn steps(self) -> Seq<SetattrStep> {
        (if self.mode is Some {
            seq![SetattrStep::Chmod(self.mode->0)]
        } else {
            Seq::empty()
        }) + (if self.size is Some {
            seq![SetattrStep::Truncate(self.size->0)]
        } else {
            Seq::empty()
        }) + (if self.uid is Some || self.gid is Some {
            seq![SetattrStep::Chown { uid: self.uid, gid: self.gid }]
        } else {
            Seq::empty()
        }) + (if self.atime is Some || self.mtime is Some {
            seq![SetattrStep::Utimes { atime: seconds_of(self.atime), mtime: seconds_of(self.mtime) }]
        } else {
            Seq::empty()
        }) + seq![
            if self.unsupported() {
                SetattrStep::Refuse
            } else {
                SetattrStep::Report
            },
        ]
    }
}

fn seconds(time: Option<Timespec>) -> (sec: u64)
    ensures
        sec == seconds_of(time),
{
    match time {
        Some(time) => #[verifier::truncate] (time.sec as u64),
        None => 0,
    }
}

/// The steps that a `setattr` request takes.
pub fn setattr_steps(request: &SetattrRequest) -> (steps: Vec<SetattrStep>)
    ensures
        steps@ == request.steps(),
{
    let mut steps: Vec<SetattrStep> = Vec::new();
    if let Some(mode) = request.mode {
        steps.push(SetattrStep::Chmod(mode));
    }
    if let Some(size) = request.size {
        steps.push(SetattrStep::Truncate(size));
    }
    if request.uid.is_some() || request.gid.is_some() {
        steps.push(SetattrStep::Chown { uid: request.uid, gid: request.gid });
    }
    if request.atime.is_some() || request.mtime.is_some() {
        steps.push(
            SetattrStep::Utimes { atime: seconds(request.atime), mtime: seconds(request.mtime) },
        );
    }
    if request.bkuptime.is_some() || request.chgtime.is_some() || request.crtime.is_some()
        || request.flags.is_some() {
        steps.push(SetattrStep::Refuse);
    } else {
        steps.push(SetattrStep::Report);
    }
    assert(steps@ =~= request.steps());
    steps
}

/// The owner and the group that a `Chown` step sets: those asked for, and
/// those of the file where none is asked for.
pub fn chown_ids(uid: Option<u32>, gid: Option<u32>, md: &Metadata) -> (ids: (u32, u32))
    ensures
        ids.0 == (if uid is Some {
            uid->0
        } else {
            md.uid
        }),
        ids.1 == (if gid is Some {
            gid->0
        } else {
            md.gid
        }),
{
    let uid: u32 = match uid {
        Some(uid) => uid,
        None => md.uid,
    };
    let gid: u32 = match gid {
        Some(gid) => gid,
        None => md.gid,
    };
    (uid, gid)
}

/// What the host answered to a read into the rest of a buffer.
#[derive(Clone, Copy, Debug, PartialEq, Eq, Structural)]
pub enum ReadEvent {
    /// So many bytes were read; none at the end of the file.
    Read(usize),
    /// The read was interrupted before it read anything.
    Interrupted,
    /// The read failed.
    Failed(i32),
}

/// How a read goes on.
#[derive(Clone, Copy, Debug, PartialEq, Eq, Structural)]
pub enum ReadNext {
    /// Read again, into the buffer from `filled` on.
    More { filled: usize },
    /// The buffer is full or the file at its end.
    Finish { filled: usize },
    Fail(FsError),
}

/// How a read of `size` bytes goes on when `filled` of them are there and
/// the host has answered `event`: it ends at the end of the file and when
/// the buffer is full, fails with the host, and reads again otherwise. No
/// more bytes count than the buffer has room for.
pub open spec fn read_next(filled: usize, size: usize, event: ReadEvent) -> ReadNext {
    if filled >= size {
        ReadNext::Finish { filled: filled }
    } else {
        match event {
            ReadEvent::Read(n) => {
                let total = if n > size - filled {
                    size
                } else {
                    (filled + n) as usize
                };
                if n == 0 || total >= size {
                    ReadNext::Finish { filled: total }
                } else {
                    ReadNext::More { filled: total }
                }
            },
            ReadEvent::Interrupted => ReadNext::More { filled: filled },
            ReadEvent::Failed(errno) => ReadNext::Fail(FsError::Host(errno)),
        }
    }
}

pub fn read_step(filled: usize, size: usize, event: ReadEvent) -> (next: ReadNext)
    ensures
        next == read_next(filled, size, event),
{
    if filled >= size {
        return ReadNext::Finish { filled: filled };
    }
    match event {
        ReadEvent::Read(n) => {
            let total: usize = if n > size - filled {
                size
            } else {
                filled + n
            };
            if n == 0 || total >= size {
                ReadNext::Finish { filled: total }
            } else {
                ReadNext::More { filled: total }
            }
        },
        ReadEvent::Interrupted => ReadNext::More { filled: filled },
        ReadEvent::Failed(errno) => ReadNext::Fail(FsError::Host(errno)),
    }
}

/// What the first of the two calls for extended attributes brought: the
/// size of what there is to fetch, or a failure.
pub open spec fn list_probe(size: isize, errno: i32) -> XattrProbe {
    if size == -1 {
        XattrProbe::Fail(FsError::Host(errno))
    } else if size == 0 {
        XattrProbe::Empty
    } else {
        XattrProbe::Fetch(size)
    }
}

pub open spec fn get_probe(size: isize, errno: i32) -> XattrProbe {
    if size >= 0 {
        XattrProbe::Fetch(size)
    } else {
        XattrProbe::Fail(FsError::Host(errno))
    }
}

/// How a request for extended attributes goes on after its first call.
#[derive(Clone, Copy, Debug, PartialEq, Eq, Structural)]
pub enum XattrProbe {
    /// The request fails.
    Fail(FsError),
    /// There is nothing to fetch, and the request ends well.
    Empty,
    /// There are so many bytes to fetch with the second call.
    Fetch(isize),
}

/// How `listxattr` goes on after the call that asks for the size of the
/// list: a failure ends it, an empty list ends it well, and any other size
/// is fetched.
pub fn listxattr_probe(size: isize, errno: i32) -> (next: XattrProbe)
    ensures
        next == list_probe(size, errno),
{
    if size == -1 {
        XattrProbe::Fail(FsError::Host(errno))
    } else if size == 0 {
        XattrProbe::Empty
    } else {
        XattrProbe::Fetch(size)
    }
}

/// How `getxattr` goes on after the call that asks for the size of the
/// value: any size, zero too, is fetched, and a failure ends it.
pub fn getxattr_probe(size: isize, errno: i32) -> (next: XattrProbe)
    ensures
        next == get_probe(size, errno),
{
    if size >= 0 {
        XattrProbe::Fetch(size)
    } else {
        XattrProbe::Fail(FsError::Host(errno))
    }
}

/// Whether the two calls for extended attributes agree: the second brought
/// as many bytes as the first announced. Where they do not, the attributes
/// changed in between, and both calls are made again.
pub fn xattr_settled(announced: isize, fetched: isize) -> (settled: bool)
    ensures
        settled == (fetched == announced),
{
    fetched == announced
}

/// What the kernel is told after a call that answers with a status: zero
/// for done, anything else for the error that the host has set.
pub fn status_reply(status: i32, errno: i32) -> (reply: Reply)
    ensures
        reply == (if status == 0 {
            Reply::Done
        } else {
            Reply::Error(FsError::Host(errno))
        }),
{
    if status == 0 {
        Reply::Done
    } else {
        Reply::Error(FsError::Host(errno))
    }
}

/// What the kernel is told after a call that gives nothing back but may
/// fail.
pub fn done_reply(outcome: Result<(), i32>) -> (reply: Reply)
    ensures
        reply == (match outcome {
            Ok(_) => Reply::Done,
            Err(errno) => Reply::Error(FsError::Host(errno)),
        }),
{
    match outcome {
        Ok(_) => Reply::Done,
        Err(errno) => Reply::Error(FsError::Host(errno)),
    }
}

/// The outlines of a filesystem as the host gives them.
#[derive(Clone, Copy, Debug, PartialEq, Eq, Structural)]
pub struct Statfs {
    pub blocks: u64,
    pub bfree: u64,
    pub bavail: u64,
    pub files: u64,
    pub ffree: u64,
    pub bsize: i64,
    pub namelen: i64,
    pub frsize: i64,
}

/// What `statfs` tells the kernel: the counts as they are, the sizes cut to
/// 32 bits.
pub fn statfs(outcome: Result<Statfs, i32>) -> (reply: Reply)
    ensures
        reply == (match outcome {
            Ok(stats) => Reply::Statfs {
                blocks: stats.blocks,
                bfree: stats.bfree,
                bavail: stats.bavail,
                files: stats.files,
                ffree: stats.ffree,
                bsize: stats.bsize as u32,
                namelen: stats.namelen as u32,
                frsize: stats.frsize as u32,
            },
            Err(errno) => Reply::Error(FsError::Host(errno)),
        }),
{
    match outcome {
        Ok(stats) => Reply::Statfs {
            blocks: stats.blocks,
            bfree: stats.bfree,
            bavail: stats.bavail,
            files: stats.files,
            ffree: stats.ffree,
            bsize: #[verifier::truncate] (stats.bsize as u32),
            namelen: #[verifier::truncate] (stats.namelen as u32),
            frsize: #[verifier::truncate] (stats.frsize as u32),
        },
        Err(errno) => Reply::Error(FsError::Host(errno)),
    }
}

/// What `getattr`, and the last step of `setattr`, tell the kernel.
pub fn getattr(md: Result<Metadata, i32>) -> (reply: Reply)
    ensures
        reply == (match md {
            Ok(md) => Reply::Attr { ttl: spec_ttl(), attr: attr_of(md) },
            Err(errno) => Reply::Error(FsError::Host(errno)),
        }),
{
    match md {
        Ok(md) => Reply::Attr { ttl: ttl(), attr: fill_file_attr(&md) },
        Err(errno) => Reply::Error(FsError::Host(errno)),
    }
}

/// What `readlink` tells the kernel: the bytes of the target as they are.
pub fn readlink(target: Result<Vec<u8>, i32>) -> (reply: Reply)
    ensures
        reply == (match target {
            Ok(target) => Reply::Data(target),
            Err(errno) => Reply::Error(FsError::Host(errno)),
        }),
{
    match target {
        Ok(target) => Reply::Data(target),
        Err(errno) => Reply::Error(FsError::Host(errno)),
    }
}

/// What `write` tells the kernel: the number of bytes written, cut to 32
/// bits.
pub fn write(written: Result<usize, i32>) -> (reply: Reply)
    ensures
        reply == (match written {
            Ok(n) => Reply::Written(n as u32),
            Err(errno) => Reply::Error(FsError::Host(errno)),
        }),
{
    match written {
        Ok(n) => Reply::Written(#[verifier::truncate] (n as u32)),
        Err(errno) => Reply::Error(FsError::Host(errno)),
    }
}

/// How a request to read a directory goes on.
pub enum Readdir {
    /// The kernel is told `reply`, and the request is over.
    Reply(Reply),
    /// The directory at `path` is to be read from the backing filesystem and
    /// handed to `readdir_loaded`.
    Load(Vec<u8>),
    /// These entries are left to give: as many as fit go into the reply.
    Items(Vec<DirItem>),
}

impl<F> MirrorFS<F> {
    /// Whether the journal can still grow, which a store may have to do.
    pub open spec fn can_store(&self) -> bool {
        self.inodes@.journal.len() + MARGIN <= usize::MAX
    }

    pub fn has_room(&self) -> (room: bool)
        ensures
            room == self.can_store(),
    {
        self.inodes.journal_len() <= usize::MAX - MARGIN
    }

    /// What the kernel is told of the entry at `path` once the backing
    /// filesystem has answered: its attributes, the inode being stored in
    /// the cache under the path, or the error of the host. This ends
    /// `lookup`, and `mkdir`, `mknod`, `symlink` and `link` once they have
    /// made the entry.
    pub fn entry(&mut self, path: &[u8], md: Result<Metadata, i32>, pid: u32) -> (reply: Reply)
        requires
            old(self).wf(),
            old(self).can_store(),
        ensures
            final(self).wf(),
            final(self).same_but_inodes(old(self)),
            final(self).root_kept(old(self)),
            final(self).inodes.hot_files == old(self).inodes.hot_files,
            match md {
                Ok(md) => {
                    &&& reply == (Reply::Entry { ttl: spec_ttl(), attr: attr_of(md), generation: 0 })
                    &&& old(self).inodes.state().stored_into(
                        final(self).inodes.state(),
                        old(self).inodes.hot(),
                        md.ino,
                        path@,
                    )
                },
                Err(errno) => {
                    &&& reply == Reply::Error(FsError::Host(errno))
                    &&& final(self).inodes.state() == old(self).inodes.state()
                },
            },
    {
        match md {
            Ok(md) => {
                self.inodes.store(md.ino, path, pid);
                proof {
                    Self::lemma_store_keeps_root(old(self), self, md.ino, path@);
                }
                Reply::Entry { ttl: ttl(), attr: fill_file_attr(&md), generation: 0 }
            },
            Err(errno) => Reply::Error(FsError::Host(errno)),
        }
    }

    /// Everything but the inode cache is as in `other`.
    pub open spec fn same_but_inodes(&self, other: &MirrorFS<F>) -> bool {
        &&& self.base_path == other.base_path
        &&& self.virtual_path == other.virtual_path
        &&& self.dentry_cache == other.dentry_cache
        &&& self.settings == other.settings
    }

    /// `forget`: the inode leaves the cache with all its paths.
    pub fn forget(&mut self, ino: Inode, nlookup: u64, pid: u32)
        requires
            old(self).wf(),
        ensures
            final(self).wf(),
            final(self).same_but_inodes(old(self)),
            final(self).inodes.hot_files == old(self).inodes.hot_files,
            final(self).inodes.state() == old(self).inodes.state().remove(ino, None),
            ino != ROOT_INODE ==> final(self).root_kept(old(self)),
    {
        self.inodes.remove(ino, None, pid, #[verifier::truncate] (nlookup as usize));
    }

    /// `rmdir` and `unlink`: once the backing filesystem has removed what
    /// was at `path`, the path leaves the cache. `removed` is the inode that
    /// was found there before the removal, or the error of the host.
    pub fn unlink(&mut self, path: &[u8], removed: Result<Inode, i32>) -> (reply: Reply)
        requires
            old(self).wf(),
        ensures
            final(self).wf(),
            final(self).same_but_inodes(old(self)),
            final(self).inodes.hot_files == old(self).inodes.hot_files,
            removed != Ok::<Inode, i32>(ROOT_INODE) ==> final(self).root_kept(old(self)),
            match removed {
                Ok(ino) => {
                    &&& reply == Reply::Done
                    &&& final(self).inodes.state() == old(self).inodes.state().remove(
                        ino,
                        Some(path@),
                    )
                },
                Err(errno) => {
                    &&& reply == Reply::Error(FsError::Host(errno))
                    &&& final(self).inodes.state() == old(self).inodes.state()
                },
            },
    {
        match removed {
            Ok(ino) => {
                self.inodes.remove(ino, Some(path), 0, 0);
                Reply::Done
            },
            Err(errno) => Reply::Error(FsError::Host(errno)),
        }
    }

    /// `rename`: once the backing filesystem has renamed, the old path
    /// leaves the cache and the new one is stored. `renamed` is the inode
    /// found at the new path, or the error of the host.
    pub fn rename(&mut self, old_path: &[u8], new_path: &[u8], renamed: Result<Inode, i32>, pid: u32) -> (reply:
        Reply)
        requires
            old(self).wf(),
            old(self).can_store(),
        ensures
            final(self).wf(),
            final(self).same_but_inodes(old(self)),
            final(self).inodes.hot_files == old(self).inodes.hot_files,
            renamed != Ok::<Inode, i32>(ROOT_INODE) ==> final(self).root_kept(old(self)),
            match renamed {
                Ok(ino) => {
                    &&& reply == Reply::Done
                    &&& old(self).inodes.state().remove(ino, Some(old_path@)).stored_into(
                        final(self).inodes.state(),
                        old(self).inodes.hot(),
                        ino,
                        new_path@,
                    )
                },
                Err(errno) => {
                    &&& reply == Reply::Error(FsError::Host(errno))
                    &&& final(self).inodes.state() == old(self).inodes.state()
                },
            },
    {
        match renamed {
            Ok(ino) => {
                self.inodes.remove(ino, Some(old_path), 0, 0);
                let ghost removed = *self;
                self.inodes.store(ino, new_path, pid);
                proof {
                    lemma_remove_wf(old(self).inodes@, ino, Some(old_path@));
                    Self::lemma_store_keeps_root(&removed, self, ino, new_path@);
                }
                Reply::Done
            },
            Err(errno) => Reply::Error(FsError::Host(errno)),
        }
    }

    /// The two paths of a hard link: that of the inode, and that of its new
    /// name. A name that is the path itself cannot be linked.
    pub fn link_paths(&self, ino: Inode, newparent: Inode, newname: &[u8]) -> (paths: Result<
        (Vec<u8>, Vec<u8>),
        FsError,
    >)
        requires
            self.wf(),
        ensures
            match paths {
                Ok(paths) => {
                    &&& paths.0@ == self.inodes@.resolve(ino)
                    &&& paths.1@ == self.backing_path(newname@, newparent)
                    &&& paths.0@ != paths.1@
                },
                Err(error) => {
                    &&& error == FsError::Exists
                    &&& self.inodes@.resolve(ino) == self.backing_path(newname@, newparent)
                },
            },
    {
        let first_path: Vec<u8> = self.inodes.resolve(ino);
        let next_path: Vec<u8> = self.name2original(newname, newparent);
        if same_path(&first_path, next_path.as_slice()) {
            Err(FsError::Exists)
        } else {
            Ok((first_path, next_path))
        }
    }

    /// `opendir`: a handle without a file, which pins the inode while the
    /// kernel has the directory open.
    pub fn opendir(&mut self, ino: Inode, flags: u32) -> (reply: Reply)
        requires
            old(self).wf(),
            old(self).inodes.hot_files@.count < u64::MAX,
        ensures
            final(self).wf(),
            final(self).same_but_inodes(old(self)),
            final(self).inodes.state() == old(self).inodes.state(),
            final(self).inodes.hot_files@ == old(self).inodes.hot_files@.make(None, ino),
            final(self).root_kept(old(self)),
            reply == (Reply::Opened { fh: old(self).inodes.hot_files@.next_handle() as u64, flags: flags }),
    {
        proof {
            lemma_make_wf(self.inodes.hot_files@, None, ino);
        }
        let fh: FileHandle = self.inodes.hot_files.make_handle(None, ino);
        Reply::Opened { fh: fh, flags: flags }
    }

    /// `open`: a handle to the file that the backing filesystem opened.
    pub fn open(&mut self, ino: Inode, flags: u32, file: Result<F, i32>) -> (reply: Reply)
        requires
            old(self).wf(),
            old(self).inodes.hot_files@.count < u64::MAX,
        ensures
            final(self).wf(),
            final(self).same_but_inodes(old(self)),
            final(self).inodes.state() == old(self).inodes.state(),
            final(self).root_kept(old(self)),
            match file {
                Ok(file) => {
                    &&& final(self).inodes.hot_files@ == old(self).inodes.hot_files@.make(
                        Some(file),
                        ino,
                    )
                    &&& reply == (Reply::Opened {
                        fh: old(self).inodes.hot_files@.next_handle() as u64,
                        flags: flags,
                    })
                },
                Err(errno) => {
                    &&& final(self).inodes.hot_files@ == old(self).inodes.hot_files@
                    &&& reply == Reply::Error(FsError::Host(errno))
                },
            },
    {
        match file {
            Ok(file) => {
                proof {
                    lemma_make_wf(self.inodes.hot_files@, Some(file), ino);
                }
                let fh: FileHandle = self.inodes.hot_files.make_handle(Some(file), ino);
                Reply::Opened { fh: fh, flags: flags }
            },
            Err(errno) => Reply::Error(FsError::Host(errno)),
        }
    }

    /// `create`: the new file is stored in the cache under its path, and a
    /// handle to it is made.
    pub fn create(&mut self, path: &[u8], flags: u32, made: Result<(F, Metadata), i32>, pid: u32) -> (reply:
        Reply)
        requires
            old(self).wf(),
            old(self).can_store(),
            old(self).inodes.hot_files@.count < u64::MAX,
        ensures
            final(self).wf(),
            final(self).same_but_inodes(old(self)),
            final(self).root_kept(old(self)),
            match made {
                Ok(made) => {
                    &&& old(self).inodes.state().stored_into(
                        final(self).inodes.state(),
                        old(self).inodes.hot(),
                        made.1.ino,
                        path@,
                    )
                    &&& final(self).inodes.hot_files@ == old(self).inodes.hot_files@.make(
                        Some(made.0),
                        made.1.ino,
                    )
                    &&& reply == (Reply::Created {
                        ttl: spec_ttl(),
                        attr: attr_of(made.1),
                        generation: 0,
                        fh: old(self).inodes.hot_files@.next_handle() as u64,
                        flags: flags,
                    })
                },
                Err(errno) => {
                    &&& final(self).inodes.state() == old(self).inodes.state()
                    &&& final(self).inodes.hot_files@ == old(self).inodes.hot_files@
                    &&& reply == Reply::Error(FsError::Host(errno))
                },
            },
    {
        match made {
            Ok((file, md)) => {
                self.inodes.store(md.ino, path, pid);
                proof {
                    Self::lemma_store_keeps_root(old(self), self, md.ino, path@);
                    lemma_make_wf(self.inodes.hot_files@, Some(file), md.ino);
                }
                let fh: FileHandle = self.inodes.hot_files.make_handle(Some(file), md.ino);
                Reply::Created {
                    ttl: ttl(),
                    attr: fill_file_attr(&md),
                    generation: 0,
                    fh: fh,
                    flags: flags,
                }
            },
            Err(errno) => Reply::Error(FsError::Host(errno)),
        }
    }

    /// `release` and `releasedir`: the handle is given up. A handle whose
    /// file is taken stays as it is.
    pub fn release(&mut self, fh: FileHandle) -> (reply: Reply)
        requires
            old(self).wf(),
        ensures
            final(self).wf(),
            final(self).same_but_inodes(old(self)),
            final(self).inodes.state() == old(self).inodes.state(),
            final(self).inodes.hot_files@ == old(self).inodes.hot_files@.release(fh),
            fh != ROOT_HANDLE ==> final(self).root_kept(old(self)),
            reply == Reply::Done,
    {
        proof {
            lemma_release_wf(self.inodes.hot_files@, fh);
        }
        self.inodes.hot_files.release_handle(fh);
        Reply::Done
    }

    /// `readdir`: how the request to read directory `ino` at `offset`
    /// starts. A listing that has been given whole is dropped and the reply
    /// is empty; one that the kernel goes on with must be kept; one that is
    /// not kept at offset 0 is to be read.
    pub fn readdir(&mut self, ino: Inode, offset: u64) -> (next: Readdir)
        requires
            old(self).wf(),
        ensures
            final(self).wf(),
            final(self).inodes == old(self).inodes,
            final(self).base_path == old(self).base_path,
            final(self).virtual_path == old(self).virtual_path,
            final(self).settings == old(self).settings,
            match resume_of(old(self).dentry_cache@, ino, offset) {
                Resume::Finished => {
                    &&& next == Readdir::Reply(Reply::Done)
                    &&& final(self).dentry_cache@ == old(self).dentry_cache@.remove(ino)
                },
                Resume::Lost => {
                    &&& next == Readdir::Reply(Reply::Error(FsError::NoEntry))
                    &&& final(self).dentry_cache@ == old(self).dentry_cache@
                },
                Resume::Go => {
                    &&& final(self).dentry_cache@ == old(self).dentry_cache@
                    &&& if old(self).dentry_cache@.contains_key(ino) {
                        &&& next is Items
                        &&& items_view(next->Items_0@) == page_items(
                            old(self).dentry_cache@[ino],
                            ino,
                            offset,
                        )
                    } else {
                        &&& next is Load
                        &&& next->Load_0@ == old(self).inodes@.resolve(ino)
                    }
                },
            },
    {
        match self.dentry_cache.resume(ino, offset) {
            Resume::Finished => {
                return Readdir::Reply(Reply::Done);
            },
            Resume::Lost => {
                return Readdir::Reply(Reply::Error(FsError::NoEntry));
            },
            Resume::Go => {},
        }
        match self.dentry_cache.page(ino, offset) {
            Some(items) => Readdir::Items(items),
            None => Readdir::Load(self.inodes.resolve(ino)),
        }
    }

    /// `readdir`, once the directory has been read: the listing is kept,
    /// and its entries are given from `offset` on.
    pub fn readdir_loaded(&mut self, ino: Inode, offset: u64, listing: Result<Vec<Dentry>, i32>) -> (next:
        Readdir)
        requires
            old(self).wf(),
            !old(self).dentry_cache@.contains_key(ino),
            listing matches Ok(entries) ==> entries@.len() + 2 <= u64::MAX,
        ensures
            final(self).wf(),
            final(self).inodes == old(self).inodes,
            final(self).base_path == old(self).base_path,
            final(self).virtual_path == old(self).virtual_path,
            final(self).settings == old(self).settings,
            match listing {
                Ok(entries) => {
                    &&& final(self).dentry_cache@ == old(self).dentry_cache@.insert(
                        ino,
                        entries_view(entries@),
                    )
                    &&& next is Items
                    &&& items_view(next->Items_0@) == page_items(entries_view(entries@), ino, offset)
                },
                Err(errno) => {
                    &&& final(self).dentry_cache@ == old(self).dentry_cache@
                    &&& next == Readdir::Reply(Reply::Error(FsError::Host(errno)))
                },
            },
    {
        match listing {
            Ok(entries) => {
                self.dentry_cache.load(ino, entries);
                match self.dentry_cache.page(ino, offset) {
                    Some(items) => Readdir::Items(items),
                    None => Readdir::Reply(Reply::Error(FsError::NoEntry)),
                }
            },
            Err(errno) => Readdir::Reply(Reply::Error(FsError::Host(errno))),
        }
    }
}

} // verus!
