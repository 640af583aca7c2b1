//! Handles to opened inodes. While an inode has a handle it is hot: the inode
//! cache must not give its journal slot to another inode.

use crate::fasthashes::fast_map_contains_key;
use crate::fasthashes::fast_map_get;
use crate::fasthashes::fast_map_insert;
use crate::fasthashes::fast_map_remove;
use crate::fasthashes::FastHasher;
use crate::fasthashes::FastMap;
use vstd::prelude::*;

verus! {

broadcast use vstd::std_specs::hash::group_hash_axioms;

pub type FileHandle = u64;

pub type Inode = u64;

/// The room that a new registry has for handles and for inodes.
pub const HOTFILESIZE: usize = 100;

/// What a handle stands for: the opened file, absent for a directory, and the
/// inode that the handle pins.
pub struct FileEntry<F> {
    pub file: Option<F>,
    pub ino: Inode,
}

/// The registry of handles, over any type of opened file.
pub struct HotFiles<F> {
    by_fh: FastMap<FileHandle, FileEntry<F>>,
    /// How many handles each inode has had made and not released: inodes
    /// linked under several names are opened more than once.
    by_ino: FastMap<Inode, u64>,
    count: u64,
    /// Which handles those are.
    holders: Ghost<Map<Inode, Set<FileHandle>>>,
}

/// The registry as a mathematical value.
pub struct HotView<F> {
    /// The handles in the table: those made, not released, and not taken.
    pub handles: Map<FileHandle, FileEntry<F>>,
    /// The number of handles that pin each hot inode.
    pub pins: Map<Inode, u64>,
    /// The handles that pin each hot inode: those made for it and not
    /// released, whether they are in the table or taken.
    pub holders: Map<Inode, Set<FileHandle>>,
    /// The number of handles made so far, which is also the last one made.
    pub count: nat,
}

/// One call on the registry.
pub enum HotOp<F> {
    Make { file: Option<F>, ino: Inode },
    Take { fh: FileHandle },
    Restore { fh: FileHandle, taken: F, ino: Inode },
    Release { fh: FileHandle },
}

impl<F> HotView<F> {
    /// Each handle in the table was issued and pins its inode; each hot
    /// inode has as many pins as there are handles that hold it, at least
    /// one, and all of them issued.
    pub open spec fn wf(self) -> bool {
        &&& forall|fh: FileHandle| (#[trigger] self.handles.contains_key(fh)) ==> {
            &&& 1 <= fh <= self.count
            &&& self.holds(self.handles[fh].ino, fh)
        }
        &&& forall|ino: Inode| (#[trigger] self.pins.contains_key(ino)) <==> self.holders.contains_key(ino)
        &&& forall|ino: Inode| (#[trigger] self.holders.contains_key(ino)) ==> {
            &&& self.holders[ino].finite()
            &&& self.holders[ino].len() == self.pins[ino]
            &&& 1 <= self.pins[ino] <= self.count
        }
        &&& forall|ino: Inode, fh: FileHandle| #[trigger] self.holds(ino, fh) ==> 1 <= fh <= self.count
    }

    /// Whether `fh` is a handle that pins `ino`.
    pub open spec fn holds(self, ino: Inode, fh: FileHandle) -> bool {
        self.holders.contains_key(ino) && self.holders[ino].contains(fh)
    }

    /// The handles that pin `ino`.
    pub open spec fn holders_of(self, ino: Inode) -> Set<FileHandle> {
        if self.holders.contains_key(ino) {
            self.holders[ino]
        } else {
            Set::empty()
        }
    }

    /// Whether `fh` is a handle of `ino` whose file is taken: it pins the
    /// inode and is not in the table.
    pub open spec fn taken(self, ino: Inode, fh: FileHandle) -> bool {
        self.holds(ino, fh) && !self.handles.contains_key(fh)
    }

    pub open spec fn is_hot(self, ino: Inode) -> bool {
        self.pins.contains_key(ino)
    }

    /// The inodes that have a handle.
    pub open spec fn hot(self) -> Set<Inode> {
        self.pins.dom()
    }

    /// The number of handles that pin `ino`.
    pub open spec fn pin_count(self, ino: Inode) -> nat {
        if self.pins.contains_key(ino) {
            self.pins[ino] as nat
        } else {
            0
        }
    }

    /// The handle that the next `Make` issues.
    pub open spec fn next_handle(self) -> nat {
        self.count + 1
    }

    pub open spec fn make(self, file: Option<F>, ino: Inode) -> HotView<F> {
        HotView {
            handles: self.handles.insert(
                self.next_handle() as u64,
                FileEntry { file: file, ino: ino },
            ),
            pins: self.pins.insert(ino, (self.pin_count(ino) + 1) as u64),
            holders: self.holders.insert(ino, self.holders_of(ino).insert(self.next_handle() as u64)),
            count: self.next_handle(),
        }
    }

    pub open spec fn take(self, fh: FileHandle) -> HotView<F> {
        HotView { handles: self.handles.remove(fh), ..self }
    }

    pub open spec fn restore(self, fh: FileHandle, file: F, ino: Inode) -> HotView<F> {
        HotView { handles: self.handles.insert(fh, FileEntry { file: Some(file), ino: ino }), ..self }
    }

    /// Releasing a handle that is not in the table changes nothing. Releasing
    /// one that is there drops one pin of its inode, and the inode with its
    /// last pin.
    pub open spec fn release(self, fh: FileHandle) -> HotView<F> {
        if !self.handles.contains_key(fh) {
            self
        } else {
            let ino = self.handles[fh].ino;
            HotView {
                handles: self.handles.remove(fh),
                pins: if self.pin_count(ino) > 1 {
                    self.pins.insert(ino, (self.pin_count(ino) - 1) as u64)
                } else {
                    self.pins.remove(ino)
                },
                holders: if self.pin_count(ino) > 1 {
                    self.holders.insert(ino, self.holders_of(ino).remove(fh))
                } else {
                    self.holders.remove(ino)
                },
                count: self.count,
            }
        }
    }

    pub open spec fn apply(self, op: HotOp<F>) -> HotView<F> {
        match op {
            HotOp::Make { file, ino } => self.make(file, ino),
            HotOp::Take { fh } => self.take(fh),
            HotOp::Restore { fh, taken, ino } => self.restore(fh, taken, ino),
            HotOp::Release { fh } => self.release(fh),
        }
    }

    /// The registry after the calls `ops`, made in order.
    pub open spec fn run(self, ops: Seq<HotOp<F>>) -> HotView<F>
        decreases ops.len(),
    {
        if ops.len() == 0 {
            self
        } else {
            self.run(ops.drop_last()).apply(ops.last())
        }
    }

    /// The handle that call `i` of `ops` issues, where that call is a `Make`.
    pub open spec fn issued(self, ops: Seq<HotOp<F>>, i: int) -> nat {
        self.run(ops.take(i)).next_handle()
    }
}

/// A new handle keeps the registry well formed, and the handles that pinned
/// an inode go on pinning it.
pub proof fn lemma_make_wf<F>(hot: HotView<F>, file: Option<F>, ino: Inode)
    requires
        hot.wf(),
        hot.count < u64::MAX,
    ensures
        hot.make(file, ino).wf(),
        hot.make(file, ino).holds(ino, hot.next_handle() as u64),
        !hot.handles.contains_key(hot.next_handle() as u64),
        forall|other: Inode, fh: FileHandle| hot.holds(other, fh) ==> #[trigger] hot.make(file, ino).holds(other, fh),
{
    let after = hot.make(file, ino);
    let fresh = hot.next_handle() as u64;
    if hot.handles.contains_key(fresh) {
        assert(fresh <= hot.count);
    }
    if hot.holders.contains_key(ino) {
        assert(hot.pins.contains_key(ino));
        if hot.holders[ino].contains(fresh) {
            assert(hot.holds(ino, fresh));
        }
    } else {
        assert(!hot.pins.contains_key(ino));
    }
    assert forall|fh: FileHandle| (#[trigger] after.handles.contains_key(fh)) implies {
        &&& 1 <= fh <= after.count
        &&& after.holds(after.handles[fh].ino, fh)
    } by {
        if fh != fresh {
            assert(hot.handles.contains_key(fh));
            assert(hot.holds(hot.handles[fh].ino, fh));
        }
    }
    assert forall|other: Inode| (#[trigger] after.pins.contains_key(other)) <==> after.holders.contains_key(
        other,
    ) by {
        if other != ino {
            assert(hot.pins.contains_key(other) <==> hot.holders.contains_key(other));
        }
    }
    assert forall|other: Inode| (#[trigger] after.holders.contains_key(other)) implies {
        &&& after.holders[other].finite()
        &&& after.holders[other].len() == after.pins[other]
        &&& 1 <= after.pins[other] <= after.count
    } by {
        if other != ino {
            assert(hot.holders.contains_key(other));
        }
    }
    assert forall|other: Inode, fh: FileHandle| #[trigger] after.holds(other, fh) implies 1 <= fh
        <= after.count by {
        if !(other == ino && fh == fresh) {
            assert(hot.holds(other, fh));
        }
    }
}

/// Taking a file keeps the registry well formed: the handle goes on pinning
/// its inode.
pub proof fn lemma_take_wf<F>(hot: HotView<F>, fh: FileHandle)
    requires
        hot.wf(),
    ensures
        hot.take(fh).wf(),
        hot.handles.contains_key(fh) ==> hot.take(fh).taken(hot.handles[fh].ino, fh),
{
    let after = hot.take(fh);
    assert forall|other: FileHandle| (#[trigger] after.handles.contains_key(other)) implies {
        &&& 1 <= other <= after.count
        &&& after.holds(after.handles[other].ino, other)
    } by {
        assert(hot.handles.contains_key(other));
    }
    assert forall|ino: Inode, other: FileHandle| #[trigger] after.holds(ino, other) implies 1 <= other
        <= after.count by {
        assert(hot.holds(ino, other));
    }
}

/// Putting a file back under a handle of the inode keeps the registry well
/// formed.
pub proof fn lemma_restore_wf<F>(hot: HotView<F>, fh: FileHandle, file: F, ino: Inode)
    requires
        hot.wf(),
        hot.holds(ino, fh),
    ensures
        hot.restore(fh, file, ino).wf(),
{
    let after = hot.restore(fh, file, ino);
    assert forall|other: FileHandle| (#[trigger] after.handles.contains_key(other)) implies {
        &&& 1 <= other <= after.count
        &&& after.holds(after.handles[other].ino, other)
    } by {
        if other != fh {
            assert(hot.handles.contains_key(other));
        }
    }
    assert forall|other: Inode, held: FileHandle| #[trigger] after.holds(other, held) implies 1 <= held
        <= after.count by {
        assert(hot.holds(other, held));
    }
}

/// Releasing a handle keeps the registry well formed, and every other
/// handle goes on pinning its inode.
pub proof fn lemma_release_wf<F>(hot: HotView<F>, fh: FileHandle)
    requires
        hot.wf(),
    ensures
        hot.release(fh).wf(),
        forall|ino: Inode, other: FileHandle|
            hot.holds(ino, other) && other != fh ==> #[trigger] hot.release(fh).holds(ino, other),
{
    let after = hot.release(fh);
    if hot.handles.contains_key(fh) {
        let ino = hot.handles[fh].ino;
        assert(hot.holds(ino, fh));
        assert(hot.holders.contains_key(ino));
        assert(hot.pins.contains_key(ino));
        let rest = hot.holders[ino].remove(fh);
        if hot.pin_count(ino) <= 1 {
            rest.lemma_len0_is_empty();
        }
        assert forall|other: FileHandle| (#[trigger] after.handles.contains_key(other)) implies {
            &&& 1 <= other <= after.count
            &&& after.holds(after.handles[other].ino, other)
        } by {
            assert(hot.handles.contains_key(other));
            assert(hot.holds(hot.handles[other].ino, other));
            if hot.handles[other].ino == ino {
                assert(rest.contains(other));
            }
        }
        assert forall|other: Inode| (#[trigger] after.pins.contains_key(other)) <==> after.holders.contains_key(
            other,
        ) by {
            if other != ino {
                assert(hot.pins.contains_key(other) <==> hot.holders.contains_key(other));
            }
        }
        assert forall|other: Inode| (#[trigger] after.holders.contains_key(other)) implies {
            &&& after.holders[other].finite()
            &&& after.holders[other].len() == after.pins[other]
            &&& 1 <= after.pins[other] <= after.count
        } by {
            if other != ino {
                assert(hot.holders.contains_key(other));
            }
        }
        assert forall|other: Inode, held: FileHandle| #[trigger] after.holds(other, held) implies 1
            <= held <= after.count by {
            assert(hot.holds(other, held));
        }
        assert forall|other: Inode, held: FileHandle| hot.holds(other, held) && held != fh implies #[trigger] after.holds(
            other,
            held,
        ) by {
            if other == ino {
                assert(rest.contains(held));
            }
        }
    }
}

/// An inode is hot exactly when some handle pins it.
pub proof fn lemma_hot_means_held<F>(hot: HotView<F>, ino: Inode)
    requires
        hot.wf(),
    ensures
        hot.is_hot(ino) <==> exists|fh: FileHandle| hot.holds(ino, fh),
{
    if hot.is_hot(ino) {
        assert(hot.holders.contains_key(ino));
        let held = hot.holders[ino];
        if held.len() != 0 {
            let fh = held.choose();
            assert(hot.holds(ino, fh));
        }
    } else {
        assert(!hot.holders.contains_key(ino));
    }
}

/// No call lowers the count of handles made, and a `Make` raises it by one.
pub proof fn lemma_count_grows<F>(start: HotView<F>, ops: Seq<HotOp<F>>, i: int, j: int)
    requires
        0 <= i <= j <= ops.len(),
    ensures
        start.run(ops.take(i)).count <= start.run(ops.take(j)).count,
    decreases j - i,
{
    if i < j {
        lemma_count_grows(start, ops, i, j - 1);
        assert(ops.take(j).drop_last() == ops.take(j - 1));
    }
}

/// Handles are issued in strictly increasing order, so no two calls issue the
/// same handle: of two `Make` calls in any run of calls on a registry, the
/// later one issues the greater handle.
pub proof fn lemma_handles_increase<F>(start: HotView<F>, ops: Seq<HotOp<F>>, i: int, j: int)
    requires
        0 <= i < j < ops.len(),
        ops[i] is Make,
        ops[j] is Make,
    ensures
        start.issued(ops, i) < start.issued(ops, j),
{
    assert(ops.take(i + 1).drop_last() == ops.take(i));
    assert(start.run(ops.take(i + 1)).count == start.issued(ops, i));
    lemma_count_grows(start, ops, i + 1, j);
}

impl<F> View for HotFiles<F> {
    type V = HotView<F>;

    closed spec fn view(&self) -> HotView<F> {
        HotView {
            handles: self.by_fh@,
            pins: self.by_ino@,
            holders: self.holders@,
            count: self.count as nat,
        }
    }
}

impl<F> HotFiles<F> {
    pub open spec fn wf(&self) -> bool {
        self@.wf()
    }

    pub fn new() -> (hot: HotFiles<F>)
        ensures
            hot.wf(),
            hot@.handles == Map::<FileHandle, FileEntry<F>>::empty(),
            hot@.pins == Map::<Inode, u64>::empty(),
            hot@.holders == Map::<Inode, Set<FileHandle>>::empty(),
            hot@.count == 0,
    {
        HotFiles {
            by_fh: FastMap::with_capacity(HOTFILESIZE),
            by_ino: FastMap::with_capacity(HOTFILESIZE),
            count: 0,
            holders: Ghost(Map::empty()),
        }
    }

    /// Issues the next handle for `ino` and pins the inode once more. A
    /// directory has no file, and its handle pins all the same.
    pub fn make_handle(&mut self, file: Option<F>, ino: Inode) -> (fh: FileHandle)
        requires
            old(self).wf(),
            old(self)@.count < u64::MAX,
        ensures
            final(self).wf(),
            fh == old(self)@.next_handle(),
            final(self)@ == old(self)@.make(file, ino),
            !old(self)@.handles.contains_key(fh),
    {
        let count: u64 = self.count + 1;
        let pins: u64 = match fast_map_get(&self.by_ino, &ino) {
            Some(pins) => *pins,
            None => 0,
        };
        assert(pins == old(self)@.pin_count(ino));
        proof {
            if old(self)@.pins.contains_key(ino) {
                assert(old(self)@.holders.contains_key(ino));
            }
        }
        fast_map_insert(&mut self.by_fh, count, FileEntry { file: file, ino: ino });
        fast_map_insert(&mut self.by_ino, ino, pins + 1);
        self.count = count;
        proof {
            self.holders = Ghost(old(self)@.make(file, ino).holders);
            lemma_make_wf(old(self)@, file, ino);
        }
        assert(self@.pins == old(self)@.make(file, ino).pins);
        assert(self@.handles == old(self)@.make(file, ino).handles);
        count
    }

    /// Takes the file of a handle out of the table. The handle keeps its pin;
    /// the caller puts the file back with `restore_file` before the handle is
    /// released.
    pub fn take_file(&mut self, fh: FileHandle) -> (file: F)
        requires
            old(self).wf(),
            old(self)@.handles.contains_key(fh),
            old(self)@.handles[fh].file is Some,
        ensures
            final(self).wf(),
            Some(file) == old(self)@.handles[fh].file,
            final(self)@ == old(self)@.take(fh),
    {
        let entry = fast_map_remove(&mut self.by_fh, &fh);
        assert(self@.pins == old(self)@.pins);
        proof {
            lemma_take_wf(old(self)@, fh);
        }
        entry.unwrap().file.unwrap()
    }

    /// Puts a file back under its handle. The handle must be one of the
    /// inode: one that was made for it and not released.
    pub fn restore_file(&mut self, fh: FileHandle, file: F, ino: Inode)
        requires
            old(self).wf(),
            old(self)@.holds(ino, fh),
        ensures
            final(self).wf(),
            final(self)@ == old(self)@.restore(fh, file, ino),
    {
        fast_map_insert(&mut self.by_fh, fh, FileEntry { file: Some(file), ino: ino });
        assert(self@.pins == old(self)@.pins);
        assert(self@.handles == old(self)@.handles.insert(fh, FileEntry { file: Some(file), ino: ino }));
        proof {
            lemma_restore_wf(old(self)@, fh, file, ino);
        }
    }

    /// Releases a handle. Where the handle is not in the table, because its
    /// file is taken or it was never made, nothing changes.
    pub fn release_handle(&mut self, fh: FileHandle)
        requires
            old(self).wf(),
        ensures
            final(self).wf(),
            final(self)@ == old(self)@.release(fh),
    {
        let ino: Inode = match fast_map_remove(&mut self.by_fh, &fh) {
            Some(entry) => entry.ino,
            None => {
                assert(self@.handles =~= old(self)@.handles);
                return ;
            },
        };
        let pins = fast_map_remove(&mut self.by_ino, &ino);
        match pins {
            Some(pins) => {
                if pins > 1 {
                    fast_map_insert(&mut self.by_ino, ino, pins - 1);
                }
            },
            None => {},
        }
        proof {
            self.holders = Ghost(old(self)@.release(fh).holders);
            lemma_release_wf(old(self)@, fh);
        }
        assert(self@.pins =~= old(self)@.release(fh).pins);
    }

    pub fn is_hot(&self, ino: Inode) -> (hot: bool)
        ensures
            hot == self@.is_hot(ino),
            self.wf() ==> hot == (self@.pin_count(ino) > 0),
    {
        fast_map_contains_key(&self.by_ino, &ino)
    }

    /// The last handle made, zero where none was.
    pub fn last_handle(&self) -> (fh: FileHandle)
        ensures
            fh == self@.count,
    {
        self.count
    }

    /// Whether `fh` is in the table with a file that can be taken.
    pub fn has_file(&self, fh: FileHandle) -> (present: bool)
        ensures
            present == (self@.handles.contains_key(fh) && self@.handles[fh].file is Some),
    {
        match fast_map_get(&self.by_fh, &fh) {
            Some(entry) => entry.file.is_some(),
            None => false,
        }
    }
}

} // verus!
