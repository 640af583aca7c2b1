//! The cache of directory listings. A directory is read from the backing
//! filesystem once, when the kernel starts to list it, and its entries are
//! kept until the kernel has been given them all, however many replies that
//! takes.

use crate::filehandles::Inode;
use crate::helper::FileType;
use multimap::MultiMap;
use vstd::prelude::*;

verus! {

/// The map from keys to lists of values that the listings are kept in.
#[verifier::external_type_specification]
#[verifier::external_body]
#[verifier::reject_recursive_types(K)]
#[verifier::reject_recursive_types(V)]
#[verifier::reject_recursive_types(S)]
pub struct ExMultiMap<K, V, S>(MultiMap<K, V, S>);

/// One entry of a directory as the backing filesystem gave it.
pub struct Dentry {
    pub ino: Inode,
    /// The kind of the file, absent where it could not be found out.
    pub kind: Option<FileType>,
    pub name: Vec<u8>,
}

pub struct DentryView {
    pub ino: Inode,
    pub kind: Option<FileType>,
    pub name: Seq<u8>,
}

impl View for Dentry {
    type V = DentryView;

    open spec fn view(&self) -> DentryView {
        DentryView { ino: self.ino, kind: self.kind, name: self.name@ }
    }
}

/// One entry of a reply to the kernel. The offset is what the kernel hands
/// back to go on after this entry.
pub struct DirItem {
    pub ino: Inode,
    pub offset: u64,
    pub kind: FileType,
    pub name: Vec<u8>,
}

pub struct ItemView {
    pub ino: Inode,
    pub offset: u64,
    pub kind: FileType,
    pub name: Seq<u8>,
}

impl View for DirItem {
    type V = ItemView;

    open spec fn view(&self) -> ItemView {
        ItemView { ino: self.ino, offset: self.offset, kind: self.kind, name: self.name@ }
    }
}

pub type DentryMap = MultiMap<Inode, Vec<Dentry>>;

/// What a map of listings holds: for each inode that has any, its listings
/// in the order they were put in.
pub uninterp spec fn dentry_lists(map: DentryMap) -> Map<Inode, Seq<Vec<Dentry>>>;

/// `MultiMap::new`: a map that holds nothing.
#[verifier::external_body]
fn dentry_map_new() -> (map: DentryMap)
    ensures
        dentry_lists(map).dom() == Set::<Inode>::empty(),
{
    MultiMap::new()
}

/// `MultiMap::insert`: the listing goes behind those that the inode has, or
/// becomes its only one; the other inodes keep theirs.
#[verifier::external_body]
fn dentry_map_insert(map: &mut DentryMap, ino: Inode, list: Vec<Dentry>)
    ensures
        dentry_lists(*final(map)) == dentry_lists(*old(map)).insert(
            ino,
            if dentry_lists(*old(map)).contains_key(ino) {
                dentry_lists(*old(map))[ino].push(list)
            } else {
                seq![list]
            },
        ),
{
    map.insert(ino, list)
}

/// `MultiMap::remove`: the inode's listings leave the map and come back, all
/// of them and in their order; the other inodes keep theirs.
#[verifier::external_body]
fn dentry_map_remove(map: &mut DentryMap, ino: &Inode) -> (lists: Option<Vec<Vec<Dentry>>>)
    ensures
        dentry_lists(*final(map)) == dentry_lists(*old(map)).remove(*ino),
        match lists {
            Some(lists) => dentry_lists(*old(map)).contains_key(*ino) && lists@ == dentry_lists(
                *old(map),
            )[*ino],
            None => !dentry_lists(*old(map)).contains_key(*ino),
        },
{
    map.remove(ino)
}

/// `MultiMap::contains_key`: whether the inode has any listing.
#[verifier::external_body]
fn dentry_map_contains_key(map: &DentryMap, ino: &Inode) -> (found: bool)
    ensures
        found == dentry_lists(*map).contains_key(*ino),
{
    map.contains_key(ino)
}

/// `MultiMap::get`: the first of the inode's listings, where it has one.
#[verifier::external_body]
fn dentry_map_get<'a>(map: &'a DentryMap, ino: &Inode) -> (first: Option<&'a Vec<Dentry>>)
    ensures
        match first {
            Some(list) => dentry_lists(*map).contains_key(*ino) && dentry_lists(*map)[*ino].len() > 0
                && *list == dentry_lists(*map)[*ino][0],
            None => !dentry_lists(*map).contains_key(*ino) || dentry_lists(*map)[*ino].len() == 0,
        },
{
    map.get(ino)
}

/// The entries of a listing as mathematical values.
pub open spec fn entries_view(list: Seq<Dentry>) -> Seq<DentryView> {
    Seq::new(list.len(), |i: int| list[i]@)
}

/// The entries of a reply as mathematical values.
pub open spec fn items_view(items: Seq<DirItem>) -> Seq<ItemView> {
    Seq::new(items.len(), |i: int| items[i]@)
}

/// The name of a directory in itself.
pub open spec fn dot() -> Seq<u8> {
    seq![46u8]
}

/// The name of the parent in a directory.
pub open spec fn dot_dot() -> Seq<u8> {
    seq![46u8, 46u8]
}

/// The two entries that every listing starts with: the directory itself at
/// offset 0 and its parent at offset 1, both under the inode of the
/// directory.
pub open spec fn dot_items(ino: Inode) -> Seq<ItemView> {
    seq![
        ItemView { ino: ino, offset: 0, kind: FileType::Directory, name: dot() },
        ItemView { ino: ino, offset: 1, kind: FileType::Directory, name: dot_dot() },
    ]
}

/// The reply entry for entry `at` of a listing: its offset is two more than
/// its place.
pub open spec fn item_of(entry: DentryView, at: int) -> ItemView {
    ItemView { ino: entry.ino, offset: (at + 2) as u64, kind: entry.kind->0, name: entry.name }
}

/// The reply entries for the entries of `list` from place `from` on. An
/// entry whose kind is not known is left out.
pub open spec fn entry_items(list: Seq<DentryView>, from: int) -> Seq<ItemView>
    decreases list.len() - from,
{
    if from < 0 || from >= list.len() {
        Seq::empty()
    } else if list[from].kind is Some {
        seq![item_of(list[from], from)] + entry_items(list, from + 1)
    } else {
        entry_items(list, from + 1)
    }
}

/// All that is left to give to a kernel that asks for the listing of `ino`
/// at `offset`: the whole listing at offset 0, and else what comes after the
/// entry with that offset.
pub open spec fn page_items(list: Seq<DentryView>, ino: Inode, offset: u64) -> Seq<ItemView> {
    if offset == 0 {
        dot_items(ino) + entry_items(list, 0)
    } else {
        entry_items(list, offset - 1)
    }
}

/// How a request to read a directory at some offset starts.
#[derive(Clone, Copy, Debug, PartialEq, Eq, Structural)]
pub enum Resume {
    /// The kernel has been given every entry: the listing is dropped, and
    /// the reply is empty.
    Finished,
    /// The kernel goes on with a listing that is not kept.
    Lost,
    /// There are entries to give.
    Go,
}

pub struct DentryCache {
    map: DentryMap,
}

impl View for DentryCache {
    type V = Map<Inode, Seq<DentryView>>;

    closed spec fn view(&self) -> Map<Inode, Seq<DentryView>> {
        Map::new(
            |ino: Inode| dentry_lists(self.map).contains_key(ino),
            |ino: Inode| entries_view(dentry_lists(self.map)[ino][0]@),
        )
    }
}

impl DentryCache {
    /// Each inode with a listing has exactly one, short enough for its last
    /// entry to have an offset.
    pub closed spec fn wf(&self) -> bool {
        forall|ino: Inode| (#[trigger] dentry_lists(self.map).contains_key(ino)) ==> {
            &&& dentry_lists(self.map)[ino].len() == 1
            &&& dentry_lists(self.map)[ino][0]@.len() + 2 <= u64::MAX
        }
    }

    pub fn new() -> (cache: DentryCache)
        ensures
            cache.wf(),
            cache@ == Map::<Inode, Seq<DentryView>>::empty(),
    {
        let cache = DentryCache { map: dentry_map_new() };
        assert(cache@ =~= Map::<Inode, Seq<DentryView>>::empty());
        cache
    }

    pub fn is_cached(&self, ino: Inode) -> (cached: bool)
        ensures
            cached == self@.contains_key(ino),
    {
        dentry_map_contains_key(&self.map, &ino)
    }

    /// Starts a request to read directory `ino` at `offset`. At offset 0
    /// nothing is looked up. At any other offset the listing must be kept;
    /// where the offset is that of its last entry, the listing is dropped.
    pub fn resume(&mut self, ino: Inode, offset: u64) -> (start: Resume)
        requires
            old(self).wf(),
        ensures
            final(self).wf(),
            start == resume_of(old(self)@, ino, offset),
            final(self)@ == (if start == Resume::Finished {
                old(self)@.remove(ino)
            } else {
                old(self)@
            }),
    {
        if offset == 0 {
            return Resume::Go;
        }
        match dentry_map_remove(&mut self.map, &ino) {
            Some(mut lists) => {
                assert(dentry_lists(old(self).map).contains_key(ino));
                let list: Vec<Dentry> = lists.remove(0);
                if list.len() as u64 == offset - 1 {
                    assert(self@ =~= old(self)@.remove(ino));
                    Resume::Finished
                } else {
                    dentry_map_insert(&mut self.map, ino, list);
                    assert(dentry_lists(self.map) =~= dentry_lists(old(self).map)) by {
                        assert(seq![list] =~= dentry_lists(old(self).map)[ino]);
                    }
                    Resume::Go
                }
            },
            None => {
                assert(dentry_lists(self.map) =~= dentry_lists(old(self).map));
                Resume::Lost
            },
        }
    }

    /// Keeps the entries of directory `ino`, as read from the backing
    /// filesystem. A listing that is kept already stays as it is.
    pub fn load(&mut self, ino: Inode, entries: Vec<Dentry>)
        requires
            old(self).wf(),
            entries@.len() + 2 <= u64::MAX,
        ensures
            final(self).wf(),
            final(self)@ == (if old(self)@.contains_key(ino) {
                old(self)@
            } else {
                old(self)@.insert(ino, entries_view(entries@))
            }),
    {
        if !dentry_map_contains_key(&self.map, &ino) {
            dentry_map_insert(&mut self.map, ino, entries);
            assert(self@ =~= old(self)@.insert(ino, entries_view(entries@)));
        }
    }

    /// All that is left to give of the listing of `ino` at `offset`, in
    /// order. The caller puts as many of them in its reply as fit.
    pub fn page(&self, ino: Inode, offset: u64) -> (items: Option<Vec<DirItem>>)
        requires
            self.wf(),
        ensures
            match items {
                Some(items) => self@.contains_key(ino) && items_view(items@) == page_items(
                    self@[ino],
                    ino,
                    offset,
                ),
                None => !self@.contains_key(ino),
            },
    {
        let list: &Vec<Dentry> = match dentry_map_get(&self.map, &ino) {
            Some(list) => list,
            None => {
                return None;
            },
        };
        let ghost entries = entries_view(list@);
        let mut items: Vec<DirItem> = Vec::new();
        let mut at: usize = 0;
        if offset == 0 {
            let mut this: Vec<u8> = Vec::new();
            this.push(46u8);
            assert(this@ =~= dot());
            let mut parent: Vec<u8> = Vec::new();
            parent.push(46u8);
            parent.push(46u8);
            assert(parent@ =~= dot_dot());
            items.push(DirItem { ino: ino, offset: 0, kind: FileType::Directory, name: this });
            items.push(DirItem { ino: ino, offset: 1, kind: FileType::Directory, name: parent });
            assert(items_view(items@) =~= dot_items(ino));
        } else if offset - 1 >= list.len() as u64 {
            assert(page_items(entries, ino, offset) =~= Seq::<ItemView>::empty());
            assert(items_view(items@) =~= Seq::<ItemView>::empty());
            return Some(items);
        } else {
            at = (offset - 1) as usize;
            assert(items_view(items@) =~= Seq::<ItemView>::empty());
        }
        let ghost start = items_view(items@);
        let ghost from = at as int;
        assert(page_items(entries, ino, offset) == start + entry_items(entries, from));
        while at < list.len()
            invariant
                at <= list.len(),
                list@.len() + 2 <= u64::MAX,
                entries == entries_view(list@),
                items_view(items@) + entry_items(entries, at as int) == start + entry_items(
                    entries,
                    from,
                ),
            decreases list.len() - at,
        {
            let entry: &Dentry = &list[at];
            let ghost before = items_view(items@);
            match entry.kind {
                Some(kind) => {
                    items.push(
                        DirItem {
                            ino: entry.ino,
                            offset: at as u64 + 2,
                            kind: kind,
                            name: entry.name.clone(),
                        },
                    );
                    assert(items_view(items@) =~= before.push(item_of(entries[at as int], at as int)));
                    assert(before.push(item_of(entries[at as int], at as int)) + entry_items(
                        entries,
                        at + 1,
                    ) =~= before + entry_items(entries, at as int));
                },
                None => {},
            }
            at += 1;
        }
        assert(items_view(items@) + entry_items(entries, at as int) =~= items_view(items@));
        Some(items)
    }
}

/// How a request to read directory `ino` at `offset` starts, given the
/// listings that are kept.
pub open spec fn resume_of(kept: Map<Inode, Seq<DentryView>>, ino: Inode, offset: u64) -> Resume {
    if offset == 0 {
        Resume::Go
    } else if !kept.contains_key(ino) {
        Resume::Lost
    } else if kept[ino].len() == offset - 1 {
        Resume::Finished
    } else {
        Resume::Go
    }
}

/// The first `page_size` of `items`, or all of them where they are fewer.
pub open spec fn first_page(items: Seq<ItemView>, page_size: nat) -> Seq<ItemView> {
    if items.len() <= page_size {
        items
    } else {
        items.take(page_size as int)
    }
}

/// All that a kernel is given that reads the listing `list` of `ino` in
/// replies of at most `page_size` entries, starting at `offset` and going on
/// each time at the offset of the last entry it was given, for at most
/// `calls` requests. It stops when a request finishes the listing or brings
/// nothing.
pub open spec fn stream(list: Seq<DentryView>, ino: Inode, offset: u64, page_size: nat, calls: nat) -> Seq<
    ItemView,
>
    decreases calls,
{
    if calls == 0 {
        Seq::empty()
    } else if offset > 0 && list.len() == offset - 1 {
        Seq::empty()
    } else {
        let got = first_page(page_items(list, ino, offset), page_size);
        if got.len() == 0 {
            Seq::empty()
        } else {
            got + stream(list, ino, got.last().offset, page_size, (calls - 1) as nat)
        }
    }
}

/// The reply entries of the entries from `from` on have offsets of at least
/// `from + 2` that grow from one to the next, they are no more than the
/// entries, and as many where every kind is known.
pub proof fn lemma_entry_items(list: Seq<DentryView>, from: int)
    requires
        0 <= from <= list.len(),
        list.len() + 2 <= u64::MAX,
    ensures
        entry_items(list, from).len() <= list.len() - from,
        (forall|i: int| from <= i < list.len() ==> (#[trigger] list[i]).kind is Some) ==> entry_items(
            list,
            from,
        ).len() == list.len() - from,
        forall|k: int|
            0 <= k < entry_items(list, from).len() ==> from + 2 + k <= (#[trigger] entry_items(
                list,
                from,
            )[k]).offset < list.len() + 2,
        forall|j: int, k: int|
            0 <= j < k < entry_items(list, from).len() ==> (#[trigger] entry_items(list, from)[j]).offset
                < (#[trigger] entry_items(list, from)[k]).offset,
    decreases list.len() - from,
{
    if from < list.len() {
        lemma_entry_items(list, from + 1);
        let rest = entry_items(list, from + 1);
        let all = entry_items(list, from);
        if list[from].kind is Some {
            assert(all[0] == item_of(list[from], from));
            assert forall|k: int| 1 <= k < all.len() implies all[k] == rest[k - 1] by {}
            assert forall|j: int, k: int| 0 <= j < k < all.len() implies (#[trigger] all[j]).offset < (
            #[trigger] all[k]).offset by {
                assert(all[k] == rest[k - 1]);
                if j > 0 {
                    assert(all[j] == rest[j - 1]);
                }
            }
        }
    }
}

/// What is left of the reply entries after the first `given` of them is what
/// there is to give after the last of those.
pub proof fn lemma_rest_of_items(list: Seq<DentryView>, from: int, given: int)
    requires
        0 <= from <= list.len(),
        list.len() + 2 <= u64::MAX,
        1 <= given <= entry_items(list, from).len(),
    ensures
        entry_items(list, from).skip(given) == entry_items(
            list,
            entry_items(list, from)[given - 1].offset - 1,
        ),
    decreases list.len() - from,
{
    let all = entry_items(list, from);
    let rest = entry_items(list, from + 1);
    if list[from].kind is Some {
        assert(all =~= seq![item_of(list[from], from)] + rest);
        if given == 1 {
            assert(all.skip(1) =~= rest);
        } else {
            lemma_rest_of_items(list, from + 1, given - 1);
            assert(all.skip(given) =~= rest.skip(given - 1));
            assert(all[given - 1] == rest[given - 2]);
        }
    } else {
        lemma_rest_of_items(list, from + 1, given);
    }
}

/// A kernel that goes on at `offset`, the offset of an entry it was given,
/// gets all that is left, whatever the size of the replies.
pub proof fn lemma_stream_rest(list: Seq<DentryView>, ino: Inode, offset: u64, page_size: nat, calls: nat)
    requires
        1 <= offset <= list.len() + 1,
        list.len() + 2 <= u64::MAX,
        page_size >= 1,
        calls > list.len() + 1 - offset,
    ensures
        stream(list, ino, offset, page_size, calls) == entry_items(list, offset - 1),
    decreases calls,
{
    let from = offset - 1;
    let all = entry_items(list, from);
    lemma_entry_items(list, from);
    if list.len() == offset - 1 {
    } else {
        let got = first_page(all, page_size);
        if got.len() == 0 {
            assert(all.len() == 0);
        } else {
            let last = got.last();
            assert(last == all[got.len() - 1]);
            lemma_rest_of_items(list, from, got.len() as int);
            lemma_stream_rest(list, ino, last.offset, page_size, (calls - 1) as nat);
            assert(got + all.skip(got.len() as int) =~= all);
        }
    }
}

/// Reading a directory in pages gives the whole listing, once. A kernel that
/// reads from offset 0 in replies of `page_size` entries, two at the least,
/// is given the directory itself, its parent, and then each entry whose kind
/// is known, in order and with offsets that grow: no entry is given twice and
/// none is left out. Where all kinds are known, that is two entries more
/// than the directory has.
pub proof fn lemma_readdir_gives_all(list: Seq<DentryView>, ino: Inode, page_size: nat, calls: nat)
    requires
        list.len() + 2 <= u64::MAX,
        page_size >= 2,
        calls > list.len() + 1,
    ensures
        stream(list, ino, 0, page_size, calls) == dot_items(ino) + entry_items(list, 0),
        (forall|i: int| 0 <= i < list.len() ==> (#[trigger] list[i]).kind is Some) ==> stream(
            list,
            ino,
            0,
            page_size,
            calls,
        ).len() == list.len() + 2,
        forall|j: int, k: int|
            0 <= j < k < stream(list, ino, 0, page_size, calls).len() ==> (#[trigger] stream(
                list,
                ino,
                0,
                page_size,
                calls,
            )[j]).offset < (#[trigger] stream(list, ino, 0, page_size, calls)[k]).offset,
{
    let entries = entry_items(list, 0);
    let all = dot_items(ino) + entries;
    lemma_entry_items(list, 0);
    let got = first_page(all, page_size);
    let given = got.len() - 2;
    assert(got.len() >= 2);
    let last = got.last();
    assert(last == all[got.len() - 1]);
    if given == 0 {
        assert(last.offset == 1);
        lemma_stream_rest(list, ino, 1, page_size, (calls - 1) as nat);
        assert(got + entries =~= all);
    } else {
        assert(last == entries[given - 1]);
        lemma_rest_of_items(list, 0, given);
        lemma_stream_rest(list, ino, last.offset, page_size, (calls - 1) as nat);
        assert(got + entries.skip(given) =~= all);
    }
    assert forall|j: int, k: int| 0 <= j < k < all.len() implies (#[trigger] all[j]).offset < (
    #[trigger] all[k]).offset by {
        if j >= 2 {
            assert(all[j] == entries[j - 2]);
        }
        if k >= 2 {
            assert(all[k] == entries[k - 2]);
        }
    }
}

} // verus!
