use mirrorfs::fasthashes::{FastHasher, FastMap, FastSet};
use mirrorfs::mirrorfs::{Capabilities, Capability, MirrorFS};
use mirrorfs::user::{CapToken, Envelope, IdentityAction, UserMap};

struct Thread {
    fsuid: u32,
    fsgid: u32,
    effective: Vec<Capability>,
}

impl Thread {
    /// Does what the host does, and gives what it reports: the user or the
    /// group that the thread acted as before.
    fn apply(&mut self, action: IdentityAction) -> Option<u32> {
        match action {
            IdentityAction::RaiseCap(cap) => {
                if !self.effective.contains(&cap) {
                    self.effective.push(cap);
                }
                None
            }
            IdentityAction::DropCap(cap) => {
                self.effective.retain(|c| *c != cap);
                None
            }
            IdentityAction::SetFsUid(uid) => {
                let before = self.fsuid;
                self.fsuid = uid;
                Some(before)
            }
            IdentityAction::SetFsGid(gid) => {
                let before = self.fsgid;
                self.fsgid = gid;
                Some(before)
            }
        }
    }

    fn enter(&mut self, envelope: Envelope) -> UserMap {
        for cap in envelope.raise.iter() {
            self.apply(IdentityAction::RaiseCap(*cap));
        }
        let seen_user = if envelope.set_user {
            self.apply(IdentityAction::SetFsUid(envelope.user))
        } else {
            None
        };
        let seen_group = if envelope.set_group {
            self.apply(IdentityAction::SetFsGid(envelope.group))
        } else {
            None
        };
        UserMap::entered(envelope, seen_user, seen_group)
    }
}

fn fs(
    caps: Vec<Capability>,
    users: &[(u32, u32)],
    groups: &[(u32, u32)],
    fullaccess: &[u32],
) -> MirrorFS<u32> {
    let mut user_map: FastMap<u32, u32> = FastMap::with_capacity(4);
    for (from, to) in users {
        user_map.insert(*from, *to);
    }
    let mut group_map: FastMap<u32, u32> = FastMap::with_capacity(4);
    for (from, to) in groups {
        group_map.insert(*from, *to);
    }
    let mut full: FastSet<u32> = FastSet::with_capacity(4);
    for uid in fullaccess {
        full.insert(*uid);
    }
    MirrorFS::new(b"/base", b"/mnt", 1000, 1000, user_map, group_map, full, Capabilities { permitted: caps })
}

#[test]
fn ids_are_mapped_where_a_map_holds_them() {
    let f = fs(vec![], &[(500, 600)], &[(50, 60)], &[]);
    assert_eq!(f.usermap(500, 50), (600, 60));
    assert_eq!(f.usermap(501, 50), (501, 60));
    assert_eq!(f.usermap(500, 51), (600, 51));
    assert_eq!(f.usermap(7, 8), (7, 8));
}

#[test]
fn the_group_map_stands_alone() {
    let f = fs(vec![], &[], &[(50, 60)], &[]);
    assert_eq!(f.usermap(500, 50), (500, 60));
}

#[test]
fn an_envelope_switches_and_restores_the_identity() {
    let f = fs(vec![Capability::Setuid, Capability::Setgid], &[], &[], &[]);
    let mut thread = Thread { fsuid: 1000, fsgid: 1000, effective: vec![] };
    let envelope = f.userprelude(500, 50);
    assert!(envelope.set_user);
    assert!(envelope.set_group);
    assert_eq!(envelope.raise, vec![]);
    let map = thread.enter(envelope);
    assert_eq!((thread.fsuid, thread.fsgid), (500, 50));
    assert_eq!((map.o_user, map.o_group, map.n_user, map.n_group), (1000, 1000, 500, 50));
    let actions = map.drop();
    assert_eq!(actions, vec![IdentityAction::SetFsUid(1000), IdentityAction::SetFsGid(1000)]);
    for action in actions {
        thread.apply(action);
    }
    assert_eq!((thread.fsuid, thread.fsgid), (1000, 1000));
}

#[test]
fn an_early_return_restores_the_identity() {
    struct Guard<'a> {
        thread: &'a mut Thread,
        map: UserMap,
    }
    impl<'a> Drop for Guard<'a> {
        fn drop(&mut self) {
            for action in self.map.drop() {
                self.thread.apply(action);
            }
        }
    }
    fn request(f: &MirrorFS<u32>, thread: &mut Thread, fail: bool) -> Result<u32, i32> {
        let envelope = f.userprelude(500, 1000);
        let map = thread.enter(envelope);
        let guard = Guard { thread, map };
        if fail {
            return Err(13);
        }
        Ok(guard.thread.fsuid)
    }
    let f = fs(vec![Capability::Setuid], &[], &[], &[]);
    let mut thread = Thread { fsuid: 1000, fsgid: 1000, effective: vec![] };
    assert_eq!(request(&f, &mut thread, false), Ok(500));
    assert_eq!(thread.fsuid, 1000);
    assert_eq!(request(&f, &mut thread, true), Err(13));
    assert_eq!(thread.fsuid, 1000);
}

#[test]
fn the_own_user_needs_no_switch() {
    let f = fs(vec![Capability::Setuid, Capability::Setgid], &[], &[], &[]);
    let envelope = f.userprelude(1000, 1000);
    assert!(!envelope.set_user);
    assert!(!envelope.set_group);
    let map = UserMap::entered(envelope, None, None);
    assert_eq!(map.drop(), vec![]);
}

#[test]
fn no_switch_without_the_privilege() {
    let f = fs(vec![Capability::Setgid], &[], &[], &[]);
    let envelope = f.userprelude(500, 50);
    assert!(!envelope.set_user);
    assert!(envelope.set_group);
    let mut thread = Thread { fsuid: 1000, fsgid: 1000, effective: vec![] };
    let map = thread.enter(envelope);
    assert_eq!((thread.fsuid, thread.fsgid), (1000, 50));
    assert_eq!(map.drop(), vec![IdentityAction::SetFsGid(1000)]);
}

#[test]
fn full_access_raises_what_is_permitted() {
    let f = fs(
        vec![Capability::DacOverride, Capability::Fowner, Capability::Setuid],
        &[],
        &[],
        &[500],
    );
    let envelope = f.userprelude(500, 1000);
    assert_eq!(envelope.raise, vec![Capability::Fowner, Capability::DacOverride]);
    let mut thread = Thread { fsuid: 1000, fsgid: 1000, effective: vec![] };
    let map = thread.enter(envelope);
    assert_eq!(thread.effective, vec![Capability::Fowner, Capability::DacOverride]);
    let actions = map.drop();
    assert_eq!(
        actions,
        vec![
            IdentityAction::DropCap(Capability::Fowner),
            IdentityAction::DropCap(Capability::DacOverride),
            IdentityAction::SetFsUid(1000),
        ]
    );
    for action in actions {
        thread.apply(action);
    }
    assert_eq!(thread.effective, vec![]);
    assert_eq!(thread.fsuid, 1000);
    // Another user gets nothing raised.
    assert_eq!(f.userprelude(501, 1000).raise, vec![]);
}

#[test]
fn full_access_is_judged_after_the_mapping() {
    let f = fs(vec![Capability::Fowner], &[(7, 500)], &[], &[500]);
    assert_eq!(f.userprelude(7, 1000).raise, vec![Capability::Fowner]);
    assert_eq!(f.userprelude(500, 1000).raise, vec![Capability::Fowner]);
    assert_eq!(f.userprelude(8, 1000).raise, vec![]);
}

#[test]
fn set_cap_keeps_the_permitted_in_order() {
    let f = fs(vec![Capability::Mknod, Capability::Chown], &[], &[], &[]);
    let token = f.set_cap(&[
        Capability::Fowner,
        Capability::Chown,
        Capability::DacOverride,
        Capability::Mknod,
    ]);
    assert_eq!(token.caps, vec![Capability::Chown, Capability::Mknod]);
    assert_eq!(
        token.drop(),
        vec![IdentityAction::DropCap(Capability::Chown), IdentityAction::DropCap(Capability::Mknod)]
    );
    assert_eq!(CapToken { caps: vec![] }.drop(), vec![]);
}

#[test]
fn has_cap_asks_the_permitted_set() {
    let f = fs(vec![Capability::Setfcap], &[], &[], &[]);
    assert!(f.settings.has_cap(Capability::Setfcap));
    assert!(!f.settings.has_cap(Capability::Setuid));
}
