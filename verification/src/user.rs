//! The identity in which a request is served: the user and group that the
//! thread acts as on the backing filesystem for the time of one request, and
//! the privileges that are raised for users with full access.
//!
//! The library decides and the caller acts. `userprelude` says what to do
//! before a request; the caller does it and hands over what the host
//! answered; the `UserMap` made from that says what to do afterwards.

use crate::fasthashes::fast_map_get;
use crate::fasthashes::fast_set_contains;
use crate::mirrorfs::Capability;
use crate::mirrorfs::Gid;
use crate::mirrorfs::MirrorFS;
use crate::mirrorfs::Settings;
use crate::mirrorfs::Uid;
use vstd::prelude::*;

verus! {

broadcast use vstd::std_specs::hash::group_hash_axioms;

/// One change to the identity of the thread or to the privileges of the
/// process.
#[derive(Clone, Copy, Debug, PartialEq, Eq, Structural)]
pub enum IdentityAction {
    /// Make the privilege effective.
    RaiseCap(Capability),
    /// Take the privilege out of the effective ones.
    DropCap(Capability),
    /// Set the user that the thread acts as on the filesystem.
    SetFsUid(Uid),
    /// Set the group that the thread acts as on the filesystem.
    SetFsGid(Gid),
}

/// The identity of a thread on the filesystem, and the privileges that are
/// effective.
pub struct Identity {
    pub fsuid: Uid,
    pub fsgid: Gid,
    pub effective: Set<Capability>,
}

impl Identity {
    /// The identity after one action: the host sets what it is asked to set.
    pub open spec fn apply(self, action: IdentityAction) -> Identity {
        match action {
            IdentityAction::RaiseCap(cap) => Identity { effective: self.effective.insert(cap), ..self },
            IdentityAction::DropCap(cap) => Identity { effective: self.effective.remove(cap), ..self },
            IdentityAction::SetFsUid(uid) => Identity { fsuid: uid, ..self },
            IdentityAction::SetFsGid(gid) => Identity { fsgid: gid, ..self },
        }
    }

    /// The identity after the actions, done in order.
    pub open spec fn run(self, actions: Seq<IdentityAction>) -> Identity
        decreases actions.len(),
    {
        if actions.len() == 0 {
            self
        } else {
            self.run(actions.drop_last()).apply(actions.last())
        }
    }
}

/// The privileges that were raised for a request, to be dropped after it.
pub struct CapToken {
    pub caps: Vec<Capability>,
}

/// The privileges that stand in for file ownership and for the permission
/// bits: those that a user with full access is given.
pub open spec fn full_access_caps() -> Seq<Capability> {
    seq![Capability::Fowner, Capability::DacOverride]
}

/// What is to be done before a request is served.
pub struct Envelope {
    /// The user and the group that the request is served as.
    pub user: Uid,
    pub group: Gid,
    /// The privileges to raise, in order.
    pub raise: Vec<Capability>,
    /// Whether to set the user, and the group, that the thread acts as.
    pub set_user: bool,
    pub set_group: bool,
}

impl Envelope {
    /// The actions of the envelope, in the order they are done: privileges
    /// first, then the user, then the group.
    pub open spec fn actions(&self) -> Seq<IdentityAction> {
        self.raise@.map_values(|cap: Capability| IdentityAction::RaiseCap(cap)) + (if self.set_user {
            seq![IdentityAction::SetFsUid(self.user)]
        } else {
            Seq::empty()
        }) + (if self.set_group {
            seq![IdentityAction::SetFsGid(self.group)]
        } else {
            Seq::empty()
        })
    }
}

/// What is remembered of the identity for the time of a request.
pub struct UserMap {
    /// The user and the group that the thread acted as before.
    pub o_user: Uid,
    pub o_group: Gid,
    /// The user and the group that the request is served as.
    pub n_user: Uid,
    pub n_group: Gid,
    pub caps: Option<CapToken>,
}

/// The privileges of a token, none where there is no token.
pub open spec fn token_caps(caps: Option<CapToken>) -> Seq<Capability> {
    match caps {
        Some(token) => token.caps@,
        None => Seq::empty(),
    }
}

impl UserMap {
    /// What is remembered once the envelope has been acted on. `seen_user`
    /// is the user that the host reported the thread to have acted as before
    /// it was set, and is absent where the envelope did not set it; the same
    /// goes for `seen_group`.
    pub fn entered(envelope: Envelope, seen_user: Option<Uid>, seen_group: Option<Gid>) -> (map:
        UserMap)
        ensures
            map.n_user == envelope.user,
            map.n_group == envelope.group,
            map.o_user == (if envelope.set_user && seen_user is Some {
                seen_user->0
            } else {
                envelope.user
            }),
            map.o_group == (if envelope.set_group && seen_group is Some {
                seen_group->0
            } else {
                envelope.group
            }),
            token_caps(map.caps) == envelope.raise@,
    {
        let o_user: Uid = match seen_user {
            Some(seen) => if envelope.set_user {
                seen
            } else {
                envelope.user
            },
            None => envelope.user,
        };
        let o_group: Gid = match seen_group {
            Some(seen) => if envelope.set_group {
                seen
            } else {
                envelope.group
            },
            None => envelope.group,
        };
        let caps: Option<CapToken> = if envelope.raise.len() > 0 {
            Some(CapToken { caps: envelope.raise })
        } else {
            None
        };
        UserMap {
            o_user: o_user,
            o_group: o_group,
            n_user: envelope.user,
            n_group: envelope.group,
            caps: caps,
        }
    }

    /// The actions that end the envelope: each raised privilege is dropped,
    /// then the user is set back if it was changed, then the group.
    pub open spec fn release_actions(&self) -> Seq<IdentityAction> {
        token_caps(self.caps).map_values(|cap: Capability| IdentityAction::DropCap(cap)) + (if self.n_user
            != self.o_user {
            seq![IdentityAction::SetFsUid(self.o_user)]
        } else {
            Seq::empty()
        }) + (if self.n_group != self.o_group {
            seq![IdentityAction::SetFsGid(self.o_group)]
        } else {
            Seq::empty()
        })
    }

    /// What is to be done when the request has been served, however it
    /// ended.
    pub fn drop(&self) -> (actions: Vec<IdentityAction>)
        ensures
            actions@ == self.release_actions(),
    {
        let mut actions: Vec<IdentityAction> = Vec::new();
        match &self.caps {
            Some(token) => {
                let mut i: usize = 0;
                while i < token.caps.len()
                    invariant
                        i <= token.caps.len(),
                        actions@ == token.caps@.take(i as int).map_values(
                            |cap: Capability| IdentityAction::DropCap(cap),
                        ),
                    decreases token.caps.len() - i,
                {
                    actions.push(IdentityAction::DropCap(token.caps[i]));
                    i += 1;
                    assert(actions@ =~= token.caps@.take(i as int).map_values(
                        |cap: Capability| IdentityAction::DropCap(cap),
                    ));
                }
                assert(token.caps@.take(i as int) =~= token.caps@);
            },
            None => {
                assert(actions@ =~= Seq::<Capability>::empty().map_values(
                    |cap: Capability| IdentityAction::DropCap(cap),
                ));
            },
        }
        if self.n_user != self.o_user {
            actions.push(IdentityAction::SetFsUid(self.o_user));
        }
        if self.n_group != self.o_group {
            actions.push(IdentityAction::SetFsGid(self.o_group));
        }
        assert(actions@ =~= self.release_actions());
        actions
    }
}

impl CapToken {
    /// The actions that give the privileges of the token back.
    pub fn drop(&self) -> (actions: Vec<IdentityAction>)
        ensures
            actions@ == self.caps@.map_values(|cap: Capability| IdentityAction::DropCap(cap)),
    {
        let mut actions: Vec<IdentityAction> = Vec::new();
        let mut i: usize = 0;
        while i < self.caps.len()
            invariant
                i <= self.caps.len(),
                actions@ == self.caps@.take(i as int).map_values(
                    |cap: Capability| IdentityAction::DropCap(cap),
                ),
            decreases self.caps.len() - i,
        {
            actions.push(IdentityAction::DropCap(self.caps[i]));
            i += 1;
            assert(actions@ =~= self.caps@.take(i as int).map_values(
                |cap: Capability| IdentityAction::DropCap(cap),
            ));
        }
        assert(self.caps@.take(i as int) =~= self.caps@);
        actions
    }
}

impl Settings {
    /// The user that requests of `uid` are served as.
    pub open spec fn mapped_user(&self, uid: Uid) -> Uid {
        if self.user_map@.contains_key(uid) {
            self.user_map@[uid]
        } else {
            uid
        }
    }

    /// The group that requests of `gid` are served as.
    pub open spec fn mapped_group(&self, gid: Gid) -> Gid {
        if self.group_map@.contains_key(gid) {
            self.group_map@[gid]
        } else {
            gid
        }
    }

    /// Whether the user gets every access.
    pub open spec fn almighty(&self, uid: Uid) -> bool {
        self.fullaccess@.contains(uid)
    }

    /// The privileges among `caps` that are permitted, in their order.
    pub open spec fn permitted_of(&self, caps: Seq<Capability>) -> Seq<Capability> {
        caps.filter(|cap: Capability| self.caps.permits(cap))
    }

    /// The privileges that are raised for a request served as `user`: those
    /// of `full_access_caps` that are permitted, for a user with full access,
    /// and none for any other.
    pub open spec fn envelope_raise(&self, user: Uid) -> Seq<Capability> {
        if self.almighty(user) {
            self.permitted_of(full_access_caps())
        } else {
            Seq::empty()
        }
    }

    /// Whether the thread is made to act as `user`: where that is not the
    /// user the filesystem runs as, and the privilege to do so is permitted.
    pub open spec fn envelope_sets_user(&self, user: Uid) -> bool {
        user != self.uid && self.caps.permits(Capability::Setuid)
    }

    /// Whether the thread is made to act as `group`.
    pub open spec fn envelope_sets_group(&self, group: Gid) -> bool {
        group != self.gid && self.caps.permits(Capability::Setgid)
    }
}

impl<F> MirrorFS<F> {
    /// The user and the group that a request of `uid` and `gid` is served
    /// as: each is looked up in its map and stays as it is where the map
    /// does not hold it.
    pub fn usermap(&self, uid: Uid, gid: Gid) -> (mapped: (Uid, Gid))
        ensures
            mapped.0 == self.settings.mapped_user(uid),
            mapped.1 == self.settings.mapped_group(gid),
    {
        let user: Uid = match fast_map_get(&self.settings.user_map, &uid) {
            Some(mapped) => *mapped,
            None => uid,
        };
        let group: Gid = match fast_map_get(&self.settings.group_map, &gid) {
            Some(mapped) => *mapped,
            None => gid,
        };
        (user, group)
    }

    /// The privileges among `caps` that may be raised: those that are
    /// permitted. The token holds them in the order they are to be raised.
    pub fn set_cap(&self, caps: &[Capability]) -> (token: CapToken)
        ensures
            token.caps@ == self.settings.permitted_of(caps@),
    {
        let mut added_caps: Vec<Capability> = Vec::new();
        let ghost permitted = |cap: Capability| self.settings.caps.permits(cap);
        let mut i: usize = 0;
        while i < caps.len()
            invariant
                i <= caps.len(),
                permitted == |cap: Capability| self.settings.caps.permits(cap),
                added_caps@ == caps@.take(i as int).filter(permitted),
            decreases caps.len() - i,
        {
            let cap: Capability = caps[i];
            proof {
                let upto = caps@.take(i + 1);
                assert(upto.drop_last() =~= caps@.take(i as int));
                assert(upto.last() == cap);
                reveal(Seq::filter);
            }
            if self.settings.has_cap(cap) {
                added_caps.push(cap);
            }
            i += 1;
        }
        assert(caps@.take(caps.len() as int) =~= caps@);
        CapToken { caps: added_caps }
    }

    /// What is to be done before a request of `uid` and `gid` is served.
    pub fn userprelude(&self, uid: Uid, gid: Gid) -> (envelope: Envelope)
        ensures
            envelope.user == self.settings.mapped_user(uid),
            envelope.group == self.settings.mapped_group(gid),
            envelope.raise@ == self.settings.envelope_raise(envelope.user),
            envelope.set_user == self.settings.envelope_sets_user(envelope.user),
            envelope.set_group == self.settings.envelope_sets_group(envelope.group),
    {
        let (user, group) = self.usermap(uid, gid);
        let raise: Vec<Capability> = if fast_set_contains(&self.settings.fullaccess, &user) {
            let wanted: [Capability; 2] = [Capability::Fowner, Capability::DacOverride];
            assert(wanted@ =~= full_access_caps());
            self.set_cap(wanted.as_slice()).caps
        } else {
            Vec::new()
        };
        let set_user: bool = user != self.settings.uid && self.settings.has_cap(Capability::Setuid);
        let set_group: bool = group != self.settings.gid && self.settings.has_cap(
            Capability::Setgid,
        );
        Envelope { user: user, group: group, raise: raise, set_user: set_user, set_group: set_group }
    }
}

/// Running actions one after another is running them all.
pub proof fn lemma_run_concat(start: Identity, first: Seq<IdentityAction>, second: Seq<IdentityAction>)
    ensures
        start.run(first + second) == start.run(first).run(second),
    decreases second.len(),
{
    if second.len() == 0 {
        assert(first + second =~= first);
    } else {
        lemma_run_concat(start, first, second.drop_last());
        assert((first + second).drop_last() =~= first + second.drop_last());
        assert((first + second).last() == second.last());
    }
}

/// Running one action is doing it, and running none changes nothing.
pub proof fn lemma_run_one(start: Identity, action: IdentityAction)
    ensures
        start.run(seq![action]) == start.apply(action),
        start.run(Seq::empty()) == start,
{
    assert(seq![action].drop_last() =~= Seq::<IdentityAction>::empty());
    reveal_with_fuel(Identity::run, 2);
}

/// Raising and dropping privileges leaves the user and the group alone.
pub proof fn lemma_caps_keep_ids(start: Identity, caps: Seq<Capability>, raise: bool)
    ensures
        ({
            let actions = if raise {
                caps.map_values(|cap: Capability| IdentityAction::RaiseCap(cap))
            } else {
                caps.map_values(|cap: Capability| IdentityAction::DropCap(cap))
            };
            start.run(actions).fsuid == start.fsuid && start.run(actions).fsgid == start.fsgid
        }),
    decreases caps.len(),
{
    if caps.len() > 0 {
        lemma_caps_keep_ids(start, caps.drop_last(), raise);
        if raise {
            assert(caps.map_values(|cap: Capability| IdentityAction::RaiseCap(cap)).drop_last()
                =~= caps.drop_last().map_values(|cap: Capability| IdentityAction::RaiseCap(cap)));
        } else {
            assert(caps.map_values(|cap: Capability| IdentityAction::DropCap(cap)).drop_last()
                =~= caps.drop_last().map_values(|cap: Capability| IdentityAction::DropCap(cap)));
        }
    }
}

/// The identity after the actions of an envelope: the user and the group,
/// each set where the envelope says so.
pub proof fn lemma_envelope_enters(before: Identity, envelope: Envelope)
    ensures
        before.run(envelope.actions()).fsuid == (if envelope.set_user {
            envelope.user
        } else {
            before.fsuid
        }),
        before.run(envelope.actions()).fsgid == (if envelope.set_group {
            envelope.group
        } else {
            before.fsgid
        }),
{
    let raise = envelope.raise@.map_values(|cap: Capability| IdentityAction::RaiseCap(cap));
    let user = if envelope.set_user {
        seq![IdentityAction::SetFsUid(envelope.user)]
    } else {
        Seq::empty()
    };
    let group = if envelope.set_group {
        seq![IdentityAction::SetFsGid(envelope.group)]
    } else {
        Seq::empty()
    };
    lemma_caps_keep_ids(before, envelope.raise@, true);
    lemma_run_concat(before, raise, user);
    lemma_run_concat(before, raise + user, group);
    let raised = before.run(raise);
    assert(raised.run(user) == if envelope.set_user {
        raised.apply(IdentityAction::SetFsUid(envelope.user))
    } else {
        raised
    }) by {
        lemma_run_one(raised, IdentityAction::SetFsUid(envelope.user));
    }
    let as_user = raised.run(user);
    assert(as_user.run(group) == if envelope.set_group {
        as_user.apply(IdentityAction::SetFsGid(envelope.group))
    } else {
        as_user
    }) by {
        lemma_run_one(as_user, IdentityAction::SetFsGid(envelope.group));
    }
}

/// An envelope gives back the identity it found. Whatever user and group the
/// thread acted as before the envelope, it acts as them again once the
/// actions of the envelope and then those of its release have been done; in
/// between it acts as the user and the group of the envelope, where the
/// envelope sets them.
pub proof fn lemma_envelope_restores(before: Identity, envelope: Envelope, map: UserMap)
    requires
        map.n_user == envelope.user,
        map.n_group == envelope.group,
        map.o_user == (if envelope.set_user {
            before.fsuid
        } else {
            envelope.user
        }),
        map.o_group == (if envelope.set_group {
            before.fsgid
        } else {
            envelope.group
        }),
    ensures
        ({
            let inside = before.run(envelope.actions());
            let after = inside.run(map.release_actions());
            &&& envelope.set_user ==> inside.fsuid == envelope.user
            &&& envelope.set_group ==> inside.fsgid == envelope.group
            &&& after.fsuid == before.fsuid
            &&& after.fsgid == before.fsgid
        }),
{
    lemma_envelope_enters(before, envelope);
    let inside = before.run(envelope.actions());
    let drops = token_caps(map.caps).map_values(|cap: Capability| IdentityAction::DropCap(cap));
    let user = if map.n_user != map.o_user {
        seq![IdentityAction::SetFsUid(map.o_user)]
    } else {
        Seq::empty()
    };
    let group = if map.n_group != map.o_group {
        seq![IdentityAction::SetFsGid(map.o_group)]
    } else {
        Seq::empty()
    };
    lemma_caps_keep_ids(inside, token_caps(map.caps), false);
    lemma_run_concat(inside, drops, user);
    lemma_run_concat(inside, drops + user, group);
    let dropped = inside.run(drops);
    assert(dropped.run(user) == if map.n_user != map.o_user {
        dropped.apply(IdentityAction::SetFsUid(map.o_user))
    } else {
        dropped
    }) by {
        lemma_run_one(dropped, IdentityAction::SetFsUid(map.o_user));
    }
    let as_user = dropped.run(user);
    assert(as_user.run(group) == if map.n_group != map.o_group {
        as_user.apply(IdentityAction::SetFsGid(map.o_group))
    } else {
        as_user
    }) by {
        lemma_run_one(as_user, IdentityAction::SetFsGid(map.o_group));
    }
}

} // verus!
