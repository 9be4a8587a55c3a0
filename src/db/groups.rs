use vstd::prelude::*;

use crate::db::Db;
use crate::models::{ChatError, Group, RecordId};

verus! {

/// How a membership change applies its list of users.
#[derive(Clone, Copy, Debug, PartialEq, Eq, Structural)]
pub enum MemberAction {
    Add,
    Remove,
}

fn contains_id(v: &Vec<RecordId>, x: RecordId) -> (r: bool)
    ensures
        r == v@.contains(x),
{
    let mut i: usize = 0;
    while i < v.len()
        invariant
            i <= v@.len(),
            forall|k: int| 0 <= k < i ==> v@[k] != x,
        decreases v@.len() - i,
    {
        if v[i] == x {
            return true;
        }
        i += 1;
    }
    false
}

/// `base` followed by the users of `extra` that it lacks, each once.
fn union_ids(base: &Vec<RecordId>, extra: &Vec<RecordId>) -> (r: Vec<RecordId>)
    requires
        base@.no_duplicates(),
    ensures
        r@.no_duplicates(),
        r@.to_set() == base@.to_set().union(extra@.to_set()),
{
    let mut out: Vec<RecordId> = Vec::new();
    let mut i: usize = 0;
    while i < base.len()
        invariant
            i <= base@.len(),
            out@ == base@.subrange(0, i as int),
        decreases base@.len() - i,
    {
        out.push(base[i]);
        i += 1;
    }
    assert(out@ == base@);
    let mut j: usize = 0;
    while j < extra.len()
        invariant
            j <= extra@.len(),
            out@.no_duplicates(),
            forall|x: RecordId|
                out@.contains(x) <==> base@.contains(x) || extra@.subrange(0, j as int).contains(
                    x,
                ),
        decreases extra@.len() - j,
    {
        let e = extra[j];
        let ghost prev = out@;
        if !contains_id(&out, e) {
            out.push(e);
        }
        proof {
            let ej = extra@.subrange(0, j as int);
            let ej1 = extra@.subrange(0, j as int + 1);
            assert(ej1 == ej.push(e));
            assert forall|x: RecordId|
                #[trigger] out@.contains(x) <==> base@.contains(x) || extra@.subrange(0, j as int + 1).contains(x) by {
                if out@.contains(x) {
                    let k = choose|k: int| 0 <= k < out@.len() && #[trigger] out@[k] == x;
                    if k < prev.len() {
                        assert(prev[k] == x);
                        assert(prev.contains(x));
                        if ej.contains(x) {
                            let m = choose|m: int| 0 <= m < ej.len() && #[trigger] ej[m] == x;
                            assert(ej1[m] == x);
                        }
                    } else {
                        assert(ej1[j as int] == x);
                    }
                }
                if base@.contains(x) || ej1.contains(x) {
                    if ej1.contains(x) && !base@.contains(x) {
                        let m = choose|m: int| 0 <= m < ej1.len() && #[trigger] ej1[m] == x;
                        if m < j {
                            assert(ej[m] == x);
                        }
                    }
                    if prev.contains(x) {
                        let k = choose|k: int| 0 <= k < prev.len() && #[trigger] prev[k] == x;
                        assert(out@[k] == x);
                    } else {
                        assert(x == e);
                        assert(out@[out@.len() - 1] == e);
                    }
                }
            }
        }
        j += 1;
    }
    proof {
        assert(extra@.subrange(0, j as int) == extra@);
        assert(out@.to_set() =~= base@.to_set().union(extra@.to_set()));
    }
    out
}

/// The users of `base` that `extra` does not hold, in their order.
fn difference_ids(base: &Vec<RecordId>, extra: &Vec<RecordId>) -> (r: Vec<RecordId>)
    requires
        base@.no_duplicates(),
    ensures
        r@.no_duplicates(),
        r@.to_set() == base@.to_set().difference(extra@.to_set()),
{
    let mut out: Vec<RecordId> = Vec::new();
    let mut i: usize = 0;
    while i < base.len()
        invariant
            i <= base@.len(),
            base@.no_duplicates(),
            out@.no_duplicates(),
            forall|x: RecordId|
                out@.contains(x) <==> base@.subrange(0, i as int).contains(x) && !extra@.contains(
                    x,
                ),
        decreases base@.len() - i,
    {
        let b = base[i];
        let ghost prev = out@;
        proof {
            if prev.contains(b) {
                let k = choose|k: int| 0 <= k < i && #[trigger] base@.subrange(0, i as int)[k] == b;
                assert(base@[k] == base@[i as int]);
            }
        }
        if !contains_id(extra, b) {
            out.push(b);
        }
        proof {
            let bi = base@.subrange(0, i as int);
            let bi1 = base@.subrange(0, i as int + 1);
            assert(bi1 == bi.push(b));
            assert forall|x: RecordId|
                #[trigger] out@.contains(x) <==> base@.subrange(0, i as int + 1).contains(x) && !extra@.contains(x) by {
                if out@.contains(x) {
                    let k = choose|k: int| 0 <= k < out@.len() && #[trigger] out@[k] == x;
                    if k < prev.len() {
                        assert(prev[k] == x);
                        assert(prev.contains(x));
                        let m = choose|m: int| 0 <= m < bi.len() && #[trigger] bi[m] == x;
                        assert(bi1[m] == x);
                    } else {
                        assert(bi1[i as int] == x);
                    }
                }
                if bi1.contains(x) && !extra@.contains(x) {
                    let m = choose|m: int| 0 <= m < bi1.len() && #[trigger] bi1[m] == x;
                    if m < i {
                        assert(bi[m] == x);
                        assert(prev.contains(x));
                        let k = choose|k: int| 0 <= k < prev.len() && #[trigger] prev[k] == x;
                        assert(out@[k] == x);
                    } else {
                        assert(x == b);
                        assert(out@[out@.len() - 1] == b);
                    }
                }
            }
        }
        i += 1;
    }
    proof {
        assert(base@.subrange(0, i as int) == base@);
        assert(out@.to_set() =~= base@.to_set().difference(extra@.to_set()));
    }
    out
}

impl Db {
    pub open spec fn has_group(&self, id: RecordId) -> bool {
        exists|i: int| 0 <= i < self.groups().len() && #[trigger] self.groups()[i].id == id
    }

    /// `user` is an admin of group `group_id`.
    pub open spec fn is_admin(&self, user: RecordId, group_id: RecordId) -> bool {
        exists|i: int|
            0 <= i < self.groups().len() && #[trigger] self.groups()[i].id == group_id
                && self.groups()[i].admin_set().contains(user)
    }

    fn group_index_of(&self, group_id: RecordId) -> (r: Option<usize>)
        ensures
            match r {
                Some(i) => i < self.groups().len() && self.groups()[i as int].id == group_id,
                None => !self.has_group(group_id),
            },
    {
        let mut i: usize = 0;
        while i < self.groups.len()
            invariant
                i <= self.groups@.len(),
                forall|k: int| 0 <= k < i ==> (#[trigger] self.groups@[k]).id != group_id,
            decreases self.groups@.len() - i,
        {
            if self.groups[i].id == group_id {
                return Some(i);
            }
            i += 1;
        }
        None
    }

    /// The group `group_id`, if it exists.
    pub fn find_group(&self, group_id: RecordId) -> (r: Option<&Group>)
        ensures
            match r {
                Some(g) => exists|i: int|
                    0 <= i < self.groups().len() && self.groups()[i] == *g && #[trigger] g.id
                        == group_id,
                None => !self.has_group(group_id),
            },
    {
        match self.group_index_of(group_id) {
            Some(i) => Some(&self.groups[i]),
            None => None,
        }
    }

    /// Whether the group `group_id` exists.
    pub fn group_exists(&self, group_id: RecordId) -> (r: bool)
        ensures
            r == self.has_group(group_id),
    {
        self.group_index_of(group_id).is_some()
    }

    /// Whether `admin` is an admin of the group `group_id`.
    pub fn check_admin(&self, admin: RecordId, group_id: RecordId) -> (r: bool)
        requires
            self.wf(),
        ensures
            r == self.is_admin(admin, group_id),
    {
        match self.group_index_of(group_id) {
            None => false,
            Some(i) => {
                let r = contains_id(&self.groups[i].admins, admin);
                proof {
                    if self.is_admin(admin, group_id) {
                        let k = choose|k: int|
                            0 <= k < self.groups().len() && #[trigger] self.groups()[k].id
                                == group_id && self.groups()[k].admin_set().contains(admin);
                        assert(k == i);
                    }
                }
                r
            },
        }
    }

    /// Creates a group: `creator` is its one admin and, with `members`, one
    /// of its members. Returns its identifier, or `None` when the store
    /// cannot take it.
    pub fn create_group_chat(&mut self, creator: RecordId, members: Vec<RecordId>, now: i64) -> (r:
        Option<RecordId>)
        requires
            old(self).wf(),
        ensures
            final(self).wf(),
            old(self).next_id() == u64::MAX ==> r.is_none(),
            r.is_none() ==> *final(self) == *old(self),
            old(self).next_id() < u64::MAX ==> {
                &&& r == Some(old(self).next_id())
                &&& final(self).next_id() == old(self).next_id() + 1
                &&& final(self).groups().len() == old(self).groups().len() + 1
                &&& final(self).groups().drop_last() == old(self).groups()
                &&& final(self).groups().last().id == old(self).next_id()
                &&& final(self).groups().last().admin_set() == set![creator]
                &&& final(self).groups().last().member_set() == members@.to_set().insert(creator)
                &&& final(self).groups().last().created_at == now
            },
            final(self).keeps_users(old(self)),
            final(self).keeps_messages(old(self)),
            final(self).keeps_graph(old(self)),
    {
        let id = match self.take_id() {
            None => {
                return None;
            },
            Some(id) => id,
        };
        let admins: Vec<RecordId> = vec![creator];
        assert(admins@ == seq![creator]);
        let member_list = union_ids(&admins, &members);
        let ghost before = self.groups@;
        self.groups.push(Group { id, admins, members: member_list, created_at: now });
        proof {
            assert(self.groups@.drop_last() == before);
            assert(seq![creator].to_set() =~= set![creator]);
            assert(members@.to_set().insert(creator) =~= set![creator].union(members@.to_set()));
            assert forall|i: int| 0 <= i < before.len() implies #[trigger] before[i].id < id by {
                assert(before[i].id < old(self).next_id());
            }
            assert(self.users() == old(self).users());
            assert(self.friends() == old(self).friends());
            assert(self.chats() == old(self).chats());
            assert(self.requests() == old(self).requests());
            assert forall|a: int| 0 <= a < self.chats@.len() implies #[trigger] self.chats@[a].first
                != self.chats@[a].second && self.chats@[a].id < self.next_id by {
                assert(old(self).chats()[a].first != old(self).chats()[a].second);
            }
        }
        Some(id)
    }

    /// Adds `user_ids` to, or removes them from, the members of group
    /// `group_id`, on behalf of `admin`. Only an admin of the group may do
    /// so; anyone else is refused and nothing changes. Adding a member or
    /// removing a non-member changes nothing for that user.
    pub fn add_or_remove_members(
        &mut self,
        admin: RecordId,
        group_id: RecordId,
        user_ids: Vec<RecordId>,
        action: MemberAction,
    ) -> (r: Result<(), ChatError>)
        requires
            old(self).wf(),
        ensures
            final(self).wf(),
            !old(self).has_group(group_id) ==> r == Err::<(), ChatError>(ChatError::NotFound),
            old(self).has_group(group_id) && !old(self).is_admin(admin, group_id) ==> r == Err::<
                (),
                ChatError,
            >(ChatError::NotAuthorized),
            r.is_err() ==> *final(self) == *old(self),
            old(self).is_admin(admin, group_id) ==> {
                &&& r == Ok::<(), ChatError>(())
                &&& final(self).groups().len() == old(self).groups().len()
                &&& exists|i: int|
                    0 <= i < old(self).groups().len() && #[trigger] old(self).groups()[i].id
                        == group_id && {
                        let g = old(self).groups()[i];
                        let h = final(self).groups()[i];
                        &&& h.id == g.id
                        &&& h.admins == g.admins
                        &&& h.created_at == g.created_at
                        &&& h.member_set() == match action {
                            MemberAction::Add => g.member_set().union(user_ids@.to_set()),
                            MemberAction::Remove => g.member_set().difference(user_ids@.to_set()),
                        }
                        &&& forall|k: int|
                            0 <= k < old(self).groups().len() && k != i ==> final(self).groups()[k]
                                == old(self).groups()[k]
                    }
            },
            final(self).keeps_users(old(self)),
            final(self).keeps_messages(old(self)),
            final(self).keeps_graph(old(self)),
            final(self).next_id() == old(self).next_id(),
    {
        let i = match self.group_index_of(group_id) {
            None => {
                return Err(ChatError::NotFound);
            },
            Some(i) => i,
        };
        if !self.check_admin(admin, group_id) {
            return Err(ChatError::NotAuthorized);
        }
        let new_members = match action {
            MemberAction::Add => union_ids(&self.groups[i].members, &user_ids),
            MemberAction::Remove => difference_ids(&self.groups[i].members, &user_ids),
        };
        let ghost before = self.groups@;
        self.groups[i].members = new_members;
        proof {
            assert forall|k: int| 0 <= k < before.len() && k != i implies self.groups@[k]
                == before[k] by {}
            assert(self.groups@[i as int].id == before[i as int].id);
            assert(self.users() == old(self).users());
            assert(self.friends() == old(self).friends());
            assert(self.chats() == old(self).chats());
            assert(self.requests() == old(self).requests());
            assert forall|a: int| 0 <= a < self.groups@.len() implies #[trigger] self.groups@[a].id
                == before[a].id by {}
        }
        Ok(())
    }
}

} // verus!
