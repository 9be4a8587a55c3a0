use vstd::prelude::*;

use crate::db::Db;
use crate::models::{ChatError, Friend, RecordId, RequestStatus, Requests};

verus! {

/// What a user does with a request that was addressed to them.
#[derive(Clone, Copy, Debug, PartialEq, Eq, Structural)]
pub enum RequestAction {
    Accept,
    Reject,
}

/// The outcome of an answered request.
#[derive(Clone, Copy, Debug, PartialEq, Eq, Structural)]
pub enum Resolution {
    /// The two users are friends and share the chat `chat`.
    Accepted { friendship: RecordId, chat: RecordId },
    Rejected,
}

impl Db {
    pub open spec fn has_request(&self, from: RecordId, to: RecordId) -> bool {
        exists|i: int|
            0 <= i < self.requests().len() && #[trigger] self.requests()[i].from_id == from
                && self.requests()[i].to_id == to
    }

    /// The pending requests addressed to `id`, oldest first.
    pub open spec fn incoming(&self, id: RecordId) -> Seq<Requests> {
        self.requests().filter(|q: Requests| q.to_id == id && q.status == RequestStatus::Pending)
    }

    fn request_index(&self, from: RecordId, to: RecordId) -> (r: Option<usize>)
        ensures
            match r {
                Some(i) => i < self.requests().len() && self.requests()[i as int].from_id == from
                    && self.requests()[i as int].to_id == to,
                None => !self.has_request(from, to),
            },
    {
        let mut i: usize = 0;
        while i < self.requests.len()
            invariant
                i <= self.requests@.len(),
                forall|k: int|
                    0 <= k < i ==> !(#[trigger] self.requests@[k].from_id == from
                        && self.requests@[k].to_id == to),
            decreases self.requests@.len() - i,
        {
            if self.requests[i].from_id == from && self.requests[i].to_id == to {
                return Some(i);
            }
            i += 1;
        }
        None
    }

    /// The request from `from` to `to`, if there is one.
    pub fn find_friend_request(&self, from: RecordId, to: RecordId) -> (r: Option<Requests>)
        ensures
            match r {
                Some(q) => exists|i: int|
                    0 <= i < self.requests().len() && self.requests()[i] == q && #[trigger] q.from_id
                        == from && q.to_id == to,
                None => !self.has_request(from, to),
            },
    {
        match self.request_index(from, to) {
            Some(i) => Some(self.requests[i]),
            None => None,
        }
    }

    /// The pending requests addressed to `id`, in the order they arrived.
    pub fn fetch_user_friend_request(&self, id: RecordId) -> (r: Vec<Requests>)
        ensures
            r@ == self.incoming(id),
    {
        let mut out: Vec<Requests> = Vec::new();
        let mut i: usize = 0;
        while i < self.requests.len()
            invariant
                i <= self.requests@.len(),
                out@ == self.requests@.subrange(0, i as int).filter(
                    |q: Requests| q.to_id == id && q.status == RequestStatus::Pending,
                ),
            decreases self.requests@.len() - i,
        {
            let q = self.requests[i];
            proof {
                reveal(Seq::filter);
                assert(self.requests@.subrange(0, i as int + 1).drop_last()
                    == self.requests@.subrange(0, i as int));
            }
            if q.to_id == id && q.status == RequestStatus::Pending {
                out.push(q);
            }
            i += 1;
        }
        proof {
            assert(self.requests@.subrange(0, i as int) == self.requests@);
        }
        out
    }

    /// Stores a pending request from `req.from_id` to `req.to_id`. Refused
    /// when the two are the same user, or when a request for that ordered
    /// pair exists already.
    pub fn add_friend_request(&mut self, req: Requests, now: i64) -> (r: Result<
        RecordId,
        ChatError,
    >)
        requires
            old(self).wf(),
        ensures
            final(self).wf(),
            req.from_id == req.to_id ==> r == Err::<RecordId, ChatError>(ChatError::InvalidPair),
            req.from_id != req.to_id && old(self).has_request(req.from_id, req.to_id) ==> r
                == Err::<RecordId, ChatError>(ChatError::DuplicateRequest),
            req.from_id != req.to_id && !old(self).has_request(req.from_id, req.to_id)
                && old(self).next_id() == u64::MAX ==> r == Err::<RecordId, ChatError>(
                ChatError::StoreUnavailable,
            ),
            req.from_id != req.to_id && !old(self).has_request(req.from_id, req.to_id)
                && old(self).next_id() < u64::MAX ==> r.is_ok(),
            r.is_err() ==> *final(self) == *old(self),
            r.is_ok() ==> {
                &&& req.from_id != req.to_id
                &&& !old(self).has_request(req.from_id, req.to_id)
                &&& r == Ok::<RecordId, ChatError>(old(self).next_id())
                &&& final(self).next_id() == old(self).next_id() + 1
                &&& final(self).requests() == old(self).requests().push(
                    (Requests {
                        id: old(self).next_id(),
                        from_id: req.from_id,
                        to_id: req.to_id,
                        status: RequestStatus::Pending,
                        created_at: now,
                    }),
                )
                &&& final(self).keeps_users(old(self))
                &&& final(self).keeps_groups(old(self))
                &&& final(self).keeps_messages(old(self))
                &&& final(self).friends() == old(self).friends()
                &&& final(self).chats() == old(self).chats()
            },
    {
        if req.from_id == req.to_id {
            return Err(ChatError::InvalidPair);
        }
        if self.request_index(req.from_id, req.to_id).is_some() {
            return Err(ChatError::DuplicateRequest);
        }
        match self.take_id() {
            None => Err(ChatError::StoreUnavailable),
            Some(id) => {
                let ghost before = self.requests@;
                self.requests.push(
                    Requests {
                        id,
                        from_id: req.from_id,
                        to_id: req.to_id,
                        status: RequestStatus::Pending,
                        created_at: now,
                    },
                );
                proof {
                    let n = before.len() as int;
                    assert forall|i: int, j: int|
                        0 <= i < self.requests@.len() && 0 <= j < self.requests@.len()
                            && #[trigger] self.requests@[i].from_id
                            == #[trigger] self.requests@[j].from_id && self.requests@[i].to_id
                            == self.requests@[j].to_id implies i == j by {
                        if i < n && j == n {
                            assert(before[i].from_id == req.from_id && before[i].to_id == req.to_id);
                        } else if j < n && i == n {
                            assert(before[j].from_id == req.from_id && before[j].to_id == req.to_id);
                        }
                    }
                }
                Ok(id)
            }
        }
    }

    fn friend_index_for(&self, a: RecordId, b: RecordId) -> (r: Option<usize>)
        ensures
            match r {
                Some(i) => i < self.friends().len() && self.friends()[i as int].joins(a, b),
                None => !self.has_friend_for(a, b),
            },
    {
        let mut i: usize = 0;
        while i < self.friends.len()
            invariant
                i <= self.friends@.len(),
                forall|k: int| 0 <= k < i ==> !(#[trigger] self.friends@[k]).joins(a, b),
            decreases self.friends@.len() - i,
        {
            let f = self.friends[i];
            if (f.first == a && f.second == b) || (f.first == b && f.second == a) {
                return Some(i);
            }
            i += 1;
        }
        None
    }

    /// The friendship of `{a, b}`: the existing one, or else a new one.
    pub fn befriend(&mut self, a: RecordId, b: RecordId, now: i64) -> (r: Result<
        RecordId,
        ChatError,
    >)
        requires
            old(self).wf(),
        ensures
            final(self).wf(),
            a == b ==> r == Err::<RecordId, ChatError>(ChatError::InvalidPair),
            a != b && old(self).has_friend_for(a, b) ==> *final(self) == *old(self),
            a != b && !old(self).has_friend_for(a, b) && old(self).next_id() == u64::MAX ==> r
                == Err::<RecordId, ChatError>(ChatError::StoreUnavailable),
            a != b && old(self).next_id() < u64::MAX ==> r.is_ok(),
            a != b && old(self).has_friend_for(a, b) ==> r.is_ok(),
            a != b && r.is_err() ==> r == Err::<RecordId, ChatError>(ChatError::StoreUnavailable),
            r.is_err() ==> *final(self) == *old(self),
            a != b && !old(self).has_friend_for(a, b) && r.is_ok() ==> {
                &&& r == Ok::<RecordId, ChatError>(old(self).next_id())
                &&& final(self).next_id() == old(self).next_id() + 1
                &&& final(self).friends() == old(self).friends().push(
                    (Friend { id: old(self).next_id(), first: a, second: b, created_at: now }),
                )
            },
            final(self).keeps_users(old(self)),
            final(self).keeps_groups(old(self)),
            final(self).keeps_messages(old(self)),
            final(self).chats() == old(self).chats(),
            final(self).requests() == old(self).requests(),
            final(self).next_id() >= old(self).next_id(),
            final(self).next_id() <= old(self).next_id() + 1,
            r.is_ok() ==> final(self).unique_friend_for(a, b, r->Ok_0),
    {
        if a == b {
            return Err(ChatError::InvalidPair);
        }
        match self.friend_index_for(a, b) {
            Some(i) => {
                let id = self.friends[i].id;
                proof {
                    assert forall|j: int|
                        0 <= j < self.friends@.len() && #[trigger] self.friends@[j].joins(
                            a,
                            b,
                        ) implies j == i as int by {
                        assert(self.friends@[j].joins(
                            self.friends@[i as int].first,
                            self.friends@[i as int].second,
                        ));
                    }
                }
                Ok(id)
            }
            None => {
                match self.take_id() {
                    None => Err(ChatError::StoreUnavailable),
                    Some(id) => {
                        let ghost before = self.friends@;
                        self.friends.push(Friend { id, first: a, second: b, created_at: now });
                        proof {
                            let n = before.len() as int;
                            assert forall|i: int, j: int|
                                0 <= i < self.friends@.len() && 0 <= j < self.friends@.len()
                                    && #[trigger] self.friends@[i].joins(
                                    #[trigger] self.friends@[j].first,
                                    self.friends@[j].second,
                                ) implies i == j by {
                                if i < n && j == n {
                                    assert(before[i].joins(a, b));
                                } else if j < n && i == n {
                                    assert(before[j].joins(a, b));
                                }
                            }
                            assert(self.friends@[n].joins(a, b));
                            assert forall|j: int|
                                0 <= j < self.friends@.len() && #[trigger] self.friends@[j].joins(
                                    a,
                                    b,
                                ) implies j == n by {
                                if j < n {
                                    assert(before[j].joins(a, b));
                                }
                            }
                        }
                        Ok(id)
                    }
                }
            }
        }
    }

    /// How many identifiers accepting the request between `a` and `b` takes:
    /// one for the friendship and one for the chat, each when missing.
    pub open spec fn ids_needed(&self, a: RecordId, b: RecordId) -> int {
        (if self.has_friend_for(a, b) {
            0int
        } else {
            1int
        }) + (if self.has_chat_for(a, b) {
            0int
        } else {
            1int
        })
    }

    /// A pending request from `from` to `to` exists.
    pub open spec fn pending_request(&self, from: RecordId, to: RecordId) -> bool {
        exists|i: int|
            0 <= i < self.requests().len() && #[trigger] self.requests()[i].from_id == from
                && self.requests()[i].to_id == to && self.requests()[i].status
                == RequestStatus::Pending
    }

    /// `new` is `old` without the one request of `(from, to)`.
    pub open spec fn drops_request(old: Seq<Requests>, new: Seq<Requests>, from: RecordId, to: RecordId) -> bool {
        exists|i: int|
            0 <= i < old.len() && #[trigger] old[i].from_id == from && old[i].to_id == to && new
                == old.remove(i)
    }

    /// Removes the request at `i`.
    fn remove_request_at(&mut self, i: usize) -> (r: Requests)
        requires
            old(self).wf(),
            i < old(self).requests().len(),
        ensures
            final(self).wf(),
            r == old(self).requests()[i as int],
            final(self).requests() == old(self).requests().remove(i as int),
            !final(self).has_request(r.from_id, r.to_id),
            final(self).keeps_users(old(self)),
            final(self).keeps_groups(old(self)),
            final(self).keeps_messages(old(self)),
            final(self).friends() == old(self).friends(),
            final(self).chats() == old(self).chats(),
            final(self).next_id() == old(self).next_id(),
    {
        let ghost before = self.requests@;
        let r = self.requests.remove(i);
        proof {
            assert(self.friends() == old(self).friends());
            assert(self.groups() == old(self).groups());
            assert(self.chats() == old(self).chats());
            let after = self.requests@;
            assert forall|a: int| 0 <= a < after.len() implies #[trigger] after[a] == before[if a < i {
                a
            } else {
                a + 1
            }] by {}
            assert forall|a: int, b: int|
                0 <= a < after.len() && 0 <= b < after.len() && #[trigger] after[a].from_id
                    == #[trigger] after[b].from_id && after[a].to_id == after[b].to_id implies a
                == b by {
                let a2 = if a < i { a } else { a + 1 };
                let b2 = if b < i { b } else { b + 1 };
                assert(before[a2].from_id == before[b2].from_id);
            }
            assert forall|a: int| 0 <= a < after.len() implies !(#[trigger] after[a].from_id
                == r.from_id && after[a].to_id == r.to_id) by {
                let a2 = if a < i { a } else { a + 1 };
                assert(after[a] == before[a2]);
                assert(before[a2].from_id != before[i as int].from_id || before[a2].to_id != before[i as int].to_id || a2 == i);
            }
            assert forall|a: int| 0 <= a < after.len() implies #[trigger] after[a].from_id
                != after[a].to_id by {
                let a2 = if a < i { a } else { a + 1 };
                assert(after[a] == before[a2]);
            }
        }
        r
    }

    /// The answer of `to_id` to the request that `from_id` addressed to them.
    ///
    /// The request is looked up by its ordered pair (`from_id`, `to_id`),
    /// exactly as it was submitted. Accepting makes the two friends and gives
    /// them their chat, each of which is created only when the pair has none;
    /// rejecting creates neither. Either way the request is removed. When the
    /// store runs out of identifiers midway, the request stays, so that
    /// answering again completes the work without duplicating any of it.
    pub fn handle_friend_request(
        &mut self,
        to_id: RecordId,
        from_id: RecordId,
        action: RequestAction,
        now: i64,
    ) -> (r: Result<Resolution, ChatError>)
        requires
            old(self).wf(),
        ensures
            final(self).wf(),
            final(self).keeps_users(old(self)),
            final(self).keeps_groups(old(self)),
            final(self).keeps_messages(old(self)),
            !old(self).has_request(from_id, to_id) ==> r == Err::<Resolution, ChatError>(
                ChatError::NotFound,
            ),
            old(self).has_request(from_id, to_id) && !old(self).pending_request(from_id, to_id)
                ==> r == Err::<Resolution, ChatError>(ChatError::InvalidStatus),
            r matches Err(e) && e != ChatError::StoreUnavailable ==> *final(self) == *old(self),
            r == Err::<Resolution, ChatError>(ChatError::StoreUnavailable) ==> {
                &&& action == RequestAction::Accept
                &&& old(self).pending_request(from_id, to_id)
                &&& old(self).next_id() + old(self).ids_needed(from_id, to_id) > u64::MAX
                &&& final(self).requests() == old(self).requests()
                &&& final(self).chats() == old(self).chats()
            },
            old(self).pending_request(from_id, to_id) && action == RequestAction::Reject ==> {
                &&& r == Ok::<Resolution, ChatError>(Resolution::Rejected)
                &&& Db::drops_request(old(self).requests(), final(self).requests(), from_id, to_id)
                &&& final(self).friends() == old(self).friends()
                &&& final(self).chats() == old(self).chats()
                &&& final(self).next_id() == old(self).next_id()
            },
            old(self).pending_request(from_id, to_id) && action == RequestAction::Accept
                && old(self).next_id() + old(self).ids_needed(from_id, to_id) <= u64::MAX ==> r.is_ok(),
            old(self).pending_request(from_id, to_id) && action == RequestAction::Accept
                && r.is_ok() ==> r matches Ok(Resolution::Accepted { .. }),
            r matches Ok(Resolution::Accepted { friendship, chat }) ==> {
                &&& action == RequestAction::Accept
                &&& old(self).pending_request(from_id, to_id)
                &&& Db::drops_request(old(self).requests(), final(self).requests(), from_id, to_id)
                &&& final(self).unique_friend_for(from_id, to_id, friendship)
                &&& final(self).unique_chat_for(from_id, to_id, chat)
                &&& old(self).has_friend_for(from_id, to_id) ==> final(self).friends() == old(
                    self,
                ).friends()
                &&& !old(self).has_friend_for(from_id, to_id) ==> final(self).friends()
                    == old(self).friends().push(
                    (Friend { id: friendship, first: from_id, second: to_id, created_at: now }),
                )
                &&& old(self).has_chat_for(from_id, to_id) ==> final(self).chats() == old(
                    self,
                ).chats()
                &&& !old(self).has_chat_for(from_id, to_id) ==> final(self).chats().len() == old(
                    self,
                ).chats().len() + 1 && final(self).chats().drop_last() == old(self).chats()
            },
            r.is_ok() ==> !final(self).has_request(from_id, to_id),
            old(self).next_id() <= final(self).next_id() <= old(self).next_id() + 2,
    {
        let i = match self.request_index(from_id, to_id) {
            None => {
                return Err(ChatError::NotFound);
            },
            Some(i) => i,
        };
        let req = self.requests[i];
        assert(req.from_id != req.to_id);
        if !req.valid_status() {
            proof {
                assert forall|k: int|
                    0 <= k < self.requests@.len() && #[trigger] self.requests@[k].from_id == from_id
                        && self.requests@[k].to_id == to_id implies self.requests@[k].status
                    != RequestStatus::Pending by {
                    assert(k == i);
                }
            }
            return Err(ChatError::InvalidStatus);
        }
        match action {
            RequestAction::Reject => {
                self.remove_request_at(i);
                Ok(Resolution::Rejected)
            },
            RequestAction::Accept => {
                let friendship = match self.befriend(from_id, to_id, now) {
                    Err(e) => {
                        return Err(e);
                    },
                    Ok(f) => f,
                };
                let ghost mid = *self;
                let chat = match self.find_or_create_chat(from_id, to_id, now) {
                    Err(e) => {
                        return Err(e);
                    },
                    Ok(c) => c,
                };
                let ghost mid2 = *self;
                self.remove_request_at(i);
                proof {
                    assert(self.friends() == mid.friends());
                    assert(self.chats() == mid2.chats());
                }
                Ok(Resolution::Accepted { friendship, chat })
            },
        }
    }

    /// The friendship of `{a, b}`, if there is one.
    pub fn friendship_for(&self, a: RecordId, b: RecordId) -> (r: Option<Friend>)
        ensures
            match r {
                Some(f) => exists|i: int|
                    0 <= i < self.friends().len() && self.friends()[i] == f && #[trigger] f.joins(a, b),
                None => !self.has_friend_for(a, b),
            },
    {
        match self.friend_index_for(a, b) {
            Some(i) => Some(self.friends[i]),
            None => None,
        }
    }
}

} // verus!
