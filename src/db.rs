use vstd::prelude::*;

mod groups;
mod messages;
mod social;
mod users;

pub use groups::MemberAction;
pub use messages::{stored_direct, stored_group, touched};
pub use social::{RequestAction, Resolution};
pub use users::stored_user;

use crate::models::{
    ChatError, Chat, Conversation, DirectMessage, TempUser, Friend, Group, GroupMessage, RecordId, RequestStatus, Requests, User,
};

verus! {

/// The persistence gateway: the records of the application, with the
/// operations that create, read and change them. Each operation is one
/// atomic step on the records; callers share a store behind a lock.
pub struct Db {
    users: Vec<User>,
    friends: Vec<Friend>,
    chats: Vec<Chat>,
    messages: Vec<DirectMessage>,
    groups: Vec<Group>,
    requests: Vec<Requests>,
    group_messages: Vec<GroupMessage>,
    next_id: u64,
}

impl Db {
    pub closed spec fn users(&self) -> Seq<User> {
        self.users@
    }

    pub closed spec fn friends(&self) -> Seq<Friend> {
        self.friends@
    }

    pub closed spec fn chats(&self) -> Seq<Chat> {
        self.chats@
    }

    pub closed spec fn messages(&self) -> Seq<DirectMessage> {
        self.messages@
    }

    pub closed spec fn groups(&self) -> Seq<Group> {
        self.groups@
    }

    pub closed spec fn requests(&self) -> Seq<Requests> {
        self.requests@
    }

    pub closed spec fn group_messages(&self) -> Seq<GroupMessage> {
        self.group_messages@
    }

    /// The identifier that the next stored record gets.
    pub closed spec fn next_id(&self) -> u64 {
        self.next_id
    }

    pub open spec fn users_wf(&self) -> bool {
        let u = self.users();
        &&& forall|i: int| 0 <= i < u.len() ==> #[trigger] u[i].id < self.next_id()
        &&& forall|i: int, j: int|
            0 <= i < u.len() && 0 <= j < u.len() && i != j ==> {
                &&& #[trigger] u[i].id != #[trigger] u[j].id
                &&& u[i].username@ != u[j].username@
                &&& u[i].email@ != u[j].email@
            }
    }

    pub open spec fn friends_wf(&self) -> bool {
        let f = self.friends();
        &&& forall|i: int| 0 <= i < f.len() ==> #[trigger] f[i].first != f[i].second
        &&& forall|i: int, j: int|
            0 <= i < f.len() && 0 <= j < f.len() && #[trigger] f[i].joins(
                #[trigger] f[j].first,
                f[j].second,
            ) ==> i == j
    }

    pub open spec fn chats_wf(&self) -> bool {
        let c = self.chats();
        &&& forall|i: int|
            0 <= i < c.len() ==> #[trigger] c[i].first != c[i].second && c[i].id < self.next_id()
        &&& forall|i: int, j: int|
            0 <= i < c.len() && 0 <= j < c.len() && i != j ==> #[trigger] c[i].id
                != #[trigger] c[j].id
        &&& forall|i: int, j: int|
            0 <= i < c.len() && 0 <= j < c.len() && #[trigger] c[i].joins(
                #[trigger] c[j].first,
                c[j].second,
            ) ==> i == j
    }

    pub open spec fn requests_wf(&self) -> bool {
        let q = self.requests();
        &&& forall|i: int| 0 <= i < q.len() ==> #[trigger] q[i].from_id != q[i].to_id
        &&& forall|i: int| 0 <= i < q.len() ==> #[trigger] q[i].status == RequestStatus::Pending
        &&& forall|i: int, j: int|
            0 <= i < q.len() && 0 <= j < q.len() && #[trigger] q[i].from_id == #[trigger] q[j].from_id
                && q[i].to_id == q[j].to_id ==> i == j
    }

    pub open spec fn groups_wf(&self) -> bool {
        let g = self.groups();
        &&& forall|i: int|
            0 <= i < g.len() ==> {
                &&& #[trigger] g[i].id < self.next_id()
                &&& g[i].admins@.len() > 0
                &&& g[i].admins@.no_duplicates()
                &&& g[i].members@.no_duplicates()
            }
        &&& forall|i: int, j: int|
            0 <= i < g.len() && 0 <= j < g.len() && i != j ==> #[trigger] g[i].id
                != #[trigger] g[j].id
    }

    /// The invariant of the store: identifiers are unique and below
    /// `next_id`, handles and emails are unique, a chat and a friendship join
    /// two distinct users and at most one of each exists for an unordered
    /// pair, at most one request exists for an ordered pair and every stored
    /// request is pending (an answered one is removed), and a group has
    /// an admin and lists no user twice.
    pub open spec fn wf(&self) -> bool {
        &&& self.users_wf()
        &&& self.friends_wf()
        &&& self.chats_wf()
        &&& self.requests_wf()
        &&& self.groups_wf()
    }

    pub open spec fn keeps_users(&self, o: &Db) -> bool {
        self.users() == o.users()
    }

    pub open spec fn keeps_groups(&self, o: &Db) -> bool {
        self.groups() == o.groups()
    }

    pub open spec fn keeps_messages(&self, o: &Db) -> bool {
        &&& self.messages() == o.messages()
        &&& self.group_messages() == o.group_messages()
    }

    pub open spec fn keeps_graph(&self, o: &Db) -> bool {
        &&& self.friends() == o.friends()
        &&& self.chats() == o.chats()
        &&& self.requests() == o.requests()
    }

    /// Nothing that a reader can see has changed.
    pub open spec fn same_records(&self, o: &Db) -> bool {
        &&& self.keeps_users(o)
        &&& self.keeps_groups(o)
        &&& self.keeps_messages(o)
        &&& self.keeps_graph(o)
        &&& self.next_id() == o.next_id()
    }

    pub open spec fn has_chat_for(&self, a: RecordId, b: RecordId) -> bool {
        exists|i: int| 0 <= i < self.chats().len() && #[trigger] self.chats()[i].joins(a, b)
    }

    pub open spec fn has_chat_id(&self, id: RecordId) -> bool {
        exists|i: int| 0 <= i < self.chats().len() && #[trigger] self.chats()[i].id == id
    }

    pub open spec fn has_friend_for(&self, a: RecordId, b: RecordId) -> bool {
        exists|i: int| 0 <= i < self.friends().len() && #[trigger] self.friends()[i].joins(a, b)
    }

    /// `id` is the one chat of the pair `{a, b}`.
    pub open spec fn unique_chat_for(&self, a: RecordId, b: RecordId, id: RecordId) -> bool {
        exists|i: int|
            0 <= i < self.chats().len() && #[trigger] self.chats()[i].joins(a, b)
                && self.chats()[i].id == id && forall|j: int|
                0 <= j < self.chats().len() && #[trigger] self.chats()[j].joins(a, b) ==> j == i
    }

    /// `id` is the one friendship of the pair `{a, b}`.
    pub open spec fn unique_friend_for(&self, a: RecordId, b: RecordId, id: RecordId) -> bool {
        exists|i: int|
            0 <= i < self.friends().len() && #[trigger] self.friends()[i].joins(a, b)
                && self.friends()[i].id == id && forall|j: int|
                0 <= j < self.friends().len() && #[trigger] self.friends()[j].joins(a, b) ==> j
                    == i
    }

    /// An empty store.
    pub fn init() -> (r: Db)
        ensures
            r.wf(),
            r.next_id() == 1,
            r.users().len() == 0,
            r.friends().len() == 0,
            r.chats().len() == 0,
            r.messages().len() == 0,
            r.groups().len() == 0,
            r.requests().len() == 0,
            r.group_messages().len() == 0,
    {
        Db {
            users: Vec::new(),
            friends: Vec::new(),
            chats: Vec::new(),
            messages: Vec::new(),
            groups: Vec::new(),
            requests: Vec::new(),
            group_messages: Vec::new(),
            next_id: 1,
        }
    }

    /// Takes the next identifier, or `None` when they are used up.
    fn take_id(&mut self) -> (r: Option<RecordId>)
        ensures
            old(self).next_id() == u64::MAX ==> r.is_none() && *final(self) == *old(self),
            old(self).next_id() < u64::MAX ==> r == Some(old(self).next_id())
                && final(self).next_id() == old(self).next_id() + 1,
            final(self).keeps_users(old(self)),
            final(self).keeps_groups(old(self)),
            final(self).keeps_messages(old(self)),
            final(self).keeps_graph(old(self)),
    {
        if self.next_id == u64::MAX {
            None
        } else {
            let id = self.next_id;
            self.next_id = id + 1;
            Some(id)
        }
    }

    // ---------- chats ----------

    fn chat_index_for(&self, a: RecordId, b: RecordId) -> (r: Option<usize>)
        ensures
            match r {
                Some(i) => i < self.chats().len() && self.chats()[i as int].joins(a, b),
                None => !self.has_chat_for(a, b),
            },
    {
        let mut i: usize = 0;
        while i < self.chats.len()
            invariant
                i <= self.chats@.len(),
                forall|k: int| 0 <= k < i ==> !(#[trigger] self.chats@[k]).joins(a, b),
            decreases self.chats@.len() - i,
        {
            let c = self.chats[i];
            if (c.first == a && c.second == b) || (c.first == b && c.second == a) {
                return Some(i);
            }
            i += 1;
        }
        None
    }

    fn chat_index_of(&self, chat_id: RecordId) -> (r: Option<usize>)
        ensures
            match r {
                Some(i) => i < self.chats().len() && self.chats()[i as int].id == chat_id,
                None => !self.has_chat_id(chat_id),
            },
    {
        let mut i: usize = 0;
        while i < self.chats.len()
            invariant
                i <= self.chats@.len(),
                forall|k: int| 0 <= k < i ==> (#[trigger] self.chats@[k]).id != chat_id,
            decreases self.chats@.len() - i,
        {
            if self.chats[i].id == chat_id {
                return Some(i);
            }
            i += 1;
        }
        None
    }

    /// Whether a chat with identifier `chat_id` exists.
    pub fn chat_exists(&self, chat_id: RecordId) -> (r: bool)
        ensures
            r == self.has_chat_id(chat_id),
    {
        self.chat_index_of(chat_id).is_some()
    }

    /// The chat of the pair `{a, b}`, if there is one.
    pub fn chat_for_pair(&self, a: RecordId, b: RecordId) -> (r: Option<Chat>)
        ensures
            match r {
                Some(c) => exists|i: int|
                    0 <= i < self.chats().len() && self.chats()[i] == c && #[trigger] c.joins(a, b),
                None => !self.has_chat_for(a, b),
            },
    {
        match self.chat_index_for(a, b) {
            Some(i) => Some(self.chats[i]),
            None => None,
        }
    }

    /// Appends a new chat for `{a, b}`; the caller checked that none exists.
    fn push_chat(&mut self, a: RecordId, b: RecordId, now: i64) -> (r: Result<RecordId, ChatError>)
        requires
            old(self).wf(),
            a != b,
            !old(self).has_chat_for(a, b),
        ensures
            final(self).wf(),
            final(self).keeps_users(old(self)),
            final(self).keeps_groups(old(self)),
            final(self).keeps_messages(old(self)),
            final(self).friends() == old(self).friends(),
            final(self).requests() == old(self).requests(),
            old(self).next_id() == u64::MAX ==> r == Err::<RecordId, ChatError>(
                ChatError::StoreUnavailable,
            ) && *final(self) == *old(self),
            old(self).next_id() < u64::MAX ==> r == Ok::<RecordId, ChatError>(old(self).next_id())
                && final(self).next_id() == old(self).next_id() + 1 && final(self).chats()
                == old(self).chats().push(
                (Chat {
                    id: old(self).next_id(),
                    first: a,
                    second: b,
                    last_message: None,
                    last_activity: now,
                    created_at: now,
                }),
            ),
    {
        match self.take_id() {
            None => Err(ChatError::StoreUnavailable),
            Some(id) => {
                let chat = Chat {
                    id,
                    first: a,
                    second: b,
                    last_message: None,
                    last_activity: now,
                    created_at: now,
                };
                let ghost before = self.chats@;
                self.chats.push(chat);
                proof {
                    assert forall|i: int| 0 <= i < before.len() implies #[trigger] before[i].id
                        < id by {
                        assert(before[i].first != before[i].second);
                    }
                    assert forall|i: int, j: int|
                        0 <= i < self.chats@.len() && 0 <= j < self.chats@.len() && i != j implies #[trigger] self.chats@[i].id
                        != #[trigger] self.chats@[j].id by {
                        if i < before.len() {
                            assert(before[i].id < id);
                        }
                        if j < before.len() {
                            assert(before[j].id < id);
                        }
                    }
                    assert forall|i: int, j: int|
                        0 <= i < self.chats@.len() && 0 <= j < self.chats@.len()
                            && #[trigger] self.chats@[i].joins(
                            #[trigger] self.chats@[j].first,
                            self.chats@[j].second,
                        ) implies i == j by {
                        if i < before.len() && j == before.len() {
                            assert(before[i].joins(a, b));
                        } else if j < before.len() && i == before.len() {
                            assert(before[j].joins(a, b));
                        }
                    }
                }
                Ok(id)
            }
        }
    }

    /// Creates the chat of `{first, second}`. Refused when the two are the
    /// same user or when the pair already has a chat.
    pub fn create_chat(&mut self, first: RecordId, second: RecordId, now: i64) -> (r: Result<
        RecordId,
        ChatError,
    >)
        requires
            old(self).wf(),
        ensures
            final(self).wf(),
            first == second ==> r == Err::<RecordId, ChatError>(ChatError::InvalidPair),
            first != second && old(self).has_chat_for(first, second) ==> r == Err::<
                RecordId,
                ChatError,
            >(ChatError::Conflict),
            first != second && !old(self).has_chat_for(first, second) && old(self).next_id()
                == u64::MAX ==> r == Err::<RecordId, ChatError>(ChatError::StoreUnavailable),
            first != second && !old(self).has_chat_for(first, second) && old(self).next_id()
                < u64::MAX ==> r.is_ok(),
            r.is_err() ==> *final(self) == *old(self),
            r.is_ok() ==> {
                &&& first != second
                &&& !old(self).has_chat_for(first, second)
                &&& r == Ok::<RecordId, ChatError>(old(self).next_id())
                &&& final(self).next_id() == old(self).next_id() + 1
                &&& final(self).chats() == old(self).chats().push(
                    (Chat {
                        id: old(self).next_id(),
                        first,
                        second,
                        last_message: None,
                        last_activity: now,
                        created_at: now,
                    }),
                )
                &&& final(self).keeps_users(old(self))
                &&& final(self).keeps_groups(old(self))
                &&& final(self).keeps_messages(old(self))
                &&& final(self).friends() == old(self).friends()
                &&& final(self).requests() == old(self).requests()
            },
    {
        if first == second {
            return Err(ChatError::InvalidPair);
        }
        if self.chat_index_for(first, second).is_some() {
            return Err(ChatError::Conflict);
        }
        self.push_chat(first, second, now)
    }

    /// The chat of `{a, b}`: the existing one, or else a new one. Two calls
    /// for the same pair, in either order, give the same chat.
    pub fn find_or_create_chat(&mut self, a: RecordId, b: RecordId, now: i64) -> (r: Result<
        RecordId,
        ChatError,
    >)
        requires
            old(self).wf(),
        ensures
            final(self).wf(),
            a == b ==> r == Err::<RecordId, ChatError>(ChatError::InvalidPair),
            a != b && old(self).has_chat_for(a, b) ==> *final(self) == *old(self) && exists|i: int|
                0 <= i < old(self).chats().len() && #[trigger] old(self).chats()[i].joins(a, b)
                    && r == Ok::<RecordId, ChatError>(old(self).chats()[i].id),
            a != b && !old(self).has_chat_for(a, b) && old(self).next_id() == u64::MAX ==> r
                == Err::<RecordId, ChatError>(ChatError::StoreUnavailable),
            a != b && old(self).next_id() < u64::MAX ==> r.is_ok(),
            a != b && r.is_err() ==> r == Err::<RecordId, ChatError>(ChatError::StoreUnavailable),
            r.is_err() ==> *final(self) == *old(self),
            a != b && !old(self).has_chat_for(a, b) && r.is_ok() ==> {
                &&& r == Ok::<RecordId, ChatError>(old(self).next_id())
                &&& final(self).next_id() == old(self).next_id() + 1
                &&& final(self).chats() == old(self).chats().push(
                    (Chat {
                        id: old(self).next_id(),
                        first: a,
                        second: b,
                        last_message: None,
                        last_activity: now,
                        created_at: now,
                    }),
                )
                &&& final(self).keeps_users(old(self))
                &&& final(self).keeps_groups(old(self))
                &&& final(self).keeps_messages(old(self))
                &&& final(self).friends() == old(self).friends()
                &&& final(self).requests() == old(self).requests()
            },
            r.is_ok() ==> final(self).unique_chat_for(a, b, r->Ok_0),
    {
        if a == b {
            return Err(ChatError::InvalidPair);
        }
        match self.chat_index_for(a, b) {
            Some(i) => {
                let id = self.chats[i].id;
                proof {
                    assert forall|j: int|
                        0 <= j < self.chats@.len() && #[trigger] self.chats@[j].joins(
                            a,
                            b,
                        ) implies j == i as int by {
                        assert(self.chats@[j].joins(self.chats@[i as int].first, self.chats@[i as int].second));
                    }
                }
                Ok(id)
            }
            None => {
                let r = self.push_chat(a, b, now);
                proof {
                    if r.is_ok() {
                        let n = old(self).chats().len() as int;
                        assert(self.chats@[n].joins(a, b));
                        assert forall|j: int|
                            0 <= j < self.chats@.len() && #[trigger] self.chats@[j].joins(
                                a,
                                b,
                            ) implies j == n by {
                            if j < n {
                                assert(old(self).chats()[j].joins(a, b));
                            }
                        }
                    }
                }
                r
            }
        }
    }

    /// The chats that `user` takes part in, oldest first.
    pub open spec fn chats_of(&self, user: RecordId) -> Seq<Chat> {
        self.chats().filter(|c: Chat| c.has_member(user))
    }

    /// The chats that `user` takes part in, oldest first.
    pub fn get_chats(&self, user: RecordId) -> (r: Vec<Chat>)
        ensures
            r@ == self.chats_of(user),
    {
        let mut out: Vec<Chat> = Vec::new();
        let mut i: usize = 0;
        while i < self.chats.len()
            invariant
                i <= self.chats@.len(),
                out@ == self.chats@.subrange(0, i as int).filter(|c: Chat| c.has_member(user)),
            decreases self.chats@.len() - i,
        {
            proof {
                reveal(Seq::filter);
                assert(self.chats@.subrange(0, i as int + 1).drop_last() == self.chats@.subrange(
                    0,
                    i as int,
                ));
            }
            let c = self.chats[i];
            if c.first == user || c.second == user {
                out.push(c);
            }
            i += 1;
        }
        proof {
            assert(self.chats@.subrange(0, i as int) == self.chats@);
        }
        out
    }

    /// `v` shows the chat `c` to its member `user`.
    pub open spec fn shows(&self, c: Chat, user: RecordId, v: Conversation) -> bool {
        &&& v.id == c.id
        &&& v.sender == user
        &&& v.last_message == c.last_message
        &&& v.last_activity == c.last_activity
        &&& match v.receiver {
            Some(t) => exists|i: int|
                0 <= i < self.users().len() && #[trigger] self.users()[i].id == c.counterpart(user)
                    && t.id == self.users()[i].id && t.name == self.users()[i].name && t.username
                    == self.users()[i].username,
            None => forall|i: int|
                0 <= i < self.users().len() ==> #[trigger] self.users()[i].id != c.counterpart(user),
        }
    }

    /// The chats of `user`, oldest first, each with the name and handle of
    /// the other party.
    pub fn get_conversations(&self, user: RecordId) -> (r: Vec<Conversation>)
        ensures
            r@.len() == self.chats_of(user).len(),
            forall|k: int| 0 <= k < r@.len() ==> self.shows(self.chats_of(user)[k], user, #[trigger] r@[k]),
    {
        let chats = self.get_chats(user);
        let mut out: Vec<Conversation> = Vec::new();
        let mut k: usize = 0;
        while k < chats.len()
            invariant
                k <= chats@.len(),
                chats@ == self.chats_of(user),
                out@.len() == k,
                forall|t: int| 0 <= t < k ==> self.shows(chats@[t], user, #[trigger] out@[t]),
            decreases chats@.len() - k,
        {
            let c = chats[k];
            let other = c.other(user);
            let receiver = match self.find_user_with_id(other) {
                Some(u) => Some(TempUser { id: u.id, name: u.name.clone(), username: u.username.clone() }),
                None => None,
            };
            out.push(
                Conversation {
                    id: c.id,
                    sender: user,
                    receiver,
                    last_message: c.last_message,
                    last_activity: c.last_activity,
                },
            );
            k += 1;
        }
        out
    }
}

} // verus!
