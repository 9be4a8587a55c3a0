use vstd::prelude::*;

use crate::db::Db;
use crate::models::{ChatError, RecordId, User};
use crate::search::{folded_match, matches_handle};

verus! {

/// `u` as stored, under the identifier `id`, created at `now`.
pub open spec fn stored_user(u: User, id: RecordId, now: i64) -> User {
    User {
        id,
        name: u.name,
        username: u.username,
        email: u.email,
        password: u.password,
        verified: u.verified,
        created_at: now,
        updated_at: u.updated_at,
        last_login: u.last_login,
    }
}

/// The identifiers of the users of `users` whose handle `q` matches,
/// ignoring case, in their order.
pub open spec fn matching_ids(users: Seq<User>, q: Seq<char>) -> Seq<RecordId>
    decreases users.len(),
{
    if users.len() == 0 {
        Seq::empty()
    } else {
        let rest = matching_ids(users.drop_last(), q);
        if folded_match(q, users.last().username@) {
            rest.push(users.last().id)
        } else {
            rest
        }
    }
}

/// Holds of every identifier but `x`.
pub open spec fn other_than(x: RecordId) -> spec_fn(RecordId) -> bool {
    |id: RecordId| id != x
}

/// At most the first five of `s`.
pub open spec fn first_five(s: Seq<RecordId>) -> Seq<RecordId> {
    if s.len() <= 5 {
        s
    } else {
        s.subrange(0, 5)
    }
}

impl Db {
    /// What a search for `q` by `searcher` finds: the first five accounts
    /// whose handle `q` matches, ignoring case, less the searcher's own.
    pub open spec fn search_hits(&self, q: Seq<char>, searcher: RecordId) -> Seq<RecordId> {
        first_five(matching_ids(self.users(), q)).filter(other_than(searcher))
    }

    /// Searches the accounts by handle; see `search_hits`.
    pub fn find_users_with_substring(&self, q: &str, searcher: RecordId) -> (r: Vec<RecordId>)
        ensures
            r@ == self.search_hits(q@, searcher),
    {
        let mut hits: Vec<RecordId> = Vec::new();
        let mut i: usize = 0;
        while i < self.users.len()
            invariant
                i <= self.users@.len(),
                hits@ == first_five(matching_ids(self.users@.subrange(0, i as int), q@)),
            decreases self.users@.len() - i,
        {
            let ghost prefix = self.users@.subrange(0, i as int);
            let ghost next = self.users@.subrange(0, i as int + 1);
            assert(next.drop_last() == prefix);
            assert(next.last() == self.users@[i as int]);
            if matches_handle(q, self.users[i].username.as_str()) {
                if hits.len() < 5 {
                    hits.push(self.users[i].id);
                } else {
                    assert(matching_ids(next, q@).subrange(0, 5) == matching_ids(prefix, q@).subrange(0, 5));
                }
            }
            i += 1;
        }
        assert(self.users@.subrange(0, i as int) == self.users@);
        let mut out: Vec<RecordId> = Vec::new();
        let mut j: usize = 0;
        while j < hits.len()
            invariant
                j <= hits@.len(),
                out@ == hits@.subrange(0, j as int).filter(other_than(searcher)),
            decreases hits@.len() - j,
        {
            proof {
                reveal(Seq::filter);
                assert(hits@.subrange(0, j as int + 1).drop_last() == hits@.subrange(0, j as int));
            }
            if hits[j] != searcher {
                out.push(hits[j]);
            }
            j += 1;
        }
        assert(hits@.subrange(0, j as int) == hits@);
        out
    }

    pub open spec fn username_taken(&self, username: Seq<char>) -> bool {
        exists|i: int| 0 <= i < self.users().len() && #[trigger] self.users()[i].username@ == username
    }

    pub open spec fn email_taken(&self, email: Seq<char>) -> bool {
        exists|i: int| 0 <= i < self.users().len() && #[trigger] self.users()[i].email@ == email
    }

    fn user_index_by_email(&self, email: &String) -> (r: Option<usize>)
        ensures
            match r {
                Some(i) => i < self.users().len() && self.users()[i as int].email@ == email@,
                None => !self.email_taken(email@),
            },
    {
        let mut i: usize = 0;
        while i < self.users.len()
            invariant
                i <= self.users@.len(),
                forall|k: int| 0 <= k < i ==> (#[trigger] self.users@[k]).email@ != email@,
            decreases self.users@.len() - i,
        {
            if self.users[i].email == *email {
                return Some(i);
            }
            i += 1;
        }
        None
    }

    fn username_in_use(&self, username: &String) -> (r: bool)
        ensures
            r == self.username_taken(username@),
    {
        let mut i: usize = 0;
        while i < self.users.len()
            invariant
                i <= self.users@.len(),
                forall|k: int| 0 <= k < i ==> (#[trigger] self.users@[k]).username@ != username@,
            decreases self.users@.len() - i,
        {
            if self.users[i].username == *username {
                return true;
            }
            i += 1;
        }
        false
    }

    /// The account with identifier `id`, if there is one.
    pub fn find_user_with_id(&self, id: RecordId) -> (r: Option<&User>)
        ensures
            match r {
                Some(u) => exists|i: int|
                    0 <= i < self.users().len() && self.users()[i] == *u && #[trigger] u.id == id,
                None => forall|i: int| 0 <= i < self.users().len() ==> #[trigger] self.users()[i].id != id,
            },
    {
        let mut i: usize = 0;
        while i < self.users.len()
            invariant
                i <= self.users@.len(),
                forall|k: int| 0 <= k < i ==> (#[trigger] self.users@[k]).id != id,
            decreases self.users@.len() - i,
        {
            if self.users[i].id == id {
                return Some(&self.users[i]);
            }
            i += 1;
        }
        None
    }

    /// The account registered with `email`, if there is one.
    pub fn find_user_with_email(&self, email: &String) -> (r: Option<&User>)
        ensures
            match r {
                Some(u) => exists|i: int|
                    0 <= i < self.users().len() && self.users()[i] == *u && #[trigger] u.email@ == email@,
                None => !self.email_taken(email@),
            },
    {
        match self.user_index_by_email(email) {
            Some(i) => Some(&self.users[i]),
            None => None,
        }
    }

    /// Stores a new account. Refused when another account has its handle or
    /// its email.
    pub fn create_user(&mut self, user: User, now: i64) -> (r: Result<RecordId, ChatError>)
        requires
            old(self).wf(),
        ensures
            final(self).wf(),
            old(self).username_taken(user.username@) ==> r == Err::<RecordId, ChatError>(
                ChatError::UsernameTaken,
            ),
            !old(self).username_taken(user.username@) && old(self).email_taken(user.email@) ==> r
                == Err::<RecordId, ChatError>(ChatError::EmailTaken),
            !old(self).username_taken(user.username@) && !old(self).email_taken(user.email@)
                && old(self).next_id() == u64::MAX ==> r == Err::<RecordId, ChatError>(
                ChatError::StoreUnavailable,
            ),
            !old(self).username_taken(user.username@) && !old(self).email_taken(user.email@)
                && old(self).next_id() < u64::MAX ==> r.is_ok(),
            r.is_err() ==> *final(self) == *old(self),
            r.is_ok() ==> {
                &&& !old(self).username_taken(user.username@)
                &&& !old(self).email_taken(user.email@)
                &&& r == Ok::<RecordId, ChatError>(old(self).next_id())
                &&& final(self).next_id() == old(self).next_id() + 1
                &&& final(self).users() == old(self).users().push(
                    stored_user(user, old(self).next_id(), now),
                )
            },
            final(self).keeps_groups(old(self)),
            final(self).keeps_messages(old(self)),
            final(self).keeps_graph(old(self)),
    {
        if self.username_in_use(&user.username) {
            return Err(ChatError::UsernameTaken);
        }
        if self.user_index_by_email(&user.email).is_some() {
            return Err(ChatError::EmailTaken);
        }
        let id = match self.take_id() {
            None => {
                return Err(ChatError::StoreUnavailable);
            },
            Some(id) => id,
        };
        let ghost before = self.users@;
        let ghost uname = user.username@;
        let ghost uemail = user.email@;
        self.users.push(
            User {
                id,
                name: user.name,
                username: user.username,
                email: user.email,
                password: user.password,
                verified: user.verified,
                created_at: now,
                updated_at: user.updated_at,
                last_login: user.last_login,
            },
        );
        proof {
            let n = before.len() as int;
            assert forall|i: int| 0 <= i < n implies before[i].id < id && before[i].username@
                != uname && before[i].email@ != uemail by {
                assert(before[i].id < old(self).next_id());
            }
            assert forall|i: int, j: int|
                0 <= i < self.users@.len() && 0 <= j < self.users@.len() && i != j implies {
                &&& #[trigger] self.users@[i].id != #[trigger] self.users@[j].id
                &&& self.users@[i].username@ != self.users@[j].username@
                &&& self.users@[i].email@ != self.users@[j].email@
            } by {}
            assert(self.friends() == old(self).friends());
            assert(self.groups() == old(self).groups());
            assert(self.chats() == old(self).chats());
            assert(self.requests() == old(self).requests());
            assert forall|a: int| 0 <= a < self.chats@.len() implies #[trigger] self.chats@[a].first
                != self.chats@[a].second && self.chats@[a].id < self.next_id by {
                assert(old(self).chats()[a].first != old(self).chats()[a].second);
            }
        }
        Ok(id)
    }

    /// Records a login at `now` for the account registered with `email`.
    pub fn update_last_login(&mut self, email: &String, now: i64) -> (r: Result<(), ChatError>)
        requires
            old(self).wf(),
        ensures
            final(self).wf(),
            !old(self).email_taken(email@) <==> r == Err::<(), ChatError>(ChatError::NotFound),
            old(self).email_taken(email@) ==> r == Ok::<(), ChatError>(()),
            r.is_err() ==> *final(self) == *old(self),
            r.is_ok() ==> exists|i: int|
                0 <= i < old(self).users().len() && #[trigger] old(self).users()[i].email@ == email@
                    && final(self).users() == old(self).users().update(
                    i,
                    User { last_login: Some(now), ..old(self).users()[i] },
                ),
            final(self).keeps_groups(old(self)),
            final(self).keeps_messages(old(self)),
            final(self).keeps_graph(old(self)),
            final(self).next_id() == old(self).next_id(),
    {
        match self.user_index_by_email(email) {
            None => Err(ChatError::NotFound),
            Some(i) => {
                let ghost before = self.users@;
                self.users[i].last_login = Some(now);
                proof {
                    assert(self.users@ =~= before.update(
                        i as int,
                        User { last_login: Some(now), ..before[i as int] },
                    ));
                    assert forall|a: int| 0 <= a < self.users@.len() implies (#[trigger] self.users@[a]).id
                        == before[a].id && self.users@[a].username@ == before[a].username@
                        && self.users@[a].email@ == before[a].email@ by {}
                    assert(self.friends() == old(self).friends());
                    assert(self.groups() == old(self).groups());
                    assert(self.chats() == old(self).chats());
                    assert(self.requests() == old(self).requests());
                }
                Ok(())
            },
        }
    }
}

} // verus!
