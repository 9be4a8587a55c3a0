use vstd::prelude::*;

use crate::db::Db;
use crate::models::{Chat, ChatMessage, DirectMessage, GroupMessage, RecordId};

verus! {

/// `chats` after the chat `chat_id` received the message `msg_id` at `at`.
pub open spec fn touched(chats: Seq<Chat>, chat_id: RecordId, msg_id: RecordId, at: i64) -> Seq<Chat> {
    chats.map_values(
        |c: Chat|
            if c.id == chat_id {
                Chat {
                    id: c.id,
                    first: c.first,
                    second: c.second,
                    last_message: Some(msg_id),
                    last_activity: at,
                    created_at: c.created_at,
                }
            } else {
                c
            },
    )
}

/// `m` as stored, under the identifier `id`.
pub open spec fn stored_direct(m: DirectMessage, id: RecordId) -> DirectMessage {
    DirectMessage {
        id: Some(id),
        chat_id: m.chat_id,
        from_id: m.from_id,
        to_id: m.to_id,
        content: m.content,
        created_at: m.created_at,
    }
}

/// `m` as stored, under the identifier `id`.
pub open spec fn stored_group(m: GroupMessage, id: RecordId) -> GroupMessage {
    GroupMessage {
        id: Some(id),
        group_id: m.group_id,
        from_id: m.from_id,
        content: m.content,
        created_at: m.created_at,
    }
}

impl Db {
    /// The messages of chat `chat_id`, oldest first.
    pub open spec fn chat_messages(&self, chat_id: RecordId) -> Seq<DirectMessage> {
        self.messages().filter(|m: DirectMessage| m.chat_id == chat_id)
    }

    /// Records that chat `chat_id` received message `msg_id` at `at`.
    fn touch_chat(&mut self, chat_id: RecordId, msg_id: RecordId, at: i64)
        requires
            old(self).wf(),
        ensures
            final(self).wf(),
            final(self).chats() == touched(old(self).chats(), chat_id, msg_id, at),
            final(self).keeps_users(old(self)),
            final(self).keeps_groups(old(self)),
            final(self).keeps_messages(old(self)),
            final(self).friends() == old(self).friends(),
            final(self).requests() == old(self).requests(),
            final(self).next_id() == old(self).next_id(),
    {
        let ghost before = self.chats@;
        match self.chat_index_of(chat_id) {
            None => {
                proof {
                    assert(touched(before, chat_id, msg_id, at) =~= before);
                }
            },
            Some(i) => {
                let c = self.chats[i];
                let t = Chat {
                    id: c.id,
                    first: c.first,
                    second: c.second,
                    last_message: Some(msg_id),
                    last_activity: at,
                    created_at: c.created_at,
                };
                self.chats.set(i, t);
                proof {
                    assert forall|k: int| 0 <= k < before.len() && k != i implies before[k].id
                        != chat_id by {
                        assert(before[k].id != before[i as int].id);
                    }
                    assert(self.chats@ =~= touched(before, chat_id, msg_id, at));
                    assert forall|a: int| 0 <= a < self.chats@.len() implies (#[trigger] self.chats@[a]).id
                        == before[a].id && self.chats@[a].first == before[a].first
                        && self.chats@[a].second == before[a].second by {}
                    assert(self.users() == old(self).users());
                    assert(self.friends() == old(self).friends());
                    assert(self.groups() == old(self).groups());
                    assert(self.requests() == old(self).requests());
                    assert forall|a: int, b: int|
                        0 <= a < self.chats@.len() && 0 <= b < self.chats@.len()
                            && #[trigger] self.chats@[a].joins(
                            #[trigger] self.chats@[b].first,
                            self.chats@[b].second,
                        ) implies a == b by {
                        assert(before[a].joins(before[b].first, before[b].second));
                    }
                    assert forall|a: int| 0 <= a < self.chats@.len() implies #[trigger] self.chats@[a].first
                        != self.chats@[a].second && self.chats@[a].id < self.next_id by {
                        assert(before[a].first != before[a].second);
                    }
                }
            },
        }
    }

    /// Stores a message. A direct message whose sender is its recipient is
    /// never stored. Storing a direct message also records it as the latest
    /// activity of its chat. Returns the identifier of the stored message,
    /// or `None` when nothing was stored.
    pub fn add_message_to_db(&mut self, msg: ChatMessage) -> (r: Option<RecordId>)
        requires
            old(self).wf(),
        ensures
            final(self).wf(),
            final(self).keeps_users(old(self)),
            final(self).keeps_groups(old(self)),
            final(self).friends() == old(self).friends(),
            final(self).requests() == old(self).requests(),
            r.is_none() ==> *final(self) == *old(self),
            r.is_some() ==> final(self).next_id() == old(self).next_id() + 1,
            match msg {
                ChatMessage::Direct(m) => {
                    &&& m.from_id == m.to_id ==> r.is_none()
                    &&& m.from_id != m.to_id && old(self).next_id() < u64::MAX ==> {
                        &&& r == Some(old(self).next_id())
                        &&& final(self).messages() == old(self).messages().push(
                            stored_direct(m, old(self).next_id()),
                        )
                        &&& final(self).group_messages() == old(self).group_messages()
                        &&& final(self).chats() == touched(
                            old(self).chats(),
                            m.chat_id,
                            old(self).next_id(),
                            m.created_at,
                        )
                    }
                    &&& old(self).next_id() == u64::MAX ==> r.is_none()
                },
                ChatMessage::Group(m) => {
                    &&& old(self).next_id() < u64::MAX ==> {
                        &&& r == Some(old(self).next_id())
                        &&& final(self).group_messages() == old(self).group_messages().push(
                            stored_group(m, old(self).next_id()),
                        )
                        &&& final(self).messages() == old(self).messages()
                        &&& final(self).chats() == old(self).chats()
                    }
                    &&& old(self).next_id() == u64::MAX ==> r.is_none()
                },
            },
    {
        match msg {
            ChatMessage::Direct(m) => {
                if m.from_id == m.to_id {
                    return None;
                }
                let id = match self.take_id() {
                    None => {
                        return None;
                    },
                    Some(id) => id,
                };
                let chat_id = m.chat_id;
                let at = m.created_at;
                self.messages.push(
                    DirectMessage {
                        id: Some(id),
                        chat_id: m.chat_id,
                        from_id: m.from_id,
                        to_id: m.to_id,
                        content: m.content,
                        created_at: m.created_at,
                    },
                );
                proof {
                    assert(self.friends() == old(self).friends());
                    assert(self.groups() == old(self).groups());
                    assert(self.chats() == old(self).chats());
                    assert(self.requests() == old(self).requests());
                    assert(self.users() == old(self).users());
                }
                self.touch_chat(chat_id, id, at);
                Some(id)
            },
            ChatMessage::Group(m) => {
                let id = match self.take_id() {
                    None => {
                        return None;
                    },
                    Some(id) => id,
                };
                self.group_messages.push(
                    GroupMessage {
                        id: Some(id),
                        group_id: m.group_id,
                        from_id: m.from_id,
                        content: m.content,
                        created_at: m.created_at,
                    },
                );
                proof {
                    assert(self.friends() == old(self).friends());
                    assert(self.groups() == old(self).groups());
                    assert(self.chats() == old(self).chats());
                    assert(self.requests() == old(self).requests());
                    assert(self.users() == old(self).users());
                }
                Some(id)
            },
        }
    }

    /// The messages of chat `chat_id`, oldest first.
    pub fn get_messages_with_chat_id(&self, chat_id: RecordId) -> (r: Vec<DirectMessage>)
        ensures
            r@ == self.chat_messages(chat_id),
    {
        let mut out: Vec<DirectMessage> = Vec::new();
        let mut i: usize = 0;
        while i < self.messages.len()
            invariant
                i <= self.messages@.len(),
                out@ == self.messages@.subrange(0, i as int).filter(
                    |m: DirectMessage| m.chat_id == chat_id,
                ),
            decreases self.messages@.len() - i,
        {
            proof {
                reveal(Seq::filter);
                assert(self.messages@.subrange(0, i as int + 1).drop_last()
                    == self.messages@.subrange(0, i as int));
            }
            if self.messages[i].chat_id == chat_id {
                out.push(self.messages[i].duplicate());
            }
            i += 1;
        }
        proof {
            assert(self.messages@.subrange(0, i as int) == self.messages@);
        }
        out
    }

    /// The messages of group `group_id`, oldest first.
    pub open spec fn group_messages_in(&self, group_id: RecordId) -> Seq<GroupMessage> {
        self.group_messages().filter(|m: GroupMessage| m.group_id == group_id)
    }

    /// The messages of group `group_id`, oldest first.
    pub fn get_group_messages(&self, group_id: RecordId) -> (r: Vec<GroupMessage>)
        ensures
            r@ == self.group_messages_in(group_id),
    {
        let mut out: Vec<GroupMessage> = Vec::new();
        let mut i: usize = 0;
        while i < self.group_messages.len()
            invariant
                i <= self.group_messages@.len(),
                out@ == self.group_messages@.subrange(0, i as int).filter(
                    |m: GroupMessage| m.group_id == group_id,
                ),
            decreases self.group_messages@.len() - i,
        {
            proof {
                reveal(Seq::filter);
                assert(self.group_messages@.subrange(0, i as int + 1).drop_last()
                    == self.group_messages@.subrange(0, i as int));
            }
            if self.group_messages[i].group_id == group_id {
                out.push(self.group_messages[i].duplicate());
            }
            i += 1;
        }
        proof {
            assert(self.group_messages@.subrange(0, i as int) == self.group_messages@);
        }
        out
    }
}

} // verus!
