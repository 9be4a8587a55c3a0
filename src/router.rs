use vstd::prelude::*;

use crate::db::{stored_direct, stored_group, touched, Db};
use crate::models::{ChatMessage, DirectMessage, GroupMessage, Inbound, RecordId};
use crate::registry::Manager;

verus! {

/// What became of one inbound frame.
#[derive(Debug)]
pub enum RouteOutcome {
    /// A direct message addressed to its own sender: neither stored nor delivered.
    Dropped,
    /// The frame names a chat or a group that does not exist. This is a
    /// protocol violation: the session it came in on must end.
    EndSession,
    /// `message` is to be pushed onto the channel of each of `recipients`,
    /// the users it is for that are online. `stored` says whether it was
    /// stored; when it was not, the sender is to be warned.
    Routed { message: ChatMessage, recipients: Vec<RecordId>, stored: bool },
}

/// The users of `users` that have a channel in `online`, in their order.
pub open spec fn online_among<C>(online: Map<RecordId, C>, users: Seq<RecordId>) -> Seq<RecordId> {
    users.filter(|u: RecordId| online.contains_key(u))
}

/// The identifier that a message gets if it was stored.
pub open spec fn stored_id(stored: bool, db: &Db) -> Option<RecordId> {
    if stored {
        Some(db.next_id())
    } else {
        None
    }
}

/// The users of `members` that are online.
fn online_members<C>(registry: &Manager<C>, members: &Vec<RecordId>) -> (r: Vec<RecordId>)
    ensures
        r@ == online_among(registry@, members@),
{
    let mut out: Vec<RecordId> = Vec::new();
    let mut i: usize = 0;
    while i < members.len()
        invariant
            i <= members@.len(),
            out@ == online_among(registry@, members@.subrange(0, i as int)),
        decreases members@.len() - i,
    {
        proof {
            reveal(Seq::filter);
            assert(members@.subrange(0, i as int + 1).drop_last() == members@.subrange(0, i as int));
        }
        if registry.is_online(members[i]) {
            out.push(members[i]);
        }
        i += 1;
    }
    proof {
        assert(members@.subrange(0, i as int) == members@);
    }
    out
}

/// What routing `frame` from `sender` at `now` does: `old` and `new` are the
/// store before and after, `online` the registry, `r` the outcome.
pub open spec fn routes<C>(
    old: &Db,
    new: &Db,
    online: Map<RecordId, C>,
    sender: RecordId,
    frame: Inbound,
    now: i64,
    r: RouteOutcome,
) -> bool {
    &&& new.wf()
    &&& new.keeps_users(old)
    &&& new.keeps_groups(old)
    &&& new.friends() == old.friends()
    &&& new.requests() == old.requests()
    &&& r is Dropped || r is EndSession ==> *new == *old
    &&& (r matches RouteOutcome::Routed { stored, .. } ==> (stored <==> old.next_id() < u64::MAX))
    &&& (r matches RouteOutcome::Routed { stored, .. } && !stored ==> *new == *old)
    &&& (r matches RouteOutcome::Routed { stored, .. } && stored ==> new.next_id() == old.next_id()
        + 1)
    &&& match frame {
            Inbound::Direct { chat_id, to_id, content } => {
                &&& sender == to_id ==> r is Dropped
                &&& sender != to_id && !old.has_chat_id(chat_id) ==> r is EndSession
                &&& sender != to_id && old.has_chat_id(chat_id) ==> (r matches RouteOutcome::Routed {
                    message,
                    recipients,
                    stored,
                } && {
                    let m = DirectMessage {
                        id: stored_id(stored, old),
                        chat_id,
                        from_id: sender,
                        to_id,
                        content,
                        created_at: now,
                    };
                    &&& message == ChatMessage::Direct(m)
                    &&& recipients@ == online_among(online, seq![to_id])
                    &&& stored ==> {
                        &&& new.messages() == old.messages().push(
                            stored_direct(m, old.next_id()),
                        )
                        &&& new.group_messages() == old.group_messages()
                        &&& new.chats() == touched(
                            old.chats(),
                            chat_id,
                            old.next_id(),
                            now,
                        )
                    }
                })
            },
            Inbound::Group { group_id, content } => {
                &&& !old.has_group(group_id) ==> r is EndSession
                &&& old.has_group(group_id) ==> (r matches RouteOutcome::Routed {
                    message,
                    recipients,
                    stored,
                } && {
                    let m = GroupMessage {
                        id: stored_id(stored, old),
                        group_id,
                        from_id: sender,
                        content,
                        created_at: now,
                    };
                    &&& message == ChatMessage::Group(m)
                    &&& exists|i: int|
                        0 <= i < old.groups().len() && #[trigger] old.groups()[i].id
                            == group_id && recipients@ == online_among(
                            online,
                            old.groups()[i].members@,
                        )
                    &&& stored ==> {
                        &&& new.group_messages() == old.group_messages().push(
                            stored_group(m, old.next_id()),
                        )
                        &&& new.messages() == old.messages()
                        &&& new.chats() == old.chats()
                    }
                })
            },
        }
}

/// Routes one inbound frame from the authenticated user `sender`, received
/// at `now`.
///
/// A direct message to oneself is dropped. A frame that names a chat or a
/// group that does not exist ends the session and stores nothing. Otherwise
/// the message is stored once, whether or not anyone is online, a direct
/// message also becomes the latest activity of its chat, and the outcome
/// lists the online users that the message is to be pushed to: the
/// recipient of a direct message, every member of a group.
pub fn route_frame<C>(
    db: &mut Db,
    registry: &Manager<C>,
    sender: RecordId,
    frame: Inbound,
    now: i64,
) -> (r: RouteOutcome)
    requires
        old(db).wf(),
    ensures
        final(db).wf(),
        routes(old(db), final(db), registry@, sender, frame, now, r),
{
    match frame {
        Inbound::Direct { chat_id, to_id, content } => {
            if sender == to_id {
                return RouteOutcome::Dropped;
            }
            if !db.chat_exists(chat_id) {
                return RouteOutcome::EndSession;
            }
            let mut m = DirectMessage {
                id: None,
                chat_id,
                from_id: sender,
                to_id,
                content,
                created_at: now,
            };
            let mut recipients: Vec<RecordId> = Vec::new();
            if registry.is_online(to_id) {
                recipients.push(to_id);
            }
            proof {
                reveal_with_fuel(Seq::filter, 2);
                assert(seq![to_id].drop_last() == Seq::<RecordId>::empty());
                assert(seq![to_id].last() == to_id);
                assert(recipients@ =~= online_among(registry@, seq![to_id]));
            }
            let stored = db.add_message_to_db(ChatMessage::Direct(m.duplicate()));
            m.id = stored;
            RouteOutcome::Routed {
                message: ChatMessage::Direct(m),
                recipients,
                stored: stored.is_some(),
            }
        },
        Inbound::Group { group_id, content } => {
            let recipients = match db.find_group(group_id) {
                None => {
                    return RouteOutcome::EndSession;
                },
                Some(g) => online_members(registry, &g.members),
            };
            let mut m = GroupMessage { id: None, group_id, from_id: sender, content, created_at: now };
            let stored = db.add_message_to_db(ChatMessage::Group(m.duplicate()));
            m.id = stored;
            RouteOutcome::Routed {
                message: ChatMessage::Group(m),
                recipients,
                stored: stored.is_some(),
            }
        },
    }
}

/// Relies on bson::DateTime::now for the current time, in milliseconds since
/// the Unix epoch. Nothing is promised of the value.
#[verifier::external_body]
fn now_millis() -> (r: i64) {
    bson::DateTime::now().timestamp_millis()
}

/// Routes one inbound frame from `sender`, stamped with the current time.
/// Whatever the clock reads, the frame is routed as `route_frame` says; in
/// particular a direct message to oneself is dropped and a frame naming a
/// missing chat or group ends the session, and neither changes the store.
pub fn handle_frame<C>(db: &mut Db, registry: &Manager<C>, sender: RecordId, frame: Inbound) -> (r:
    RouteOutcome)
    requires
        old(db).wf(),
    ensures
        final(db).wf(),
        exists|now: i64| routes(old(db), final(db), registry@, sender, frame, now, r),
        r is Dropped || r is EndSession ==> *final(db) == *old(db),
        (frame matches Inbound::Direct { to_id, .. } && to_id == sender ==> r is Dropped),
        (frame matches Inbound::Direct { chat_id, to_id, .. } && to_id != sender
            && !old(db).has_chat_id(chat_id) ==> r is EndSession),
        (frame matches Inbound::Group { group_id, .. } && !old(db).has_group(group_id)
            ==> r is EndSession),
{
    let now = now_millis();
    route_frame(db, registry, sender, frame, now)
}

/// What the reader of a session observed.
#[derive(Debug)]
pub enum SessionEvent {
    /// A frame that decoded.
    Frame(Inbound),
    /// A frame that did not decode: a protocol violation.
    Malformed,
    /// The connection closed.
    Closed,
}

/// What the reader of a session does next.
#[derive(Debug)]
pub enum SessionStep {
    /// Carry out the outcome (push the message, warn the sender when it was
    /// not stored) and read on.
    Continue(RouteOutcome),
    /// Stop reading and stop the writer: the user was unregistered.
    End,
}

/// One step of the reader of `user`'s session. A routed or dropped frame
/// keeps the session going. A malformed frame, a frame that names a missing
/// chat or group, and a closed connection end it, and then `user` leaves
/// the registry.
pub fn session_step<C>(
    db: &mut Db,
    registry: &mut Manager<C>,
    user: RecordId,
    event: SessionEvent,
    now: i64,
) -> (r: SessionStep)
    requires
        old(db).wf(),
    ensures
        final(db).wf(),
        r is End ==> final(registry)@ == old(registry)@.remove(user),
        r is Continue ==> final(registry)@ == old(registry)@,
        match event {
            SessionEvent::Frame(f) => {
                match r {
                    SessionStep::Continue(out) => !(out is EndSession) && routes(
                        old(db),
                        final(db),
                        old(registry)@,
                        user,
                        f,
                        now,
                        out,
                    ),
                    SessionStep::End => *final(db) == *old(db) && exists|out: RouteOutcome|
                        out is EndSession && routes(
                            old(db),
                            final(db),
                            old(registry)@,
                            user,
                            f,
                            now,
                            out,
                        ),
                }
            },
            _ => r is End && *final(db) == *old(db),
        },
{
    match event {
        SessionEvent::Frame(f) => {
            let out = route_frame(db, registry, user, f, now);
            match out {
                RouteOutcome::EndSession => {
                    registry.remove(user);
                    SessionStep::End
                },
                _ => SessionStep::Continue(out),
            }
        },
        _ => {
            registry.remove(user);
            SessionStep::End
        },
    }
}

} // verus!
