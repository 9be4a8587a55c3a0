use vstd::prelude::*;

use crate::db::{touched, Db};
use crate::models::{Chat, RecordId};

verus! {

/// At most one chat exists for an unordered pair of users: for every store
/// that keeps its invariant, two chats that join `a` and `b` are the same
/// record. Every operation of the store keeps the invariant, so this holds
/// after any sequence of operations, accepts of requests in both directions
/// included, in whatever order a lock lets them through.
pub proof fn lemma_one_chat_per_pair(db: &Db, a: RecordId, b: RecordId)
    requires
        db.wf(),
    ensures
        forall|i: int, j: int|
            0 <= i < db.chats().len() && 0 <= j < db.chats().len() && #[trigger] db.chats()[i].joins(
                a,
                b,
            ) && #[trigger] db.chats()[j].joins(a, b) ==> i == j,
{
    assert forall|i: int, j: int|
        0 <= i < db.chats().len() && 0 <= j < db.chats().len() && #[trigger] db.chats()[i].joins(
            a,
            b,
        ) && #[trigger] db.chats()[j].joins(a, b) implies i == j by {
        assert(db.chats()[i].joins(db.chats()[j].first, db.chats()[j].second));
    }
}

/// Storing a direct message in the chat `chat_id`, stamped later than the
/// chat's last activity, moves that activity forward to the message's time
/// and points the chat at the message; every other chat stays as it was.
/// (`Db::add_message_to_db` leaves the chats as `touched` says.)
pub proof fn lemma_last_activity_advances(
    chats: Seq<Chat>,
    chat_id: RecordId,
    msg_id: RecordId,
    at: i64,
    i: int,
)
    requires
        0 <= i < chats.len(),
        chats[i].id == chat_id,
        chats[i].last_activity < at,
    ensures
        touched(chats, chat_id, msg_id, at).len() == chats.len(),
        touched(chats, chat_id, msg_id, at)[i].last_activity == at,
        touched(chats, chat_id, msg_id, at)[i].last_activity > chats[i].last_activity,
        touched(chats, chat_id, msg_id, at)[i].last_message == Some(msg_id),
        forall|k: int|
            0 <= k < chats.len() && chats[k].id != chat_id ==> #[trigger] touched(
                chats,
                chat_id,
                msg_id,
                at,
            )[k] == chats[k],
{
}

} // verus!
