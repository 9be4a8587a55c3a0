use chat_core::ids::parse_id;
use chat_core::search::{contains_folded, matches_handle};
use chat_core::models::{
    ChatError, ChatMessage, ChatRequest, FriendReq, FriendRequest, Inbound, MyError, RecordId,
    RequestStatus, Requests, User,
};
use chat_core::{
    handle_frame, route_frame, Db, Manager, MemberAction, RequestAction, Resolution, RouteOutcome,
};

fn user(db: &mut Db, handle: &str) -> RecordId {
    let u = User::new(
        handle.to_string(),
        handle.to_string(),
        format!("{}@example.com", handle),
        "protected".to_string(),
    );
    db.create_user(u, 1).unwrap()
}

fn request(db: &mut Db, from: RecordId, to: RecordId) -> Result<RecordId, ChatError> {
    db.add_friend_request(Requests::new_from_friend_req(FriendReq { to_id: to }, from), 5)
}

#[test]
fn direct_message_to_online_user_is_delivered_and_stored() {
    let mut db = Db::init();
    let u1 = user(&mut db, "u1");
    let u2 = user(&mut db, "u2");
    let c1 = db.create_chat(u2, u1, 10).unwrap();
    let mut registry: Manager<&str> = Manager::new();
    registry.insert(u1, "u1 channel");
    let frame = Inbound::Direct { chat_id: c1, to_id: u1, content: "hi".to_string() };
    match route_frame(&mut db, &registry, u2, frame, 20) {
        RouteOutcome::Routed { message: ChatMessage::Direct(m), recipients, stored } => {
            assert!(stored);
            assert_eq!(recipients, vec![u1]);
            assert_eq!(registry.find(&recipients[0]), Some(&"u1 channel"));
            assert_eq!(m.content, "hi");
            assert_eq!(m.from_id, u2);
            assert_eq!(m.to_id, u1);
            assert_eq!(m.chat_id, c1);
            assert_eq!(m.created_at, 20);
            assert!(m.id.is_some());
        }
        other => panic!("unexpected outcome {:?}", other),
    }
    let stored = db.get_messages_with_chat_id(c1);
    assert_eq!(stored.len(), 1);
    assert_eq!(stored[0].chat_id, c1);
    assert_eq!(stored[0].from_id, u2);
    assert_eq!(stored[0].to_id, u1);
    assert_eq!(stored[0].content, "hi");
    let chat = db.chat_for_pair(u1, u2).unwrap();
    assert_eq!(chat.id, c1);
    assert_eq!(chat.last_activity, 20);
    assert!(chat.last_activity > chat.created_at);
    assert_eq!(chat.last_message, stored[0].id);
}

#[test]
fn direct_message_to_offline_user_is_stored_without_delivery() {
    let mut db = Db::init();
    let u1 = user(&mut db, "u1");
    let u2 = user(&mut db, "u2");
    let c1 = db.create_chat(u1, u2, 10).unwrap();
    let registry: Manager<&str> = Manager::new();
    let frame = Inbound::Direct { chat_id: c1, to_id: u1, content: "later".to_string() };
    match route_frame(&mut db, &registry, u2, frame, 30) {
        RouteOutcome::Routed { recipients, stored, .. } => {
            assert!(stored);
            assert!(recipients.is_empty());
        }
        other => panic!("unexpected outcome {:?}", other),
    }
    assert_eq!(db.get_messages_with_chat_id(c1).len(), 1);
}

#[test]
fn reverse_requests_coexist_and_share_one_chat() {
    let mut db = Db::init();
    let u3 = user(&mut db, "u3");
    let u4 = user(&mut db, "u4");
    assert!(request(&mut db, u3, u4).is_ok());
    assert!(request(&mut db, u4, u3).is_ok());
    assert!(db.find_friend_request(u3, u4).is_some());
    assert!(db.find_friend_request(u4, u3).is_some());
    let first = db.handle_friend_request(u4, u3, RequestAction::Accept, 40).unwrap();
    let second = db.handle_friend_request(u3, u4, RequestAction::Accept, 50).unwrap();
    match (first, second) {
        (
            Resolution::Accepted { friendship: f1, chat: c1 },
            Resolution::Accepted { friendship: f2, chat: c2 },
        ) => {
            assert_eq!(c1, c2);
            assert_eq!(f1, f2);
        }
        other => panic!("unexpected resolutions {:?}", other),
    }
    assert_eq!(db.get_chats(u3).len(), 1);
    assert_eq!(db.get_chats(u4).len(), 1);
    assert!(db.find_friend_request(u3, u4).is_none());
    assert!(db.find_friend_request(u4, u3).is_none());
}

#[test]
fn accepting_creates_one_friendship_and_one_chat_and_removes_the_request() {
    let mut db = Db::init();
    let a = user(&mut db, "a");
    let b = user(&mut db, "b");
    request(&mut db, a, b).unwrap();
    assert_eq!(db.fetch_user_friend_request(b).len(), 1);
    let r = db.handle_friend_request(b, a, RequestAction::Accept, 60).unwrap();
    let (friendship, chat) = match r {
        Resolution::Accepted { friendship, chat } => (friendship, chat),
        Resolution::Rejected => panic!("rejected"),
    };
    assert_eq!(db.friendship_for(b, a).unwrap().id, friendship);
    let c = db.chat_for_pair(a, b).unwrap();
    assert_eq!(c.id, chat);
    assert_eq!(c.created_at, 60);
    assert_eq!(db.get_chats(a).len(), 1);
    assert!(db.find_friend_request(a, b).is_none());
    assert!(db.fetch_user_friend_request(b).is_empty());
}

#[test]
fn rejecting_removes_the_request_and_creates_nothing() {
    let mut db = Db::init();
    let a = user(&mut db, "a");
    let b = user(&mut db, "b");
    request(&mut db, a, b).unwrap();
    assert_eq!(db.handle_friend_request(b, a, RequestAction::Reject, 60), Ok(Resolution::Rejected));
    assert!(db.find_friend_request(a, b).is_none());
    assert!(db.friendship_for(a, b).is_none());
    assert!(db.chat_for_pair(a, b).is_none());
}

#[test]
fn answering_uses_the_submitted_order() {
    let mut db = Db::init();
    let a = user(&mut db, "a");
    let b = user(&mut db, "b");
    request(&mut db, a, b).unwrap();
    // the sender cannot answer their own request
    assert_eq!(
        db.handle_friend_request(a, b, RequestAction::Accept, 60),
        Err(ChatError::NotFound)
    );
    assert!(db.find_friend_request(a, b).is_some());
    assert!(db.chat_for_pair(a, b).is_none());
}

#[test]
fn duplicate_and_self_requests_are_refused() {
    let mut db = Db::init();
    let a = user(&mut db, "a");
    let b = user(&mut db, "b");
    request(&mut db, a, b).unwrap();
    assert_eq!(request(&mut db, a, b), Err(ChatError::DuplicateRequest));
    assert_eq!(request(&mut db, a, a), Err(ChatError::InvalidPair));
    assert_eq!(db.fetch_user_friend_request(b).len(), 1);
}

#[test]
fn incoming_requests_come_in_arrival_order() {
    let mut db = Db::init();
    let a = user(&mut db, "a");
    let b = user(&mut db, "b");
    let c = user(&mut db, "c");
    let d = user(&mut db, "d");
    request(&mut db, c, a).unwrap();
    request(&mut db, b, d).unwrap();
    request(&mut db, b, a).unwrap();
    let incoming = db.fetch_user_friend_request(a);
    assert_eq!(incoming.len(), 2);
    assert_eq!(incoming[0].from_id, c);
    assert_eq!(incoming[1].from_id, b);
    assert_eq!(incoming[0].status, RequestStatus::Pending);
    assert!(incoming[0].valid_status());
}

#[test]
fn explicit_chat_creation_refuses_duplicates_and_self_chats() {
    let mut db = Db::init();
    let a = user(&mut db, "a");
    let b = user(&mut db, "b");
    let c = db.create_chat(a, b, 1).unwrap();
    assert_eq!(db.create_chat(b, a, 2), Err(ChatError::Conflict));
    assert_eq!(db.create_chat(a, a, 2), Err(ChatError::InvalidPair));
    assert_eq!(db.find_or_create_chat(b, a, 3), Ok(c));
    assert!(db.chat_exists(c));
    assert!(!db.chat_exists(c + 100));
    assert_eq!(db.get_chats(a)[0].other(a), b);
}

#[test]
fn self_addressed_direct_message_is_dropped() {
    let mut db = Db::init();
    let a = user(&mut db, "a");
    let b = user(&mut db, "b");
    let c = db.create_chat(a, b, 1).unwrap();
    let mut registry: Manager<u8> = Manager::new();
    registry.insert(a, 1);
    let frame = Inbound::Direct { chat_id: c, to_id: a, content: "me".to_string() };
    assert!(matches!(route_frame(&mut db, &registry, a, frame, 9), RouteOutcome::Dropped));
    assert!(db.get_messages_with_chat_id(c).is_empty());
    assert_eq!(db.chat_for_pair(a, b).unwrap().last_activity, 1);
}

#[test]
fn storing_a_self_addressed_message_is_refused() {
    let mut db = Db::init();
    let a = user(&mut db, "a");
    let b = user(&mut db, "b");
    let c = db.create_chat(a, b, 1).unwrap();
    let m = chat_core::models::DirectMessage {
        id: None,
        chat_id: c,
        from_id: a,
        to_id: a,
        content: "x".to_string(),
        created_at: 2,
    };
    assert_eq!(db.add_message_to_db(ChatMessage::Direct(m)), None);
    assert!(db.get_messages_with_chat_id(c).is_empty());
}

#[test]
fn unknown_chat_ends_the_session_and_stores_nothing() {
    let mut db = Db::init();
    let a = user(&mut db, "a");
    let b = user(&mut db, "b");
    let mut registry: Manager<u8> = Manager::new();
    registry.insert(b, 1);
    let frame = Inbound::Direct { chat_id: 999, to_id: b, content: "hi".to_string() };
    assert!(matches!(route_frame(&mut db, &registry, a, frame, 9), RouteOutcome::EndSession));
    assert!(db.get_messages_with_chat_id(999).is_empty());
    let frame = Inbound::Group { group_id: 999, content: "hi".to_string() };
    assert!(matches!(route_frame(&mut db, &registry, a, frame, 9), RouteOutcome::EndSession));
    assert!(db.get_group_messages(999).is_empty());
}

#[test]
fn group_message_is_stored_once_and_fanned_out_to_online_members() {
    let mut db = Db::init();
    let a = user(&mut db, "a");
    let b = user(&mut db, "b");
    let c = user(&mut db, "c");
    let g = db.create_group_chat(a, vec![b, c, b], 3).unwrap();
    let mut registry: Manager<u8> = Manager::new();
    registry.insert(a, 1);
    registry.insert(c, 3);
    let frame = Inbound::Group { group_id: g, content: "all".to_string() };
    match route_frame(&mut db, &registry, b, frame, 7) {
        RouteOutcome::Routed { message: ChatMessage::Group(m), mut recipients, stored } => {
            assert!(stored);
            recipients.sort();
            assert_eq!(recipients, vec![a, c]);
            assert_eq!(m.from_id, b);
            assert_eq!(m.content, "all");
            assert_eq!(m.created_at, 7);
        }
        other => panic!("unexpected outcome {:?}", other),
    }
    let stored = db.get_group_messages(g);
    assert_eq!(stored.len(), 1);
    assert_eq!(stored[0].from_id, b);
}

#[test]
fn group_creation_puts_creator_in_admins_and_members() {
    let mut db = Db::init();
    let a = user(&mut db, "a");
    let b = user(&mut db, "b");
    let g = db.create_group_chat(a, vec![b, b], 3).unwrap();
    let group = db.find_group(g).unwrap();
    assert_eq!(group.admins, vec![a]);
    let mut members = group.members.clone();
    members.sort();
    assert_eq!(members, vec![a, b]);
    assert!(db.group_exists(g));
    assert!(db.check_admin(a, g));
    assert!(!db.check_admin(b, g));
}

#[test]
fn non_admin_cannot_change_members() {
    let mut db = Db::init();
    let a = user(&mut db, "a");
    let b = user(&mut db, "b");
    let c = user(&mut db, "c");
    let g = db.create_group_chat(a, vec![b], 3).unwrap();
    assert_eq!(
        db.add_or_remove_members(b, g, vec![c], MemberAction::Add),
        Err(ChatError::NotAuthorized)
    );
    assert_eq!(
        db.add_or_remove_members(b, g, vec![a], MemberAction::Remove),
        Err(ChatError::NotAuthorized)
    );
    let mut members = db.find_group(g).unwrap().members.clone();
    members.sort();
    assert_eq!(members, vec![a, b]);
    assert_eq!(
        db.add_or_remove_members(a, g + 100, vec![c], MemberAction::Add),
        Err(ChatError::NotFound)
    );
}

#[test]
fn admin_adds_and_removes_members_as_sets() {
    let mut db = Db::init();
    let a = user(&mut db, "a");
    let b = user(&mut db, "b");
    let c = user(&mut db, "c");
    let d = user(&mut db, "d");
    let g = db.create_group_chat(a, vec![b], 3).unwrap();
    assert_eq!(db.add_or_remove_members(a, g, vec![c, b, c], MemberAction::Add), Ok(()));
    let mut members = db.find_group(g).unwrap().members.clone();
    members.sort();
    assert_eq!(members, vec![a, b, c]);
    assert_eq!(db.add_or_remove_members(a, g, vec![b, d], MemberAction::Remove), Ok(()));
    let mut members = db.find_group(g).unwrap().members.clone();
    members.sort();
    assert_eq!(members, vec![a, c]);
    assert_eq!(db.find_group(g).unwrap().admins, vec![a]);
}

#[test]
fn handles_and_emails_are_unique() {
    let mut db = Db::init();
    let a = user(&mut db, "a");
    let same_handle = User::new("x".to_string(), "a".to_string(), "x@x.com".to_string(), "p".to_string());
    assert_eq!(db.create_user(same_handle, 2), Err(ChatError::UsernameTaken));
    let same_email =
        User::new("x".to_string(), "x".to_string(), "a@example.com".to_string(), "p".to_string());
    assert_eq!(db.create_user(same_email, 2), Err(ChatError::EmailTaken));
    let found = db.find_user_with_id(a).unwrap();
    assert_eq!(found.username, "a");
    assert_eq!(found.created_at, 1);
    assert!(!found.verified);
    assert!(db.find_user_with_id(a + 100).is_none());
}

#[test]
fn last_login_is_recorded_by_email() {
    let mut db = Db::init();
    let a = user(&mut db, "a");
    let email = "a@example.com".to_string();
    assert_eq!(db.update_last_login(&email, 77), Ok(()));
    assert_eq!(db.find_user_with_email(&email).unwrap().last_login, Some(77));
    assert_eq!(db.find_user_with_email(&email).unwrap().id, a);
    assert_eq!(
        db.update_last_login(&"nobody@example.com".to_string(), 77),
        Err(ChatError::NotFound)
    );
}

#[test]
fn hide_pass_blanks_the_credential() {
    let mut u = User::new("n".to_string(), "h".to_string(), "e".to_string(), "secret".to_string());
    let shown = u.hide_pass();
    assert_eq!(shown.password, "");
    assert_eq!(u.password, "");
    assert_eq!(shown.username, "h");
}

#[test]
fn registry_keeps_the_last_registration() {
    let mut registry: Manager<&str> = Manager::new();
    assert!(registry.find(&1).is_none());
    registry.insert(1, "first");
    registry.insert(1, "second");
    assert_eq!(registry.find(&1), Some(&"second"));
    assert!(registry.is_online(1));
    registry.remove(1);
    registry.remove(1);
    assert!(registry.find(&1).is_none());
    assert!(!registry.is_online(1));
}

#[test]
fn frames_are_stamped_with_the_clock() {
    let mut db = Db::init();
    let a = user(&mut db, "a");
    let b = user(&mut db, "b");
    let c = db.create_chat(a, b, 1).unwrap();
    let registry: Manager<u8> = Manager::new();
    let frame = Inbound::Direct { chat_id: c, to_id: b, content: "now".to_string() };
    match handle_frame(&mut db, &registry, a, frame) {
        RouteOutcome::Routed { message: ChatMessage::Direct(m), stored, .. } => {
            assert!(stored);
            // after 2020-01-01
            assert!(m.created_at > 1_577_836_800_000);
        }
        other => panic!("unexpected outcome {:?}", other),
    }
}

#[test]
fn ids_are_read_in_decimal() {
    assert_eq!(parse_id("0"), Some(0));
    assert_eq!(parse_id("42"), Some(42));
    assert_eq!(parse_id("18446744073709551615"), Some(u64::MAX));
    assert_eq!(parse_id("18446744073709551616"), None);
    assert_eq!(parse_id(""), None);
    assert_eq!(parse_id("4a"), None);
    assert_eq!(parse_id("-1"), None);
}

#[test]
fn errors_report_text_and_place() {
    let e = MyError::from_error(ChatError::NotAuthorized, "groups");
    assert_eq!(e.error(), "only admin are allowed to add or remove members");
    assert_eq!(e.location(), "groups");
    assert_eq!(e.display(), "[error : only admin are allowed to add or remove members , location: groups]");
    assert_eq!(e.into_error(), "only admin are allowed to add or remove members");
    let e = MyError::new("Chat already exists", "db : create chat function");
    assert_eq!(e.error(), "Chat already exists");
    assert_eq!(e.display(), "[error : Chat already exists , location: db : create chat function]");
    assert_eq!(ChatError::DuplicateRequest.message(), "request already exists cannot make a duplicate");
    assert_eq!(ChatError::Conflict.message(), "Chat already exists");
}

#[test]
fn answer_bodies_name_the_sender() {
    let a = FriendRequest::Accept { from_id: 4 };
    let r = FriendRequest::Reject { from_id: 5 };
    assert_eq!(a.from_id(), 4);
    assert_eq!(r.from_id(), 5);
    assert!(a.accepts());
    assert!(!r.accepts());
    let q = ChatRequest { second: 3 };
    assert_eq!(q.second, 3);
}

#[test]
fn search_ignores_case_and_leaves_out_the_searcher() {
    let mut db = Db::init();
    let alice = user(&mut db, "Alice");
    let malik = user(&mut db, "malik");
    let bob = user(&mut db, "bob");
    assert_eq!(db.find_users_with_substring("ALI", bob), vec![alice, malik]);
    assert_eq!(db.find_users_with_substring("ali", alice), vec![malik]);
    assert_eq!(db.find_users_with_substring("zed", bob), Vec::<RecordId>::new());
}

#[test]
fn search_finds_at_most_five() {
    let mut db = Db::init();
    let mut ids = Vec::new();
    for h in ["sam1", "sam2", "sam3", "sam4", "sam5", "sam6"] {
        ids.push(user(&mut db, h));
    }
    let other = user(&mut db, "other");
    assert_eq!(db.find_users_with_substring("SAM", other), ids[..5].to_vec());
    assert_eq!(db.find_users_with_substring("sam", ids[0]), ids[1..5].to_vec());
}

#[test]
fn folded_matching_is_plain_substring_search() {
    assert!(contains_folded("", "abc"));
    assert!(contains_folded("bc", "abc"));
    assert!(!contains_folded("abcd", "abc"));
    assert!(!contains_folded("B", "abc"));
    assert!(matches_handle("B", "aBc"));
    assert!(matches_handle("ÉT", "été"));
}

#[test]
fn conversations_name_the_other_party() {
    let mut db = Db::init();
    let a = user(&mut db, "ann");
    let b = user(&mut db, "ben");
    let c = db.create_chat(a, b, 4).unwrap();
    db.create_chat(a, 999, 5).unwrap();
    let seen = db.get_conversations(a);
    assert_eq!(seen.len(), 2);
    assert_eq!(seen[0].id, c);
    assert_eq!(seen[0].sender, a);
    let other = seen[0].receiver.as_ref().unwrap();
    assert_eq!(other.id, b);
    assert_eq!(other.username, "ben");
    assert!(seen[1].receiver.is_none());
    let from_b = db.get_conversations(b);
    assert_eq!(from_b.len(), 1);
    assert_eq!(from_b[0].receiver.as_ref().unwrap().id, a);
}
