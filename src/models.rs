use vstd::prelude::*;
use vstd::string::StringExecFns;

verus! {

/// Identifier of a stored record. The store hands them out in increasing order.
pub type RecordId = u64;

/// Whether `{a, b}` and `{c, d}` are the same unordered pair.
pub open spec fn same_pair(a: RecordId, b: RecordId, c: RecordId, d: RecordId) -> bool {
    (a == c && b == d) || (a == d && b == c)
}

/// A registered account.
#[derive(Debug)]
pub struct User {
    pub id: RecordId,
    pub name: String,
    pub username: String,
    pub email: String,
    /// The credential as the authentication layer protected it.
    pub password: String,
    pub verified: bool,
    pub created_at: i64,
    pub updated_at: Option<i64>,
    pub last_login: Option<i64>,
}

impl User {
    /// A new, unverified account that has not been stored yet. `password` is
    /// the credential as the authentication layer protected it.
    pub fn new(name: String, username: String, email: String, password: String) -> (r: User)
        ensures
            r.name == name,
            r.username == username,
            r.email == email,
            r.password == password,
            !r.verified,
            r.updated_at.is_none(),
            r.last_login.is_none(),
    {
        User {
            id: 0,
            name,
            username,
            email,
            password,
            verified: false,
            created_at: 0,
            updated_at: None,
            last_login: None,
        }
    }

    /// Blanks the stored credential and returns a copy of the account, fit to
    /// be shown.
    pub fn hide_pass(&mut self) -> (r: User)
        ensures
            final(self).password@ == Seq::<char>::empty(),
            final(self).same_public_fields(old(self)),
            r.password@ == Seq::<char>::empty(),
            r.same_public_fields(old(self)),
    {
        self.password = String::new();
        User {
            id: self.id,
            name: self.name.clone(),
            username: self.username.clone(),
            email: self.email.clone(),
            password: String::new(),
            verified: self.verified,
            created_at: self.created_at,
            updated_at: self.updated_at,
            last_login: self.last_login,
        }
    }

    /// Every field but the credential agrees.
    pub open spec fn same_public_fields(&self, o: &User) -> bool {
        &&& self.id == o.id
        &&& self.name == o.name
        &&& self.username == o.username
        &&& self.email == o.email
        &&& self.verified == o.verified
        &&& self.created_at == o.created_at
        &&& self.updated_at == o.updated_at
        &&& self.last_login == o.last_login
    }
}

/// A confirmed friendship between two users.
#[derive(Clone, Copy, Debug, PartialEq, Eq, Structural)]
pub struct Friend {
    pub id: RecordId,
    pub first: RecordId,
    pub second: RecordId,
    pub created_at: i64,
}

impl Friend {
    pub open spec fn joins(self, a: RecordId, b: RecordId) -> bool {
        same_pair(self.first, self.second, a, b)
    }
}

/// A direct conversation between two distinct users.
#[derive(Clone, Copy, Debug, PartialEq, Eq, Structural)]
pub struct Chat {
    pub id: RecordId,
    pub first: RecordId,
    pub second: RecordId,
    /// The most recent message stored in the chat, if any.
    pub last_message: Option<RecordId>,
    /// When the chat was created or last received a message.
    pub last_activity: i64,
    pub created_at: i64,
}

impl Chat {
    /// The other party of the chat, seen from `user`.
    pub open spec fn counterpart(self, user: RecordId) -> RecordId {
        if user == self.first {
            self.second
        } else {
            self.first
        }
    }

    /// The other party of the chat, seen from `user`.
    pub fn other(&self, user: RecordId) -> (r: RecordId)
        ensures
            r == self.counterpart(user),
    {
        if user == self.first {
            self.second
        } else {
            self.first
        }
    }

    pub open spec fn joins(self, a: RecordId, b: RecordId) -> bool {
        same_pair(self.first, self.second, a, b)
    }

    pub open spec fn has_member(self, u: RecordId) -> bool {
        self.first == u || self.second == u
    }
}

/// What a user's list of chats shows of the other party.
#[derive(Debug)]
pub struct TempUser {
    pub id: RecordId,
    pub name: String,
    pub username: String,
}

/// A chat as its member `sender` sees it.
#[derive(Debug)]
pub struct Conversation {
    pub id: RecordId,
    pub sender: RecordId,
    /// The other party, when their account exists.
    pub receiver: Option<TempUser>,
    pub last_message: Option<RecordId>,
    pub last_activity: i64,
}

/// A multi-party conversation whose membership only its admins may change.
#[derive(Debug)]
pub struct Group {
    pub id: RecordId,
    pub admins: Vec<RecordId>,
    pub members: Vec<RecordId>,
    pub created_at: i64,
}

impl Group {
    pub open spec fn admin_set(&self) -> Set<RecordId> {
        self.admins@.to_set()
    }

    pub open spec fn member_set(&self) -> Set<RecordId> {
        self.members@.to_set()
    }
}

/// A message of a direct conversation.
#[derive(Debug)]
pub struct DirectMessage {
    /// Set once the message is stored.
    pub id: Option<RecordId>,
    pub chat_id: RecordId,
    pub from_id: RecordId,
    pub to_id: RecordId,
    pub content: String,
    pub created_at: i64,
}

impl DirectMessage {
    /// A field-for-field copy.
    pub fn duplicate(&self) -> (r: DirectMessage)
        ensures
            r == *self,
    {
        DirectMessage {
            id: self.id,
            chat_id: self.chat_id,
            from_id: self.from_id,
            to_id: self.to_id,
            content: self.content.clone(),
            created_at: self.created_at,
        }
    }
}

/// A message of a group conversation.
#[derive(Debug)]
pub struct GroupMessage {
    /// Set once the message is stored.
    pub id: Option<RecordId>,
    pub group_id: RecordId,
    pub from_id: RecordId,
    pub content: String,
    pub created_at: i64,
}

impl GroupMessage {
    /// A field-for-field copy.
    pub fn duplicate(&self) -> (r: GroupMessage)
        ensures
            r == *self,
    {
        GroupMessage {
            id: self.id,
            group_id: self.group_id,
            from_id: self.from_id,
            content: self.content.clone(),
            created_at: self.created_at,
        }
    }
}

/// A stored or delivered message, of either kind.
#[derive(Debug)]
pub enum ChatMessage {
    Direct(DirectMessage),
    Group(GroupMessage),
}

/// Where a friend request stands.
#[derive(Clone, Copy, Debug, PartialEq, Eq, Structural)]
pub enum RequestStatus {
    Pending,
    Resolved,
}

/// A directional proposal of friendship, from `from_id` to `to_id`.
#[derive(Clone, Copy, Debug, PartialEq, Eq, Structural)]
pub struct Requests {
    pub id: RecordId,
    pub from_id: RecordId,
    pub to_id: RecordId,
    pub status: RequestStatus,
    pub created_at: i64,
}

impl Requests {
    /// A pending request from `from_id` to the user that `f` names.
    pub fn new_from_friend_req(f: FriendReq, from_id: RecordId) -> (r: Requests)
        ensures
            r.from_id == from_id,
            r.to_id == f.to_id,
            r.status == RequestStatus::Pending,
    {
        Requests { id: 0, from_id, to_id: f.to_id, status: RequestStatus::Pending, created_at: 0 }
    }

    /// Whether the request still waits for an answer.
    pub fn valid_status(&self) -> (r: bool)
        ensures
            r == (self.status == RequestStatus::Pending),
    {
        self.status == RequestStatus::Pending
    }
}

/// Credentials of a login attempt.
#[derive(Debug)]
pub struct LoginUser {
    pub email: String,
    pub password: String,
}

/// What a session token asserts: whose it is and until when it holds.
#[derive(Debug)]
pub struct Claims {
    pub sub: String,
    pub exp: usize,
}

/// The body of a request for friendship: whom it is for.
#[derive(Clone, Copy, Debug, PartialEq, Eq, Structural)]
pub struct FriendReq {
    pub to_id: RecordId,
}

/// The answer of a user to a request that was addressed to them.
#[derive(Clone, Copy, Debug, PartialEq, Eq, Structural)]
pub enum FriendRequest {
    Accept { from_id: RecordId },
    Reject { from_id: RecordId },
}

impl FriendRequest {
    /// The user who sent the request being answered.
    pub fn from_id(&self) -> (r: RecordId)
        ensures
            r == match *self {
                FriendRequest::Accept { from_id } => from_id,
                FriendRequest::Reject { from_id } => from_id,
            },
    {
        match *self {
            FriendRequest::Accept { from_id } => from_id,
            FriendRequest::Reject { from_id } => from_id,
        }
    }

    /// Whether the answer accepts the request.
    pub fn accepts(&self) -> (r: bool)
        ensures
            r == (*self is Accept),
    {
        match *self {
            FriendRequest::Accept { .. } => true,
            FriendRequest::Reject { .. } => false,
        }
    }
}

/// The body of a group creation: the members besides the creator.
#[derive(Debug)]
pub struct Members {
    pub members: Vec<RecordId>,
}

/// The body of a chat creation: the other party.
#[derive(Clone, Copy, Debug, PartialEq, Eq, Structural)]
pub struct ChatRequest {
    pub second: RecordId,
}

/// An inbound real-time frame. The sender is never part of it: it is the
/// authenticated user of the session that the frame came in on.
#[derive(Debug)]
pub enum Inbound {
    Direct { chat_id: RecordId, to_id: RecordId, content: String },
    Group { group_id: RecordId, content: String },
}

/// Why an operation was refused.
#[derive(Clone, Copy, Debug, PartialEq, Eq, Structural)]
pub enum ChatError {
    /// A request already exists for this ordered pair.
    DuplicateRequest,
    /// The record that the operation is about does not exist.
    NotFound,
    /// The request was already answered.
    InvalidStatus,
    /// Only an admin of the group may change its members.
    NotAuthorized,
    /// The record to create already exists.
    Conflict,
    /// The two users of a pair are the same user.
    InvalidPair,
    /// Another account has this handle.
    UsernameTaken,
    /// Another account has this email.
    EmailTaken,
    /// The store cannot take another record.
    StoreUnavailable,
}

impl ChatError {
    pub open spec fn text(self) -> Seq<char> {
        match self {
            ChatError::DuplicateRequest => "request already exists cannot make a duplicate"@,
            ChatError::NotFound => "not found"@,
            ChatError::InvalidStatus => "inavlid request status"@,
            ChatError::NotAuthorized => "only admin are allowed to add or remove members"@,
            ChatError::Conflict => "Chat already exists"@,
            ChatError::InvalidPair => "a pair needs two distinct users"@,
            ChatError::UsernameTaken => "user already exists with this username"@,
            ChatError::EmailTaken => "user already exists with this email"@,
            ChatError::StoreUnavailable => "store unavailable"@,
        }
    }

    /// A short text for the error.
    pub fn message(&self) -> (r: &'static str)
        ensures
            r@ == self.text(),
    {
        match self {
            ChatError::DuplicateRequest => "request already exists cannot make a duplicate",
            ChatError::NotFound => "not found",
            ChatError::InvalidStatus => "inavlid request status",
            ChatError::NotAuthorized => "only admin are allowed to add or remove members",
            ChatError::Conflict => "Chat already exists",
            ChatError::InvalidPair => "a pair needs two distinct users",
            ChatError::UsernameTaken => "user already exists with this username",
            ChatError::EmailTaken => "user already exists with this email",
            ChatError::StoreUnavailable => "store unavailable",
        }
    }
}

/// An error as reported to a client: what went wrong, and where.
#[derive(Debug)]
pub struct MyError {
    error: String,
    location: String,
}

impl MyError {
    pub closed spec fn error_text(&self) -> Seq<char> {
        self.error@
    }

    pub closed spec fn location_text(&self) -> Seq<char> {
        self.location@
    }

    pub fn new(error: &str, location: &str) -> (r: MyError)
        ensures
            r.error_text() == error@,
            r.location_text() == location@,
    {
        MyError { error: error.to_string(), location: location.to_string() }
    }

    pub fn into_error(self) -> (r: String)
        ensures
            r@ == self.error_text(),
    {
        self.error
    }

    pub fn error(&self) -> (r: &str)
        ensures
            r@ == self.error_text(),
    {
        self.error.as_str()
    }

    pub fn location(&self) -> (r: &str)
        ensures
            r@ == self.location_text(),
    {
        self.location.as_str()
    }

    /// The report as shown to a reader: `[error : <error> , location: <location>]`.
    pub fn display(&self) -> (r: String)
        ensures
            r@ == "[error : "@ + self.error_text() + " , location: "@ + self.location_text() + "]"@,
    {
        let mut r = "[error : ".to_string();
        r.append(self.error.as_str());
        r.append(" , location: ");
        r.append(self.location.as_str());
        r.append("]");
        r
    }

    /// The report of `e` at `location`.
    pub fn from_error(e: ChatError, location: &str) -> (r: MyError)
        ensures
            r.error_text() == e.text(),
            r.location_text() == location@,
    {
        MyError::new(e.message(), location)
    }
}

} // verus!
