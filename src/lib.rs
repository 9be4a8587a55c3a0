//! The messaging and social-graph core of a chat service: the store of its
//! records, the registry of live connections, the routing of real-time
//! frames, and the friendship and group rules, each with a verified contract.

pub mod db;
pub mod ids;
pub mod laws;
pub mod models;
pub mod registry;
pub mod router;
pub mod search;

pub use db::{Db, MemberAction, RequestAction, Resolution};
pub use registry::Manager;
pub use router::{handle_frame, route_frame, RouteOutcome};
