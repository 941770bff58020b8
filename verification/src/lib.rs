//! An in-memory lock registry and user directory with machine-checked contracts.
//!
//! The crate holds the state and decisions of a small HTTP service: named locks
//! that carry an opaque token, and a directory of users keyed by id. Every
//! operation is a plain function on plain values; the transport that serves it
//! lives outside the crate.

pub mod error;
pub mod lock;
pub mod locks;
pub mod registry;
pub mod state;
pub mod status;
pub mod user;

pub use error::Error;
pub use lock::Lock;
pub use registry::Registry;
pub use state::{create_user, delete_user, get_user, get_users, State};
pub use user::User;
