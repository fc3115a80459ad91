//! An in-memory user store: a keyed repository of user records and a
//! service that creates users with count-based identifiers.

pub mod repository;
pub mod service;
pub mod user;

pub use repository::{Repository, UserRepository, ASYNC_LOOKUP_DELAY_MILLIS};
pub use service::UserService;
pub use user::{User, UserRole};
