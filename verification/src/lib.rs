//! A registry that binds each role of a closed catalog to at most one account,
//! kept in a key-value store together with a reverse index from accounts to
//! the roles they hold, and the checks that gate access on it.

pub mod error;
pub mod laws;
pub mod provider;
pub mod role;
pub mod store;

pub use error::RolesError;
pub use provider::RoleProvider;
pub use role::Role;
