//! What stands in front of the handlers: the check of credentials and
//! roles, and the record of who did what.

pub mod auth;
pub mod logger;
