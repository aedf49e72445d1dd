//! The data model: messages, tickets, requests, and the search projection.

pub mod auth;
pub mod customer;
pub mod email;
pub mod es;
pub mod requests;
pub mod score;
pub mod ticket;
pub mod user;
pub mod user_log;
