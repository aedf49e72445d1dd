//! What each endpoint answers, decided from the request and the state of
//! the store. Handlers read the store, call these, and write back.

use vstd::prelude::*;

pub mod email;
pub mod ticket;

verus! {

/// What an answer carries.
#[derive(Debug)]
pub enum Body<T> {
    /// Nothing
    Empty,
    /// A sentence, sent as a JSON string
    Message(String),
    /// A value, sent as JSON
    Json(T),
}

/// An answer: an HTTP status and what goes with it.
#[derive(Debug)]
pub struct Reply<T> {
    pub status: u16,
    pub body: Body<T>,
}

/// The request was carried out.
pub const OK: u16 = 200;

/// The request was carried out and made something new.
pub const CREATED: u16 = 201;

/// The request was carried out and there is nothing to say.
pub const NO_CONTENT: u16 = 204;

/// The request cannot be carried out as it stands.
pub const BAD_REQUEST: u16 = 400;

/// What the request names is not there.
pub const NOT_FOUND: u16 = 404;

/// The request failed on the server's side.
pub const INTERNAL_SERVER_ERROR: u16 = 500;

impl<T> Reply<T> {
    /// Whether the answer has the status `status` and says `text`.
    pub open spec fn says(&self, status: u16, text: Seq<char>) -> bool {
        self.status == status && (self.body matches Body::Message(m) && m@ == text)
    }

    /// Whether the answer has the status `status` and carries nothing.
    pub open spec fn bare(&self, status: u16) -> bool {
        self.status == status && self.body is Empty
    }

    /// An answer that says `text`.
    pub fn message(status: u16, text: String) -> (r: Reply<T>)
        ensures
            r.says(status, text@),
    {
        Reply { status, body: Body::Message(text) }
    }

    /// An answer that carries nothing.
    pub fn empty(status: u16) -> (r: Reply<T>)
        ensures
            r.bare(status),
    {
        Reply { status, body: Body::Empty }
    }

    /// An answer that carries `value`.
    pub fn json(status: u16, value: T) -> (r: Reply<T>)
        ensures
            r.status == status,
            r.body == Body::Json(value),
    {
        Reply { status, body: Body::Json(value) }
    }
}

} // verus!
