//! The entries of the activity record.

use vstd::prelude::*;

verus! {

/// One entry: which user did what on which route, and when.
#[derive(Debug)]
pub struct UserLog {
    pub uuid: u128,
    pub user_uuid: u128,
    pub action: String,
    pub route: String,
    /// Microseconds since the epoch
    pub timestamp: i64,
}

/// An entry as a value.
pub struct UserLogView {
    pub uuid: u128,
    pub user_uuid: u128,
    pub action: Seq<char>,
    pub route: Seq<char>,
    pub timestamp: i64,
}

impl View for UserLog {
    type V = UserLogView;

    open spec fn view(&self) -> UserLogView {
        UserLogView {
            uuid: self.uuid,
            user_uuid: self.user_uuid,
            action: self.action@,
            route: self.route@,
            timestamp: self.timestamp,
        }
    }
}

} // verus!
