//! The record of who did what: one entry for each answered request of a
//! signed-in user.

use std::rc::Rc;
use vstd::prelude::*;
use crate::models::auth::Claims;
use crate::models::user_log::{UserLog, UserLogView};

verus! {

/// The settings of the recorder. It has none.
pub struct Logger;

impl Logger {
    /// A recorder.
    pub fn new() -> (r: Logger) {
        Logger
    }

    /// The recorder around `service`.
    pub fn wrap<S>(&self, service: S) -> (r: LoggerMiddleware<S>)
        ensures
            r.inner() == service,
    {
        LoggerMiddleware { service: Rc::new(service) }
    }
}

/// The recorder around a service.
pub struct LoggerMiddleware<S> {
    service: Rc<S>,
}

impl<S> LoggerMiddleware<S> {
    /// The service behind the recorder.
    pub closed spec fn inner(&self) -> S {
        *self.service
    }

    /// The service behind the recorder.
    pub fn service(&self) -> (r: &Rc<S>)
        ensures
            **r == self.inner(),
    {
        &self.service
    }

    /// The entry to record for an answered request: the user of the
    /// claims, the answer's status as the action, and the path. No entry
    /// where the request carried no claims.
    pub fn entry(&self, claims: Option<&Claims>, status: &str, path: &str, id: u128, now: i64) -> (r:
        Option<UserLog>)
        ensures
            r is Some <==> claims is Some,
            r matches Some(e) ==> e@ == (UserLogView {
                uuid: id,
                user_uuid: claims->Some_0.sub,
                action: status@,
                route: path@,
                timestamp: now,
            }),
    {
        match claims {
            None => None,
            Some(c) => Some(
                UserLog {
                    uuid: id,
                    user_uuid: c.sub,
                    action: status.to_owned(),
                    route: path.to_owned(),
                    timestamp: now,
                },
            ),
        }
    }
}

} // verus!
