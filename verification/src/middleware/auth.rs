//! The guard in front of protected routes.

use std::rc::Rc;
use vstd::prelude::*;
use crate::auth::{admission, check_auth, is_authorized, role_grants, AuthError, TokenFailure};
use crate::models::auth::{Claims, ClaimsView};

verus! {

/// The settings of the guard: which role, if any, a request must show.
pub struct Auth {
    role: Option<String>,
}

impl Auth {
    /// The role that a request must show, if any.
    pub closed spec fn required(&self) -> Option<Seq<char>> {
        crate::text::opt_text(self.role)
    }

    /// A guard that asks for valid credentials and no particular role.
    pub fn new() -> (r: Auth)
        ensures
            r.required() is None,
    {
        Auth { role: None }
    }

    /// The guard, asking for the role `role` from now on.
    pub fn role(self, role: &str) -> (r: Auth)
        ensures
            r.required() == Some(role@),
    {
        let mut r = self;
        r.role = Some(role.to_owned());
        r
    }

    /// The guard around `service`.
    pub fn wrap<S>(&self, service: S) -> (r: AuthMiddleware<S>)
        ensures
            r.required() == self.required(),
            r.inner() == service,
    {
        AuthMiddleware { service: Rc::new(service), role: crate::text::clone_opt_string(&self.role) }
    }
}

/// The guard around a service: it lets a request through to the service
/// only with the claims that the request is entitled to.
pub struct AuthMiddleware<S> {
    service: Rc<S>,
    role: Option<String>,
}

/// What the guard comes to: the claims to pass on with the request, or
/// the reason to turn it away, with whether that is for want of a role.
pub open spec fn verdict(
    required: Option<Seq<char>>,
    header: Option<Seq<char>>,
    revoked: bool,
    checked: Result<ClaimsView, TokenFailure>,
) -> Result<ClaimsView, (bool, Seq<char>)> {
    match admission(header, revoked, checked) {
        Err(m) => Err((false, m)),
        Ok(c) => match required {
            Some(role) if !role_grants(c.role, role) => Err((true, "Insufficient permissions"@)),
            _ => Ok(c),
        },
    }
}

impl<S> AuthMiddleware<S> {
    /// The role that a request must show, if any.
    pub closed spec fn required(&self) -> Option<Seq<char>> {
        crate::text::opt_text(self.role)
    }

    /// The service behind the guard.
    pub closed spec fn inner(&self) -> S {
        *self.service
    }

    /// The service behind the guard.
    pub fn service(&self) -> (r: &Rc<S>)
        ensures
            **r == self.inner(),
    {
        &self.service
    }

    /// Decides on a request from what was found: its `Authorization`
    /// header, whether its token is revoked, and what the check of the
    /// token gave. A request without valid credentials is unauthorized; one
    /// with valid credentials and not the role asked for is forbidden.
    pub fn decide(
        &self,
        header: Option<&str>,
        revoked: bool,
        checked: Result<Claims, TokenFailure>,
    ) -> (r: Result<Claims, AuthError>)
        ensures
            (match r {
                Ok(c) => Ok(c@),
                Err(AuthError::Unauthorized(m)) => Err((false, m@)),
                Err(AuthError::Forbidden(m)) => Err((true, m@)),
                Err(AuthError::Internal(m)) => Err((false, Seq::empty())),
            }) == verdict(
                self.required(),
                match header {
                    Some(h) => Some(h@),
                    None => None,
                },
                revoked,
                match checked {
                    Ok(c) => Ok(c@),
                    Err(f) => Err(f),
                },
            ),
            !(r matches Err(AuthError::Internal(_))),
    {
        let claims = check_auth(header, revoked, checked)?;
        if let Some(required_role) = &self.role {
            if !is_authorized(&claims, required_role.as_str()) {
                return Err(AuthError::Forbidden("Insufficient permissions".to_owned()));
            }
        }
        Ok(claims)
    }
}

} // verus!
