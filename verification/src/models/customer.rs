//! Looking customers up.

use vstd::prelude::*;

verus! {

/// What a customer is looked up by: any of the three may be given.
#[derive(Debug)]
pub struct LookUpForm {
    pub email: Option<String>,
    pub ip: Option<String>,
    pub uuid: Option<u128>,
}

/// The one thing that a lookup goes by.
#[derive(Debug)]
pub enum LookupKey {
    Email(String),
    Ip(String),
    Uuid(u128),
}

/// A lookup key as a value.
pub enum LookupKeyView {
    Email(Seq<char>),
    Ip(Seq<char>),
    Uuid(u128),
}

impl View for LookupKey {
    type V = LookupKeyView;

    open spec fn view(&self) -> LookupKeyView {
        match self {
            LookupKey::Email(e) => LookupKeyView::Email(e@),
            LookupKey::Ip(i) => LookupKeyView::Ip(i@),
            LookupKey::Uuid(u) => LookupKeyView::Uuid(*u),
        }
    }
}

impl LookUpForm {
    /// What the lookup goes by: the email address where one is given,
    /// else the IP address, else the identifier; nothing where the form is
    /// empty.
    pub open spec fn chosen(&self) -> Option<LookupKeyView> {
        match (self.email, self.ip, self.uuid) {
            (Some(e), _, _) => Some(LookupKeyView::Email(e@)),
            (None, Some(i), _) => Some(LookupKeyView::Ip(i@)),
            (None, None, Some(u)) => Some(LookupKeyView::Uuid(u)),
            (None, None, None) => None,
        }
    }

    /// What the lookup goes by.
    pub fn key(&self) -> (r: Option<LookupKey>)
        ensures
            (match r {
                Some(k) => Some(k@),
                None => None,
            }) == self.chosen(),
    {
        if let Some(email) = &self.email {
            Some(LookupKey::Email(email.clone()))
        } else if let Some(ip) = &self.ip {
            Some(LookupKey::Ip(ip.clone()))
        } else if let Some(uuid) = self.uuid {
            Some(LookupKey::Uuid(uuid))
        } else {
            None
        }
    }
}

} // verus!
