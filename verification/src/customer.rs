//! Looking customers up by their address.

use vstd::prelude::*;

verus! {

/// The form of a lookup by email address.
#[derive(Debug)]
pub struct EmailForm {
    pub email: String,
}

} // verus!
