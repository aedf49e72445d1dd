//! What the ticket endpoints take and give.

use vstd::prelude::*;
use crate::models::score::{unit_numeral, Confidence};
use crate::models::ticket::{is_validation, TicketError, TicketType};

verus! {

/// A request to link a message to a ticket.
#[derive(Debug)]
pub struct AddEmailRequest {
    pub email_id: u128,
}

/// The answer to the creation of a ticket: the ticket, the messages that
/// were linked to it, and those that were not, each with the reason.
#[derive(Debug)]
pub struct CreateTicketResponse {
    pub ticket_id: u128,
    pub linked_emails: Vec<u128>,
    pub failed_emails: Vec<(u128, String)>,
}

/// The answer to the creation of a ticket as a value.
pub struct CreateTicketResponseView {
    pub ticket_id: u128,
    pub linked_emails: Seq<u128>,
    pub failed_emails: Seq<(u128, Seq<char>)>,
}

impl View for CreateTicketResponse {
    type V = CreateTicketResponseView;

    open spec fn view(&self) -> CreateTicketResponseView {
        CreateTicketResponseView {
            ticket_id: self.ticket_id,
            linked_emails: self.linked_emails@,
            failed_emails: self.failed_emails@.map_values(|f: (u128, String)| (f.0, f.1@)),
        }
    }
}

/// A request for a new ticket.
#[derive(Debug)]
pub struct CreateTicketRequest {
    /// The messages that the ticket comes from
    pub email_ids: Vec<u128>,
    pub subject: String,
    pub description: String,
    /// `Other` where nothing is said
    pub ticket_type: Option<TicketType>,
    pub confidence_score: Option<Confidence>,
    pub identified_threats: Option<Vec<String>>,
    pub extracted_indicators: Option<Vec<String>>,
    pub analysis_summary: Option<String>,
}

/// What is wrong with a request, in words; `None` where nothing is. The
/// first of these that holds: the subject is empty, the description is
/// empty, the confidence is no number between 0 and 1. A request may name
/// no message: the ticket then stands alone.
pub open spec fn request_fault(
    subject: Seq<char>,
    description: Seq<char>,
    confidence: Option<Seq<char>>,
) -> Option<Seq<char>> {
    if subject.len() == 0 {
        Some("Subject cannot be empty"@)
    } else if description.len() == 0 {
        Some("Description cannot be empty"@)
    } else if confidence matches Some(c) && !unit_numeral(c) {
        Some("Confidence score must be between 0 and 1"@)
    } else {
        None
    }
}

impl CreateTicketRequest {
    /// What is wrong with the request, if anything.
    pub open spec fn fault(&self) -> Option<Seq<char>> {
        request_fault(
            self.subject@,
            self.description@,
            crate::models::ticket::opt_score(self.confidence_score),
        )
    }

    /// Checks the request: subject and description not empty, confidence
    /// between 0 and 1 where there is one. The error says what is wrong
    /// first.
    pub fn validate(&self) -> (r: Result<(), TicketError>)
        ensures
            r is Ok <==> self.fault() is None,
            r matches Err(e) ==> self.fault() matches Some(m) && is_validation(e, m),
    {
        if self.subject.as_str().is_empty() {
            return Err(TicketError::Validation("Subject cannot be empty".to_owned()));
        }
        if self.description.as_str().is_empty() {
            return Err(TicketError::Validation("Description cannot be empty".to_owned()));
        }
        if let Some(score) = &self.confidence_score {
            if !score.is_valid() {
                return Err(
                    TicketError::Validation("Confidence score must be between 0 and 1".to_owned()),
                );
            }
        }
        Ok(())
    }
}

} // verus!
