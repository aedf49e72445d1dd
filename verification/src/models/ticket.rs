//! Tickets: the tracked incidents that classification produces.

use vstd::prelude::*;
use crate::clock::now_micros;
use crate::ident::{fresh_id, id_text, id_to_string};
use crate::models::es::{
    after_write, shown_status, sync, Collection, ESError, Filter, IndexWrite, IndexWriteView,
    SearchIndex, SearchIndexView, SearchRequest, SearchRequestView, SearchResult, DEFAULT_FROM,
    DEFAULT_SIZE,
};
use crate::store::{emails_of, Store, StoreError, StoreView, Transaction};
use crate::models::score::{unit_numeral, Confidence};
use crate::text::{clone_ids, clone_opt_string, clone_opt_strings, opt_text, opt_texts, str_eq};

verus! {

/// The closed set of incident categories. `Other` catches every name that is
/// not one of the sixteen known ones.
#[derive(Debug, Clone, Copy, PartialEq, Eq, Structural)]
pub enum TicketType {
    /// Malicious software detection
    Malware,
    /// Social engineering attempts
    Phishing,
    /// Fraudulent activities
    Scam,
    /// Unsolicited bulk messages
    Spam,
    /// Distributed denial of service attacks
    DDoS,
    /// Botnet activity detection
    Botnet,
    /// Information exposure incidents
    DataBreach,
    /// Personal identity compromise
    IdentityTheft,
    /// Encryption-based extortion
    Ransomware,
    /// Online harassment via technology
    CyberStalking,
    /// Violations of intellectual property rights
    IntellectualPropertyTheft,
    /// Digital harassment cases
    Harassment,
    /// System access violations
    UnauthorizedAccess,
    /// Rights infringement
    CopyrightViolation,
    /// Password attack attempts
    BruteForce,
    /// Command and control activity
    C2,
    /// Uncategorized incidents
    Other,
}

impl TicketType {
    /// The name under which the category is stored and exchanged.
    pub open spec fn name(self) -> Seq<char> {
        match self {
            TicketType::Malware => "Malware"@,
            TicketType::Phishing => "Phishing"@,
            TicketType::Scam => "Scam"@,
            TicketType::Spam => "Spam"@,
            TicketType::DDoS => "DDoS"@,
            TicketType::Botnet => "Botnet"@,
            TicketType::DataBreach => "DataBreach"@,
            TicketType::IdentityTheft => "IdentityTheft"@,
            TicketType::Ransomware => "Ransomware"@,
            TicketType::CyberStalking => "CyberStalking"@,
            TicketType::IntellectualPropertyTheft => "IntellectualPropertyTheft"@,
            TicketType::Harassment => "Harassment"@,
            TicketType::UnauthorizedAccess => "UnauthorizedAccess"@,
            TicketType::CopyrightViolation => "CopyrightViolation"@,
            TicketType::BruteForce => "BruteForce"@,
            TicketType::C2 => "C2"@,
            TicketType::Other => "Other"@,
        }
    }

    /// The category that a stored name stands for: total, with `Other` for
    /// every name that is not a known one.
    pub open spec fn parse(s: Seq<char>) -> TicketType {
        if s == "Malware"@ {
            TicketType::Malware
        } else if s == "Phishing"@ {
            TicketType::Phishing
        } else if s == "Scam"@ {
            TicketType::Scam
        } else if s == "Spam"@ {
            TicketType::Spam
        } else if s == "DDoS"@ {
            TicketType::DDoS
        } else if s == "Botnet"@ {
            TicketType::Botnet
        } else if s == "DataBreach"@ {
            TicketType::DataBreach
        } else if s == "IdentityTheft"@ {
            TicketType::IdentityTheft
        } else if s == "Ransomware"@ {
            TicketType::Ransomware
        } else if s == "CyberStalking"@ {
            TicketType::CyberStalking
        } else if s == "IntellectualPropertyTheft"@ {
            TicketType::IntellectualPropertyTheft
        } else if s == "Harassment"@ {
            TicketType::Harassment
        } else if s == "UnauthorizedAccess"@ {
            TicketType::UnauthorizedAccess
        } else if s == "CopyrightViolation"@ {
            TicketType::CopyrightViolation
        } else if s == "BruteForce"@ {
            TicketType::BruteForce
        } else if s == "C2"@ {
            TicketType::C2
        } else {
            TicketType::Other
        }
    }

    /// The category's stored name.
    pub fn to_string(&self) -> (r: String)
        ensures
            r@ == self.name(),
    {
        let s: &str = match self {
            TicketType::Malware => "Malware",
            TicketType::Phishing => "Phishing",
            TicketType::Scam => "Scam",
            TicketType::Spam => "Spam",
            TicketType::DDoS => "DDoS",
            TicketType::Botnet => "Botnet",
            TicketType::DataBreach => "DataBreach",
            TicketType::IdentityTheft => "IdentityTheft",
            TicketType::Ransomware => "Ransomware",
            TicketType::CyberStalking => "CyberStalking",
            TicketType::IntellectualPropertyTheft => "IntellectualPropertyTheft",
            TicketType::Harassment => "Harassment",
            TicketType::UnauthorizedAccess => "UnauthorizedAccess",
            TicketType::CopyrightViolation => "CopyrightViolation",
            TicketType::BruteForce => "BruteForce",
            TicketType::C2 => "C2",
            TicketType::Other => "Other",
        };
        s.to_owned()
    }

    /// The category named by `s`, `Other` where `s` names none.
    pub fn from_name(s: &str) -> (r: TicketType)
        ensures
            r == TicketType::parse(s@),
    {
        if str_eq(s, "Malware") {
            TicketType::Malware
        } else if str_eq(s, "Phishing") {
            TicketType::Phishing
        } else if str_eq(s, "Scam") {
            TicketType::Scam
        } else if str_eq(s, "Spam") {
            TicketType::Spam
        } else if str_eq(s, "DDoS") {
            TicketType::DDoS
        } else if str_eq(s, "Botnet") {
            TicketType::Botnet
        } else if str_eq(s, "DataBreach") {
            TicketType::DataBreach
        } else if str_eq(s, "IdentityTheft") {
            TicketType::IdentityTheft
        } else if str_eq(s, "Ransomware") {
            TicketType::Ransomware
        } else if str_eq(s, "CyberStalking") {
            TicketType::CyberStalking
        } else if str_eq(s, "IntellectualPropertyTheft") {
            TicketType::IntellectualPropertyTheft
        } else if str_eq(s, "Harassment") {
            TicketType::Harassment
        } else if str_eq(s, "UnauthorizedAccess") {
            TicketType::UnauthorizedAccess
        } else if str_eq(s, "CopyrightViolation") {
            TicketType::CopyrightViolation
        } else if str_eq(s, "BruteForce") {
            TicketType::BruteForce
        } else if str_eq(s, "C2") {
            TicketType::C2
        } else {
            TicketType::Other
        }
    }

    /// Every category is found again from its stored name, so no stored name
    /// turns into another category than the one that wrote it.
    pub proof fn lemma_name_round_trip(t: TicketType)
        ensures
            TicketType::parse(t.name()) == t,
    {
        reveal_strlit("Malware");
        reveal_strlit("Phishing");
        reveal_strlit("Scam");
        reveal_strlit("Spam");
        reveal_strlit("DDoS");
        reveal_strlit("Botnet");
        reveal_strlit("DataBreach");
        reveal_strlit("IdentityTheft");
        reveal_strlit("Ransomware");
        reveal_strlit("CyberStalking");
        reveal_strlit("IntellectualPropertyTheft");
        reveal_strlit("Harassment");
        reveal_strlit("UnauthorizedAccess");
        reveal_strlit("CopyrightViolation");
        reveal_strlit("BruteForce");
        reveal_strlit("C2");
        reveal_strlit("Other");
        assert("Malware"@.len() == 7 && "Malware"@[0] == 'M' && "Malware"@[1] == 'a');
        assert("Phishing"@.len() == 8 && "Phishing"@[0] == 'P' && "Phishing"@[1] == 'h');
        assert("Scam"@.len() == 4 && "Scam"@[0] == 'S' && "Scam"@[1] == 'c');
        assert("Spam"@.len() == 4 && "Spam"@[0] == 'S' && "Spam"@[1] == 'p');
        assert("DDoS"@.len() == 4 && "DDoS"@[0] == 'D' && "DDoS"@[1] == 'D');
        assert("Botnet"@.len() == 6 && "Botnet"@[0] == 'B' && "Botnet"@[1] == 'o');
        assert("DataBreach"@.len() == 10 && "DataBreach"@[0] == 'D' && "DataBreach"@[1] == 'a');
        assert("IdentityTheft"@.len() == 13 && "IdentityTheft"@[0] == 'I' && "IdentityTheft"@[1] == 'd');
        assert("Ransomware"@.len() == 10 && "Ransomware"@[0] == 'R' && "Ransomware"@[1] == 'a');
        assert("CyberStalking"@.len() == 13 && "CyberStalking"@[0] == 'C' && "CyberStalking"@[1] == 'y');
        assert("IntellectualPropertyTheft"@.len() == 25 && "IntellectualPropertyTheft"@[0] == 'I' && "IntellectualPropertyTheft"@[1] == 'n');
        assert("Harassment"@.len() == 10 && "Harassment"@[0] == 'H' && "Harassment"@[1] == 'a');
        assert("UnauthorizedAccess"@.len() == 18 && "UnauthorizedAccess"@[0] == 'U' && "UnauthorizedAccess"@[1] == 'n');
        assert("CopyrightViolation"@.len() == 18 && "CopyrightViolation"@[0] == 'C' && "CopyrightViolation"@[1] == 'o');
        assert("BruteForce"@.len() == 10 && "BruteForce"@[0] == 'B' && "BruteForce"@[1] == 'r');
        assert("C2"@.len() == 2 && "C2"@[0] == 'C' && "C2"@[1] == '2');
        assert("Other"@.len() == 5 && "Other"@[0] == 'O' && "Other"@[1] == 't');
    }
}

impl From<String> for TicketType {
    fn from(s: String) -> (r: TicketType) {
        TicketType::from_name(s.as_str())
    }
}

impl vstd::std_specs::convert::FromSpecImpl<String> for TicketType {
    open spec fn obeys_from_spec() -> bool {
        true
    }

    open spec fn from_spec(s: String) -> TicketType {
        TicketType::parse(s@)
    }
}

/// Where a ticket stands in its life: opened, taken up, then closed or
/// resolved.
#[derive(Debug, Clone, Copy, PartialEq, Eq, Structural)]
pub enum TicketStatus {
    /// Initial state, awaiting processing
    Open,
    /// Currently being investigated
    InProgress,
    /// Investigation completed
    Closed,
    /// Issue successfully addressed
    Resolved,
}

impl TicketStatus {
    /// The name under which the status is stored and exchanged.
    pub open spec fn name(self) -> Seq<char> {
        match self {
            TicketStatus::Open => "Open"@,
            TicketStatus::InProgress => "InProgress"@,
            TicketStatus::Closed => "Closed"@,
            TicketStatus::Resolved => "Resolved"@,
        }
    }

    /// The status that a stored name stands for: total, with `Open` for every
    /// name that is not a known one.
    pub open spec fn parse(s: Seq<char>) -> TicketStatus {
        if s == "InProgress"@ {
            TicketStatus::InProgress
        } else if s == "Closed"@ {
            TicketStatus::Closed
        } else if s == "Resolved"@ {
            TicketStatus::Resolved
        } else {
            TicketStatus::Open
        }
    }

    /// The status's stored name.
    pub fn to_string(&self) -> (r: String)
        ensures
            r@ == self.name(),
    {
        let s: &str = match self {
            TicketStatus::Open => "Open",
            TicketStatus::InProgress => "InProgress",
            TicketStatus::Closed => "Closed",
            TicketStatus::Resolved => "Resolved",
        };
        s.to_owned()
    }

    /// The status named by `s`, `Open` where `s` names none.
    pub fn from_name(s: &str) -> (r: TicketStatus)
        ensures
            r == TicketStatus::parse(s@),
    {
        if str_eq(s, "InProgress") {
            TicketStatus::InProgress
        } else if str_eq(s, "Closed") {
            TicketStatus::Closed
        } else if str_eq(s, "Resolved") {
            TicketStatus::Resolved
        } else {
            TicketStatus::Open
        }
    }

    /// Every status is found again from its stored name.
    pub proof fn lemma_name_round_trip(t: TicketStatus)
        ensures
            TicketStatus::parse(t.name()) == t,
    {
        reveal_strlit("Open");
        reveal_strlit("InProgress");
        reveal_strlit("Closed");
        reveal_strlit("Resolved");
        assert("Open"@.len() == 4);
        assert("InProgress"@.len() == 10);
        assert("Closed"@.len() == 6);
        assert("Resolved"@.len() == 8);
    }
}

impl From<String> for TicketStatus {
    fn from(s: String) -> (r: TicketStatus) {
        TicketStatus::from_name(s.as_str())
    }
}

impl vstd::std_specs::convert::FromSpecImpl<String> for TicketStatus {
    open spec fn obeys_from_spec() -> bool {
        true
    }

    open spec fn from_spec(s: String) -> TicketStatus {
        TicketStatus::parse(s@)
    }
}

impl Default for TicketStatus {
    fn default() -> (r: TicketStatus)
        ensures
            r == TicketStatus::Open,
    {
        TicketStatus::Open
    }
}

/// The time of a change that is made at `now` to something last changed
/// at `last`: `now` where the clock has moved on, the next microsecond
/// after `last` where it has not. Only at the end of time it stays.
pub open spec fn later(last: i64, now: i64) -> i64 {
    if now > last {
        now
    } else if last < i64::MAX {
        (last + 1) as i64
    } else {
        last
    }
}

/// What the confidence score of a ticket holds.
pub open spec fn opt_score(o: Option<Confidence>) -> Option<Seq<char>> {
    match o {
        Some(c) => Some(c.numeral@),
        None => None,
    }
}

/// A tracked incident, derived from one or more messages.
#[derive(Debug)]
pub struct Ticket {
    pub id: u128,
    pub ticket_type: TicketType,
    pub status: TicketStatus,
    pub ip_address: Option<String>,
    pub subject: String,
    pub description: String,
    pub confidence_score: Option<Confidence>,
    pub identified_threats: Option<Vec<String>>,
    pub extracted_indicators: Option<Vec<String>>,
    pub analysis_summary: Option<String>,
    /// Microseconds since the epoch
    pub created_at: i64,
    /// Microseconds since the epoch
    pub updated_at: i64,
    /// The messages linked to the ticket: derived from the associations, and
    /// empty in a stored row
    pub email_ids: Vec<u128>,
}

/// A ticket as a value.
pub struct TicketView {
    pub id: u128,
    pub ticket_type: TicketType,
    pub status: TicketStatus,
    pub ip_address: Option<Seq<char>>,
    pub subject: Seq<char>,
    pub description: Seq<char>,
    pub confidence_score: Option<Seq<char>>,
    pub identified_threats: Option<Seq<Seq<char>>>,
    pub extracted_indicators: Option<Seq<Seq<char>>>,
    pub analysis_summary: Option<Seq<char>>,
    pub created_at: i64,
    pub updated_at: i64,
    pub email_ids: Seq<u128>,
}

impl TicketView {
    /// What holds of every ticket that is kept: subject and description are
    /// not empty, and the confidence score, when present, lies between 0
    /// and 1.
    pub open spec fn valid(self) -> bool {
        &&& self.subject.len() > 0
        &&& self.description.len() > 0
        &&& (self.confidence_score matches Some(c) ==> unit_numeral(c))
    }

    /// The ticket as a stored row: without the derived message identifiers.
    pub open spec fn row(self) -> TicketView {
        TicketView { email_ids: Seq::empty(), ..self }
    }

    /// The ticket with the messages `ids` linked to it.
    pub open spec fn with_emails(self, ids: Seq<u128>) -> TicketView {
        TicketView { email_ids: ids, ..self }
    }

    /// The ticket after a status change at `now`.
    pub open spec fn with_status(self, status: TicketStatus, now: i64) -> TicketView {
        TicketView { status, updated_at: later(self.updated_at, now), ..self }
    }
}

impl View for Ticket {
    type V = TicketView;

    open spec fn view(&self) -> TicketView {
        TicketView {
            id: self.id,
            ticket_type: self.ticket_type,
            status: self.status,
            ip_address: opt_text(self.ip_address),
            subject: self.subject@,
            description: self.description@,
            confidence_score: opt_score(self.confidence_score),
            identified_threats: opt_texts(self.identified_threats),
            extracted_indicators: opt_texts(self.extracted_indicators),
            analysis_summary: opt_text(self.analysis_summary),
            created_at: self.created_at,
            updated_at: self.updated_at,
            email_ids: self.email_ids@,
        }
    }
}

/// What can go wrong in an operation on tickets.
#[derive(Debug)]
pub enum TicketError {
    /// The store refused or failed the operation
    Database(String),
    /// No connection to the store could be had
    Pool(String),
    /// The input does not describe a ticket that can be kept
    Validation(String),
    /// The search index failed
    ES(ESError),
}

impl TicketError {
    /// The error in words.
    pub open spec fn message(self) -> Seq<char> {
        match self {
            TicketError::Database(m) => "Database error: "@ + m@,
            TicketError::Pool(m) => "Pool error: "@ + m@,
            TicketError::Validation(m) => "Validation error: "@ + m@,
            TicketError::ES(e) => "ElasticSearch error: "@ + e.message(),
        }
    }

    /// The error in words.
    pub fn to_string(&self) -> (r: String)
        ensures
            r@ == self.message(),
    {
        match self {
            TicketError::Database(m) => "Database error: ".to_owned().concat(m.as_str()),
            TicketError::Pool(m) => "Pool error: ".to_owned().concat(m.as_str()),
            TicketError::Validation(m) => "Validation error: ".to_owned().concat(m.as_str()),
            TicketError::ES(e) => {
                let inner = e.to_string();
                "ElasticSearch error: ".to_owned().concat(inner.as_str())
            },
        }
    }
}

impl From<ESError> for TicketError {
    fn from(error: ESError) -> (r: TicketError) {
        TicketError::ES(error)
    }
}

impl vstd::std_specs::convert::FromSpecImpl<ESError> for TicketError {
    open spec fn obeys_from_spec() -> bool {
        true
    }

    open spec fn from_spec(error: ESError) -> TicketError {
        TicketError::ES(error)
    }
}

/// Why a ticket with the fields of `t` cannot be kept, if it cannot.
pub open spec fn ticket_fault(t: TicketView) -> Option<Seq<char>> {
    if t.subject.len() == 0 {
        Some("Subject cannot be empty"@)
    } else if t.description.len() == 0 {
        Some("Description cannot be empty"@)
    } else if t.confidence_score matches Some(c) && !unit_numeral(c) {
        Some("Confidence score must be between 0 and 1"@)
    } else {
        None
    }
}

impl Ticket {
    /// A ticket with the given identity and times: open, and linked to no
    /// message yet.
    pub fn assemble(
        id: u128,
        created_at: i64,
        updated_at: i64,
        ticket_type: TicketType,
        subject: String,
        description: String,
        ip_address: Option<String>,
        confidence_score: Option<Confidence>,
        identified_threats: Option<Vec<String>>,
        extracted_indicators: Option<Vec<String>>,
        analysis_summary: Option<String>,
    ) -> (r: Ticket)
        ensures
            r@ == (TicketView {
                id,
                ticket_type,
                status: TicketStatus::Open,
                ip_address: opt_text(ip_address),
                subject: subject@,
                description: description@,
                confidence_score: opt_score(confidence_score),
                identified_threats: opt_texts(identified_threats),
                extracted_indicators: opt_texts(extracted_indicators),
                analysis_summary: opt_text(analysis_summary),
                created_at,
                updated_at,
                email_ids: Seq::empty(),
            }),
    {
        Ticket {
            id,
            ticket_type,
            status: TicketStatus::Open,
            ip_address,
            subject,
            description,
            confidence_score,
            identified_threats,
            extracted_indicators,
            analysis_summary,
            created_at,
            updated_at,
            email_ids: Vec::new(),
        }
    }

    /// A new ticket: open, linked to no message, with a fresh random
    /// identifier and the clock's readings as its times. Identifier and
    /// times are whatever came back; everything else is as given.
    pub fn new(
        ticket_type: TicketType,
        subject: String,
        description: String,
        ip_address: Option<String>,
        confidence_score: Option<Confidence>,
        identified_threats: Option<Vec<String>>,
        extracted_indicators: Option<Vec<String>>,
        analysis_summary: Option<String>,
    ) -> (r: Ticket)
        ensures
            r@ == (TicketView {
                id: r.id,
                ticket_type,
                status: TicketStatus::Open,
                ip_address: opt_text(ip_address),
                subject: subject@,
                description: description@,
                confidence_score: opt_score(confidence_score),
                identified_threats: opt_texts(identified_threats),
                extracted_indicators: opt_texts(extracted_indicators),
                analysis_summary: opt_text(analysis_summary),
                created_at: r.created_at,
                updated_at: r.updated_at,
                email_ids: Seq::empty(),
            }),
    {
        let id = fresh_id();
        let created_at = now_micros();
        let updated_at = now_micros();
        Ticket::assemble(
            id,
            created_at,
            updated_at,
            ticket_type,
            subject,
            description,
            ip_address,
            confidence_score,
            identified_threats,
            extracted_indicators,
            analysis_summary,
        )
    }

    /// A copy of the ticket.
    pub fn duplicate(&self) -> (r: Ticket)
        ensures
            r@ == self@,
    {
        let confidence_score = match &self.confidence_score {
            Some(c) => Some(c.duplicate()),
            None => None,
        };
        Ticket {
            id: self.id,
            ticket_type: self.ticket_type,
            status: self.status,
            ip_address: clone_opt_string(&self.ip_address),
            subject: self.subject.clone(),
            description: self.description.clone(),
            confidence_score,
            identified_threats: clone_opt_strings(&self.identified_threats),
            extracted_indicators: clone_opt_strings(&self.extracted_indicators),
            analysis_summary: clone_opt_string(&self.analysis_summary),
            created_at: self.created_at,
            updated_at: self.updated_at,
            email_ids: clone_ids(&self.email_ids),
        }
    }

    /// Checks that the ticket can be kept: subject and description not
    /// empty, confidence between 0 and 1 where there is one.
    pub fn check(&self) -> (r: Result<(), TicketError>)
        ensures
            r is Ok <==> self@.valid(),
            r is Ok <==> ticket_fault(self@) is None,
            r matches Err(e) ==> (e matches TicketError::Validation(m) && Some(m@) == ticket_fault(
                self@,
            )),
    {
        if self.subject.as_str().is_empty() {
            return Err(TicketError::Validation("Subject cannot be empty".to_owned()));
        }
        if self.description.as_str().is_empty() {
            return Err(TicketError::Validation("Description cannot be empty".to_owned()));
        }
        if let Some(score) = &self.confidence_score {
            if !score.is_valid() {
                return Err(
                    TicketError::Validation("Confidence score must be between 0 and 1".to_owned()),
                );
            }
        }
        Ok(())
    }
}

/// Whether `e` is the validation error that says `message`.
pub open spec fn is_validation(e: TicketError, message: Seq<char>) -> bool {
    e matches TicketError::Validation(m) && m@ == message
}

/// Whether `e` is the database error for the refusal `why`.
pub open spec fn is_refusal(e: TicketError, why: StoreError) -> bool {
    e matches TicketError::Database(m) && m@ == why.message()
}

/// What is said of a message that is not stored.
pub open spec fn email_missing(email: u128) -> Seq<char> {
    "Email "@ + id_text(email) + " does not exist"@
}

/// What is said of a message that is not linked to a ticket.
pub open spec fn not_linked(email: u128, ticket: u128) -> Seq<char> {
    "Email "@ + id_text(email) + " is not linked to ticket "@ + id_text(ticket)
}

/// Says that the message `email` is not stored.
pub fn email_missing_message(email: u128) -> (r: String)
    ensures
        r@ == email_missing(email),
{
    let mut out = "Email ".to_owned();
    let id = id_to_string(email);
    out.append(id.as_str());
    out.append(" does not exist");
    out
}

/// Says that the message `email` is not linked to the ticket `ticket`.
pub fn not_linked_message(email: u128, ticket: u128) -> (r: String)
    ensures
        r@ == not_linked(email, ticket),
{
    let mut out = "Email ".to_owned();
    let e = id_to_string(email);
    out.append(e.as_str());
    out.append(" is not linked to ticket ");
    let t = id_to_string(ticket);
    out.append(t.as_str());
    out
}

impl Ticket {
    /// Keeps the ticket in the store and shows it to the search index. A
    /// ticket that cannot be kept, or whose identifier is stored already,
    /// changes nothing. What the index misses does not fail the call.
    pub fn save(&self, store: &mut Store, index: &mut SearchIndex) -> (r: Result<
        u128,
        TicketError,
    >)
        requires
            old(store).wf(),
        ensures
            final(store).wf(),
            r is Ok <==> self@.valid() && !old(store)@.has_ticket(self.id),
            r matches Ok(id) ==> id == self.id && final(store)@ == old(store)@.with_ticket(self@)
                && final(index)@ == after_write(old(index)@, IndexWriteView::PutTicket(self@)),
            r matches Err(e) ==> final(store)@ == old(store)@ && final(index)@ == old(index)@ && (
            if self@.valid() {
                is_refusal(e, StoreError::DuplicateKey)
            } else {
                Some(e->Validation_0@) == ticket_fault(self@) && e is Validation
            }),
    {
        let id = store.insert_ticket(self.duplicate())?;
        sync(index, IndexWrite::PutTicket(self.duplicate()));
        Ok(id)
    }

    /// Links the message `email_id` to the ticket: once, however often it is
    /// asked for. A message that is not stored is a validation error, a
    /// ticket that is not stored a database error; neither changes
    /// anything. The index is shown the ticket's messages as they then are.
    pub fn add_email(&self, store: &mut Store, index: &mut SearchIndex, email_id: &u128) -> (r:
        Result<(), TicketError>)
        requires
            old(store).wf(),
        ensures
            final(store).wf(),
            r is Ok <==> old(store)@.has_email(*email_id) && old(store)@.has_ticket(self.id),
            r is Ok ==> final(store)@ == old(store)@.with_link(*email_id, self.id) && final(index)@
                == after_write(
                old(index)@,
                IndexWriteView::TicketEmails {
                    id: self.id,
                    email_ids: emails_of(final(store)@.links, self.id),
                },
            ),
            r matches Err(e) ==> final(store)@ == old(store)@ && final(index)@ == old(index)@ && (
            if old(store)@.has_email(*email_id) {
                is_refusal(e, StoreError::ForeignKey)
            } else {
                is_validation(e, email_missing(*email_id))
            }),
    {
        if !store.email_exists(*email_id) {
            return Err(TicketError::Validation(email_missing_message(*email_id)));
        }
        match store.link(*email_id, self.id) {
            Err(why) => {
                return Err(TicketError::Database(why.to_string()));
            },
            Ok(_) => {},
        }
        let email_ids = store.emails_linked_to(self.id);
        sync(index, IndexWrite::TicketEmails { id: self.id, email_ids });
        Ok(())
    }

    /// Removes the link between the message `email_id` and the ticket.
    /// Where there is none, that is a validation error and nothing changes.
    pub fn remove_email(&self, store: &mut Store, index: &mut SearchIndex, email_id: &u128) -> (r:
        Result<(), TicketError>)
        requires
            old(store).wf(),
        ensures
            final(store).wf(),
            r is Ok <==> old(store)@.linked(*email_id, self.id),
            r is Ok ==> final(store)@ == old(store)@.without_link(*email_id, self.id) && final(index)@ == after_write(
                old(index)@,
                IndexWriteView::TicketEmails {
                    id: self.id,
                    email_ids: emails_of(final(store)@.links, self.id),
                },
            ),
            r matches Err(e) ==> final(store)@ == old(store)@ && final(index)@ == old(index)@
                && is_validation(e, not_linked(*email_id, self.id)),
    {
        if !store.is_linked(*email_id, self.id) {
            return Err(TicketError::Validation(not_linked_message(*email_id, self.id)));
        }
        store.unlink(*email_id, self.id);
        let email_ids = store.emails_linked_to(self.id);
        sync(index, IndexWrite::TicketEmails { id: self.id, email_ids });
        Ok(())
    }

    /// Sets the ticket's status, in the store and in this value. The time
    /// of the change is `now`, or the microsecond after the last change
    /// where the clock has not moved on since: it is later than the last
    /// one. A ticket that is not stored is a database error and nothing
    /// changes. What the index misses does not fail the call, and does not
    /// undo the change.
    pub fn update_status(
        &mut self,
        store: &mut Store,
        index: &mut SearchIndex,
        status: TicketStatus,
        now: i64,
    ) -> (r: Result<(), TicketError>)
        requires
            old(store).wf(),
        ensures
            final(store).wf(),
            r is Ok <==> old(store)@.has_ticket(old(self).id),
            r is Ok ==> final(store)@ == old(store)@.with_status(old(self).id, status, now)
                && final(self)@ == (TicketView {
                status,
                updated_at: final(store)@.ticket_row(old(self).id).updated_at,
                ..old(self)@
            }) && final(store)@.ticket_row(old(self).id).updated_at == later(
                old(store)@.ticket_row(old(self).id).updated_at,
                now,
            ) && final(index)@ == after_write(
                old(index)@,
                IndexWriteView::TicketStatus {
                    id: old(self).id,
                    status,
                    updated_at: final(store)@.ticket_row(old(self).id).updated_at,
                },
            ),
            r matches Err(e) ==> final(store)@ == old(store)@ && final(index)@ == old(index)@
                && final(self)@ == old(self)@ && is_refusal(e, StoreError::NoRow),
    {
        match store.set_status(self.id, status, now) {
            None => Err(TicketError::Database(StoreError::NoRow.to_string())),
            Some(updated_at) => {
                sync(index, IndexWrite::TicketStatus { id: self.id, status, updated_at });
                self.status = status;
                self.updated_at = updated_at;
                Ok(())
            },
        }
    }

    /// The messages linked to the ticket, in the order in which they were
    /// linked.
    pub fn get_emails(&self, store: &Store) -> (r: Vec<u128>)
        ensures
            r@ == emails_of(store@.links, self.id),
    {
        store.emails_linked_to(self.id)
    }

    /// Every ticket, each with the messages linked to it.
    pub fn list_all(store: &Store) -> (r: Vec<Ticket>)
        requires
            store.wf(),
        ensures
            r@.map_values(|t: Ticket| t@) == store@.listed_tickets(),
    {
        store.all_tickets()
    }

    /// The ticket `id` with the messages linked to it, if it is stored.
    pub fn find_by_id(store: &Store, id: u128) -> (r: Option<Ticket>)
        requires
            store.wf(),
        ensures
            r is Some <==> store@.has_ticket(id),
            r matches Some(t) ==> t@ == store@.ticket(id) && t.id == id,
    {
        store.ticket(id)
    }

    /// Keeps the ticket in the transaction's working copy.
    pub fn save_with_client(&self, client: &mut Transaction) -> (r: Result<u128, TicketError>)
        requires
            old(client).staged.wf(),
        ensures
            final(client).staged.wf(),
            r is Ok <==> self@.valid() && !old(client).staged@.has_ticket(self.id),
            r matches Ok(id) ==> id == self.id && final(client).staged@ == old(client).staged@.with_ticket(self@),
            r matches Err(e) ==> final(client).staged@ == old(client).staged@ && (if self@.valid() {
                is_refusal(e, StoreError::DuplicateKey)
            } else {
                Some(e->Validation_0@) == ticket_fault(self@) && e is Validation
            }),
    {
        client.staged.insert_ticket(self.duplicate())
    }

    /// Links the message `email_id` to the ticket in the transaction's
    /// working copy: once, however often it is asked for.
    pub fn add_email_with_client(&self, client: &mut Transaction, email_id: &u128) -> (r: Result<
        (),
        TicketError,
    >)
        requires
            old(client).staged.wf(),
        ensures
            final(client).staged.wf(),
            r is Ok <==> old(client).staged@.has_email(*email_id) && old(client).staged@.has_ticket(self.id),
            r is Ok ==> final(client).staged@ == old(client).staged@.with_link(
                *email_id,
                self.id,
            ),
            r matches Err(e) ==> final(client).staged@ == old(client).staged@ && (if old(client).staged@.has_email(*email_id) {
                is_refusal(e, StoreError::ForeignKey)
            } else {
                is_validation(e, email_missing(*email_id))
            }),
    {
        if !client.staged.email_exists(*email_id) {
            return Err(TicketError::Validation(email_missing_message(*email_id)));
        }
        match client.staged.link(*email_id, self.id) {
            Err(why) => Err(TicketError::Database(why.to_string())),
            Ok(_) => Ok(()),
        }
    }

    /// Shows the ticket to the search index. Here a failure is reported.
    pub fn index_to_es(&self, index: &mut SearchIndex) -> (r: Result<(), TicketError>)
        ensures
            r is Ok <==> old(index)@.reachable,
            final(index)@ == after_write(old(index)@, IndexWriteView::PutTicket(self@)),
            r matches Err(e) ==> (e matches TicketError::Pool(m) && m@ == "Elasticsearch error: "@
                + "search index unreachable"@),
    {
        match index.write(IndexWrite::PutTicket(self.duplicate())) {
            Ok(()) => Ok(()),
            Err(e) => Err(TicketError::Pool(e.to_string())),
        }
    }
}

/// What narrows a search for tickets.
#[derive(Debug, Clone, Copy)]
pub struct SearchFilters {
    /// Only tickets with this status
    pub status: Option<TicketStatus>,
    /// Only tickets of this category
    pub ticket_type: Option<TicketType>,
    /// Only tickets with linked messages, or only those without
    pub has_emails: Option<bool>,
}

/// A search for tickets as it is asked for.
#[derive(Debug)]
pub struct SearchOptions {
    /// The free text to look for
    pub query: String,
    pub filters: Option<SearchFilters>,
    /// How many results to skip; none where nothing is said
    pub from: Option<usize>,
    /// How many results to return; 50 where nothing is said
    pub size: Option<usize>,
}

/// What a search for tickets found.
#[derive(Debug)]
pub struct SearchResponse {
    pub hits: Vec<Ticket>,
    pub total: u64,
}

/// The conditions that `filters` stand for: status, category, and links,
/// in this order, each where it is set.
pub open spec fn ticket_filters(filters: Option<SearchFilters>) -> Seq<Filter> {
    match filters {
        None => Seq::empty(),
        Some(f) => (match f.status {
            Some(s) => seq![Filter::Status(s)],
            None => Seq::empty(),
        }) + (match f.ticket_type {
            Some(t) => seq![Filter::Category(t)],
            None => Seq::empty(),
        }) + (match f.has_emails {
            Some(b) => seq![Filter::Linked(b)],
            None => Seq::empty(),
        }),
    }
}

/// The page that is meant where `given` says which, `default` where it
/// says nothing.
pub open spec fn or_default(given: Option<usize>, default: usize) -> usize {
    match given {
        Some(n) => n,
        None => default,
    }
}

impl Ticket {
    /// The search to run for `options`: the free text against the tickets,
    /// narrowed by the filters that are set, newest first, from the first
    /// result and 50 to a page where nothing else is said.
    pub fn search(options: SearchOptions) -> (r: SearchRequest)
        ensures
            r@ == (SearchRequestView {
                collection: Collection::Tickets,
                query: options.query@,
                filters: ticket_filters(options.filters),
                from: or_default(options.from, DEFAULT_FROM),
                size: or_default(options.size, DEFAULT_SIZE),
            }),
    {
        let mut filters: Vec<Filter> = Vec::new();
        if let Some(f) = options.filters {
            if let Some(s) = f.status {
                filters.push(Filter::Status(s));
            }
            if let Some(t) = f.ticket_type {
                filters.push(Filter::Category(t));
            }
            if let Some(b) = f.has_emails {
                filters.push(Filter::Linked(b));
            }
        }
        proof {
            assert(filters@ =~= ticket_filters(options.filters));
        }
        SearchRequest {
            collection: Collection::Tickets,
            query: options.query,
            filters,
            from: match options.from {
                Some(n) => n,
                None => DEFAULT_FROM,
            },
            size: match options.size {
                Some(n) => n,
                None => DEFAULT_SIZE,
            },
        }
    }
}

impl SearchResponse {
    /// The answer to a search for tickets, from what the index found.
    pub fn from_result(result: SearchResult<Ticket>) -> (r: SearchResponse)
        ensures
            r.hits == result.hits,
            r.total == result.total,
    {
        SearchResponse { hits: result.hits, total: result.total }
    }
}

/// A status change outlives a failure of the search index. With the index
/// out of reach, the change is made in the store all the same and is found
/// there under the ticket's identifier, while the index is exactly as it
/// was and goes on showing what it showed before.
pub proof fn lemma_status_survives_index_failure(
    s: StoreView,
    x: SearchIndexView,
    id: u128,
    status: TicketStatus,
    now: i64,
)
    requires
        s.wf(),
        s.has_ticket(id),
        !x.reachable,
    ensures
        s.with_status(id, status, now).has_ticket(id),
        s.with_status(id, status, now).ticket(id).status == status,
        after_write(
            x,
            IndexWriteView::TicketStatus {
                id,
                status,
                updated_at: s.with_status(id, status, now).ticket(id).updated_at,
            },
        ) == x,
        shown_status(
            after_write(
                x,
                IndexWriteView::TicketStatus {
                    id,
                    status,
                    updated_at: s.with_status(id, status, now).ticket(id).updated_at,
                },
            ).log,
            id,
        ) == shown_status(x.log, id),
{
    crate::store::lemma_with_status_wf(s, id, status, now);
    let u = s.with_status(id, status, now);
    let i = s.ticket_index(id);
    assert(u.tickets[i].id == id);
    crate::store::lemma_ticket_index(u, i);
}

} // verus!
