//! Messages: the inbound and outbound mail items that the pipeline tracks.

use vstd::prelude::*;
use crate::clock::now_micros;
use crate::ident::{derive_id, fresh_id, id_text, id_to_string, name_based_id, MESSAGE_NAMESPACE};
use crate::indicator::{first_ip_address, first_ipv4};
use crate::llm::threat_analysis::{ThreatAnalysis, ThreatAnalysisView};
use crate::models::es::{
    after_write, sync, Collection, ESError, Filter, IndexWrite, IndexWriteView, SearchIndex,
    SearchIndexView, SearchRequest, SearchRequestView, SearchResult, DEFAULT_FROM, DEFAULT_SIZE,
};
use crate::models::ticket::{
    email_missing, or_default, ticket_fault, Ticket, TicketError, TicketStatus, TicketView,
};
use crate::store::{
    count_emails, lemma_one_row, lemma_with_email_wf, lemma_with_link_wf, lemma_with_ticket_wf,
    tickets_of, Store, StoreError, StoreView,
};
use crate::text::{clone_ids, clone_strings, join, join_spec};

verus! {

/// An inbound or outbound mail item.
#[derive(Debug)]
pub struct Email {
    pub id: u128,
    pub sender: String,
    pub recipients: Vec<String>,
    pub subject: String,
    pub body: String,
    /// Microseconds since the epoch
    pub received_at: i64,
    /// Whether the message went through classification and ticket creation
    pub analyzed: bool,
    /// Whether the message was sent rather than received
    pub is_sent: bool,
    /// The tickets linked to the message: derived from the associations, and
    /// empty in a stored row
    pub ticket_ids: Vec<u128>,
}

/// A message as a value.
pub struct EmailView {
    pub id: u128,
    pub sender: Seq<char>,
    pub recipients: Seq<Seq<char>>,
    pub subject: Seq<char>,
    pub body: Seq<char>,
    pub received_at: i64,
    pub analyzed: bool,
    pub is_sent: bool,
    pub ticket_ids: Seq<u128>,
}

impl EmailView {
    /// The message as a stored row: without the derived ticket identifiers.
    pub open spec fn row(self) -> EmailView {
        EmailView { ticket_ids: Seq::empty(), ..self }
    }

    /// The message with the tickets `ids` linked to it.
    pub open spec fn with_tickets(self, ids: Seq<u128>) -> EmailView {
        EmailView { ticket_ids: ids, ..self }
    }

    /// The message after classification.
    pub open spec fn analyzed(self) -> EmailView {
        EmailView { analyzed: true, ..self }
    }

    /// The message as the classification service reads it.
    pub open spec fn content(self) -> Seq<char> {
        "From: "@ + self.sender + "\nTo: "@ + join_spec(self.recipients, ", "@) + "\nSubject: "@
            + self.subject + "\nBody: "@ + self.body
    }
}

impl View for Email {
    type V = EmailView;

    open spec fn view(&self) -> EmailView {
        EmailView {
            id: self.id,
            sender: self.sender@,
            recipients: self.recipients.deep_view(),
            subject: self.subject@,
            body: self.body@,
            received_at: self.received_at,
            analyzed: self.analyzed,
            is_sent: self.is_sent,
            ticket_ids: self.ticket_ids@,
        }
    }
}

/// What can go wrong in an operation on messages.
#[derive(Debug)]
pub enum EmailError {
    /// The store refused or failed the operation
    Database(String),
    /// The mail could not be handed to the mail server
    Smtp(String),
    /// Classification or the ticket creation after it failed
    ThreatAnalysis(String),
    /// A setting is missing from the environment
    Env(String),
    /// The input does not describe something that can be done
    Validation(String),
    /// No connection to the store could be had
    Pool(String),
    /// The search index failed
    ES(ESError),
}

impl EmailError {
    /// The error in words.
    pub open spec fn message(self) -> Seq<char> {
        match self {
            EmailError::Database(m) => "Database error: "@ + m@,
            EmailError::Smtp(m) => "SMTP error: "@ + m@,
            EmailError::ThreatAnalysis(m) => "Failed to analyze threat: "@ + m@,
            EmailError::Env(m) => "Environment variable error: "@ + m@,
            EmailError::Validation(m) => "Validation error: "@ + m@,
            EmailError::Pool(m) => "Pool error: "@ + m@,
            EmailError::ES(e) => "ElasticSearch error: "@ + e.message(),
        }
    }

    /// The error in words.
    pub fn to_string(&self) -> (r: String)
        ensures
            r@ == self.message(),
    {
        match self {
            EmailError::Database(m) => "Database error: ".to_owned().concat(m.as_str()),
            EmailError::Smtp(m) => "SMTP error: ".to_owned().concat(m.as_str()),
            EmailError::ThreatAnalysis(m) => "Failed to analyze threat: ".to_owned().concat(
                m.as_str(),
            ),
            EmailError::Env(m) => "Environment variable error: ".to_owned().concat(m.as_str()),
            EmailError::Validation(m) => "Validation error: ".to_owned().concat(m.as_str()),
            EmailError::Pool(m) => "Pool error: ".to_owned().concat(m.as_str()),
            EmailError::ES(e) => {
                let inner = e.to_string();
                "ElasticSearch error: ".to_owned().concat(inner.as_str())
            },
        }
    }
}

impl From<String> for EmailError {
    fn from(error: String) -> (r: EmailError) {
        EmailError::ThreatAnalysis(error)
    }
}

impl vstd::std_specs::convert::FromSpecImpl<String> for EmailError {
    open spec fn obeys_from_spec() -> bool {
        true
    }

    open spec fn from_spec(error: String) -> EmailError {
        EmailError::ThreatAnalysis(error)
    }
}

impl From<ESError> for EmailError {
    fn from(error: ESError) -> (r: EmailError) {
        EmailError::ES(error)
    }
}

impl vstd::std_specs::convert::FromSpecImpl<ESError> for EmailError {
    open spec fn obeys_from_spec() -> bool {
        true
    }

    open spec fn from_spec(error: ESError) -> EmailError {
        EmailError::ES(error)
    }
}

impl Email {
    /// A received message with the given identity and time: not analyzed
    /// yet, and linked to no ticket.
    pub fn assemble(
        id: u128,
        received_at: i64,
        sender: String,
        recipients: Vec<String>,
        subject: String,
        body: String,
    ) -> (r: Email)
        ensures
            r@ == (EmailView {
                id,
                sender: sender@,
                recipients: recipients.deep_view(),
                subject: subject@,
                body: body@,
                received_at,
                analyzed: false,
                is_sent: false,
                ticket_ids: Seq::empty(),
            }),
    {
        Email {
            id,
            sender,
            recipients,
            subject,
            body,
            received_at,
            analyzed: false,
            is_sent: false,
            ticket_ids: Vec::new(),
        }
    }

    /// A new received message, with a fresh random identifier and the
    /// clock's reading as its time. Identifier and time are whatever came
    /// back; everything else is as given.
    pub fn new(sender: String, recipients: Vec<String>, subject: String, body: String) -> (r: Email)
        ensures
            r@ == (EmailView {
                id: r.id,
                sender: sender@,
                recipients: recipients.deep_view(),
                subject: subject@,
                body: body@,
                received_at: r.received_at,
                analyzed: false,
                is_sent: false,
                ticket_ids: Seq::empty(),
            }),
    {
        let id = fresh_id();
        let received_at = now_micros();
        Email::assemble(id, received_at, sender, recipients, subject, body)
    }

    /// A copy of the message.
    pub fn duplicate(&self) -> (r: Email)
        ensures
            r@ == self@,
    {
        Email {
            id: self.id,
            sender: self.sender.clone(),
            recipients: clone_strings(&self.recipients),
            subject: self.subject.clone(),
            body: self.body.clone(),
            received_at: self.received_at,
            analyzed: self.analyzed,
            is_sent: self.is_sent,
            ticket_ids: clone_ids(&self.ticket_ids),
        }
    }

    /// Whether the message went through classification.
    pub fn is_analyzed(&self) -> (r: bool)
        ensures
            r == self@.analyzed,
    {
        self.analyzed
    }

    /// The message as the classification service reads it: sender,
    /// recipients, subject and body, each on a line of its own.
    pub fn content(&self) -> (r: String)
        ensures
            r@ == self@.content(),
    {
        let to = join(&self.recipients, ", ");
        let mut out = "From: ".to_owned();
        out.append(self.sender.as_str());
        out.append("\nTo: ");
        out.append(to.as_str());
        out.append("\nSubject: ");
        out.append(self.subject.as_str());
        out.append("\nBody: ");
        out.append(self.body.as_str());
        out
    }
}

/// Whether `e` is the validation error that says `message`.
pub open spec fn is_validation(e: EmailError, message: Seq<char>) -> bool {
    e matches EmailError::Validation(m) && m@ == message
}

/// Whether `e` is the database error for the refusal `why`.
pub open spec fn is_refusal(e: EmailError, why: StoreError) -> bool {
    e matches EmailError::Database(m) && m@ == why.message()
}

/// What is said of a ticket that is not stored.
pub open spec fn ticket_missing(ticket: u128) -> Seq<char> {
    "Ticket "@ + id_text(ticket) + " does not exist"@
}

/// What is said of a message that is not linked to a ticket.
pub open spec fn not_linked(email: u128, ticket: u128) -> Seq<char> {
    "Email "@ + id_text(email) + " is not linked to ticket "@ + id_text(ticket)
}

/// What is said of a message that is looked for and not stored.
pub open spec fn not_found(email: u128) -> Seq<char> {
    "Email "@ + id_text(email) + " not found"@
}

/// What is said of a message that cannot go because tickets are linked to
/// it.
pub open spec fn still_linked(email: u128) -> Seq<char> {
    "Cannot delete email "@ + id_text(email)
        + " because it is associated with one or more tickets"@
}

/// The description of a ticket made from a message: the message's body,
/// then what classification found.
pub open spec fn enhanced_description(body: Seq<char>, a: ThreatAnalysisView) -> Seq<char> {
    "Original Content:\n"@ + body + "\n\nThreat Analysis:\n- Confidence: "@ + a.confidence_score
        + "\n- Identified Threats: "@ + join_spec(a.identified_threats, ", "@)
        + "\n- Extracted Indicators: "@ + join_spec(a.extracted_indicators, ", "@)
        + "\n\nSummary: "@ + a.summary
}

/// The ticket that a message and its assessment give, with the identifier
/// `id` and created at `now`: the assessment's category, the message's
/// subject, and as address the first indicator that is an IP address.
pub open spec fn ticket_from_analysis(m: EmailView, a: ThreatAnalysisView, id: u128, now: i64)
    -> TicketView {
    TicketView {
        id,
        ticket_type: a.threat_type,
        status: TicketStatus::Open,
        ip_address: first_ipv4(a.extracted_indicators),
        subject: m.subject,
        description: enhanced_description(m.body, a),
        confidence_score: Some(a.confidence_score),
        identified_threats: Some(a.identified_threats),
        extracted_indicators: Some(a.extracted_indicators),
        analysis_summary: Some(a.summary),
        created_at: now,
        updated_at: now,
        email_ids: Seq::empty(),
    }
}

/// Why the ticket `t` cannot be created from the message `email` in the
/// store `s`, in words; `None` where it can.
pub open spec fn create_ticket_failure(s: StoreView, email: u128, t: TicketView) -> Option<
    Seq<char>,
> {
    if let Some(fault) = ticket_fault(t) {
        Some("Validation error: "@ + fault)
    } else if s.has_ticket(t.id) {
        Some("Database error: "@ + StoreError::DuplicateKey.message())
    } else if !s.has_email(email) {
        Some("Validation error: "@ + email_missing(email))
    } else {
        None
    }
}

/// Store and index after the ticket `t` was created from the message
/// `email`: with the ticket and its one link, or as before where the
/// ticket cannot be created.
pub open spec fn after_create_ticket(
    s: StoreView,
    x: SearchIndexView,
    email: u128,
    t: TicketView,
) -> (StoreView, SearchIndexView) {
    if create_ticket_failure(s, email, t) is None {
        (
            s.with_ticket(t).with_link(email, t.id),
            after_write(x, IndexWriteView::PutTicket(t.with_emails(seq![email]))),
        )
    } else {
        (s, x)
    }
}

/// Says that the ticket `ticket` is not stored.
pub fn ticket_missing_message(ticket: u128) -> (r: String)
    ensures
        r@ == ticket_missing(ticket),
{
    let mut out = "Ticket ".to_owned();
    let id = id_to_string(ticket);
    out.append(id.as_str());
    out.append(" does not exist");
    out
}

/// Says that the message `email` is not linked to the ticket `ticket`.
pub fn not_linked_message(email: u128, ticket: u128) -> (r: String)
    ensures
        r@ == not_linked(email, ticket),
{
    crate::models::ticket::not_linked_message(email, ticket)
}

/// Says that the message `email` is not stored.
pub fn not_found_message(email: u128) -> (r: String)
    ensures
        r@ == not_found(email),
{
    let mut out = "Email ".to_owned();
    let id = id_to_string(email);
    out.append(id.as_str());
    out.append(" not found");
    out
}

/// Says that the message `email` cannot go because tickets are linked to it.
pub fn still_linked_message(email: u128) -> (r: String)
    ensures
        r@ == still_linked(email),
{
    let mut out = "Cannot delete email ".to_owned();
    let id = id_to_string(email);
    out.append(id.as_str());
    out.append(" because it is associated with one or more tickets");
    out
}

/// The description of a ticket made from a message with the body `body`.
pub fn describe(body: &str, analysis: &ThreatAnalysis) -> (r: String)
    ensures
        r@ == enhanced_description(body@, analysis@),
        r@.len() > 0,
{
    let threats = join(&analysis.identified_threats, ", ");
    let indicators = join(&analysis.extracted_indicators, ", ");
    let mut out = "Original Content:\n".to_owned();
    proof {
        reveal_strlit("Original Content:\n");
    }
    out.append(body);
    out.append("\n\nThreat Analysis:\n- Confidence: ");
    out.append(analysis.confidence_score.numeral.as_str());
    out.append("\n- Identified Threats: ");
    out.append(threats.as_str());
    out.append("\n- Extracted Indicators: ");
    out.append(indicators.as_str());
    out.append("\n\nSummary: ");
    out.append(analysis.summary.as_str());
    out
}

impl Email {
    /// The ticket that this message and its assessment give.
    pub fn ticket_for(&self, analysis: &ThreatAnalysis, ticket_id: u128, now: i64) -> (r: Ticket)
        ensures
            r@ == ticket_from_analysis(self@, analysis@, ticket_id, now),
            r@.description.len() > 0,
    {
        Ticket::assemble(
            ticket_id,
            now,
            now,
            analysis.threat_type,
            self.subject.clone(),
            describe(self.body.as_str(), analysis),
            first_ip_address(&analysis.extracted_indicators),
            Some(analysis.confidence_score.duplicate()),
            Some(clone_strings(&analysis.identified_threats)),
            Some(clone_strings(&analysis.extracted_indicators)),
            Some(analysis.summary.clone()),
        )
    }

    /// Marks the message as analyzed, in the store, in this value and,
    /// where it can be reached, in the index.
    pub fn mark_as_analyzed(&mut self, store: &mut Store, index: &mut SearchIndex)
        requires
            old(store).wf(),
        ensures
            final(store).wf(),
            final(store)@ == old(store)@.with_analyzed(old(self).id),
            final(self)@ == old(self)@.analyzed(),
            final(index)@ == after_write(
                old(index)@,
                IndexWriteView::EmailAnalyzed { id: old(self).id },
            ),
    {
        store.set_analyzed(self.id);
        sync(index, IndexWrite::EmailAnalyzed { id: self.id });
        self.analyzed = true;
    }

    /// Creates the ticket that this message and its assessment give, and
    /// links the message to it: both or neither. Where the ticket cannot be
    /// kept, its identifier is taken, or the message is not stored, nothing
    /// changes and the error says why. The index is shown the new ticket
    /// after the store has it.
    pub fn create_ticket(
        &self,
        store: &mut Store,
        index: &mut SearchIndex,
        analysis: &ThreatAnalysis,
        ticket_id: u128,
        now: i64,
    ) -> (r: Result<u128, EmailError>)
        requires
            old(store).wf(),
        ensures
            final(store).wf(),
            r is Ok <==> create_ticket_failure(
                old(store)@,
                self.id,
                ticket_from_analysis(self@, analysis@, ticket_id, now),
            ) is None,
            r matches Ok(id) ==> id == ticket_id,
            (final(store)@, final(index)@) == after_create_ticket(
                old(store)@,
                old(index)@,
                self.id,
                ticket_from_analysis(self@, analysis@, ticket_id, now),
            ),
            r matches Err(e) ==> Some(e->ThreatAnalysis_0@) == create_ticket_failure(
                old(store)@,
                self.id,
                ticket_from_analysis(self@, analysis@, ticket_id, now),
            ) && e is ThreatAnalysis,
    {
        let ticket = self.ticket_for(analysis, ticket_id, now);
        let mut tx = store.begin();
        match ticket.save_with_client(&mut tx) {
            Err(e) => {
                tx.rollback();
                return Err(EmailError::ThreatAnalysis(e.to_string()));
            },
            Ok(_) => {},
        }
        proof {
            lemma_with_ticket_wf(old(store)@, ticket@);
        }
        match ticket.add_email_with_client(&mut tx, &self.id) {
            Err(e) => {
                tx.rollback();
                return Err(EmailError::ThreatAnalysis(e.to_string()));
            },
            Ok(_) => {},
        }
        tx.commit(store);
        let mut shown = ticket;
        shown.email_ids.push(self.id);
        proof {
            assert(shown@ == ticket@.with_emails(seq![self.id]));
        }
        sync(index, IndexWrite::PutTicket(shown));
        Ok(ticket_id)
    }

    /// The tickets linked to the message, in the order in which they were
    /// linked.
    pub fn get_tickets(&self, store: &Store) -> (r: Vec<u128>)
        ensures
            r@ == tickets_of(store@.links, self.id),
    {
        store.tickets_linked_to(self.id)
    }

    /// Links the message to the ticket `ticket_id`: once, however often it
    /// is asked for. A ticket that is not stored is a validation error, a
    /// message that is not stored a database error; neither changes
    /// anything. The index is shown the message's tickets as they then
    /// are.
    pub fn link_ticket(&self, store: &mut Store, index: &mut SearchIndex, ticket_id: u128) -> (r:
        Result<(), EmailError>)
        requires
            old(store).wf(),
        ensures
            final(store).wf(),
            r is Ok <==> old(store)@.has_email(self.id) && old(store)@.has_ticket(ticket_id),
            r is Ok ==> final(store)@ == old(store)@.with_link(self.id, ticket_id) && final(index)@
                == after_write(
                old(index)@,
                IndexWriteView::EmailTickets {
                    id: self.id,
                    ticket_ids: tickets_of(final(store)@.links, self.id),
                },
            ),
            r matches Err(e) ==> final(store)@ == old(store)@ && final(index)@ == old(index)@ && (
            if old(store)@.has_ticket(ticket_id) {
                is_refusal(e, StoreError::ForeignKey)
            } else {
                is_validation(e, ticket_missing(ticket_id))
            }),
    {
        if !store.ticket_exists(ticket_id) {
            return Err(EmailError::Validation(ticket_missing_message(ticket_id)));
        }
        match store.link(self.id, ticket_id) {
            Err(why) => {
                return Err(EmailError::Database(why.to_string()));
            },
            Ok(_) => {},
        }
        let ticket_ids = store.tickets_linked_to(self.id);
        sync(index, IndexWrite::EmailTickets { id: self.id, ticket_ids });
        Ok(())
    }

    /// Removes the link between the message and the ticket `ticket_id`.
    /// Where there is none, that is a validation error and nothing changes.
    pub fn unlink_ticket(&self, store: &mut Store, index: &mut SearchIndex, ticket_id: u128) -> (r:
        Result<(), EmailError>)
        requires
            old(store).wf(),
        ensures
            final(store).wf(),
            r is Ok <==> old(store)@.linked(self.id, ticket_id),
            r is Ok ==> final(store)@ == old(store)@.without_link(self.id, ticket_id) && final(index)@ == after_write(
                old(index)@,
                IndexWriteView::EmailTickets {
                    id: self.id,
                    ticket_ids: tickets_of(final(store)@.links, self.id),
                },
            ),
            r matches Err(e) ==> final(store)@ == old(store)@ && final(index)@ == old(index)@
                && is_validation(e, not_linked(self.id, ticket_id)),
    {
        if store.unlink(self.id, ticket_id) == 0 {
            return Err(EmailError::Validation(not_linked_message(self.id, ticket_id)));
        }
        let ticket_ids = store.tickets_linked_to(self.id);
        sync(index, IndexWrite::EmailTickets { id: self.id, ticket_ids });
        Ok(())
    }

    /// Keeps the message in the store and shows it to the search index. A
    /// message whose identifier is stored already is there: nothing changes
    /// and nothing fails.
    pub fn save(&self, store: &mut Store, index: &mut SearchIndex) -> (r: Result<(), EmailError>)
        requires
            old(store).wf(),
        ensures
            final(store).wf(),
            r is Ok,
            (final(store)@, final(index)@) == after_save(old(store)@, old(index)@, self@),
    {
        match store.insert_email(self.duplicate()) {
            Ok(()) => {
                sync(index, IndexWrite::PutEmail(self.duplicate()));
                Ok(())
            },
            Err(_) => Ok(()),
        }
    }

    /// Removes the message from the store, unless a ticket is linked to it:
    /// that is a validation error, and nothing changes.
    pub fn delete(&self, store: &mut Store) -> (r: Result<(), EmailError>)
        requires
            old(store).wf(),
        ensures
            final(store).wf(),
            r is Ok <==> !old(store)@.has_links(self.id),
            r is Ok ==> final(store)@ == old(store)@.without_email(self.id) && !final(store)@.has_email(self.id),
            r matches Err(e) ==> final(store)@ == old(store)@ && is_validation(
                e,
                still_linked(self.id),
            ),
    {
        match store.delete_email(self.id) {
            Ok(_) => Ok(()),
            Err(_) => Err(EmailError::Validation(still_linked_message(self.id))),
        }
    }

    /// Removes the message and every link to it from the store, and tells
    /// the index. What the index misses does not fail the call.
    pub fn force_delete(&self, store: &mut Store, index: &mut SearchIndex) -> (r: Result<
        (),
        EmailError,
    >)
        requires
            old(store).wf(),
        ensures
            final(store).wf(),
            r is Ok,
            final(store)@ == old(store)@.without_links_of(self.id).without_email(self.id),
            !final(store)@.has_email(self.id),
            !final(store)@.has_links(self.id),
            final(index)@ == after_write(old(index)@, IndexWriteView::DeleteEmail { id: self.id }),
    {
        store.unlink_all(self.id);
        let gone = store.delete_email(self.id);
        sync(index, IndexWrite::DeleteEmail { id: self.id });
        Ok(())
    }

    /// The message `id` with the tickets linked to it. One that is not
    /// stored is a validation error.
    pub fn fetch_by_id(store: &Store, id: &u128) -> (r: Result<Email, EmailError>)
        requires
            store.wf(),
        ensures
            r is Ok <==> store@.has_email(*id),
            r matches Ok(m) ==> m@ == store@.email(*id) && m.id == *id,
            r matches Err(e) ==> is_validation(e, not_found(*id)),
    {
        match store.email(*id) {
            Some(m) => Ok(m),
            None => Err(EmailError::Validation(not_found_message(*id))),
        }
    }

    /// Shows the message to the search index. Here a failure is reported.
    pub fn index_to_es(&self, index: &mut SearchIndex) -> (r: Result<(), ESError>)
        ensures
            r is Ok <==> old(index)@.reachable,
            final(index)@ == after_write(old(index)@, IndexWriteView::PutEmail(self@)),
            r matches Err(e) ==> crate::models::es::unreachable_error(e),
    {
        index.write(IndexWrite::PutEmail(self.duplicate()))
    }
}

/// Store and index after the message `m` was saved: with the message, or
/// as before where a message with its identifier was stored already.
pub open spec fn after_save(s: StoreView, x: SearchIndexView, m: EmailView) -> (
    StoreView,
    SearchIndexView,
) {
    if s.has_email(m.id) {
        (s, x)
    } else {
        (s.with_email(m), after_write(x, IndexWriteView::PutEmail(m)))
    }
}

/// What narrows a search for messages.
#[derive(Debug, Clone, Copy)]
pub struct SearchFilters {
    /// Only sent messages, or only received ones
    pub is_sent: Option<bool>,
    /// Whether the message went through classification. The search does
    /// not narrow by it.
    pub analyzed: Option<bool>,
    /// Only messages with linked tickets, or only those without
    pub has_tickets: Option<bool>,
}

/// A search for messages as it is asked for.
#[derive(Debug)]
pub struct SearchOptions {
    /// The free text to look for
    pub query: String,
    pub filters: Option<SearchFilters>,
    /// How many results to skip; none where nothing is said
    pub from: Option<usize>,
    /// How many results to return; 50 where nothing is said
    pub size: Option<usize>,
}

/// What a search for messages found.
#[derive(Debug)]
pub struct SearchResponse {
    pub hits: Vec<Email>,
    pub total: u64,
}

/// The conditions that `filters` stand for: direction and links, in this
/// order, each where it is set.
pub open spec fn email_filters(filters: Option<SearchFilters>) -> Seq<Filter> {
    match filters {
        None => Seq::empty(),
        Some(f) => (match f.is_sent {
            Some(b) => seq![Filter::Sent(b)],
            None => Seq::empty(),
        }) + (match f.has_tickets {
            Some(b) => seq![Filter::Linked(b)],
            None => Seq::empty(),
        }),
    }
}

impl Email {
    /// The search to run for `options`: the free text against the
    /// messages, narrowed by the filters that are set, newest first, from
    /// the first result and 50 to a page where nothing else is said.
    pub fn search(options: SearchOptions) -> (r: SearchRequest)
        ensures
            r@ == (SearchRequestView {
                collection: Collection::Emails,
                query: options.query@,
                filters: email_filters(options.filters),
                from: or_default(options.from, DEFAULT_FROM),
                size: or_default(options.size, DEFAULT_SIZE),
            }),
    {
        let mut filters: Vec<Filter> = Vec::new();
        if let Some(f) = options.filters {
            if let Some(b) = f.is_sent {
                filters.push(Filter::Sent(b));
            }
            if let Some(b) = f.has_tickets {
                filters.push(Filter::Linked(b));
            }
        }
        proof {
            assert(filters@ =~= email_filters(options.filters));
        }
        SearchRequest {
            collection: Collection::Emails,
            query: options.query,
            filters,
            from: match options.from {
                Some(n) => n,
                None => DEFAULT_FROM,
            },
            size: match options.size {
                Some(n) => n,
                None => DEFAULT_SIZE,
            },
        }
    }
}

impl SearchResponse {
    /// The answer to a search for messages, from what the index found.
    pub fn from_result(result: SearchResult<Email>) -> (r: SearchResponse)
        ensures
            r.hits == result.hits,
            r.total == result.total,
    {
        SearchResponse { hits: result.hits, total: result.total }
    }
}

/// What an assessment, or the reason why there is none, holds.
pub open spec fn analysis_view(a: Result<ThreatAnalysis, String>) -> Result<
    ThreatAnalysisView,
    Seq<char>,
> {
    match a {
        Ok(a) => Ok(a@),
        Err(why) => Err(why@),
    }
}

/// Why the message `m` cannot be processed in the store `s`, in words;
/// `None` where it can. It cannot where classification gave no assessment,
/// or where the ticket cannot be created.
pub open spec fn process_failure(
    s: StoreView,
    m: EmailView,
    analysis: Result<ThreatAnalysisView, Seq<char>>,
    ticket_id: u128,
    now: i64,
) -> Option<Seq<char>> {
    match analysis {
        Err(why) => Some(why),
        Ok(a) => create_ticket_failure(s, m.id, ticket_from_analysis(m, a, ticket_id, now)),
    }
}

/// Store and index after the message `m` was processed: with its ticket,
/// the link, and the message marked as analyzed; or exactly as before
/// where it cannot be processed.
pub open spec fn after_process(
    s: StoreView,
    x: SearchIndexView,
    m: EmailView,
    analysis: Result<ThreatAnalysisView, Seq<char>>,
    ticket_id: u128,
    now: i64,
) -> (StoreView, SearchIndexView) {
    match analysis {
        Err(_) => (s, x),
        Ok(a) => {
            let t = ticket_from_analysis(m, a, ticket_id, now);
            if create_ticket_failure(s, m.id, t) is None {
                let created = after_create_ticket(s, x, m.id, t);
                (
                    created.0.with_analyzed(m.id),
                    after_write(created.1, IndexWriteView::EmailAnalyzed { id: m.id }),
                )
            } else {
                (s, x)
            }
        },
    }
}

/// One item of a batch: the message to process, what classification gave
/// for it or why it gave nothing, and identifier and time for its ticket.
#[derive(Debug)]
pub struct BatchItem {
    pub email_id: u128,
    pub analysis: Result<ThreatAnalysis, String>,
    pub ticket_id: u128,
    pub now: i64,
}

/// An item of a batch as a value.
pub struct BatchItemView {
    pub email_id: u128,
    pub analysis: Result<ThreatAnalysisView, Seq<char>>,
    pub ticket_id: u128,
    pub now: i64,
}

impl View for BatchItem {
    type V = BatchItemView;

    open spec fn view(&self) -> BatchItemView {
        BatchItemView {
            email_id: self.email_id,
            analysis: analysis_view(self.analysis),
            ticket_id: self.ticket_id,
            now: self.now,
        }
    }
}

/// Store and index after the items were processed, one after the other. An
/// item whose message is not stored leaves no trace.
pub open spec fn after_batch(s: StoreView, x: SearchIndexView, items: Seq<BatchItemView>) -> (
    StoreView,
    SearchIndexView,
)
    decreases items.len(),
{
    if items.len() == 0 {
        (s, x)
    } else {
        let before = after_batch(s, x, items.drop_last());
        let item = items.last();
        if before.0.has_email(item.email_id) {
            after_process(
                before.0,
                before.1,
                before.0.email(item.email_id),
                item.analysis,
                item.ticket_id,
                item.now,
            )
        } else {
            before
        }
    }
}

/// How each item with a stored message ended, in order: the message, and
/// `None` for success or the reason for failure.
pub open spec fn batch_outcomes(s: StoreView, x: SearchIndexView, items: Seq<BatchItemView>)
    -> Seq<(u128, Option<Seq<char>>)>
    decreases items.len(),
{
    if items.len() == 0 {
        Seq::empty()
    } else {
        let before = after_batch(s, x, items.drop_last());
        let item = items.last();
        let rest = batch_outcomes(s, x, items.drop_last());
        if before.0.has_email(item.email_id) {
            rest.push(
                (
                    item.email_id,
                    process_failure(
                        before.0,
                        before.0.email(item.email_id),
                        item.analysis,
                        item.ticket_id,
                        item.now,
                    ),
                ),
            )
        } else {
            rest
        }
    }
}

/// How an item ended: `None` for success, the reason for failure.
pub open spec fn outcome(r: Result<(), EmailError>) -> Option<Seq<char>> {
    match r {
        Ok(()) => None,
        Err(EmailError::ThreatAnalysis(m)) => Some(m@),
        Err(e) => Some(e.message()),
    }
}

/// How the processing of one message ended.
#[derive(Debug)]
pub struct BatchOutcome {
    pub email_id: u128,
    pub result: Result<(), EmailError>,
}

impl View for BatchOutcome {
    type V = (u128, Option<Seq<char>>);

    open spec fn view(&self) -> (u128, Option<Seq<char>>) {
        (self.email_id, outcome(self.result))
    }
}

/// One message of a batch that is handed over as a whole, with what
/// classification gave for it or why it gave nothing, and identifier and
/// time for its ticket.
#[derive(Debug)]
pub struct BatchJob {
    pub email: Email,
    pub analysis: Result<ThreatAnalysis, String>,
    pub ticket_id: u128,
    pub now: i64,
}

/// A job as a value.
pub struct BatchJobView {
    pub email: EmailView,
    pub analysis: Result<ThreatAnalysisView, Seq<char>>,
    pub ticket_id: u128,
    pub now: i64,
}

impl View for BatchJob {
    type V = BatchJobView;

    open spec fn view(&self) -> BatchJobView {
        BatchJobView {
            email: self.email@,
            analysis: analysis_view(self.analysis),
            ticket_id: self.ticket_id,
            now: self.now,
        }
    }
}

/// A message after its cycle, and how the cycle ended.
#[derive(Debug)]
pub struct BatchDone {
    pub email: Email,
    pub result: Result<(), EmailError>,
}

impl View for BatchDone {
    type V = (EmailView, Option<Seq<char>>);

    open spec fn view(&self) -> (EmailView, Option<Seq<char>>) {
        (self.email@, outcome(self.result))
    }
}

/// Store and index after the jobs were done, one after the other.
pub open spec fn after_jobs(s: StoreView, x: SearchIndexView, jobs: Seq<BatchJobView>) -> (
    StoreView,
    SearchIndexView,
)
    decreases jobs.len(),
{
    if jobs.len() == 0 {
        (s, x)
    } else {
        let before = after_jobs(s, x, jobs.drop_last());
        let job = jobs.last();
        after_process(before.0, before.1, job.email, job.analysis, job.ticket_id, job.now)
    }
}

/// Each message after its cycle, in order: marked as analyzed where the
/// cycle went through, as it was where it did not, with the reason.
pub open spec fn jobs_done(s: StoreView, x: SearchIndexView, jobs: Seq<BatchJobView>) -> Seq<
    (EmailView, Option<Seq<char>>),
>
    decreases jobs.len(),
{
    if jobs.len() == 0 {
        Seq::empty()
    } else {
        let before = after_jobs(s, x, jobs.drop_last());
        let job = jobs.last();
        let failure = process_failure(before.0, job.email, job.analysis, job.ticket_id, job.now);
        jobs_done(s, x, jobs.drop_last()).push(
            (
                if failure is None {
                    job.email.analyzed()
                } else {
                    job.email
                },
                failure,
            ),
        )
    }
}

/// Store and index after the messages were saved, one after the other.
pub open spec fn after_ingest(s: StoreView, x: SearchIndexView, messages: Seq<EmailView>) -> (
    StoreView,
    SearchIndexView,
)
    decreases messages.len(),
{
    if messages.len() == 0 {
        (s, x)
    } else {
        let before = after_ingest(s, x, messages.drop_last());
        after_save(before.0, before.1, messages.last())
    }
}

impl Email {
    /// One cycle for this message: with an assessment, creates the ticket,
    /// links the message to it, and marks the message as analyzed. Without
    /// one, or where the ticket cannot be created, nothing changes and the
    /// error says why. Nothing is tried twice.
    pub fn process(
        &mut self,
        store: &mut Store,
        index: &mut SearchIndex,
        analysis: Result<ThreatAnalysis, String>,
        ticket_id: u128,
        now: i64,
    ) -> (r: Result<(), EmailError>)
        requires
            old(store).wf(),
        ensures
            final(store).wf(),
            outcome(r) == process_failure(
                old(store)@,
                old(self)@,
                analysis_view(analysis),
                ticket_id,
                now,
            ),
            r matches Err(e) ==> e is ThreatAnalysis,
            (final(store)@, final(index)@) == after_process(
                old(store)@,
                old(index)@,
                old(self)@,
                analysis_view(analysis),
                ticket_id,
                now,
            ),
            final(self)@ == (if r is Ok {
                old(self)@.analyzed()
            } else {
                old(self)@
            }),
    {
        let analysis = match analysis {
            Err(why) => {
                return Err(EmailError::ThreatAnalysis(why));
            },
            Ok(a) => a,
        };
        match self.create_ticket(store, index, &analysis, ticket_id, now) {
            Err(e) => Err(e),
            Ok(_) => {
                self.mark_as_analyzed(store, index);
                Ok(())
            },
        }
    }

    /// Gives each of the messages its cycle, one after the other: a
    /// failure ends that message's cycle and no other. The messages come
    /// back in their order, each marked as analyzed where its cycle went
    /// through, with how it ended.
    pub fn process_batch(store: &mut Store, index: &mut SearchIndex, jobs: Vec<BatchJob>) -> (r:
        Vec<BatchDone>)
        requires
            old(store).wf(),
        ensures
            final(store).wf(),
            (final(store)@, final(index)@) == after_jobs(
                old(store)@,
                old(index)@,
                jobs@.map_values(|j: BatchJob| j@),
            ),
            r@.map_values(|d: BatchDone| d@) == jobs_done(
                old(store)@,
                old(index)@,
                jobs@.map_values(|j: BatchJob| j@),
            ),
    {
        let ghost s0 = store@;
        let ghost x0 = index@;
        let ghost all = jobs@.map_values(|j: BatchJob| j@);
        let mut results: Vec<BatchDone> = Vec::new();
        let mut jobs = jobs;
        let mut rest: Vec<BatchJob> = Vec::new();
        // Taken from the end, so turned round first.
        while jobs.len() > 0
            invariant
                jobs@.map_values(|j: BatchJob| j@) + rest@.map_values(|j: BatchJob| j@).reverse()
                    == all,
            decreases jobs@.len(),
        {
            let ghost a = jobs@.map_values(|j: BatchJob| j@);
            let ghost b = rest@.map_values(|j: BatchJob| j@);
            let job = jobs.pop().unwrap();
            rest.push(job);
            proof {
                let a1 = jobs@.map_values(|j: BatchJob| j@);
                let b1 = rest@.map_values(|j: BatchJob| j@);
                assert(a1 =~= a.drop_last());
                assert(b1 =~= b.push(job@));
                assert(a1 + b1.reverse() =~= a + b.reverse());
            }
        }
        proof {
            assert(rest@.map_values(|j: BatchJob| j@).reverse() =~= all);
            assert(all.take(0) =~= Seq::empty());
            assert(results@.map_values(|d: BatchDone| d@) =~= Seq::empty());
        }
        let ghost mut done: int = 0;
        while rest.len() > 0
            invariant
                store.wf(),
                0 <= done <= all.len(),
                rest@.len() == all.len() - done,
                forall|k: int|
                    0 <= k < rest@.len() ==> (#[trigger] rest@[k])@ == all[all.len() - 1 - k],
                (store@, index@) == after_jobs(s0, x0, all.take(done)),
                results@.map_values(|d: BatchDone| d@) == jobs_done(s0, x0, all.take(done)),
            decreases rest@.len(),
        {
            let job = rest.pop().unwrap();
            proof {
                assert(job@ == all[done]);
                assert(all.take(done + 1).drop_last() == all.take(done));
                assert(all.take(done + 1).last() == job@);
            }
            let mut email = job.email;
            let ghost before = results@.map_values(|d: BatchDone| d@);
            let result = email.process(store, index, job.analysis, job.ticket_id, job.now);
            let one = BatchDone { email, result };
            results.push(one);
            proof {
                assert(results@.map_values(|d: BatchDone| d@) =~= before.push(one@));
                done = done + 1;
            }
        }
        proof {
            assert(all.take(all.len() as int) == all);
        }
        results
    }

    /// Processes the items one after the other, each in a cycle of its
    /// own: a failure ends that item and no other. An item whose message
    /// is not stored is passed over. The outcomes come back in the order
    /// of the items that were processed, each with its message.
    pub fn process_batch_by_ids(store: &mut Store, index: &mut SearchIndex, items: Vec<BatchItem>)
        -> (r: Vec<BatchOutcome>)
        requires
            old(store).wf(),
        ensures
            final(store).wf(),
            (final(store)@, final(index)@) == after_batch(
                old(store)@,
                old(index)@,
                items@.map_values(|i: BatchItem| i@),
            ),
            r@.map_values(|o: BatchOutcome| o@) == batch_outcomes(
                old(store)@,
                old(index)@,
                items@.map_values(|i: BatchItem| i@),
            ),
    {
        let ghost s0 = store@;
        let ghost x0 = index@;
        let ghost all = items@.map_values(|i: BatchItem| i@);
        let mut results: Vec<BatchOutcome> = Vec::new();
        let mut items = items;
        let mut rest: Vec<BatchItem> = Vec::new();
        // Taken from the end, so turned round first.
        while items.len() > 0
            invariant
                items@.map_values(|i: BatchItem| i@) + rest@.map_values(|i: BatchItem| i@).reverse()
                    == all,
            decreases items@.len(),
        {
            let ghost a = items@.map_values(|i: BatchItem| i@);
            let ghost b = rest@.map_values(|i: BatchItem| i@);
            let item = items.pop().unwrap();
            rest.push(item);
            proof {
                let a1 = items@.map_values(|i: BatchItem| i@);
                let b1 = rest@.map_values(|i: BatchItem| i@);
                assert(a1 =~= a.drop_last());
                assert(b1 =~= b.push(item@));
                assert(a1 + b1.reverse() =~= a + b.reverse());
            }
        }
        proof {
            assert(rest@.map_values(|i: BatchItem| i@).reverse() =~= all);
            assert(all.take(0) =~= Seq::empty());
            assert(results@.map_values(|o: BatchOutcome| o@) =~= Seq::empty());
        }
        let ghost mut done: int = 0;
        while rest.len() > 0
            invariant
                store.wf(),
                0 <= done <= all.len(),
                rest@.len() == all.len() - done,
                forall|k: int|
                    0 <= k < rest@.len() ==> (#[trigger] rest@[k])@ == all[all.len() - 1 - k],
                (store@, index@) == after_batch(s0, x0, all.take(done)),
                results@.map_values(|o: BatchOutcome| o@) == batch_outcomes(
                    s0,
                    x0,
                    all.take(done),
                ),
            decreases rest@.len(),
        {
            let ghost n = rest@.len() as int;
            let item = rest.pop().unwrap();
            proof {
                assert(item@ == all[done]);
                assert(all.take(done + 1).drop_last() == all.take(done));
                assert(all.take(done + 1).last() == item@);
            }
            match store.email(item.email_id) {
                None => {},
                Some(found) => {
                    let mut email = found;
                    let ghost before = results@.map_values(|o: BatchOutcome| o@);
                    let result = email.process(
                        store,
                        index,
                        item.analysis,
                        item.ticket_id,
                        item.now,
                    );
                    let done_one = BatchOutcome { email_id: item.email_id, result };
                    results.push(done_one);
                    proof {
                        assert(results@.map_values(|o: BatchOutcome| o@) =~= before.push(
                            done_one@,
                        ));
                    }
                },
            }
            proof {
                done = done + 1;
            }
        }
        proof {
            assert(all.take(all.len() as int) == all);
        }
        results
    }

    /// Takes in what the mail source gave: each message that is not stored
    /// yet is saved, each that is stored is left alone. Every message of
    /// the store comes back, the new ones last. Where the mail source
    /// failed, its error comes back and nothing changes.
    pub fn fetch_all(
        store: &mut Store,
        index: &mut SearchIndex,
        fetched: Result<Vec<Email>, EmailError>,
    ) -> (r: Result<Vec<Email>, EmailError>)
        requires
            old(store).wf(),
        ensures
            final(store).wf(),
            r is Ok <==> fetched is Ok,
            fetched matches Err(e) ==> r == Err::<Vec<Email>, EmailError>(e) && final(store)@
                == old(store)@ && final(index)@ == old(index)@,
            fetched matches Ok(messages) ==> (final(store)@, final(index)@) == after_ingest(
                old(store)@,
                old(index)@,
                messages@.map_values(|m: Email| m@),
            ) && r->Ok_0@.map_values(|m: Email| m@) == final(store)@.listed_emails(),
    {
        let messages = match fetched {
            Err(e) => {
                return Err(e);
            },
            Ok(messages) => messages,
        };
        let ghost s0 = store@;
        let ghost x0 = index@;
        let ghost all = messages@.map_values(|m: Email| m@);
        let mut i: usize = 0;
        proof {
            assert(all.take(0) =~= Seq::empty());
        }
        while i < messages.len()
            invariant
                0 <= i <= messages@.len(),
                all == messages@.map_values(|m: Email| m@),
                store.wf(),
                (store@, index@) == after_ingest(s0, x0, all.take(i as int)),
            decreases messages@.len() - i,
        {
            proof {
                assert(all.take(i + 1).drop_last() == all.take(i as int));
                assert(all.take(i + 1).last() == messages@[i as int]@);
            }
            let _ = messages[i].save(store, index);
            i += 1;
        }
        proof {
            assert(all.take(all.len() as int) == all);
        }
        Ok(store.all_emails())
    }
}

/// What the mail source gives for one message.
#[derive(Debug)]
pub struct RawMessage {
    /// The identifier that the mail server assigned, if it assigned one
    pub server_id: Option<u128>,
    pub sender: String,
    pub recipients: Vec<String>,
    pub subject: String,
    pub body: String,
    /// When the message arrived, in microseconds since the epoch, if the
    /// server says so
    pub received_at: Option<i64>,
}

/// A fetched message as a value.
pub struct RawMessageView {
    pub server_id: Option<u128>,
    pub sender: Seq<char>,
    pub recipients: Seq<Seq<char>>,
    pub subject: Seq<char>,
    pub body: Seq<char>,
    pub received_at: Option<i64>,
}

impl View for RawMessage {
    type V = RawMessageView;

    open spec fn view(&self) -> RawMessageView {
        RawMessageView {
            server_id: self.server_id,
            sender: self.sender@,
            recipients: self.recipients.deep_view(),
            subject: self.subject@,
            body: self.body@,
            received_at: self.received_at,
        }
    }
}

/// `c` in lower case where it is an upper-case ASCII letter, `c` itself
/// otherwise.
pub open spec fn lower(c: char) -> char {
    if 'A' <= c && c <= 'Z' {
        ((c as u8) + 32) as char
    } else {
        c
    }
}

/// A sender's address in the form that fingerprints use: ASCII letters in
/// lower case.
pub open spec fn normalized(sender: Seq<char>) -> Seq<char> {
    sender.map_values(|c: char| lower(c))
}

/// The text that is hashed for a message's fingerprint: the normalized
/// sender, the recipients joined by a comma and a space, the subject and
/// the body, each on a line of its own.
pub open spec fn fingerprint_text(m: RawMessageView) -> Seq<char> {
    normalized(m.sender) + "\n"@ + join_spec(m.recipients, ", "@) + "\n"@ + m.subject + "\n"@
        + m.body
}

/// The fingerprint of a message: the identifier derived from the hash of
/// its content. The same content gives the same fingerprint.
pub open spec fn fingerprint_of(m: RawMessageView) -> u128 {
    name_based_id(MESSAGE_NAMESPACE, vstd::utf8::encode_utf8(fingerprint_text(m)))
}

/// The identity of a fetched message: the server's identifier where there
/// is one, the fingerprint of the content otherwise.
pub open spec fn identity_of(m: RawMessageView) -> u128 {
    match m.server_id {
        Some(id) => id,
        None => fingerprint_of(m),
    }
}

/// Messages without an identifier of the server's that hold the same have
/// the same identity.
pub proof fn lemma_same_content_same_identity(a: RawMessageView, b: RawMessageView)
    requires
        a.server_id is None,
        b.server_id is None,
        a.sender == b.sender,
        a.recipients == b.recipients,
        a.subject == b.subject,
        a.body == b.body,
    ensures
        identity_of(a) == identity_of(b),
{
}

fn lower_char(c: char) -> (r: char)
    ensures
        r == lower(c),
{
    if 'A' <= c && c <= 'Z' {
        ((c as u8) + 32) as char
    } else {
        c
    }
}

/// A sender's address in the form that fingerprints use.
pub fn normalize(sender: &str) -> (r: String)
    ensures
        r@ == normalized(sender@),
{
    let mut out = String::new();
    for c in it: sender.chars()
        invariant
            it.seq() == sender@,
            out@ == normalized(sender@.take(it.index() as int)),
    {
        let ghost k = it.index() as int;
        let ghost before = out@;
        out.push(lower_char(c));
        proof {
            assert(sender@.take(k + 1) == sender@.take(k).push(sender@[k]));
            assert(out@ =~= normalized(sender@.take(k + 1)));
        }
    }
    proof {
        assert(sender@.take(sender@.len() as int) == sender@);
    }
    out
}

impl RawMessage {
    /// The fingerprint of the message's content.
    pub fn fingerprint(&self) -> (r: u128)
        ensures
            r == fingerprint_of(self@),
    {
        let mut text = normalize(self.sender.as_str());
        let to = join(&self.recipients, ", ");
        text.append("\n");
        text.append(to.as_str());
        text.append("\n");
        text.append(self.subject.as_str());
        text.append("\n");
        text.append(self.body.as_str());
        derive_id(MESSAGE_NAMESPACE, text.as_str().as_bytes())
    }

    /// The message as it is kept: received, not analyzed yet, under the
    /// server's identifier where there is one and under the fingerprint of
    /// its content otherwise, with the server's time of arrival where
    /// there is one and `now` otherwise.
    pub fn into_email(self, now: i64) -> (r: Email)
        ensures
            r@ == as_received(self@, now),
    {
        let id = match self.server_id {
            Some(id) => id,
            None => self.fingerprint(),
        };
        let received_at = match self.received_at {
            Some(t) => t,
            None => now,
        };
        Email::assemble(id, received_at, self.sender, self.recipients, self.subject, self.body)
    }
}

/// The message that a fetched message is kept as, with `now` as its time
/// of arrival where the server names none.
pub open spec fn as_received(m: RawMessageView, now: i64) -> EmailView {
    EmailView {
        id: identity_of(m),
        sender: m.sender,
        recipients: m.recipients,
        subject: m.subject,
        body: m.body,
        received_at: match m.received_at {
            Some(t) => t,
            None => now,
        },
        analyzed: false,
        is_sent: false,
        ticket_ids: Seq::empty(),
    }
}

/// Saving a message twice is saving it once: the second time changes
/// neither store nor index, and the store holds the message in exactly one
/// row.
pub proof fn lemma_save_idempotent(s: StoreView, x: SearchIndexView, m: EmailView)
    requires
        s.wf(),
    ensures
        after_save(after_save(s, x, m).0, after_save(s, x, m).1, m) == after_save(s, x, m),
        after_save(s, x, m).0.wf(),
        count_emails(after_save(s, x, m).0.emails, m.id) == 1,
{
    if !s.has_email(m.id) {
        lemma_with_email_wf(s, m);
    }
    lemma_one_row(after_save(s, x, m).0, m.id);
}

/// Taking in the same content twice gives one message. Two fetched
/// messages without an identifier of the server's that hold the same,
/// whenever each is fetched, are kept under one identity; after the
/// second is saved the store holds exactly one row for it, and is as it
/// was after the first.
pub proof fn lemma_reingest(
    s: StoreView,
    x: SearchIndexView,
    first: RawMessageView,
    second: RawMessageView,
    first_now: i64,
    second_now: i64,
)
    requires
        s.wf(),
        first.server_id is None,
        second.server_id is None,
        first.sender == second.sender,
        first.recipients == second.recipients,
        first.subject == second.subject,
        first.body == second.body,
    ensures
        as_received(first, first_now).id == as_received(second, second_now).id,
        ({
            let once = after_save(s, x, as_received(first, first_now));
            let twice = after_save(once.0, once.1, as_received(second, second_now));
            twice == once && count_emails(twice.0.emails, identity_of(first)) == 1
        }),
{
    lemma_same_content_same_identity(first, second);
    lemma_save_idempotent(s, x, as_received(first, first_now));
}

/// The message that the mail `raw` holds: sender, recipients and subject
/// from its `From`, `To` and `Subject` headers, empty where one is
/// missing, and its body, empty where it cannot be decoded. `None` where
/// `raw` is no mail.
pub open spec fn message_in(raw: Seq<u8>) -> Option<RawMessageView> {
    match crate::mail::mail_in(raw) {
        Some(m) => Some(
            RawMessageView {
                server_id: None,
                sender: or_empty(crate::mail::mail_header(m, "From"@)),
                recipients: crate::mail::mail_headers(m, "To"@),
                subject: or_empty(crate::mail::mail_header(m, "Subject"@)),
                body: or_empty(crate::mail::mail_body(m)),
                received_at: None,
            },
        ),
        None => None,
    }
}

/// The text, or the empty one where there is none.
pub open spec fn or_empty(text: Option<Seq<char>>) -> Seq<char> {
    match text {
        Some(t) => t,
        None => Seq::empty(),
    }
}

fn text_or_empty(text: Option<String>) -> (r: String)
    ensures
        r@ == or_empty(crate::text::opt_text(text)),
{
    match text {
        Some(t) => t,
        None => String::new(),
    }
}

impl RawMessage {
    /// Reads a message out of a mail in its transport form. What is no
    /// mail gives none.
    pub fn parse(raw: &[u8]) -> (r: Option<RawMessage>)
        ensures
            (match r {
                Some(m) => Some(m@),
                None => None,
            }) == message_in(raw@),
    {
        match crate::mail::parse(raw) {
            None => None,
            Some(m) => Some(
                RawMessage {
                    server_id: None,
                    sender: text_or_empty(crate::mail::header(&m, "From")),
                    recipients: crate::mail::headers(&m, "To"),
                    subject: text_or_empty(crate::mail::header(&m, "Subject")),
                    body: text_or_empty(crate::mail::body(&m)),
                    received_at: None,
                },
            ),
        }
    }
}

/// A mail to send.
#[derive(Debug)]
pub struct OutgoingEmail {
    /// The address to send to
    pub recipient: String,
    pub subject: String,
    pub body: String,
}

/// What is wrong with a mail to send, in words; `None` where nothing is.
pub open spec fn outgoing_fault(subject: Seq<char>, body: Seq<char>) -> Option<Seq<char>> {
    if subject.len() == 0 {
        Some("Subject cannot be empty"@)
    } else if body.len() == 0 {
        Some("Body cannot be empty"@)
    } else {
        None
    }
}

/// What is said of a mail that went out.
pub open spec fn sent_text(subject: Seq<char>, recipient: Seq<char>) -> Seq<char> {
    "Successfully sent "@ + subject + " to "@ + recipient
}

impl OutgoingEmail {
    /// The sent mail as a message of the store: from `sender`, to the one
    /// recipient, sent at `now`, not analyzed.
    pub open spec fn recorded(&self, id: u128, sender: Seq<char>, now: i64) -> EmailView {
        EmailView {
            id,
            sender,
            recipients: seq![self.recipient@],
            subject: self.subject@,
            body: self.body@,
            received_at: now,
            analyzed: false,
            is_sent: true,
            ticket_ids: Seq::empty(),
        }
    }

    /// Checks the mail: neither subject nor body may be empty.
    pub fn validate(&self) -> (r: Result<(), EmailError>)
        ensures
            r is Ok <==> outgoing_fault(self.subject@, self.body@) is None,
            r matches Err(e) ==> outgoing_fault(self.subject@, self.body@) matches Some(m)
                && is_validation(e, m),
    {
        if self.subject.as_str().is_empty() {
            return Err(EmailError::Validation("Subject cannot be empty".to_owned()));
        }
        if self.body.as_str().is_empty() {
            return Err(EmailError::Validation("Body cannot be empty".to_owned()));
        }
        Ok(())
    }

    /// Keeps the sent mail in the store, as a message from `sender` under
    /// the identifier `id`, and hands back the identifier's text. Where
    /// the identifier is taken nothing changes.
    pub fn save(&self, store: &mut Store, id: u128, sender: &str, now: i64) -> (r: Result<
        String,
        EmailError,
    >)
        requires
            old(store).wf(),
        ensures
            final(store).wf(),
            r is Ok <==> !old(store)@.has_email(id),
            r matches Ok(text) ==> text@ == id_text(id) && final(store)@ == old(store)@.with_email(
                self.recorded(id, sender@, now),
            ),
            r matches Err(e) ==> final(store)@ == old(store)@ && (e matches EmailError::Pool(m)
                && m@ == StoreError::DuplicateKey.message()),
    {
        let mut recipients: Vec<String> = Vec::new();
        recipients.push(self.recipient.clone());
        let mut message = Email::assemble(
            id,
            now,
            sender.to_owned(),
            recipients,
            self.subject.clone(),
            self.body.clone(),
        );
        message.is_sent = true;
        proof {
            assert(message@.recipients =~= seq![self.recipient@]);
        }
        match store.insert_email(message) {
            Ok(()) => Ok(id_to_string(id)),
            Err(why) => Err(EmailError::Pool(why.to_string())),
        }
    }

    /// What sending came to, given what the mail server did: the sentence
    /// that says that the mail went out, or the server's refusal.
    pub fn send(&self, delivery: Result<(), String>) -> (r: Result<String, EmailError>)
        ensures
            r is Ok <==> delivery is Ok,
            r matches Ok(text) ==> text@ == sent_text(self.subject@, self.recipient@),
            r matches Err(e) ==> (e matches EmailError::Smtp(m) && m@ == delivery->Err_0@),
    {
        match delivery {
            Err(why) => Err(EmailError::Smtp(why)),
            Ok(()) => {
                let mut text = "Successfully sent ".to_owned();
                text.append(self.subject.as_str());
                text.append(" to ");
                text.append(self.recipient.as_str());
                Ok(text)
            },
        }
    }
}

} // verus!
