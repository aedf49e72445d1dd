//! The search index: a secondary projection of messages and tickets, never
//! the source of truth.

use vstd::prelude::*;
use crate::json::{items, json_items, json_member, json_unsigned, member, unsigned};
use crate::models::email::{Email, EmailView};
use crate::models::ticket::{Ticket, TicketStatus, TicketType, TicketView};
use crate::text::{decimal, decimal_string, str_eq};

verus! {

/// What can go wrong between the library and the search index.
#[derive(Debug)]
pub enum ESError {
    /// The index answered with an error, or did not answer
    Elastic(String),
    /// A setting is missing from the environment
    Env(String),
    /// The index's address is not a URL
    Url(String),
    /// A document could not be written or read as JSON
    Json(String),
    /// The document or the collection is not there
    NotFound,
    /// The request cannot be made as it stands
    InvalidInput(String),
}

impl ESError {
    /// The error in words.
    pub open spec fn message(self) -> Seq<char> {
        match self {
            ESError::Elastic(m) => "Elasticsearch error: "@ + m@,
            ESError::Env(m) => "Environment error: "@ + m@,
            ESError::Url(m) => "URL parse error: "@ + m@,
            ESError::Json(m) => "JSON error: "@ + m@,
            ESError::NotFound => "Not found"@,
            ESError::InvalidInput(m) => "Invalid input: "@ + m@,
        }
    }

    /// The error in words.
    pub fn to_string(&self) -> (r: String)
        ensures
            r@ == self.message(),
    {
        match self {
            ESError::Elastic(m) => "Elasticsearch error: ".to_owned().concat(m.as_str()),
            ESError::Env(m) => "Environment error: ".to_owned().concat(m.as_str()),
            ESError::Url(m) => "URL parse error: ".to_owned().concat(m.as_str()),
            ESError::Json(m) => "JSON error: ".to_owned().concat(m.as_str()),
            ESError::NotFound => "Not found".to_owned(),
            ESError::InvalidInput(m) => "Invalid input: ".to_owned().concat(m.as_str()),
        }
    }
}

/// A write to the search index: a whole document when something is
/// created, the changed fields when something changes.
#[derive(Debug)]
pub enum IndexWrite {
    /// The whole document of a message
    PutEmail(Email),
    /// The whole document of a ticket
    PutTicket(Ticket),
    /// A message went through classification
    EmailAnalyzed { id: u128 },
    /// A ticket's status changed
    TicketStatus { id: u128, status: TicketStatus, updated_at: i64 },
    /// The messages linked to a ticket changed
    TicketEmails { id: u128, email_ids: Vec<u128> },
    /// The tickets linked to a message changed
    EmailTickets { id: u128, ticket_ids: Vec<u128> },
    /// A message was removed
    DeleteEmail { id: u128 },
}

/// A write as a value.
pub enum IndexWriteView {
    PutEmail(EmailView),
    PutTicket(TicketView),
    EmailAnalyzed { id: u128 },
    TicketStatus { id: u128, status: TicketStatus, updated_at: i64 },
    TicketEmails { id: u128, email_ids: Seq<u128> },
    EmailTickets { id: u128, ticket_ids: Seq<u128> },
    DeleteEmail { id: u128 },
}

impl View for IndexWrite {
    type V = IndexWriteView;

    open spec fn view(&self) -> IndexWriteView {
        match self {
            IndexWrite::PutEmail(m) => IndexWriteView::PutEmail(m@),
            IndexWrite::PutTicket(t) => IndexWriteView::PutTicket(t@),
            IndexWrite::EmailAnalyzed { id } => IndexWriteView::EmailAnalyzed { id: *id },
            IndexWrite::TicketStatus { id, status, updated_at } => IndexWriteView::TicketStatus {
                id: *id,
                status: *status,
                updated_at: *updated_at,
            },
            IndexWrite::TicketEmails { id, email_ids } => IndexWriteView::TicketEmails {
                id: *id,
                email_ids: email_ids@,
            },
            IndexWrite::EmailTickets { id, ticket_ids } => IndexWriteView::EmailTickets {
                id: *id,
                ticket_ids: ticket_ids@,
            },
            IndexWrite::DeleteEmail { id } => IndexWriteView::DeleteEmail { id: *id },
        }
    }
}

/// The status that the index shows for the ticket `id` after the writes
/// `log`: that of the last write that set it, if there was one.
pub open spec fn shown_status(log: Seq<IndexWriteView>, id: u128) -> Option<TicketStatus>
    decreases log.len(),
{
    if log.len() == 0 {
        None
    } else {
        match log.last() {
            IndexWriteView::PutTicket(t) if t.id == id => Some(t.status),
            IndexWriteView::TicketStatus { id: i, status, .. } if i == id => Some(status),
            _ => shown_status(log.drop_last(), id),
        }
    }
}

/// Whether the index shows the message `id` as analyzed after the writes
/// `log`; `None` where it shows no such message.
pub open spec fn shown_analyzed(log: Seq<IndexWriteView>, id: u128) -> Option<bool>
    decreases log.len(),
{
    if log.len() == 0 {
        None
    } else {
        match log.last() {
            IndexWriteView::PutEmail(m) if m.id == id => Some(m.analyzed),
            IndexWriteView::EmailAnalyzed { id: i } if i == id => Some(true),
            IndexWriteView::DeleteEmail { id: i } if i == id => None,
            _ => shown_analyzed(log.drop_last(), id),
        }
    }
}

/// The search index as a value: the writes that reached it, oldest first,
/// and whether it can be reached now.
pub struct SearchIndexView {
    pub log: Seq<IndexWriteView>,
    pub reachable: bool,
}

/// The search index, as the writes that reached it. A caller that keeps
/// the index elsewhere hands in an empty one and sends on what it finds in
/// it afterwards.
pub struct SearchIndex {
    log: Vec<IndexWrite>,
    reachable: bool,
}

impl View for SearchIndex {
    type V = SearchIndexView;

    closed spec fn view(&self) -> SearchIndexView {
        SearchIndexView {
            log: self.log@.map_values(|w: IndexWrite| w@),
            reachable: self.reachable,
        }
    }
}

/// What a write to an index that cannot be reached comes back with.
pub open spec fn unreachable_error(e: ESError) -> bool {
    e matches ESError::Elastic(m) && m@ == "search index unreachable"@
}

impl SearchIndex {
    /// An index that can be reached and holds nothing.
    pub fn new() -> (r: SearchIndex)
        ensures
            r@ == (SearchIndexView { log: Seq::empty(), reachable: true }),
    {
        let r = SearchIndex { log: Vec::new(), reachable: true };
        proof {
            assert(r@.log =~= Seq::empty());
        }
        r
    }

    /// Says whether the index can be reached from now on.
    pub fn set_reachable(&mut self, reachable: bool)
        ensures
            final(self)@ == (SearchIndexView { reachable, ..old(self)@ }),
    {
        self.reachable = reachable;
    }

    /// Whether the index can be reached.
    pub fn is_reachable(&self) -> (r: bool)
        ensures
            r == self@.reachable,
    {
        self.reachable
    }

    /// Sends one write. An index that cannot be reached stays as it is and
    /// an error comes back.
    pub fn write(&mut self, w: IndexWrite) -> (r: Result<(), ESError>)
        ensures
            r is Ok <==> old(self)@.reachable,
            r is Ok ==> final(self)@ == (SearchIndexView {
                log: old(self)@.log.push(w@),
                ..old(self)@
            }),
            r matches Err(e) ==> final(self)@ == old(self)@ && unreachable_error(e),
    {
        if !self.reachable {
            return Err(ESError::Elastic("search index unreachable".to_owned()));
        }
        self.log.push(w);
        proof {
            assert(self@.log =~= old(self)@.log.push(w@));
        }
        Ok(())
    }

    /// How many writes reached the index.
    pub fn len(&self) -> (r: usize)
        ensures
            r == self@.log.len(),
    {
        self.log.len()
    }

    /// The write that reached the index as its `i`-th.
    pub fn get(&self, i: usize) -> (r: &IndexWrite)
        requires
            i < self@.log.len(),
        ensures
            r@ == self@.log[i as int],
    {
        &self.log[i]
    }

    /// The status that the index shows for the ticket `id`, if it shows
    /// one.
    pub fn ticket_status(&self, id: u128) -> (r: Option<TicketStatus>)
        ensures
            r == shown_status(self@.log, id),
    {
        let mut i: usize = self.log.len();
        proof {
            assert(self@.log.take(i as int) == self@.log);
        }
        while i > 0
            invariant
                0 <= i <= self.log@.len(),
                shown_status(self@.log, id) == shown_status(self@.log.take(i as int), id),
            decreases i,
        {
            proof {
                assert(self@.log.take(i as int).drop_last() == self@.log.take(i - 1));
                assert(self@.log.take(i as int).last() == self.log@[i - 1]@);
            }
            match &self.log[i - 1] {
                IndexWrite::PutTicket(t) => {
                    if t.id == id {
                        return Some(t.status);
                    }
                },
                IndexWrite::TicketStatus { id: j, status, .. } => {
                    if *j == id {
                        return Some(*status);
                    }
                },
                _ => {},
            }
            i -= 1;
        }
        None
    }

    /// Whether the index shows the message `id` as analyzed; `None` where
    /// it shows no such message.
    pub fn email_analyzed(&self, id: u128) -> (r: Option<bool>)
        ensures
            r == shown_analyzed(self@.log, id),
    {
        let mut i: usize = self.log.len();
        proof {
            assert(self@.log.take(i as int) == self@.log);
        }
        while i > 0
            invariant
                0 <= i <= self.log@.len(),
                shown_analyzed(self@.log, id) == shown_analyzed(self@.log.take(i as int), id),
            decreases i,
        {
            proof {
                assert(self@.log.take(i as int).drop_last() == self@.log.take(i - 1));
                assert(self@.log.take(i as int).last() == self.log@[i - 1]@);
            }
            match &self.log[i - 1] {
                IndexWrite::PutEmail(m) => {
                    if m.id == id {
                        return Some(m.analyzed);
                    }
                },
                IndexWrite::EmailAnalyzed { id: j } => {
                    if *j == id {
                        return Some(true);
                    }
                },
                IndexWrite::DeleteEmail { id: j } => {
                    if *j == id {
                        return None;
                    }
                },
                _ => {},
            }
            i -= 1;
        }
        None
    }
}

/// The index after a write was tried: with the write where the index can
/// be reached, as before where it cannot.
pub open spec fn after_write(index: SearchIndexView, w: IndexWriteView) -> SearchIndexView {
    if index.reachable {
        SearchIndexView { log: index.log.push(w), ..index }
    } else {
        index
    }
}

/// Sends one write and lets a failure pass: the index is a convenience, and
/// what it misses never fails the operation that wrote to it. Says whether
/// the write arrived.
pub fn sync(index: &mut SearchIndex, w: IndexWrite) -> (r: bool)
    ensures
        r == old(index)@.reachable,
        final(index)@ == after_write(old(index)@, w@),
{
    match index.write(w) {
        Ok(()) => true,
        Err(_) => false,
    }
}

/// The collections of the index, one for each kind of entity.
#[derive(Debug, Clone, Copy, PartialEq, Eq, Structural)]
pub enum Collection {
    Emails,
    Tickets,
}

/// How the index treats a field.
#[derive(Debug, Clone, Copy, PartialEq, Eq, Structural)]
pub enum FieldKind {
    /// Matched exactly
    Keyword,
    /// Analyzed: lower-cased, without stop words, stemmed
    Text,
    /// A point in time
    Date,
    Boolean,
    /// An IP address
    Ip,
    /// A number with a fraction
    Float,
}

/// A field of a collection's schema.
#[derive(Debug, Clone, Copy)]
pub struct Field {
    pub name: &'static str,
    pub kind: FieldKind,
}

impl Collection {
    /// The collection's name in the index.
    pub open spec fn name(self) -> Seq<char> {
        match self {
            Collection::Emails => "emails"@,
            Collection::Tickets => "tickets"@,
        }
    }

    /// The collection that `name` names, if it names one.
    pub open spec fn named(name: Seq<char>) -> Option<Collection> {
        if name == "emails"@ {
            Some(Collection::Emails)
        } else if name == "tickets"@ {
            Some(Collection::Tickets)
        } else {
            None
        }
    }

    /// The name of the analyzer that the collection's text fields use.
    pub open spec fn analyzer(self) -> Seq<char> {
        match self {
            Collection::Emails => "email_analyzer"@,
            Collection::Tickets => "ticket_analyzer"@,
        }
    }

    /// The fields of the collection's schema, in order.
    pub open spec fn schema(self) -> Seq<(Seq<char>, FieldKind)> {
        match self {
            Collection::Emails => seq![
                ("id"@, FieldKind::Keyword),
                ("sender"@, FieldKind::Text),
                ("recipients"@, FieldKind::Text),
                ("subject"@, FieldKind::Text),
                ("body"@, FieldKind::Text),
                ("received_at"@, FieldKind::Date),
                ("analyzed"@, FieldKind::Boolean),
                ("is_sent"@, FieldKind::Boolean),
                ("ticket_ids"@, FieldKind::Keyword),
            ],
            Collection::Tickets => seq![
                ("id"@, FieldKind::Keyword),
                ("ticket_type"@, FieldKind::Keyword),
                ("status"@, FieldKind::Keyword),
                ("ip_address"@, FieldKind::Ip),
                ("subject"@, FieldKind::Text),
                ("description"@, FieldKind::Text),
                ("confidence_score"@, FieldKind::Float),
                ("identified_threats"@, FieldKind::Keyword),
                ("extracted_indicators"@, FieldKind::Keyword),
                ("analysis_summary"@, FieldKind::Text),
                ("created_at"@, FieldKind::Date),
                ("updated_at"@, FieldKind::Date),
                ("email_ids"@, FieldKind::Keyword),
            ],
        }
    }

    /// The fields that a free-text query is matched against, the subject
    /// counting twice.
    pub open spec fn searched(self) -> Seq<Seq<char>> {
        match self {
            Collection::Emails => seq!["subject^2"@, "body"@, "sender"@, "recipients"@],
            Collection::Tickets => seq!["subject^2"@, "description"@, "ip_address"@],
        }
    }

    /// The field by which results are ordered, newest first.
    pub open spec fn ordered_by(self) -> Seq<char> {
        match self {
            Collection::Emails => "received_at"@,
            Collection::Tickets => "created_at"@,
        }
    }

    /// The collection's name in the index.
    pub fn as_str(&self) -> (r: &'static str)
        ensures
            r@ == self.name(),
    {
        match self {
            Collection::Emails => "emails",
            Collection::Tickets => "tickets",
        }
    }

    /// The collection that `name` names. Any other name is invalid input.
    pub fn from_name(name: &str) -> (r: Result<Collection, ESError>)
        ensures
            (match r {
                Ok(c) => Some(c),
                Err(_) => None,
            }) == Collection::named(name@),
            r matches Err(e) ==> (e matches ESError::InvalidInput(m) && m@ == "Invalid index name"@),
    {
        if str_eq(name, "emails") {
            Ok(Collection::Emails)
        } else if str_eq(name, "tickets") {
            Ok(Collection::Tickets)
        } else {
            Err(ESError::InvalidInput("Invalid index name".to_owned()))
        }
    }

    /// The name of the analyzer that the collection's text fields use.
    pub fn analyzer_name(&self) -> (r: &'static str)
        ensures
            r@ == self.analyzer(),
    {
        match self {
            Collection::Emails => "email_analyzer",
            Collection::Tickets => "ticket_analyzer",
        }
    }

    /// The fields of the collection's schema, in order.
    pub fn fields(&self) -> (r: Vec<Field>)
        ensures
            r@.map_values(|f: Field| (f.name@, f.kind)) == self.schema(),
    {
        let r = match self {
            Collection::Emails => vec![
                Field { name: "id", kind: FieldKind::Keyword },
                Field { name: "sender", kind: FieldKind::Text },
                Field { name: "recipients", kind: FieldKind::Text },
                Field { name: "subject", kind: FieldKind::Text },
                Field { name: "body", kind: FieldKind::Text },
                Field { name: "received_at", kind: FieldKind::Date },
                Field { name: "analyzed", kind: FieldKind::Boolean },
                Field { name: "is_sent", kind: FieldKind::Boolean },
                Field { name: "ticket_ids", kind: FieldKind::Keyword },
            ],
            Collection::Tickets => vec![
                Field { name: "id", kind: FieldKind::Keyword },
                Field { name: "ticket_type", kind: FieldKind::Keyword },
                Field { name: "status", kind: FieldKind::Keyword },
                Field { name: "ip_address", kind: FieldKind::Ip },
                Field { name: "subject", kind: FieldKind::Text },
                Field { name: "description", kind: FieldKind::Text },
                Field { name: "confidence_score", kind: FieldKind::Float },
                Field { name: "identified_threats", kind: FieldKind::Keyword },
                Field { name: "extracted_indicators", kind: FieldKind::Keyword },
                Field { name: "analysis_summary", kind: FieldKind::Text },
                Field { name: "created_at", kind: FieldKind::Date },
                Field { name: "updated_at", kind: FieldKind::Date },
                Field { name: "email_ids", kind: FieldKind::Keyword },
            ],
        };
        proof {
            assert(r@.map_values(|f: Field| (f.name@, f.kind)) =~= self.schema());
        }
        r
    }

    /// The fields that a free-text query is matched against.
    pub fn searched_fields(&self) -> (r: Vec<&'static str>)
        ensures
            r@.map_values(|f: &'static str| f@) == self.searched(),
    {
        let r = match self {
            Collection::Emails => vec!["subject^2", "body", "sender", "recipients"],
            Collection::Tickets => vec!["subject^2", "description", "ip_address"],
        };
        proof {
            assert(r@.map_values(|f: &'static str| f@) =~= self.searched());
        }
        r
    }

    /// The field by which results are ordered, newest first.
    pub fn sort_field(&self) -> (r: &'static str)
        ensures
            r@ == self.ordered_by(),
    {
        match self {
            Collection::Emails => "received_at",
            Collection::Tickets => "created_at",
        }
    }
}

/// What to do so that the collection named `index` is there: nothing where
/// it `exists` already, whatever its name; otherwise to create it with its
/// schema. A name that names no collection is invalid input.
pub open spec fn provision(exists: bool, index: Seq<char>) -> Result<Option<Collection>, ()> {
    if exists {
        Ok(None)
    } else {
        match Collection::named(index) {
            Some(c) => Ok(Some(c)),
            None => Err(()),
        }
    }
}

/// Decides what to do so that the collection named `index` is there, given
/// whether it `exists`: `None` where there is nothing to do, the
/// collection to create otherwise.
pub fn ensure_index(exists: bool, index: &str) -> (r: Result<Option<Collection>, ESError>)
    ensures
        (match r {
            Ok(c) => Ok(c),
            Err(_) => Err(()),
        }) == provision(exists, index@),
        r matches Err(e) ==> (e matches ESError::InvalidInput(m) && m@ == "Invalid index name"@),
{
    if exists {
        return Ok(None);
    }
    let c = Collection::from_name(index)?;
    Ok(Some(c))
}

/// Whether an HTTP status says that the request succeeded.
pub open spec fn is_success(status: u16) -> bool {
    200 <= status < 300
}

/// What is said of a request that the index answered with the status
/// `status`, shown as its number and the reason `reason`.
pub open spec fn failure_text(what: Seq<char>, status: u16, reason: Seq<char>) -> Seq<char> {
    what + decimal(status as nat) + " "@ + reason
}

fn failure(what: &str, status: u16, reason: &str) -> (r: ESError)
    ensures
        r matches ESError::InvalidInput(m) && m@ == failure_text(what@, status, reason@),
{
    let mut m = what.to_owned();
    let code = decimal_string(status as u64);
    m.append(code.as_str());
    m.append(" ");
    m.append(reason);
    ESError::InvalidInput(m)
}

/// Reads the answer to a request that writes a document: a success status
/// is success, any other is invalid input that says which.
pub fn index_document(status: u16, reason: &str) -> (r: Result<(), ESError>)
    ensures
        r is Ok <==> is_success(status),
        r matches Err(e) ==> (e matches ESError::InvalidInput(m) && m@ == failure_text(
            "Failed to index document: "@,
            status,
            reason@,
        )),
{
    if 200 <= status && status < 300 {
        Ok(())
    } else {
        Err(failure("Failed to index document: ", status, reason))
    }
}

/// Reads the answer to a request that changes a document.
pub fn update_document(status: u16, reason: &str) -> (r: Result<(), ESError>)
    ensures
        r is Ok <==> is_success(status),
        r matches Err(e) ==> (e matches ESError::InvalidInput(m) && m@ == failure_text(
            "Failed to update document: "@,
            status,
            reason@,
        )),
{
    if 200 <= status && status < 300 {
        Ok(())
    } else {
        Err(failure("Failed to update document: ", status, reason))
    }
}

/// Reads the answer to a request that removes a document: that the
/// document was not there is success too.
pub fn delete_document(status: u16) -> (r: Result<(), ESError>)
    ensures
        r is Ok <==> is_success(status) || status == 404,
        r matches Err(e) ==> (e matches ESError::InvalidInput(m) && m@
            == "Failed to delete document: "@ + decimal(status as nat)),
{
    if (200 <= status && status < 300) || status == 404 {
        Ok(())
    } else {
        let code = decimal_string(status as u64);
        Err(ESError::InvalidInput("Failed to delete document: ".to_owned().concat(code.as_str())))
    }
}

/// Reads the answer to a request that removes a collection: that the
/// collection was not there is success too.
pub fn delete_index(status: u16, reason: &str) -> (r: Result<(), ESError>)
    ensures
        r is Ok <==> is_success(status) || status == 404,
        r matches Err(e) ==> (e matches ESError::InvalidInput(m) && m@ == failure_text(
            "Failed to delete index: "@,
            status,
            reason@,
        )),
{
    if (200 <= status && status < 300) || status == 404 {
        Ok(())
    } else {
        Err(failure("Failed to delete index: ", status, reason))
    }
}

/// What a search found: the documents of one page, and how many matched in
/// all.
#[derive(Debug)]
pub struct SearchResult<T> {
    /// How many documents matched
    pub total: u64,
    /// The documents of the page
    pub hits: Vec<T>,
}

/// The member `key` of the member `outer` of `v`.
pub open spec fn nested(v: serde_json::Value, outer: Seq<char>, key: Seq<char>) -> Option<
    serde_json::Value,
> {
    match json_member(v, outer) {
        Some(m) => json_member(m, key),
        None => None,
    }
}

/// How many documents the answer `body` says matched: the number at
/// `hits.total.value`, 0 where none stands there.
pub open spec fn total_of(body: serde_json::Value) -> u64 {
    match nested(body, "hits"@, "total"@) {
        Some(t) => match json_member(t, "value"@) {
            Some(n) => match json_unsigned(n) {
                Some(n) => n,
                None => 0,
            },
            None => 0,
        },
        None => 0,
    }
}

/// The `_source` of each of `hits` that has one, in order.
pub open spec fn sources_of(hits: Seq<serde_json::Value>) -> Seq<serde_json::Value>
    decreases hits.len(),
{
    if hits.len() == 0 {
        Seq::empty()
    } else {
        match json_member(hits.last(), "_source"@) {
            Some(s) => sources_of(hits.drop_last()).push(s),
            None => sources_of(hits.drop_last()),
        }
    }
}

/// The documents of the answer `body`: the `_source` of each item of
/// `hits.hits`, none where no array stands there.
pub open spec fn documents_of(body: serde_json::Value) -> Seq<serde_json::Value> {
    match nested(body, "hits"@, "hits"@) {
        Some(h) => match json_items(h) {
            Some(hits) => sources_of(hits),
            None => Seq::empty(),
        },
        None => Seq::empty(),
    }
}

fn read_total(body: &serde_json::Value) -> (r: u64)
    ensures
        r == total_of(*body),
{
    let hits = match member(body, "hits") {
        None => {
            return 0;
        },
        Some(h) => h,
    };
    let total = match member(hits, "total") {
        None => {
            return 0;
        },
        Some(t) => t,
    };
    match member(total, "value") {
        None => 0,
        Some(n) => match unsigned(n) {
            None => 0,
            Some(n) => n,
        },
    }
}

/// Reads the answer to a search: status 404 says that the collection is
/// not there; any other answer gives the total it names and the documents
/// it holds, each still as JSON.
pub fn search<'a>(status: u16, body: &'a serde_json::Value) -> (r: Result<
    SearchResult<&'a serde_json::Value>,
    ESError,
>)
    ensures
        r is Ok <==> status != 404,
        r matches Err(e) ==> e is NotFound,
        r matches Ok(found) ==> found.total == total_of(*body) && found.hits@.map_values(
            |d: &serde_json::Value| *d,
        ) == documents_of(*body),
{
    if status == 404 {
        return Err(ESError::NotFound);
    }
    let total = read_total(body);
    let mut out: Vec<&'a serde_json::Value> = Vec::new();
    let listed = match member(body, "hits") {
        None => None,
        Some(h) => match member(h, "hits") {
            None => None,
            Some(a) => items(a),
        },
    };
    proof {
        assert(out@.map_values(|d: &serde_json::Value| *d) =~= Seq::empty());
    }
    match listed {
        None => {},
        Some(hits) => {
            let mut i: usize = 0;
            proof {
                assert(hits@.take(0) =~= Seq::empty());
            }
            while i < hits.len()
                invariant
                    0 <= i <= hits@.len(),
                    out@.map_values(|d: &serde_json::Value| *d) == sources_of(hits@.take(i as int)),
                decreases hits@.len() - i,
            {
                proof {
                    assert(hits@.take(i + 1).drop_last() == hits@.take(i as int));
                    assert(hits@.take(i + 1).last() == hits@[i as int]);
                }
                match member(&hits[i], "_source") {
                    None => {},
                    Some(s) => {
                        let ghost before = out@.map_values(|d: &serde_json::Value| *d);
                        out.push(s);
                        proof {
                            assert(out@.map_values(|d: &serde_json::Value| *d) =~= before.push(*s));
                        }
                    },
                }
                i += 1;
            }
            proof {
                assert(hits@.take(hits@.len() as int) == hits@);
            }
        },
    }
    Ok(SearchResult { total, hits: out })
}

/// A condition that narrows a search.
#[derive(Debug, Clone, Copy, PartialEq, Eq, Structural)]
pub enum Filter {
    /// Tickets with this status
    Status(TicketStatus),
    /// Tickets of this category
    Category(TicketType),
    /// Messages that were sent, or those that were received
    Sent(bool),
    /// Documents that are linked to something, or those that are not
    Linked(bool),
}

/// A search to run: free text against a collection, narrowed by filters,
/// newest first, one page of it.
#[derive(Debug)]
pub struct SearchRequest {
    pub collection: Collection,
    pub query: String,
    pub filters: Vec<Filter>,
    /// How many results to skip
    pub from: usize,
    /// How many results to return
    pub size: usize,
}

/// A search as a value.
pub struct SearchRequestView {
    pub collection: Collection,
    pub query: Seq<char>,
    pub filters: Seq<Filter>,
    pub from: usize,
    pub size: usize,
}

impl View for SearchRequest {
    type V = SearchRequestView;

    open spec fn view(&self) -> SearchRequestView {
        SearchRequestView {
            collection: self.collection,
            query: self.query@,
            filters: self.filters@,
            from: self.from,
            size: self.size,
        }
    }
}

/// Where a page starts when nothing is said: at the first result.
pub const DEFAULT_FROM: usize = 0;

/// How long a page is when nothing is said.
pub const DEFAULT_SIZE: usize = 50;

} // verus!
