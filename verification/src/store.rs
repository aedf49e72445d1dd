//! The relational store: messages, tickets, and the associations between
//! them. It is the source of truth; everything else is a projection of it.
//!
//! A message's identifier is unique, and so is a ticket's. An association
//! names a message and a ticket that both exist, and no association stands
//! twice. Every operation keeps that.

use vstd::prelude::*;
use crate::models::email::{Email, EmailView};
use crate::models::ticket::{later, Ticket, TicketError, TicketStatus, TicketView};

verus! {

/// Why the store refused an operation.
#[derive(Debug, Clone, Copy, PartialEq, Eq, Structural)]
pub enum StoreError {
    /// A row with this identifier is there already
    DuplicateKey,
    /// A row that the operation refers to is missing, or one that it removes
    /// is still referred to
    ForeignKey,
    /// The row to change is not there
    NoRow,
}

impl StoreError {
    /// The refusal in words.
    pub open spec fn message(self) -> Seq<char> {
        match self {
            StoreError::DuplicateKey => "duplicate key value violates unique constraint"@,
            StoreError::ForeignKey => "foreign key constraint violated"@,
            StoreError::NoRow => "query returned no rows"@,
        }
    }

    /// The refusal in words.
    pub fn to_string(&self) -> (r: String)
        ensures
            r@ == self.message(),
    {
        match self {
            StoreError::DuplicateKey => "duplicate key value violates unique constraint".to_owned(),
            StoreError::ForeignKey => "foreign key constraint violated".to_owned(),
            StoreError::NoRow => "query returned no rows".to_owned(),
        }
    }
}

/// The tickets that `links` associate with the message `email`, in the order
/// of the associations.
pub open spec fn tickets_of(links: Seq<(u128, u128)>, email: u128) -> Seq<u128>
    decreases links.len(),
{
    if links.len() == 0 {
        Seq::empty()
    } else {
        let rest = tickets_of(links.drop_last(), email);
        if links.last().0 == email {
            rest.push(links.last().1)
        } else {
            rest
        }
    }
}

/// The messages that `links` associate with the ticket `ticket`, in the
/// order of the associations.
pub open spec fn emails_of(links: Seq<(u128, u128)>, ticket: u128) -> Seq<u128>
    decreases links.len(),
{
    if links.len() == 0 {
        Seq::empty()
    } else {
        let rest = emails_of(links.drop_last(), ticket);
        if links.last().1 == ticket {
            rest.push(links.last().0)
        } else {
            rest
        }
    }
}

/// How many rows of `links` associate the message `email` with the ticket
/// `ticket`.
pub open spec fn count_links(links: Seq<(u128, u128)>, email: u128, ticket: u128) -> nat
    decreases links.len(),
{
    if links.len() == 0 {
        0
    } else {
        count_links(links.drop_last(), email, ticket) + if links.last() == (email, ticket) {
            1nat
        } else {
            0nat
        }
    }
}

/// The store that holds the given messages and tickets as rows, and the
/// given associations.
pub open spec fn rows_of(
    emails: Seq<EmailView>,
    tickets: Seq<TicketView>,
    links: Seq<(u128, u128)>,
) -> StoreView {
    StoreView {
        emails: emails.map_values(|m: EmailView| m.row()),
        tickets: tickets.map_values(|t: TicketView| t.row()),
        links,
        journal: Seq::empty(),
    }
}

/// Whether two stores hold the same rows.
pub open spec fn same_rows(s: StoreView, t: StoreView) -> bool {
    s.emails == t.emails && s.tickets == t.tickets && s.links == t.links
}

/// Accepts every association but that of `email` with `ticket`.
pub open spec fn differs_from(email: u128, ticket: u128) -> spec_fn((u128, u128)) -> bool {
    |l: (u128, u128)| l != (email, ticket)
}

/// Accepts the associations of every message but `email`.
pub open spec fn not_of_email(email: u128) -> spec_fn((u128, u128)) -> bool {
    |l: (u128, u128)| l.0 != email
}

/// Accepts every message but `email`.
pub open spec fn not_email(email: u128) -> spec_fn(EmailView) -> bool {
    |m: EmailView| m.id != email
}

/// A change to the store, as whoever keeps the rows elsewhere has to
/// repeat it there.
#[derive(Debug, Clone, Copy, PartialEq, Eq, Structural)]
pub enum Change {
    /// The message with this identifier was inserted
    InsertEmail(u128),
    /// The ticket with this identifier was inserted
    InsertTicket(u128),
    /// The message was associated with the ticket
    Link(u128, u128),
    /// The association of the message with the ticket was removed
    Unlink(u128, u128),
    /// Every association of the message was removed
    UnlinkAll(u128),
    /// The message with this identifier was removed
    DeleteEmail(u128),
    /// The message with this identifier was marked as analyzed
    SetAnalyzed(u128),
    /// Status and time of change of the ticket with this identifier were
    /// set
    SetStatus(u128),
}

/// The store as a value: its rows, in the order in which they were
/// inserted, and the changes made to it since it was loaded.
pub struct StoreView {
    pub emails: Seq<EmailView>,
    pub tickets: Seq<TicketView>,
    /// Associations, each a message's identifier and a ticket's
    pub links: Seq<(u128, u128)>,
    /// The changes, oldest first
    pub journal: Seq<Change>,
}

impl StoreView {
    pub open spec fn has_email(self, id: u128) -> bool {
        exists|i: int| 0 <= i < self.emails.len() && (#[trigger] self.emails[i]).id == id
    }

    pub open spec fn has_ticket(self, id: u128) -> bool {
        exists|i: int| 0 <= i < self.tickets.len() && (#[trigger] self.tickets[i]).id == id
    }

    pub open spec fn linked(self, email: u128, ticket: u128) -> bool {
        self.links.contains((email, ticket))
    }

    /// Whether any ticket is associated with the message `email`.
    pub open spec fn has_links(self, email: u128) -> bool {
        exists|i: int| 0 <= i < self.links.len() && (#[trigger] self.links[i]).0 == email
    }

    /// Where the row of the message `id` stands.
    pub open spec fn email_index(self, id: u128) -> int {
        choose|i: int| 0 <= i < self.emails.len() && (#[trigger] self.emails[i]).id == id
    }

    /// Where the row of the ticket `id` stands.
    pub open spec fn ticket_index(self, id: u128) -> int {
        choose|i: int| 0 <= i < self.tickets.len() && (#[trigger] self.tickets[i]).id == id
    }

    /// The row of the message `id`.
    pub open spec fn email_row(self, id: u128) -> EmailView {
        self.emails[self.email_index(id)]
    }

    /// The row of the ticket `id`.
    pub open spec fn ticket_row(self, id: u128) -> TicketView {
        self.tickets[self.ticket_index(id)]
    }

    /// The message `id`, with the tickets associated with it.
    pub open spec fn email(self, id: u128) -> EmailView {
        self.email_row(id).with_tickets(tickets_of(self.links, id))
    }

    /// The ticket `id`, with the messages associated with it.
    pub open spec fn ticket(self, id: u128) -> TicketView {
        self.ticket_row(id).with_emails(emails_of(self.links, id))
    }

    /// What every store holds.
    pub open spec fn wf(self) -> bool {
        &&& forall|i: int, j: int|
            0 <= i < j < self.emails.len() ==> (#[trigger] self.emails[i]).id != (
            #[trigger] self.emails[j]).id
        &&& forall|i: int, j: int|
            0 <= i < j < self.tickets.len() ==> (#[trigger] self.tickets[i]).id != (
            #[trigger] self.tickets[j]).id
        &&& self.links.no_duplicates()
        &&& forall|i: int|
            0 <= i < self.links.len() ==> self.has_email((#[trigger] self.links[i]).0)
                && self.has_ticket(self.links[i].1)
        &&& forall|i: int|
            0 <= i < self.emails.len() ==> (#[trigger] self.emails[i]).ticket_ids.len() == 0
        &&& forall|i: int|
            0 <= i < self.tickets.len() ==> (#[trigger] self.tickets[i]).email_ids.len() == 0
                && self.tickets[i].valid()
    }

    /// Every message, each with the tickets associated with it.
    pub open spec fn listed_emails(self) -> Seq<EmailView> {
        Seq::new(
            self.emails.len(),
            |i: int| self.emails[i].with_tickets(tickets_of(self.links, self.emails[i].id)),
        )
    }

    /// Every ticket, each with the messages associated with it.
    pub open spec fn listed_tickets(self) -> Seq<TicketView> {
        Seq::new(
            self.tickets.len(),
            |i: int| self.tickets[i].with_emails(emails_of(self.links, self.tickets[i].id)),
        )
    }

    /// The store with no rows.
    pub open spec fn empty() -> StoreView {
        StoreView {
            emails: Seq::empty(),
            tickets: Seq::empty(),
            links: Seq::empty(),
            journal: Seq::empty(),
        }
    }

    /// The store after the message `m` was inserted.
    pub open spec fn with_email(self, m: EmailView) -> StoreView {
        StoreView {
            emails: self.emails.push(m.row()),
            journal: self.journal.push(Change::InsertEmail(m.id)),
            ..self
        }
    }

    /// The store after the ticket `t` was inserted.
    pub open spec fn with_ticket(self, t: TicketView) -> StoreView {
        StoreView {
            tickets: self.tickets.push(t.row()),
            journal: self.journal.push(Change::InsertTicket(t.id)),
            ..self
        }
    }

    /// The store after the message `email` was associated with the ticket
    /// `ticket`: unchanged where the association stood already.
    pub open spec fn with_link(self, email: u128, ticket: u128) -> StoreView {
        if self.linked(email, ticket) {
            self
        } else {
            StoreView {
                links: self.links.push((email, ticket)),
                journal: self.journal.push(Change::Link(email, ticket)),
                ..self
            }
        }
    }

    /// The store without the association of `email` with `ticket`:
    /// unchanged where there was none.
    pub open spec fn without_link(self, email: u128, ticket: u128) -> StoreView {
        if self.linked(email, ticket) {
            StoreView {
                links: self.links.filter(differs_from(email, ticket)),
                journal: self.journal.push(Change::Unlink(email, ticket)),
                ..self
            }
        } else {
            self
        }
    }

    /// The store without any association of the message `email`.
    pub open spec fn without_links_of(self, email: u128) -> StoreView {
        StoreView {
            links: self.links.filter(not_of_email(email)),
            journal: self.journal.push(Change::UnlinkAll(email)),
            ..self
        }
    }

    /// The store without the row of the message `email`: unchanged where
    /// there was none.
    pub open spec fn without_email(self, email: u128) -> StoreView {
        if self.has_email(email) {
            StoreView {
                emails: self.emails.filter(not_email(email)),
                journal: self.journal.push(Change::DeleteEmail(email)),
                ..self
            }
        } else {
            self
        }
    }

    /// The store after the message `email` was marked as analyzed:
    /// unchanged where there is no such message.
    pub open spec fn with_analyzed(self, email: u128) -> StoreView {
        if self.has_email(email) {
            StoreView {
                emails: self.emails.map_values(
                    |m: EmailView|
                        if m.id == email {
                            m.analyzed()
                        } else {
                            m
                        },
                ),
                journal: self.journal.push(Change::SetAnalyzed(email)),
                ..self
            }
        } else {
            self
        }
    }

    /// The store after the status of the ticket `ticket` was set at `now`:
    /// unchanged where there is no such ticket.
    pub open spec fn with_status(self, ticket: u128, status: TicketStatus, now: i64) -> StoreView {
        if self.has_ticket(ticket) {
            StoreView {
                tickets: self.tickets.map_values(
                    |t: TicketView|
                        if t.id == ticket {
                            t.with_status(status, now)
                        } else {
                            t
                        },
                ),
                journal: self.journal.push(Change::SetStatus(ticket)),
                ..self
            }
        } else {
            self
        }
    }
}

/// Removing the one item that `pred` rejects is filtering by `pred`.
pub proof fn lemma_remove_is_filter<A>(s: Seq<A>, i: int, pred: spec_fn(A) -> bool)
    requires
        0 <= i < s.len(),
        !pred(s[i]),
        forall|j: int| 0 <= j < s.len() && j != i ==> pred(#[trigger] s[j]),
    ensures
        s.filter(pred) == s.remove(i),
    decreases s.len(),
{
    reveal(Seq::filter);
    let n = s.len() as int;
    if i == n - 1 {
        lemma_filter_all(s.drop_last(), pred);
        assert(s.remove(i) == s.drop_last());
    } else {
        lemma_remove_is_filter(s.drop_last(), i, pred);
        assert(s.remove(i) == s.drop_last().remove(i).push(s.last()));
    }
}

/// Filtering by a `pred` that accepts every item changes nothing.
pub proof fn lemma_filter_all<A>(s: Seq<A>, pred: spec_fn(A) -> bool)
    requires
        forall|j: int| 0 <= j < s.len() ==> pred(#[trigger] s[j]),
    ensures
        s.filter(pred) == s,
    decreases s.len(),
{
    reveal(Seq::filter);
    if s.len() > 0 {
        lemma_filter_all(s.drop_last(), pred);
        assert(s.drop_last().push(s.last()) == s);
    }
}

/// What is left after filtering: the items that `pred` accepts, each as
/// often as before.
pub proof fn lemma_filter_distinct<A>(s: Seq<A>, pred: spec_fn(A) -> bool)
    requires
        s.no_duplicates(),
    ensures
        s.filter(pred).no_duplicates(),
        forall|x: A| #[trigger] s.filter(pred).contains(x) <==> s.contains(x) && pred(x),
    decreases s.len(),
{
    reveal(Seq::filter);
    if s.len() > 0 {
        let rest = s.drop_last();
        lemma_filter_distinct(rest, pred);
        let f = rest.filter(pred);
        assert(!rest.contains(s.last())) by {
            if rest.contains(s.last()) {
                let k = choose|k: int| 0 <= k < rest.len() && rest[k] == s.last();
                assert(s[k] == s[s.len() - 1]);
            }
        }
        assert(!f.contains(s.last()));
        assert(s.filter(pred).no_duplicates()) by {
            if pred(s.last()) {
                let g = f.push(s.last());
                assert forall|i: int, j: int| 0 <= i < g.len() && 0 <= j < g.len() && i
                    != j implies g[i] != g[j] by {
                    if i == f.len() {
                        assert(f.contains(f[j]));
                    } else if j == f.len() {
                        assert(f.contains(f[i]));
                    }
                }
            }
        }
        assert forall|x: A| #[trigger] s.filter(pred).contains(x) <==> s.contains(x) && pred(
            x,
        ) by {
            if s.contains(x) && pred(x) {
                let k = choose|k: int| 0 <= k < s.len() && s[k] == x;
                if k < s.len() - 1 {
                    assert(rest[k] == x);
                    assert(f.contains(x));
                    let m = choose|m: int| 0 <= m < f.len() && f[m] == x;
                    assert(s.filter(pred)[m] == x);
                } else {
                    assert(s.filter(pred) == f.push(x));
                    assert(s.filter(pred)[f.len() as int] == x);
                }
            }
            if s.filter(pred).contains(x) {
                let m = choose|m: int| 0 <= m < s.filter(pred).len() && s.filter(pred)[m] == x;
                if m < f.len() {
                    assert(f[m] == x);
                    assert(f.contains(x));
                    assert(rest.contains(x));
                    let k = choose|k: int| 0 <= k < rest.len() && rest[k] == x;
                    assert(s[k] == x);
                } else {
                    assert(x == s.last());
                    assert(s[s.len() - 1] == x);
                }
            }
        }
    }
}

/// The relational store.
pub struct Store {
    emails: Vec<Email>,
    tickets: Vec<Ticket>,
    links: Vec<(u128, u128)>,
    journal: Vec<Change>,
}

impl View for Store {
    type V = StoreView;

    closed spec fn view(&self) -> StoreView {
        StoreView {
            emails: self.emails@.map_values(|e: Email| e@),
            tickets: self.tickets@.map_values(|t: Ticket| t@),
            links: self.links@,
            journal: self.journal@,
        }
    }
}

impl Store {
    /// What every store holds.
    pub open spec fn wf(&self) -> bool {
        self@.wf()
    }

    /// A store with no rows.
    pub fn new() -> (r: Store)
        ensures
            r.wf(),
            r@ == StoreView::empty(),
    {
        let r = Store {
            emails: Vec::new(),
            tickets: Vec::new(),
            links: Vec::new(),
            journal: Vec::new(),
        };
        proof {
            assert(r@.emails =~= Seq::empty());
            assert(r@.tickets =~= Seq::empty());
        }
        r
    }

    /// Where the row of the message `id` stands, if there is one.
    fn find_email(&self, id: u128) -> (r: Option<usize>)
        ensures
            r is Some <==> self@.has_email(id),
            r matches Some(i) ==> i < self.emails@.len() && self.emails@[i as int].id == id,
    {
        let mut i: usize = 0;
        while i < self.emails.len()
            invariant
                0 <= i <= self.emails@.len(),
                forall|k: int| 0 <= k < i ==> (#[trigger] self@.emails[k]).id != id,
            decreases self.emails@.len() - i,
        {
            if self.emails[i].id == id {
                proof {
                    assert(self@.emails[i as int].id == id);
                }
                return Some(i);
            }
            i += 1;
        }
        None
    }

    /// Where the row of the ticket `id` stands, if there is one.
    fn find_ticket(&self, id: u128) -> (r: Option<usize>)
        ensures
            r is Some <==> self@.has_ticket(id),
            r matches Some(i) ==> i < self.tickets@.len() && self.tickets@[i as int].id == id,
    {
        let mut i: usize = 0;
        while i < self.tickets.len()
            invariant
                0 <= i <= self.tickets@.len(),
                forall|k: int| 0 <= k < i ==> (#[trigger] self@.tickets[k]).id != id,
            decreases self.tickets@.len() - i,
        {
            if self.tickets[i].id == id {
                proof {
                    assert(self@.tickets[i as int].id == id);
                }
                return Some(i);
            }
            i += 1;
        }
        None
    }

    /// Where the association of `email` with `ticket` stands, if it does.
    fn find_link(&self, email: u128, ticket: u128) -> (r: Option<usize>)
        ensures
            r is Some <==> self@.linked(email, ticket),
            r matches Some(i) ==> i < self.links@.len() && self.links@[i as int] == (email, ticket),
    {
        let mut i: usize = 0;
        while i < self.links.len()
            invariant
                0 <= i <= self.links@.len(),
                forall|k: int| 0 <= k < i ==> self.links@[k] != (email, ticket),
            decreases self.links@.len() - i,
        {
            if self.links[i].0 == email && self.links[i].1 == ticket {
                return Some(i);
            }
            i += 1;
        }
        None
    }

    /// Whether a message with the identifier `id` is stored.
    pub fn email_exists(&self, id: u128) -> (r: bool)
        ensures
            r == self@.has_email(id),
    {
        self.find_email(id).is_some()
    }

    /// Whether a ticket with the identifier `id` is stored.
    pub fn ticket_exists(&self, id: u128) -> (r: bool)
        ensures
            r == self@.has_ticket(id),
    {
        self.find_ticket(id).is_some()
    }

    /// Whether the message `email` is associated with the ticket `ticket`.
    pub fn is_linked(&self, email: u128, ticket: u128) -> (r: bool)
        ensures
            r == self@.linked(email, ticket),
    {
        self.find_link(email, ticket).is_some()
    }

    /// Inserts the message, unless one with its identifier is stored
    /// already: then nothing changes and `DuplicateKey` comes back.
    pub fn insert_email(&mut self, email: Email) -> (r: Result<(), StoreError>)
        requires
            old(self).wf(),
        ensures
            final(self).wf(),
            r is Ok <==> !old(self)@.has_email(email.id),
            r is Ok ==> final(self)@ == old(self)@.with_email(email@),
            r is Err ==> r == Err::<(), StoreError>(StoreError::DuplicateKey) && final(self)@ == old(
                self,
            )@,
    {
        if self.find_email(email.id).is_some() {
            return Err(StoreError::DuplicateKey);
        }
        let mut row = email;
        row.ticket_ids = Vec::new();
        proof {
            assert(row@ == email@.row());
        }
        let id = row.id;
        self.emails.push(row);
        self.journal.push(Change::InsertEmail(id));
        proof {
            let before = old(self)@;
            let after = self@;
            assert(after.emails =~= before.emails.push(email@.row()));
            assert(after.tickets =~= before.tickets);
            lemma_with_email_wf(before, email@);
        }
        Ok(())
    }

    /// Inserts the ticket. A ticket that cannot be kept is refused with a
    /// validation error that says why; one whose identifier is stored
    /// already, with a database error. Either way nothing changes.
    pub fn insert_ticket(&mut self, ticket: Ticket) -> (r: Result<u128, TicketError>)
        requires
            old(self).wf(),
        ensures
            final(self).wf(),
            r is Ok <==> ticket@.valid() && !old(self)@.has_ticket(ticket.id),
            r matches Ok(id) ==> id == ticket.id && final(self)@ == old(self)@.with_ticket(
                ticket@,
            ),
            r is Err ==> final(self)@ == old(self)@,
            r is Err && !ticket@.valid() ==> (r matches Err(TicketError::Validation(m)) && Some(m@)
                == crate::models::ticket::ticket_fault(ticket@)),
            r is Err && ticket@.valid() ==> (r matches Err(TicketError::Database(m)) && m@
                == StoreError::DuplicateKey.message()),
    {
        match ticket.check() {
            Err(e) => {
                return Err(e);
            },
            Ok(()) => {},
        }
        if self.find_ticket(ticket.id).is_some() {
            return Err(TicketError::Database(StoreError::DuplicateKey.to_string()));
        }
        let id = ticket.id;
        let mut row = ticket;
        row.email_ids = Vec::new();
        proof {
            assert(row@ == ticket@.row());
        }
        self.tickets.push(row);
        self.journal.push(Change::InsertTicket(id));
        proof {
            let before = old(self)@;
            let after = self@;
            assert(after.tickets =~= before.tickets.push(ticket@.row()));
            assert(after.emails =~= before.emails);
            lemma_with_ticket_wf(before, ticket@);
        }
        Ok(id)
    }

    /// Associates the message `email` with the ticket `ticket`. Where the
    /// association stands already nothing changes, and `false` comes back.
    /// Where the message or the ticket is missing, nothing changes and
    /// `ForeignKey` comes back.
    pub fn link(&mut self, email: u128, ticket: u128) -> (r: Result<bool, StoreError>)
        requires
            old(self).wf(),
        ensures
            final(self).wf(),
            r is Ok <==> old(self)@.has_email(email) && old(self)@.has_ticket(ticket),
            r matches Ok(inserted) ==> final(self)@ == old(self)@.with_link(email, ticket)
                && inserted == !old(self)@.linked(email, ticket),
            r is Err ==> r == Err::<bool, StoreError>(StoreError::ForeignKey) && final(self)@
                == old(self)@,
    {
        if self.find_email(email).is_none() || self.find_ticket(ticket).is_none() {
            return Err(StoreError::ForeignKey);
        }
        if self.find_link(email, ticket).is_some() {
            return Ok(false);
        }
        self.links.push((email, ticket));
        self.journal.push(Change::Link(email, ticket));
        proof {
            let before = old(self)@;
            assert(self@.emails =~= before.emails);
            assert(self@.tickets =~= before.tickets);
            lemma_with_link_wf(before, email, ticket);
        }
        Ok(true)
    }

    /// Removes the association of `email` with `ticket`, and says how many
    /// rows went: one, or none where there was no such association.
    pub fn unlink(&mut self, email: u128, ticket: u128) -> (r: usize)
        requires
            old(self).wf(),
        ensures
            final(self).wf(),
            final(self)@ == old(self)@.without_link(email, ticket),
            r == (if old(self)@.linked(email, ticket) { 1usize } else { 0usize }),
    {
        let ghost before = self@;
        let ghost pred = differs_from(email, ticket);
        proof {
            lemma_without_link_wf(before, email, ticket);
        }
        match self.find_link(email, ticket) {
            None => 0,
            Some(i) => {
                self.links.remove(i);
                self.journal.push(Change::Unlink(email, ticket));
                proof {
                    lemma_remove_is_filter(before.links, i as int, pred);
                    assert(self@.emails =~= before.emails);
                    assert(self@.tickets =~= before.tickets);
                }
                1
            },
        }
    }

    /// Removes every association of the message `email`, and says how many
    /// rows went.
    pub fn unlink_all(&mut self, email: u128) -> (r: usize)
        requires
            old(self).wf(),
        ensures
            final(self).wf(),
            final(self)@ == old(self)@.without_links_of(email),
            r == old(self)@.links.len() - final(self)@.links.len(),
            !final(self)@.has_links(email),
    {
        let ghost before = self@;
        let ghost pred = not_of_email(email);
        let mut kept: Vec<(u128, u128)> = Vec::new();
        let mut i: usize = 0;
        proof {
            reveal(Seq::filter);
            assert(self.links@.take(0) =~= Seq::empty());
        }
        while i < self.links.len()
            invariant
                0 <= i <= self.links@.len(),
                self@ == before,
                self.links@ == before.links,
                kept@ == before.links.take(i as int).filter(not_of_email(email)),
                kept@.len() <= i,
            decreases self.links@.len() - i,
        {
            proof {
                reveal(Seq::filter);
                assert(before.links.take(i + 1).drop_last() == before.links.take(i as int));
                assert(before.links.take(i + 1).last() == before.links[i as int]);
            }
            let l = self.links[i];
            if l.0 != email {
                kept.push(l);
            }
            i += 1;
        }
        proof {
            assert(before.links.take(before.links.len() as int) == before.links);
        }
        let n = self.links.len() - kept.len();
        self.links = kept;
        self.journal.push(Change::UnlinkAll(email));
        proof {
            assert(self@.emails =~= before.emails);
            assert(self@.tickets =~= before.tickets);
            lemma_without_links_of_wf(before, email);
        }
        n
    }

    /// Whether any ticket is associated with the message `email`.
    pub fn has_tickets(&self, email: u128) -> (r: bool)
        ensures
            r == self@.has_links(email),
    {
        let mut i: usize = 0;
        while i < self.links.len()
            invariant
                0 <= i <= self.links@.len(),
                forall|k: int| 0 <= k < i ==> (#[trigger] self@.links[k]).0 != email,
            decreases self.links@.len() - i,
        {
            if self.links[i].0 == email {
                proof {
                    assert(self@.links[i as int].0 == email);
                }
                return true;
            }
            i += 1;
        }
        false
    }

    /// Removes the row of the message `id`, and says how many rows went:
    /// one, or none where there was no such message. A message that a
    /// ticket is still associated with stays, and `ForeignKey` comes back.
    pub fn delete_email(&mut self, id: u128) -> (r: Result<usize, StoreError>)
        requires
            old(self).wf(),
        ensures
            final(self).wf(),
            r is Ok <==> !old(self)@.has_links(id),
            r matches Ok(n) ==> final(self)@ == old(self)@.without_email(id) && n == (if old(
                self,
            )@.has_email(id) {
                1usize
            } else {
                0usize
            }) && !final(self)@.has_email(id),
            r is Err ==> r == Err::<usize, StoreError>(StoreError::ForeignKey) && final(self)@
                == old(self)@,
    {
        if self.has_tickets(id) {
            return Err(StoreError::ForeignKey);
        }
        let ghost before = self@;
        let ghost pred = not_email(id);
        proof {
            lemma_without_email_wf(before, id);
        }
        match self.find_email(id) {
            None => Ok(0),
            Some(i) => {
                self.emails.remove(i);
                self.journal.push(Change::DeleteEmail(id));
                proof {
                    assert(before.emails[i as int].id == id);
                    assert forall|j: int| 0 <= j < before.emails.len() && j != i implies pred(
                        #[trigger] before.emails[j],
                    ) by {}
                    lemma_remove_is_filter(before.emails, i as int, pred);
                    assert(self@.emails =~= before.emails.remove(i as int));
                    assert(self@.tickets =~= before.tickets);
                }
                Ok(1)
            },
        }
    }

    /// Marks the message `id` as analyzed, and says how many rows changed:
    /// one, or none where there is no such message.
    pub fn set_analyzed(&mut self, id: u128) -> (r: usize)
        requires
            old(self).wf(),
        ensures
            final(self).wf(),
            final(self)@ == old(self)@.with_analyzed(id),
            r == (if old(self)@.has_email(id) { 1usize } else { 0usize }),
            r == 0 ==> final(self)@ == old(self)@,
    {
        let ghost before = self@;
        proof {
            lemma_with_analyzed_wf(before, id);
        }
        match self.find_email(id) {
            None => 0,
            Some(i) => {
                self.emails[i].analyzed = true;
                self.journal.push(Change::SetAnalyzed(id));
                proof {
                    assert(self@.emails =~= before.with_analyzed(id).emails) by {
                        assert forall|k: int| 0 <= k < before.emails.len() implies self@.emails[k]
                            == before.with_analyzed(id).emails[k] by {
                            if k != i {
                                assert(before.emails[k].id != before.emails[i as int].id);
                            }
                        }
                    }
                    assert(self@.tickets =~= before.tickets);
                }
                1
            },
        }
    }

    /// Sets the status of the ticket `id` and hands back the time of the
    /// change: `now`, or the microsecond after the last change where the
    /// clock has not moved on since. `None`, and no change, where there is
    /// no such ticket.
    pub fn set_status(&mut self, id: u128, status: TicketStatus, now: i64) -> (r: Option<i64>)
        requires
            old(self).wf(),
        ensures
            final(self).wf(),
            final(self)@ == old(self)@.with_status(id, status, now),
            r is Some <==> old(self)@.has_ticket(id),
            r matches Some(t) ==> t == later(old(self)@.ticket_row(id).updated_at, now) && t
                == final(self)@.ticket_row(id).updated_at && final(self)@.ticket_row(id).status
                == status,
            r is None ==> final(self)@ == old(self)@,
    {
        let ghost before = self@;
        proof {
            lemma_with_status_wf(before, id, status, now);
        }
        match self.find_ticket(id) {
            None => None,
            Some(i) => {
                let last = self.tickets[i].updated_at;
                let changed_at = if now > last {
                    now
                } else if last < i64::MAX {
                    last + 1
                } else {
                    last
                };
                self.tickets[i].status = status;
                self.tickets[i].updated_at = changed_at;
                self.journal.push(Change::SetStatus(id));
                proof {
                    lemma_ticket_index(before, i as int);
                    assert(self@.tickets =~= before.with_status(id, status, now).tickets) by {
                        assert forall|k: int| 0 <= k < before.tickets.len() implies self@.tickets[k]
                            == before.with_status(id, status, now).tickets[k] by {
                            if k != i {
                                assert(before.tickets[k].id != before.tickets[i as int].id);
                            }
                        }
                    }
                    assert(self@.emails =~= before.emails);
                    lemma_ticket_index(self@, i as int);
                }
                Some(changed_at)
            },
        }
    }

    /// The tickets associated with the message `email`, in the order of the
    /// associations.
    pub fn tickets_linked_to(&self, email: u128) -> (r: Vec<u128>)
        ensures
            r@ == tickets_of(self@.links, email),
    {
        let mut out: Vec<u128> = Vec::new();
        let mut i: usize = 0;
        proof {
            assert(self.links@.take(0) =~= Seq::empty());
        }
        while i < self.links.len()
            invariant
                0 <= i <= self.links@.len(),
                out@ == tickets_of(self.links@.take(i as int), email),
            decreases self.links@.len() - i,
        {
            proof {
                assert(self.links@.take(i + 1).drop_last() == self.links@.take(i as int));
            }
            if self.links[i].0 == email {
                out.push(self.links[i].1);
            }
            i += 1;
        }
        proof {
            assert(self.links@.take(self.links@.len() as int) == self.links@);
        }
        out
    }

    /// The messages associated with the ticket `ticket`, in the order of the
    /// associations.
    pub fn emails_linked_to(&self, ticket: u128) -> (r: Vec<u128>)
        ensures
            r@ == emails_of(self@.links, ticket),
    {
        let mut out: Vec<u128> = Vec::new();
        let mut i: usize = 0;
        proof {
            assert(self.links@.take(0) =~= Seq::empty());
        }
        while i < self.links.len()
            invariant
                0 <= i <= self.links@.len(),
                out@ == emails_of(self.links@.take(i as int), ticket),
            decreases self.links@.len() - i,
        {
            proof {
                assert(self.links@.take(i + 1).drop_last() == self.links@.take(i as int));
            }
            if self.links[i].1 == ticket {
                out.push(self.links[i].0);
            }
            i += 1;
        }
        proof {
            assert(self.links@.take(self.links@.len() as int) == self.links@);
        }
        out
    }

    /// The message `id` with the tickets associated with it, if it is
    /// stored.
    pub fn email(&self, id: u128) -> (r: Option<Email>)
        requires
            self.wf(),
        ensures
            r is Some <==> self@.has_email(id),
            r matches Some(m) ==> m@ == self@.email(id) && m.id == id,
    {
        match self.find_email(id) {
            None => None,
            Some(i) => {
                let mut m = self.emails[i].duplicate();
                m.ticket_ids = self.tickets_linked_to(id);
                proof {
                    lemma_email_index(self@, i as int);
                }
                Some(m)
            },
        }
    }

    /// The ticket `id` with the messages associated with it, if it is
    /// stored.
    pub fn ticket(&self, id: u128) -> (r: Option<Ticket>)
        requires
            self.wf(),
        ensures
            r is Some <==> self@.has_ticket(id),
            r matches Some(t) ==> t@ == self@.ticket(id) && t.id == id,
    {
        match self.find_ticket(id) {
            None => None,
            Some(i) => {
                let mut t = self.tickets[i].duplicate();
                t.email_ids = self.emails_linked_to(id);
                proof {
                    lemma_ticket_index(self@, i as int);
                }
                Some(t)
            },
        }
    }

    /// Every message, each with the tickets associated with it, in the
    /// order of the rows.
    pub fn all_emails(&self) -> (r: Vec<Email>)
        requires
            self.wf(),
        ensures
            r@.map_values(|m: Email| m@) == self@.listed_emails(),
    {
        let mut out: Vec<Email> = Vec::new();
        let mut i: usize = 0;
        while i < self.emails.len()
            invariant
                0 <= i <= self.emails@.len(),
                out@.len() == i,
                forall|k: int|
                    0 <= k < i ==> (#[trigger] out@[k])@ == self@.emails[k].with_tickets(
                        tickets_of(self@.links, self@.emails[k].id),
                    ),
            decreases self.emails@.len() - i,
        {
            let mut m = self.emails[i].duplicate();
            m.ticket_ids = self.tickets_linked_to(m.id);
            out.push(m);
            i += 1;
        }
        proof {
            assert(out@.map_values(|m: Email| m@) =~= self@.listed_emails());
        }
        out
    }

    /// Every ticket, each with the messages associated with it, in the
    /// order of the rows.
    pub fn all_tickets(&self) -> (r: Vec<Ticket>)
        requires
            self.wf(),
        ensures
            r@.map_values(|t: Ticket| t@) == self@.listed_tickets(),
    {
        let mut out: Vec<Ticket> = Vec::new();
        let mut i: usize = 0;
        while i < self.tickets.len()
            invariant
                0 <= i <= self.tickets@.len(),
                out@.len() == i,
                forall|k: int|
                    0 <= k < i ==> (#[trigger] out@[k])@ == self@.tickets[k].with_emails(
                        emails_of(self@.links, self@.tickets[k].id),
                    ),
            decreases self.tickets@.len() - i,
        {
            let mut t = self.tickets[i].duplicate();
            t.email_ids = self.emails_linked_to(t.id);
            out.push(t);
            i += 1;
        }
        proof {
            assert(out@.map_values(|t: Ticket| t@) =~= self@.listed_tickets());
        }
        out
    }

    /// A copy of the store.
    pub fn duplicate(&self) -> (r: Store)
        ensures
            r@ == self@,
    {
        let mut emails: Vec<Email> = Vec::new();
        let mut i: usize = 0;
        while i < self.emails.len()
            invariant
                0 <= i <= self.emails@.len(),
                emails@.len() == i,
                forall|k: int| 0 <= k < i ==> (#[trigger] emails@[k])@ == self.emails@[k]@,
            decreases self.emails@.len() - i,
        {
            emails.push(self.emails[i].duplicate());
            i += 1;
        }
        let mut tickets: Vec<Ticket> = Vec::new();
        let mut j: usize = 0;
        while j < self.tickets.len()
            invariant
                0 <= j <= self.tickets@.len(),
                tickets@.len() == j,
                forall|k: int| 0 <= k < j ==> (#[trigger] tickets@[k])@ == self.tickets@[k]@,
            decreases self.tickets@.len() - j,
        {
            tickets.push(self.tickets[j].duplicate());
            j += 1;
        }
        let mut links: Vec<(u128, u128)> = Vec::new();
        let mut k: usize = 0;
        while k < self.links.len()
            invariant
                0 <= k <= self.links@.len(),
                links@ == self.links@.take(k as int),
            decreases self.links@.len() - k,
        {
            links.push(self.links[k]);
            proof {
                assert(self.links@.take(k + 1) == self.links@.take(k as int).push(
                    self.links@[k as int],
                ));
            }
            k += 1;
        }
        proof {
            assert(self.links@.take(self.links@.len() as int) == self.links@);
        }
        let mut journal: Vec<Change> = Vec::new();
        let mut c: usize = 0;
        while c < self.journal.len()
            invariant
                0 <= c <= self.journal@.len(),
                journal@ == self.journal@.take(c as int),
            decreases self.journal@.len() - c,
        {
            journal.push(self.journal[c]);
            proof {
                assert(self.journal@.take(c + 1) == self.journal@.take(c as int).push(
                    self.journal@[c as int],
                ));
            }
            c += 1;
        }
        proof {
            assert(self.journal@.take(self.journal@.len() as int) == self.journal@);
        }
        let r = Store { emails, tickets, links, journal };
        proof {
            assert(r@.emails =~= self@.emails);
            assert(r@.tickets =~= self@.tickets);
        }
        r
    }

    /// The store that holds the given rows, in their order. Rows that no
    /// store can hold are refused: two messages or two tickets with one
    /// identifier, a ticket that cannot be kept, an association that names
    /// a missing row or stands twice.
    pub fn from_rows(emails: Vec<Email>, tickets: Vec<Ticket>, links: Vec<(u128, u128)>) -> (r:
        Result<Store, StoreError>)
        ensures
            r is Ok <==> rows_of(
                emails@.map_values(|m: Email| m@),
                tickets@.map_values(|t: Ticket| t@),
                links@,
            ).wf(),
            r matches Ok(s) ==> s.wf() && s@ == rows_of(
                emails@.map_values(|m: Email| m@),
                tickets@.map_values(|t: Ticket| t@),
                links@,
            ),
    {
        let ghost es = emails@.map_values(|m: Email| m@);
        let ghost ts = tickets@.map_values(|t: Ticket| t@);
        let ghost all = rows_of(es, ts, links@);
        let mut store = Store::new();
        let mut pending = emails;
        let mut waiting = tickets;
        let n = pending.len();
        let mut i: usize = 0;
        proof {
            let first = rows_of(es.take(0), Seq::empty(), Seq::empty());
            assert(first.emails =~= Seq::empty());
            assert(first.tickets =~= Seq::empty());
        }
        while i < n
            invariant
                0 <= i <= n,
                n == es.len(),
                pending@.len() == n - i,
                forall|k: int| 0 <= k < pending@.len() ==> (#[trigger] pending@[k])@ == es[i + k],
                store.wf(),
                same_rows(store@, rows_of(es.take(i as int), Seq::empty(), Seq::empty())),
                all == rows_of(es, ts, links@),
                es == emails@.map_values(|m: Email| m@),
                ts == tickets@.map_values(|t: Ticket| t@),
            decreases n - i,
        {
            let m = pending.remove(0);
            let ghost before = store@;
            assert(m@ == es[i as int]);
            match store.insert_email(m) {
                Err(why) => {
                    proof {
                        let j = choose|j: int|
                            0 <= j < before.emails.len() && (#[trigger] before.emails[j]).id
                                == m.id;
                        assert(before.emails[j] == es[j].row());
                        assert(all.emails[j] == es[j].row());
                        assert(all.emails[i as int] == es[i as int].row());
                        assert(all.emails[j].id == all.emails[i as int].id);
                        assert(!all.wf());
                    }
                    return Err(why);
                },
                Ok(()) => {},
            }
            proof {
                assert(store@.emails =~= rows_of(
                    es.take(i + 1),
                    Seq::empty(),
                    Seq::empty(),
                ).emails);
            }
            i += 1;
        }
        proof {
            assert(es.take(n as int) == es);
            let first = rows_of(es, ts.take(0), Seq::empty());
            assert(first.tickets =~= Seq::empty());
        }
        let nt = waiting.len();
        let mut j: usize = 0;
        while j < nt
            invariant
                0 <= j <= nt,
                nt == ts.len(),
                waiting@.len() == nt - j,
                forall|k: int| 0 <= k < waiting@.len() ==> (#[trigger] waiting@[k])@ == ts[j + k],
                store.wf(),
                same_rows(store@, rows_of(es, ts.take(j as int), Seq::empty())),
                all == rows_of(es, ts, links@),
                es == emails@.map_values(|m: Email| m@),
                ts == tickets@.map_values(|t: Ticket| t@),
            decreases nt - j,
        {
            let t = waiting.remove(0);
            let ghost before = store@;
            assert(t@ == ts[j as int]);
            match store.insert_ticket(t) {
                Err(_) => {
                    proof {
                        assert(all.tickets[j as int] == ts[j as int].row());
                        if t@.valid() {
                            let k = choose|k: int|
                                0 <= k < before.tickets.len() && (#[trigger] before.tickets[k]).id
                                    == t.id;
                            assert(before.tickets[k] == ts[k].row());
                            assert(all.tickets[k] == ts[k].row());
                            assert(all.tickets[k].id == all.tickets[j as int].id);
                        } else {
                            assert(!all.tickets[j as int].valid());
                        }
                        assert(!all.wf());
                    }
                    return Err(StoreError::DuplicateKey);
                },
                Ok(_) => {},
            }
            proof {
                assert(store@.tickets =~= rows_of(es, ts.take(j + 1), Seq::empty()).tickets);
            }
            j += 1;
        }
        proof {
            assert(ts.take(nt as int) == ts);
            assert(links@.take(0) =~= Seq::empty());
        }
        let mut l: usize = 0;
        while l < links.len()
            invariant
                0 <= l <= links@.len(),
                store.wf(),
                same_rows(store@, rows_of(es, ts, links@.take(l as int))),
                all == rows_of(es, ts, links@),
                es == emails@.map_values(|m: Email| m@),
                ts == tickets@.map_values(|t: Ticket| t@),
            decreases links@.len() - l,
        {
            let pair = links[l];
            let ghost before = store@;
            match store.link(pair.0, pair.1) {
                Err(why) => {
                    proof {
                        assert(all.emails == before.emails);
                        assert(all.tickets == before.tickets);
                        assert(all.links[l as int] == pair);
                        if all.wf() {
                            assert(all.has_email(all.links[l as int].0));
                            assert(all.has_ticket(all.links[l as int].1));
                            assert(before.has_email(pair.0));
                            assert(before.has_ticket(pair.1));
                        }
                        assert(!all.wf());
                    }
                    return Err(why);
                },
                Ok(inserted) => {
                    if !inserted {
                        proof {
                            let k = choose|k: int|
                                0 <= k < before.links.len() && before.links[k] == pair;
                            assert(all.links[k] == all.links[l as int]);
                            assert(!all.links.no_duplicates());
                        }
                        return Err(StoreError::DuplicateKey);
                    }
                },
            }
            proof {
                assert(links@.take(l + 1) == links@.take(l as int).push(pair));
            }
            l += 1;
        }
        proof {
            assert(links@.take(links@.len() as int) == links@);
        }
        store.journal = Vec::new();
        Ok(store)
    }

    /// The changes made to the store since it was loaded, or since the
    /// journal was last cleared, oldest first.
    pub fn journal(&self) -> (r: &Vec<Change>)
        ensures
            r@ == self@.journal,
    {
        &self.journal
    }

    /// Forgets the changes made so far. The rows stay.
    pub fn clear_journal(&mut self)
        ensures
            final(self)@ == (StoreView { journal: Seq::empty(), ..old(self)@ }),
    {
        self.journal = Vec::new();
    }

    /// Opens a transaction: a working copy of the store, which replaces the
    /// store when it is committed and leaves it untouched when it is not.
    pub fn begin(&self) -> (tx: Transaction)
        ensures
            tx.staged@ == self@,
    {
        Transaction { staged: self.duplicate() }
    }
}

/// A working copy of the store. What is done to it shows in the store once
/// the transaction is committed, all of it or nothing.
pub struct Transaction {
    pub staged: Store,
}

impl Transaction {
    /// Makes the store what the transaction has come to.
    pub fn commit(self, store: &mut Store)
        ensures
            final(store)@ == self.staged@,
    {
        *store = self.staged;
    }

    /// Gives the transaction up. The store stays as it is.
    pub fn rollback(self) {
    }
}

/// Inserting a message whose identifier is new keeps the store well formed.
pub proof fn lemma_with_email_wf(s: StoreView, m: EmailView)
    requires
        s.wf(),
        !s.has_email(m.id),
    ensures
        s.with_email(m).wf(),
        forall|id: u128| s.with_email(m).has_email(id) <==> s.has_email(id) || id == m.id,
        forall|id: u128| s.with_email(m).has_ticket(id) <==> s.has_ticket(id),
{
    let t = s.with_email(m);
    assert forall|id: u128| t.has_email(id) <==> s.has_email(id) || id == m.id by {
        if s.has_email(id) {
            let i = choose|i: int| 0 <= i < s.emails.len() && (#[trigger] s.emails[i]).id == id;
            assert(t.emails[i].id == id);
        }
        if id == m.id {
            assert(t.emails[s.emails.len() as int].id == id);
        }
        if t.has_email(id) {
            let i = choose|i: int| 0 <= i < t.emails.len() && (#[trigger] t.emails[i]).id == id;
            if i < s.emails.len() {
                assert(s.emails[i].id == id);
            }
        }
    }
    assert forall|i: int, j: int| 0 <= i < j < t.emails.len() implies (#[trigger] t.emails[i]).id
        != (#[trigger] t.emails[j]).id by {
        if j == s.emails.len() {
            assert(s.emails[i].id == t.emails[i].id);
        }
    }
    assert forall|i: int| 0 <= i < t.links.len() implies t.has_email((#[trigger] t.links[i]).0)
        && t.has_ticket(t.links[i].1) by {
        assert(s.has_email(s.links[i].0));
    }
}

/// Inserting a valid ticket whose identifier is new keeps the store well
/// formed.
pub proof fn lemma_with_ticket_wf(s: StoreView, t: TicketView)
    requires
        s.wf(),
        t.valid(),
        !s.has_ticket(t.id),
    ensures
        s.with_ticket(t).wf(),
        forall|id: u128| s.with_ticket(t).has_ticket(id) <==> s.has_ticket(id) || id == t.id,
        forall|id: u128| s.with_ticket(t).has_email(id) <==> s.has_email(id),
{
    let u = s.with_ticket(t);
    assert(u.emails == s.emails);
    assert forall|id: u128| u.has_email(id) <==> s.has_email(id) by {}
    assert forall|id: u128| u.has_ticket(id) <==> s.has_ticket(id) || id == t.id by {
        if s.has_ticket(id) {
            let i = choose|i: int| 0 <= i < s.tickets.len() && (#[trigger] s.tickets[i]).id == id;
            assert(u.tickets[i].id == id);
        }
        if id == t.id {
            assert(u.tickets[s.tickets.len() as int].id == id);
        }
        if u.has_ticket(id) {
            let i = choose|i: int| 0 <= i < u.tickets.len() && (#[trigger] u.tickets[i]).id == id;
            if i < s.tickets.len() {
                assert(s.tickets[i].id == id);
            }
        }
    }
    assert forall|i: int, j: int| 0 <= i < j < u.tickets.len() implies (
    #[trigger] u.tickets[i]).id != (#[trigger] u.tickets[j]).id by {
        if j == s.tickets.len() {
            assert(s.tickets[i].id == u.tickets[i].id);
        }
    }
    assert forall|i: int| 0 <= i < u.links.len() implies u.has_email((#[trigger] u.links[i]).0)
        && u.has_ticket(u.links[i].1) by {
        assert(s.has_ticket(s.links[i].1));
    }
}

/// Associating a stored message with a stored ticket keeps the store well
/// formed.
pub proof fn lemma_with_link_wf(s: StoreView, email: u128, ticket: u128)
    requires
        s.wf(),
        s.has_email(email),
        s.has_ticket(ticket),
    ensures
        s.with_link(email, ticket).wf(),
        s.with_link(email, ticket).linked(email, ticket),
{
    let t = s.with_link(email, ticket);
    assert(t.emails == s.emails);
    assert(t.tickets == s.tickets);
    if !s.linked(email, ticket) {
        assert(t.links[s.links.len() as int] == (email, ticket));
        assert forall|i: int, j: int| 0 <= i < t.links.len() && 0 <= j < t.links.len() && i
            != j implies t.links[i] != t.links[j] by {
            if i == s.links.len() {
                assert(s.links[j] == t.links[j]);
            } else if j == s.links.len() {
                assert(s.links[i] == t.links[i]);
            }
        }
        assert forall|i: int| 0 <= i < t.links.len() implies t.has_email((#[trigger] t.links[i]).0)
            && t.has_ticket(t.links[i].1) by {
            if i < s.links.len() {
                assert(s.has_email(s.links[i].0));
            }
        }
    }
}

/// In a well-formed store the row of a message is the one row with its
/// identifier.
pub proof fn lemma_email_index(s: StoreView, i: int)
    requires
        s.wf(),
        0 <= i < s.emails.len(),
    ensures
        s.email_index(s.emails[i].id) == i,
        s.has_email(s.emails[i].id),
{
    let id = s.emails[i].id;
    let j = s.email_index(id);
    assert(0 <= j < s.emails.len() && s.emails[j].id == id);
}

/// In a well-formed store the row of a ticket is the one row with its
/// identifier.
pub proof fn lemma_ticket_index(s: StoreView, i: int)
    requires
        s.wf(),
        0 <= i < s.tickets.len(),
    ensures
        s.ticket_index(s.tickets[i].id) == i,
        s.has_ticket(s.tickets[i].id),
{
    let id = s.tickets[i].id;
    let j = s.ticket_index(id);
    assert(0 <= j < s.tickets.len() && s.tickets[j].id == id);
}

/// Removing an association keeps the store well formed, and nothing else
/// goes.
pub proof fn lemma_without_link_wf(s: StoreView, email: u128, ticket: u128)
    requires
        s.wf(),
    ensures
        s.without_link(email, ticket).wf(),
        !s.without_link(email, ticket).linked(email, ticket),
        forall|e: u128, t: u128|
            (e, t) != (email, ticket) ==> (#[trigger] s.without_link(email, ticket).linked(e, t)
                <==> s.linked(e, t)),
{
    let u = s.without_link(email, ticket);
    let pred = differs_from(email, ticket);
    lemma_filter_distinct(s.links, pred);
    assert(u.emails == s.emails);
    assert(u.tickets == s.tickets);
    assert forall|i: int| 0 <= i < u.links.len() implies u.has_email((#[trigger] u.links[i]).0)
        && u.has_ticket(u.links[i].1) by {
        assert(u.links.contains(u.links[i]));
        assert(s.links.contains(u.links[i]));
        let k = choose|k: int| 0 <= k < s.links.len() && s.links[k] == u.links[i];
        assert(s.has_email(s.links[k].0));
    }
    assert forall|e: u128, t: u128| (e, t) != (email, ticket) implies (#[trigger] u.linked(e, t)
        <==> s.linked(e, t)) by {
        assert(pred((e, t)));
    }
}

/// Removing the associations of a message keeps the store well formed.
pub proof fn lemma_without_links_of_wf(s: StoreView, email: u128)
    requires
        s.wf(),
    ensures
        s.without_links_of(email).wf(),
        !s.without_links_of(email).has_links(email),
{
    let u = s.without_links_of(email);
    let pred = not_of_email(email);
    lemma_filter_distinct(s.links, pred);
    assert(u.emails == s.emails);
    assert(u.tickets == s.tickets);
    assert forall|i: int| 0 <= i < u.links.len() implies u.has_email((#[trigger] u.links[i]).0)
        && u.has_ticket(u.links[i].1) && u.links[i].0 != email by {
        assert(u.links.contains(u.links[i]));
        assert(s.links.contains(u.links[i]));
        let k = choose|k: int| 0 <= k < s.links.len() && s.links[k] == u.links[i];
        assert(s.has_email(s.links[k].0));
    }
}

/// Removing a message that no ticket is associated with keeps the store
/// well formed.
pub proof fn lemma_without_email_wf(s: StoreView, email: u128)
    requires
        s.wf(),
        !s.has_links(email),
    ensures
        s.without_email(email).wf(),
        !s.without_email(email).has_email(email),
        forall|id: u128|
            id != email ==> (#[trigger] s.without_email(email).has_email(id) <==> s.has_email(id)),
{
    let u = s.without_email(email);
    let pred = not_email(email);
    assert(u.tickets == s.tickets);
    assert(u.links == s.links);
    if s.has_email(email) {
        let i = s.email_index(email);
        assert forall|j: int| 0 <= j < s.emails.len() && j != i implies pred(
            #[trigger] s.emails[j],
        ) by {}
        lemma_remove_is_filter(s.emails, i, pred);
        assert(u.emails == s.emails.remove(i));
        assert forall|id: u128| id != email implies (#[trigger] u.has_email(id) <==> s.has_email(
            id,
        )) by {
            if s.has_email(id) {
                let k = choose|k: int| 0 <= k < s.emails.len() && (#[trigger] s.emails[k]).id == id;
                if k < i {
                    assert(u.emails[k].id == id);
                } else {
                    assert(u.emails[k - 1].id == id);
                }
            }
            if u.has_email(id) {
                let k = choose|k: int| 0 <= k < u.emails.len() && (#[trigger] u.emails[k]).id == id;
                if k < i {
                    assert(s.emails[k].id == id);
                } else {
                    assert(s.emails[k + 1].id == id);
                }
            }
        }
        assert(!u.has_email(email)) by {
            if u.has_email(email) {
                let k = choose|k: int|
                    0 <= k < u.emails.len() && (#[trigger] u.emails[k]).id == email;
                if k < i {
                    assert(s.emails[k].id == email);
                } else {
                    assert(s.emails[k + 1].id == email);
                }
            }
        }
        assert forall|a: int, b: int| 0 <= a < b < u.emails.len() implies (
        #[trigger] u.emails[a]).id != (#[trigger] u.emails[b]).id by {
            let a0 = if a < i { a } else { a + 1 };
            let b0 = if b < i { b } else { b + 1 };
            assert(u.emails[a] == s.emails[a0]);
            assert(u.emails[b] == s.emails[b0]);
        }
        assert forall|k: int| 0 <= k < u.emails.len() implies (
        #[trigger] u.emails[k]).ticket_ids.len() == 0 by {
            let k0 = if k < i { k } else { k + 1 };
            assert(u.emails[k] == s.emails[k0]);
        }
    } else {
        assert forall|j: int| 0 <= j < s.emails.len() implies pred(#[trigger] s.emails[j]) by {}
        lemma_filter_all(s.emails, pred);
    }
    assert forall|k: int| 0 <= k < u.links.len() implies u.has_email((#[trigger] u.links[k]).0)
        && u.has_ticket(u.links[k].1) by {
        assert(s.has_email(s.links[k].0));
        assert(s.links[k].0 != email);
    }
}

/// Marking a message as analyzed keeps the store well formed, and the flag
/// of no other message changes.
pub proof fn lemma_with_analyzed_wf(s: StoreView, email: u128)
    requires
        s.wf(),
    ensures
        s.with_analyzed(email).wf(),
        forall|id: u128| s.with_analyzed(email).has_email(id) <==> s.has_email(id),
{
    let u = s.with_analyzed(email);
    assert(u.tickets == s.tickets);
    assert(u.links == s.links);
    assert forall|id: u128| u.has_email(id) <==> s.has_email(id) by {
        if s.has_email(id) {
            let k = choose|k: int| 0 <= k < s.emails.len() && (#[trigger] s.emails[k]).id == id;
            assert(u.emails[k].id == id);
        }
        if u.has_email(id) {
            let k = choose|k: int| 0 <= k < u.emails.len() && (#[trigger] u.emails[k]).id == id;
            assert(s.emails[k].id == id);
        }
    }
    assert forall|a: int, b: int| 0 <= a < b < u.emails.len() implies (#[trigger] u.emails[a]).id
        != (#[trigger] u.emails[b]).id by {
        assert(u.emails[a].id == s.emails[a].id);
        assert(u.emails[b].id == s.emails[b].id);
    }
    assert forall|k: int| 0 <= k < u.emails.len() implies (#[trigger] u.emails[k]).ticket_ids.len()
        == 0 by {
        assert(s.emails[k].ticket_ids.len() == 0);
    }
    assert forall|k: int| 0 <= k < u.links.len() implies u.has_email((#[trigger] u.links[k]).0)
        && u.has_ticket(u.links[k].1) by {
        assert(s.has_email(s.links[k].0));
    }
}

/// Setting a ticket's status keeps the store well formed.
pub proof fn lemma_with_status_wf(s: StoreView, ticket: u128, status: TicketStatus, now: i64)
    requires
        s.wf(),
    ensures
        s.with_status(ticket, status, now).wf(),
        forall|id: u128| s.with_status(ticket, status, now).has_ticket(id) <==> s.has_ticket(id),
{
    let u = s.with_status(ticket, status, now);
    assert(u.emails == s.emails);
    assert(u.links == s.links);
    assert forall|id: u128| u.has_ticket(id) <==> s.has_ticket(id) by {
        if s.has_ticket(id) {
            let k = choose|k: int| 0 <= k < s.tickets.len() && (#[trigger] s.tickets[k]).id == id;
            assert(u.tickets[k].id == id);
        }
        if u.has_ticket(id) {
            let k = choose|k: int| 0 <= k < u.tickets.len() && (#[trigger] u.tickets[k]).id == id;
            assert(s.tickets[k].id == id);
        }
    }
    assert forall|a: int, b: int| 0 <= a < b < u.tickets.len() implies (
    #[trigger] u.tickets[a]).id != (#[trigger] u.tickets[b]).id by {
        assert(u.tickets[a].id == s.tickets[a].id);
        assert(u.tickets[b].id == s.tickets[b].id);
    }
    assert forall|k: int| 0 <= k < u.tickets.len() implies (
    #[trigger] u.tickets[k]).email_ids.len() == 0 && u.tickets[k].valid() by {
        assert(s.tickets[k].email_ids.len() == 0 && s.tickets[k].valid());
    }
    assert forall|k: int| 0 <= k < u.links.len() implies u.has_email((#[trigger] u.links[k]).0)
        && u.has_ticket(u.links[k].1) by {
        assert(s.has_ticket(s.links[k].1));
    }
}

/// How many rows of `emails` hold the message `id`.
pub open spec fn count_emails(emails: Seq<EmailView>, id: u128) -> nat
    decreases emails.len(),
{
    if emails.len() == 0 {
        0
    } else {
        count_emails(emails.drop_last(), id) + if emails.last().id == id {
            1nat
        } else {
            0nat
        }
    }
}

/// A well-formed store holds each of its messages in exactly one row, and a
/// message that is not its own in none.
pub proof fn lemma_one_row(s: StoreView, id: u128)
    requires
        s.wf(),
    ensures
        count_emails(s.emails, id) == (if s.has_email(id) { 1nat } else { 0nat }),
    decreases s.emails.len(),
{
    if s.emails.len() == 0 {
    } else {
        let rest = StoreView {
            emails: s.emails.drop_last(),
            tickets: s.tickets,
            links: Seq::empty(),
            journal: s.journal,
        };
        let n = s.emails.len() - 1;
        assert forall|i: int, j: int| 0 <= i < j < rest.emails.len() implies (
        #[trigger] rest.emails[i]).id != (#[trigger] rest.emails[j]).id by {
            assert(s.emails[i].id != s.emails[j].id);
        }
        assert forall|i: int| 0 <= i < rest.emails.len() implies (
        #[trigger] rest.emails[i]).ticket_ids.len() == 0 by {
            assert(s.emails[i].ticket_ids.len() == 0);
        }
        assert(rest.wf());
        lemma_one_row(rest, id);
        if s.emails[n].id == id {
            assert(!rest.has_email(id)) by {
                if rest.has_email(id) {
                    let k = choose|k: int|
                        0 <= k < rest.emails.len() && (#[trigger] rest.emails[k]).id == id;
                    assert(s.emails[k].id == s.emails[n].id);
                }
            }
            assert(s.has_email(id));
        } else {
            if rest.has_email(id) {
                let k = choose|k: int|
                    0 <= k < rest.emails.len() && (#[trigger] rest.emails[k]).id == id;
                assert(s.emails[k].id == id);
            }
            if s.has_email(id) {
                let k = choose|k: int| 0 <= k < s.emails.len() && (#[trigger] s.emails[k]).id == id;
                assert(rest.emails[k].id == id);
            }
        }
    }
}

/// Rows that differ from the association of `email` with `ticket` count
/// for nothing.
pub proof fn lemma_count_links_none(links: Seq<(u128, u128)>, email: u128, ticket: u128)
    requires
        !links.contains((email, ticket)),
    ensures
        count_links(links, email, ticket) == 0,
    decreases links.len(),
{
    if links.len() > 0 {
        assert(links[links.len() - 1] != (email, ticket));
        assert(!links.drop_last().contains((email, ticket))) by {
            if links.drop_last().contains((email, ticket)) {
                let k = choose|k: int|
                    0 <= k < links.drop_last().len() && links.drop_last()[k] == (email, ticket);
                assert(links[k] == (email, ticket));
            }
        }
        lemma_count_links_none(links.drop_last(), email, ticket);
    }
}

/// Where no association stands twice, one that stands at all stands in
/// exactly one row.
pub proof fn lemma_count_links(links: Seq<(u128, u128)>, email: u128, ticket: u128)
    requires
        links.no_duplicates(),
    ensures
        count_links(links, email, ticket) == (if links.contains((email, ticket)) {
            1nat
        } else {
            0nat
        }),
    decreases links.len(),
{
    if links.contains((email, ticket)) {
        let n = links.len() - 1;
        let rest = links.drop_last();
        if links[n] == (email, ticket) {
            assert(!rest.contains((email, ticket))) by {
                if rest.contains((email, ticket)) {
                    let k = choose|k: int| 0 <= k < rest.len() && rest[k] == (email, ticket);
                    assert(links[k] == links[n]);
                }
            }
            lemma_count_links_none(rest, email, ticket);
        } else {
            let k = choose|k: int| 0 <= k < links.len() && links[k] == (email, ticket);
            assert(rest[k] == (email, ticket));
            lemma_count_links(rest, email, ticket);
        }
    } else {
        lemma_count_links_none(links, email, ticket);
    }
}

/// Linking the same message to the same ticket twice is linking it once:
/// the second time changes nothing, and exactly one association row stands
/// for the pair.
pub proof fn lemma_link_idempotent(s: StoreView, email: u128, ticket: u128)
    requires
        s.wf(),
        s.has_email(email),
        s.has_ticket(ticket),
    ensures
        s.with_link(email, ticket).with_link(email, ticket) == s.with_link(email, ticket),
        s.with_link(email, ticket).wf(),
        count_links(s.with_link(email, ticket).links, email, ticket) == 1,
{
    lemma_with_link_wf(s, email, ticket);
    lemma_count_links(s.with_link(email, ticket).links, email, ticket);
}

/// Every status change moves a ticket's time of change forward, strictly,
/// whatever the clock says; and the store then shows the new status under
/// the ticket's identifier. Only a ticket last changed at the largest time
/// that can be written cannot move.
pub proof fn lemma_status_change_advances(s: StoreView, id: u128, status: TicketStatus, now: i64)
    requires
        s.wf(),
        s.has_ticket(id),
        s.ticket_row(id).updated_at < i64::MAX,
    ensures
        s.with_status(id, status, now).wf(),
        s.with_status(id, status, now).has_ticket(id),
        s.with_status(id, status, now).ticket(id).updated_at > s.ticket(id).updated_at,
        s.with_status(id, status, now).ticket(id).status == status,
{
    lemma_with_status_wf(s, id, status, now);
    let u = s.with_status(id, status, now);
    let i = s.ticket_index(id);
    assert(u.tickets[i].id == id);
    lemma_ticket_index(u, i);
}

/// Whether the store holds the message `id` as analyzed.
pub open spec fn holds_analyzed(s: StoreView, id: u128) -> bool {
    exists|i: int|
        0 <= i < s.emails.len() && (#[trigger] s.emails[i]).id == id && s.emails[i].analyzed
}

/// Once analyzed, always analyzed: no change to the store takes the mark
/// from a message, as long as the message itself stays.
pub proof fn lemma_analyzed_never_reverts(
    s: StoreView,
    id: u128,
    m: EmailView,
    t: TicketView,
    email: u128,
    ticket: u128,
    status: TicketStatus,
    now: i64,
)
    requires
        s.wf(),
        holds_analyzed(s, id),
    ensures
        holds_analyzed(s.with_email(m), id),
        holds_analyzed(s.with_ticket(t), id),
        holds_analyzed(s.with_link(email, ticket), id),
        holds_analyzed(s.without_link(email, ticket), id),
        holds_analyzed(s.without_links_of(email), id),
        holds_analyzed(s.with_analyzed(email), id),
        holds_analyzed(s.with_status(ticket, status, now), id),
        email != id ==> holds_analyzed(s.without_email(email), id),
{
    let i = choose|i: int|
        0 <= i < s.emails.len() && (#[trigger] s.emails[i]).id == id && s.emails[i].analyzed;
    assert(s.with_email(m).emails[i] == s.emails[i]);
    assert(s.with_ticket(t).emails[i] == s.emails[i]);
    assert(s.with_link(email, ticket).emails[i] == s.emails[i]);
    assert(s.without_link(email, ticket).emails[i] == s.emails[i]);
    assert(s.without_links_of(email).emails[i] == s.emails[i]);
    assert(s.with_status(ticket, status, now).emails[i] == s.emails[i]);
    let marked = s.with_analyzed(email);
    assert(marked.emails[i].id == id && marked.emails[i].analyzed);
    if email != id {
        let kept = s.without_email(email);
        if s.has_email(email) {
            let j = s.email_index(email);
            lemma_remove_is_filter(s.emails, j, not_email(email));
            if i < j {
                assert(kept.emails[i] == s.emails[i]);
            } else {
                assert(kept.emails[i - 1] == s.emails[i]);
            }
        } else {
            assert(kept.emails[i] == s.emails[i]);
        }
    }
}

/// Every ticket of a well-formed store can be kept: its subject and its
/// description are not empty, and its confidence, where it has one, lies
/// between 0 and 1.
pub proof fn lemma_stored_ticket_valid(s: StoreView, id: u128)
    requires
        s.wf(),
        s.has_ticket(id),
    ensures
        s.ticket(id).id == id,
        s.ticket(id).valid(),
{
    let i = s.ticket_index(id);
    assert(s.tickets[i].valid());
}

/// Every association of a well-formed store names a message and a ticket
/// that are stored.
pub proof fn lemma_links_refer(s: StoreView, email: u128, ticket: u128)
    requires
        s.wf(),
        s.linked(email, ticket),
    ensures
        s.has_email(email),
        s.has_ticket(ticket),
{
    let i = choose|i: int| 0 <= i < s.links.len() && s.links[i] == (email, ticket);
    assert(s.has_email(s.links[i].0));
}

} // verus!
