//! The ticket endpoints.

use vstd::prelude::*;
use crate::models::es::{
    after_write, sync, ESError, IndexWrite, IndexWriteView, SearchIndex, SearchIndexView,
    SearchResult,
};
use crate::models::requests::{
    request_fault, CreateTicketRequest, CreateTicketResponse, CreateTicketResponseView,
};
use crate::models::score::Confidence;
use crate::models::ticket::{
    email_missing, not_linked, opt_score, SearchResponse, Ticket, TicketError, TicketStatus,
    TicketType, TicketView,
};
use crate::routes::{Body, Reply, BAD_REQUEST, CREATED, INTERNAL_SERVER_ERROR, NOT_FOUND, OK};
use crate::store::{
    emails_of, lemma_with_link_wf, lemma_with_ticket_wf, Store, StoreError, StoreView, Transaction,
};
use crate::text::{opt_text, opt_texts};

verus! {

/// The ticket that a request asks for, with the identifier `id` and
/// created at `now`: of the category `Other` where the request names none,
/// and without an address.
pub open spec fn requested_ticket(req: CreateTicketRequest, id: u128, now: i64) -> TicketView {
    TicketView {
        id,
        ticket_type: match req.ticket_type {
            Some(t) => t,
            None => TicketType::Other,
        },
        status: TicketStatus::Open,
        ip_address: None,
        subject: req.subject@,
        description: req.description@,
        confidence_score: opt_score(req.confidence_score),
        identified_threats: opt_texts(req.identified_threats),
        extracted_indicators: opt_texts(req.extracted_indicators),
        analysis_summary: opt_text(req.analysis_summary),
        created_at: now,
        updated_at: now,
        email_ids: Seq::empty(),
    }
}

/// Those of `ids` that are messages of the store `s`, in order.
pub open spec fn present(s: StoreView, ids: Seq<u128>) -> Seq<u128>
    decreases ids.len(),
{
    if ids.len() == 0 {
        Seq::empty()
    } else if s.has_email(ids.last()) {
        present(s, ids.drop_last()).push(ids.last())
    } else {
        present(s, ids.drop_last())
    }
}

/// Those of `ids` that are no messages of the store `s`, in order, each
/// with what is said of it.
pub open spec fn absent(s: StoreView, ids: Seq<u128>) -> Seq<(u128, Seq<char>)>
    decreases ids.len(),
{
    if ids.len() == 0 {
        Seq::empty()
    } else if s.has_email(ids.last()) {
        absent(s, ids.drop_last())
    } else {
        absent(s, ids.drop_last()).push(
            (ids.last(), "Validation error: "@ + email_missing(ids.last())),
        )
    }
}

/// The store after each of `ids` that is a message of it was linked to the
/// ticket `ticket`.
pub open spec fn link_all(s: StoreView, ids: Seq<u128>, ticket: u128) -> StoreView
    decreases ids.len(),
{
    if ids.len() == 0 {
        s
    } else if s.has_email(ids.last()) {
        link_all(s, ids.drop_last(), ticket).with_link(ids.last(), ticket)
    } else {
        link_all(s, ids.drop_last(), ticket)
    }
}

/// What the creation of a ticket comes to.
pub enum Creation {
    /// The request is refused, and says why
    Rejected(Seq<char>),
    /// The store failed, and says why
    Failed(Seq<char>),
    /// The ticket is kept, with its links
    Done,
}

/// Whether the creation of the ticket `t` from the messages `ids` goes
/// through in the store `s`, for a request with the fault `fault`. It does
/// not where the request has a fault, where the identifier is taken, or
/// where messages are named and none of them is stored.
pub open spec fn creation(s: StoreView, fault: Option<Seq<char>>, t: TicketView, ids: Seq<u128>)
    -> Creation {
    if let Some(m) = fault {
        Creation::Rejected("Validation error: "@ + m)
    } else if s.has_ticket(t.id) {
        Creation::Failed("Database error: "@ + StoreError::DuplicateKey.message())
    } else if ids.len() > 0 && present(s, ids).len() == 0 {
        Creation::Rejected("No valid emails could be linked to the ticket"@)
    } else {
        Creation::Done
    }
}

/// The store after the ticket `t` was created from the messages `ids`:
/// with the ticket and a link to each of `ids` that is stored, or exactly
/// as before where the creation does not go through.
pub open spec fn after_creation(
    s: StoreView,
    fault: Option<Seq<char>>,
    t: TicketView,
    ids: Seq<u128>,
) -> StoreView {
    if creation(s, fault, t, ids) is Done {
        link_all(s.with_ticket(t), ids, t.id)
    } else {
        s
    }
}

/// Linking messages to a ticket changes neither which messages nor which
/// tickets are stored, and keeps the store well formed.
pub proof fn lemma_link_all(s: StoreView, ids: Seq<u128>, ticket: u128)
    requires
        s.wf(),
        s.has_ticket(ticket),
    ensures
        link_all(s, ids, ticket).wf(),
        link_all(s, ids, ticket).emails == s.emails,
        link_all(s, ids, ticket).tickets == s.tickets,
        forall|e: u128| s.has_email(e) <==> link_all(s, ids, ticket).has_email(e),
        link_all(s, ids, ticket).has_ticket(ticket),
    decreases ids.len(),
{
    if ids.len() > 0 {
        lemma_link_all(s, ids.drop_last(), ticket);
        let t = link_all(s, ids.drop_last(), ticket);
        if s.has_email(ids.last()) {
            lemma_with_link_wf(t, ids.last(), ticket);
        }
    }
}

/// Creates a ticket as the request asks, with the identifier `ticket_id`
/// and `now` as its time.
///
/// A request with a fault is answered 400 with the fault; an identifier
/// that is taken, 500. A request that names no message gets a ticket that
/// stands alone, and 201. One that names messages gets the ticket and a
/// link to each named message that is stored: 201 where all are, 200 where
/// some are not, with both lists in the answer. Where none is stored, the
/// answer is 400 and the ticket is not kept either: the store is exactly
/// as before. The index is shown the ticket once the store has it.
pub fn create_ticket(
    store: &mut Store,
    index: &mut SearchIndex,
    ticket_req: CreateTicketRequest,
    ticket_id: u128,
    now: i64,
) -> (r: Reply<CreateTicketResponse>)
    requires
        old(store).wf(),
    ensures
        final(store).wf(),
        final(store)@ == after_creation(
            old(store)@,
            ticket_req.fault(),
            requested_ticket(ticket_req, ticket_id, now),
            ticket_req.email_ids@,
        ),
        match creation(
            old(store)@,
            ticket_req.fault(),
            requested_ticket(ticket_req, ticket_id, now),
            ticket_req.email_ids@,
        ) {
            Creation::Rejected(m) => r.says(BAD_REQUEST, m) && final(index)@ == old(index)@,
            Creation::Failed(m) => r.says(INTERNAL_SERVER_ERROR, m) && final(index)@ == old(index)@,
            Creation::Done => {
                &&& (r.body matches Body::Json(answer) && answer@ == (CreateTicketResponseView {
                    ticket_id,
                    linked_emails: present(old(store)@, ticket_req.email_ids@),
                    failed_emails: absent(old(store)@, ticket_req.email_ids@),
                }))
                &&& r.status == (if absent(old(store)@, ticket_req.email_ids@).len() == 0 {
                    CREATED
                } else {
                    OK
                })
                &&& final(index)@ == after_write(
                    old(index)@,
                    IndexWriteView::PutTicket(final(store)@.ticket(ticket_id)),
                )
            },
        },
{
    if let Err(e) = ticket_req.validate() {
        return Reply::message(BAD_REQUEST, e.to_string());
    }
    let ghost s0 = store@;
    let ghost ids = ticket_req.email_ids@;
    let ghost wanted = requested_ticket(ticket_req, ticket_id, now);
    let ticket = Ticket::assemble(
        ticket_id,
        now,
        now,
        match ticket_req.ticket_type {
            Some(t) => t,
            None => TicketType::Other,
        },
        ticket_req.subject,
        ticket_req.description,
        None,
        ticket_req.confidence_score,
        ticket_req.identified_threats,
        ticket_req.extracted_indicators,
        ticket_req.analysis_summary,
    );
    let email_ids = ticket_req.email_ids;
    assert(ticket@ == wanted);
    assert(ticket@.valid());
    let mut tx = store.begin();
    if let Err(e) = ticket.save_with_client(&mut tx) {
        tx.rollback();
        return Reply::message(INTERNAL_SERVER_ERROR, e.to_string());
    }
    let ghost s1 = s0.with_ticket(wanted);
    proof {
        lemma_with_ticket_wf(s0, wanted);
    }
    let mut linked_emails: Vec<u128> = Vec::new();
    let mut failed_emails: Vec<(u128, String)> = Vec::new();
    let mut i: usize = 0;
    proof {
        assert(ids.take(0) =~= Seq::empty());
        assert(failed_emails@.map_values(|f: (u128, String)| (f.0, f.1@)) =~= Seq::empty());
    }
    while i < email_ids.len()
        invariant
            0 <= i <= email_ids@.len(),
            email_ids@ == ids,
            s0.wf(),
            s1.wf(),
            s1 == s0.with_ticket(wanted),
            s1.has_ticket(ticket_id),
            ticket.id == ticket_id,
            forall|e: u128| s1.has_email(e) <==> s0.has_email(e),
            tx.staged.wf(),
            tx.staged@ == link_all(s1, ids.take(i as int), ticket_id),
            linked_emails@ == present(s0, ids.take(i as int)),
            failed_emails@.map_values(|f: (u128, String)| (f.0, f.1@)) == absent(
                s0,
                ids.take(i as int),
            ),
        decreases email_ids@.len() - i,
    {
        let email_id = email_ids[i];
        proof {
            assert(ids.take(i + 1).drop_last() == ids.take(i as int));
            assert(ids.take(i + 1).last() == email_id);
            lemma_link_all(s1, ids.take(i as int), ticket_id);
        }
        match ticket.add_email_with_client(&mut tx, &email_id) {
            Ok(()) => {
                linked_emails.push(email_id);
            },
            Err(e) => {
                let ghost before = failed_emails@.map_values(|f: (u128, String)| (f.0, f.1@));
                let said = e.to_string();
                failed_emails.push((email_id, said));
                proof {
                    assert(failed_emails@.map_values(|f: (u128, String)| (f.0, f.1@))
                        =~= before.push((email_id, said@)));
                }
            },
        }
        i += 1;
    }
    proof {
        assert(ids.take(ids.len() as int) == ids);
        lemma_present_same(s0, s1, ids);
    }
    if linked_emails.len() == 0 && email_ids.len() > 0 {
        tx.rollback();
        return Reply::message(
            BAD_REQUEST,
            "No valid emails could be linked to the ticket".to_owned(),
        );
    }
    tx.commit(store);
    proof {
        lemma_link_all(s1, ids, ticket_id);
    }
    match store.ticket(ticket_id) {
        Some(shown) => {
            sync(index, IndexWrite::PutTicket(shown));
        },
        None => {},
    }
    let status = if failed_emails.len() == 0 {
        CREATED
    } else {
        OK
    };
    Reply::json(status, CreateTicketResponse { ticket_id, linked_emails, failed_emails })
}

/// Stores with the same messages link the same of `ids`.
pub proof fn lemma_present_same(s: StoreView, t: StoreView, ids: Seq<u128>)
    requires
        forall|e: u128| t.has_email(e) <==> s.has_email(e),
    ensures
        present(s, ids) == present(t, ids),
        absent(s, ids) == absent(t, ids),
    decreases ids.len(),
{
    if ids.len() > 0 {
        lemma_present_same(s, t, ids.drop_last());
    }
}

/// Links the message `email_id` to the ticket `ticket_id`. No such ticket
/// is answered 404, no such message 400; neither changes anything.
/// Otherwise the link is there, once, and the answer is 200.
pub fn add_email_to_ticket(
    store: &mut Store,
    index: &mut SearchIndex,
    ticket_id: u128,
    email_id: u128,
) -> (r: Reply<()>)
    requires
        old(store).wf(),
    ensures
        final(store).wf(),
        if !old(store)@.has_ticket(ticket_id) {
            r.says(NOT_FOUND, "Ticket not found"@) && final(store)@ == old(store)@ && final(index)@
                == old(index)@
        } else if !old(store)@.has_email(email_id) {
            r.says(BAD_REQUEST, email_missing(email_id)) && final(store)@ == old(store)@ && final(index)@ == old(index)@
        } else {
            r.bare(OK) && final(store)@ == old(store)@.with_link(email_id, ticket_id) && final(index)@ == after_write(
                old(index)@,
                IndexWriteView::TicketEmails {
                    id: ticket_id,
                    email_ids: emails_of(final(store)@.links, ticket_id),
                },
            )
        },
{
    match Ticket::find_by_id(store, ticket_id) {
        None => Reply::message(NOT_FOUND, "Ticket not found".to_owned()),
        Some(ticket) => match ticket.add_email(store, index, &email_id) {
            Ok(()) => Reply::empty(OK),
            Err(TicketError::Validation(msg)) => Reply::message(BAD_REQUEST, msg),
            Err(e) => Reply::message(INTERNAL_SERVER_ERROR, e.to_string()),
        },
    }
}

/// Removes the link between the message `email_id` and the ticket
/// `ticket_id`. No such ticket is answered 404, no such link 400; neither
/// changes anything. Otherwise the link is gone and the answer is 200.
pub fn remove_email_from_ticket(
    store: &mut Store,
    index: &mut SearchIndex,
    ticket_id: u128,
    email_id: u128,
) -> (r: Reply<()>)
    requires
        old(store).wf(),
    ensures
        final(store).wf(),
        if !old(store)@.has_ticket(ticket_id) {
            r.says(NOT_FOUND, "Ticket not found"@) && final(store)@ == old(store)@ && final(index)@
                == old(index)@
        } else if !old(store)@.linked(email_id, ticket_id) {
            r.says(BAD_REQUEST, not_linked(email_id, ticket_id)) && final(store)@ == old(store)@
                && final(index)@ == old(index)@
        } else {
            r.bare(OK) && final(store)@ == old(store)@.without_link(email_id, ticket_id) && final(index)@ == after_write(
                old(index)@,
                IndexWriteView::TicketEmails {
                    id: ticket_id,
                    email_ids: emails_of(final(store)@.links, ticket_id),
                },
            )
        },
{
    match Ticket::find_by_id(store, ticket_id) {
        None => Reply::message(NOT_FOUND, "Ticket not found".to_owned()),
        Some(ticket) => match ticket.remove_email(store, index, &email_id) {
            Ok(()) => Reply::empty(OK),
            Err(TicketError::Validation(msg)) => Reply::message(BAD_REQUEST, msg),
            Err(e) => Reply::message(INTERNAL_SERVER_ERROR, e.to_string()),
        },
    }
}

/// The messages linked to the ticket `ticket_id`: 404 where there is no
/// such ticket.
pub fn get_ticket_emails(store: &Store, ticket_id: u128) -> (r: Reply<Vec<u128>>)
    requires
        store.wf(),
    ensures
        if store@.has_ticket(ticket_id) {
            r.status == OK && (r.body matches Body::Json(ids) && ids@ == emails_of(
                store@.links,
                ticket_id,
            ))
        } else {
            r.says(NOT_FOUND, "Ticket not found"@)
        },
{
    match Ticket::find_by_id(store, ticket_id) {
        None => Reply::message(NOT_FOUND, "Ticket not found".to_owned()),
        Some(ticket) => Reply::json(OK, ticket.get_emails(store)),
    }
}

/// Every ticket, each with the messages linked to it.
pub fn list_tickets(store: &Store) -> (r: Reply<Vec<Ticket>>)
    requires
        store.wf(),
    ensures
        r.status == OK,
        r.body matches Body::Json(tickets) && tickets@.map_values(|t: Ticket| t@)
            == store@.listed_tickets(),
{
    Reply::json(OK, Ticket::list_all(store))
}

/// Sets the status of the ticket `id` to the one that `status` names,
/// `Open` where it names none, at `now`. No such ticket is answered 404
/// and changes nothing. What the index misses changes neither the answer
/// nor the store.
pub fn update_ticket_status(
    store: &mut Store,
    index: &mut SearchIndex,
    id: u128,
    status: String,
    now: i64,
) -> (r: Reply<()>)
    requires
        old(store).wf(),
    ensures
        final(store).wf(),
        if old(store)@.has_ticket(id) {
            r.bare(OK) && final(store)@ == old(store)@.with_status(
                id,
                TicketStatus::parse(status@),
                now,
            ) && final(index)@ == after_write(
                old(index)@,
                IndexWriteView::TicketStatus {
                    id,
                    status: TicketStatus::parse(status@),
                    updated_at: final(store)@.ticket_row(id).updated_at,
                },
            )
        } else {
            r.says(NOT_FOUND, "Ticket not found"@) && final(store)@ == old(store)@ && final(index)@
                == old(index)@
        },
{
    let new_status = TicketStatus::from_name(status.as_str());
    match Ticket::find_by_id(store, id) {
        None => Reply::message(NOT_FOUND, "Ticket not found".to_owned()),
        Some(found) => {
            let mut ticket = found;
            match ticket.update_status(store, index, new_status, now) {
                Ok(()) => Reply::empty(OK),
                Err(e) => Reply::message(INTERNAL_SERVER_ERROR, e.to_string()),
            }
        },
    }
}

/// The ticket `id` with the messages linked to it: 404 where there is no
/// such ticket.
pub fn get_ticket(store: &Store, id: u128) -> (r: Reply<Ticket>)
    requires
        store.wf(),
    ensures
        if store@.has_ticket(id) {
            r.status == OK && (r.body matches Body::Json(t) && t@ == store@.ticket(id))
        } else {
            r.says(NOT_FOUND, "Ticket not found"@)
        },
{
    match Ticket::find_by_id(store, id) {
        None => Reply::message(NOT_FOUND, "Ticket not found".to_owned()),
        Some(ticket) => Reply::json(OK, ticket),
    }
}

/// After linking, a message is linked to a ticket exactly where it was
/// before, or where it is one of `ids`, is stored, and the ticket is the
/// one that was linked to.
pub proof fn lemma_link_all_links(s: StoreView, ids: Seq<u128>, ticket: u128)
    requires
        s.wf(),
        s.has_ticket(ticket),
    ensures
        forall|e: u128, k: u128| #[trigger]
            link_all(s, ids, ticket).linked(e, k) <==> s.linked(e, k) || (k == ticket
                && ids.contains(e) && s.has_email(e)),
    decreases ids.len(),
{
    if ids.len() == 0 {
        assert forall|e: u128| !ids.contains(e) by {}
    } else {
        let rest = ids.drop_last();
        let last = ids.last();
        lemma_link_all_links(s, rest, ticket);
        lemma_link_all(s, rest, ticket);
        let t = link_all(s, rest, ticket);
        let u = link_all(s, ids, ticket);
        assert forall|e: u128, k: u128| #[trigger]
            u.linked(e, k) <==> s.linked(e, k) || (k == ticket && ids.contains(e)
                && s.has_email(e)) by {
            assert(ids.contains(e) <==> rest.contains(e) || e == last) by {
                if rest.contains(e) {
                    let i = choose|i: int| 0 <= i < rest.len() && rest[i] == e;
                    assert(ids[i] == e);
                }
                if e == last {
                    assert(ids[ids.len() - 1] == e);
                }
                if ids.contains(e) {
                    let i = choose|i: int| 0 <= i < ids.len() && ids[i] == e;
                    if i < rest.len() {
                        assert(rest[i] == e);
                    }
                }
            }
            if s.has_email(last) && !t.linked(last, ticket) {
                let pushed = t.links.push((last, ticket));
                assert(u.links == pushed);
                if t.linked(e, k) {
                    let i = choose|i: int| 0 <= i < t.links.len() && t.links[i] == (e, k);
                    assert(pushed[i] == (e, k));
                }
                if (e, k) == (last, ticket) {
                    assert(pushed[t.links.len() as int] == (e, k));
                }
                if u.linked(e, k) {
                    let i = choose|i: int| 0 <= i < pushed.len() && pushed[i] == (e, k);
                    if i < t.links.len() {
                        assert(t.links[i] == (e, k));
                    }
                }
            }
        }
    }
}

/// The creation of a ticket from messages is all or nothing. Where it does
/// not go through, and so where messages are named and none of them is
/// stored, the store is exactly as before: no ticket row is left behind.
/// Where it goes through, the ticket is stored and linked to exactly those
/// of the named messages that are stored: to all of them where all are
/// stored, and to at least one where any was named. No link names a
/// message that is not stored.
pub proof fn lemma_creation_atomic(
    s: StoreView,
    fault: Option<Seq<char>>,
    t: TicketView,
    ids: Seq<u128>,
)
    requires
        s.wf(),
        fault is None ==> t.valid(),
    ensures
        after_creation(s, fault, t, ids).wf(),
        !(creation(s, fault, t, ids) is Done) ==> after_creation(s, fault, t, ids) == s,
        ids.len() > 0 && (forall|i: int| 0 <= i < ids.len() ==> !s.has_email(ids[i])) ==> !(
        creation(s, fault, t, ids) is Done),
        creation(s, fault, t, ids) is Done ==> {
            &&& !s.has_ticket(t.id)
            &&& after_creation(s, fault, t, ids).has_ticket(t.id)
            &&& forall|e: u128| #[trigger]
                after_creation(s, fault, t, ids).linked(e, t.id) <==> ids.contains(e)
                    && s.has_email(e)
            &&& ids.len() > 0 ==> exists|e: u128| #[trigger]
                after_creation(s, fault, t, ids).linked(e, t.id)
        },
{
    lemma_present_members(s, ids);
    if creation(s, fault, t, ids) is Done {
        let s1 = s.with_ticket(t);
        lemma_with_ticket_wf(s, t);
        lemma_link_all(s1, ids, t.id);
        lemma_link_all_links(s1, ids, t.id);
        let u = after_creation(s, fault, t, ids);
        assert forall|e: u128| #[trigger] u.linked(e, t.id) <==> ids.contains(e) && s.has_email(
            e,
        ) by {
            if s1.linked(e, t.id) {
                let i = choose|i: int| 0 <= i < s.links.len() && s.links[i] == (e, t.id);
                assert(s.has_ticket(s.links[i].1));
            }
        }
        if ids.len() > 0 {
            let e = present(s, ids)[0];
            assert(present(s, ids).contains(e));
            assert(u.linked(e, t.id));
        }
    }
}

/// The messages that get linked are those of `ids` that are stored.
pub proof fn lemma_present_members(s: StoreView, ids: Seq<u128>)
    ensures
        forall|e: u128| #[trigger] present(s, ids).contains(e) <==> ids.contains(e) && s.has_email(e),
        present(s, ids).len() + absent(s, ids).len() == ids.len(),
    decreases ids.len(),
{
    if ids.len() == 0 {
        assert forall|e: u128| !ids.contains(e) by {}
        assert forall|e: u128| !present(s, ids).contains(e) by {}
    } else {
        let rest = ids.drop_last();
        let last = ids.last();
        lemma_present_members(s, rest);
        let p = present(s, rest);
        assert forall|e: u128| #[trigger] present(s, ids).contains(e) <==> ids.contains(e)
            && s.has_email(e) by {
            assert(ids.contains(e) <==> rest.contains(e) || e == last) by {
                if rest.contains(e) {
                    let i = choose|i: int| 0 <= i < rest.len() && rest[i] == e;
                    assert(ids[i] == e);
                }
                if e == last {
                    assert(ids[ids.len() - 1] == e);
                }
                if ids.contains(e) {
                    let i = choose|i: int| 0 <= i < ids.len() && ids[i] == e;
                    if i < rest.len() {
                        assert(rest[i] == e);
                    }
                }
            }
            if s.has_email(last) {
                let q = p.push(last);
                if p.contains(e) {
                    let i = choose|i: int| 0 <= i < p.len() && p[i] == e;
                    assert(q[i] == e);
                }
                if e == last {
                    assert(q[p.len() as int] == e);
                }
                if q.contains(e) {
                    let i = choose|i: int| 0 <= i < q.len() && q[i] == e;
                    if i < p.len() {
                        assert(p[i] == e);
                    }
                }
            }
        }
    }
}

/// Answers a search for tickets, given what the index did: 200 with the
/// tickets of the page and the number of all matches, or 500 with the
/// index's error.
pub fn search_tickets(found: Result<SearchResult<Ticket>, ESError>) -> (r: Reply<SearchResponse>)
    ensures
        match found {
            Ok(result) => r.status == OK && (r.body matches Body::Json(answer) && answer.hits
                == result.hits && answer.total == result.total),
            Err(e) => r.says(INTERNAL_SERVER_ERROR, "ElasticSearch error: "@ + e.message()),
        },
{
    match found {
        Ok(result) => Reply::json(OK, SearchResponse::from_result(result)),
        Err(e) => {
            let e = TicketError::ES(e);
            Reply::message(INTERNAL_SERVER_ERROR, e.to_string())
        },
    }
}

} // verus!
