use abuse_helper::models::email::{Email, EmailError, OutgoingEmail};
use abuse_helper::models::es::{ESError, IndexWrite, SearchIndex};
use abuse_helper::models::requests::CreateTicketRequest;
use abuse_helper::models::score::Confidence;
use abuse_helper::models::ticket::{Ticket, TicketError, TicketStatus, TicketType};
use abuse_helper::routes::email::{
    delete_email, force_delete_email, get_email_tickets, link_to_ticket, mark_analyzed, send,
    unlink_from_ticket,
};
use abuse_helper::routes::ticket::{
    add_email_to_ticket, create_ticket, get_ticket, get_ticket_emails, list_tickets,
    remove_email_from_ticket, update_ticket_status,
};
use abuse_helper::routes::Body;
use abuse_helper::store::{Change, Store, StoreError};

fn message(id: u128) -> Email {
    Email::assemble(id, 0, "a@x".into(), vec!["b@y".into()], "subject".into(), "body".into())
}

fn ticket(id: u128) -> Ticket {
    Ticket::assemble(
        id,
        10,
        10,
        TicketType::Malware,
        "subject".into(),
        "description".into(),
        None,
        None,
        None,
        None,
        None,
    )
}

fn request(email_ids: Vec<u128>) -> CreateTicketRequest {
    CreateTicketRequest {
        email_ids,
        subject: "Incident".into(),
        description: "What happened".into(),
        ticket_type: Some(TicketType::Spam),
        confidence_score: Confidence::parse("0.85"),
        identified_threats: Some(vec!["spam".into()]),
        extracted_indicators: None,
        analysis_summary: None,
    }
}

fn store_with(messages: &[u128], tickets: &[u128]) -> (Store, SearchIndex) {
    let mut store = Store::new();
    let mut index = SearchIndex::new();
    for m in messages {
        message(*m).save(&mut store, &mut index).unwrap();
    }
    for t in tickets {
        ticket(*t).save(&mut store, &mut index).unwrap();
    }
    (store, SearchIndex::new())
}

fn said<T>(body: &Body<T>) -> String {
    match body {
        Body::Message(m) => m.clone(),
        _ => panic!("no message"),
    }
}

#[test]
fn category_names_round_trip() {
    let all = [
        (TicketType::Malware, "Malware"),
        (TicketType::Phishing, "Phishing"),
        (TicketType::Scam, "Scam"),
        (TicketType::Spam, "Spam"),
        (TicketType::DDoS, "DDoS"),
        (TicketType::Botnet, "Botnet"),
        (TicketType::DataBreach, "DataBreach"),
        (TicketType::IdentityTheft, "IdentityTheft"),
        (TicketType::Ransomware, "Ransomware"),
        (TicketType::CyberStalking, "CyberStalking"),
        (TicketType::IntellectualPropertyTheft, "IntellectualPropertyTheft"),
        (TicketType::Harassment, "Harassment"),
        (TicketType::UnauthorizedAccess, "UnauthorizedAccess"),
        (TicketType::CopyrightViolation, "CopyrightViolation"),
        (TicketType::BruteForce, "BruteForce"),
        (TicketType::C2, "C2"),
        (TicketType::Other, "Other"),
    ];
    for (t, name) in all {
        assert_eq!(t.to_string(), name);
        assert_eq!(TicketType::from(name.to_string()), t);
    }
    assert_eq!(TicketType::from("malware".to_string()), TicketType::Other);
    assert_eq!(TicketType::from("".to_string()), TicketType::Other);
}

#[test]
fn status_names_round_trip() {
    for (s, name) in [
        (TicketStatus::Open, "Open"),
        (TicketStatus::InProgress, "InProgress"),
        (TicketStatus::Closed, "Closed"),
        (TicketStatus::Resolved, "Resolved"),
    ] {
        assert_eq!(s.to_string(), name);
        assert_eq!(TicketStatus::from(name.to_string()), s);
    }
    assert_eq!(TicketStatus::from("CLOSED".to_string()), TicketStatus::Open);
    assert_eq!(TicketStatus::default(), TicketStatus::Open);
}

#[test]
fn new_ticket_is_open_and_fresh() {
    let a = Ticket::new(TicketType::C2, "s".into(), "d".into(), None, None, None, None, None);
    let b = Ticket::new(TicketType::C2, "s".into(), "d".into(), None, None, None, None, None);
    assert_ne!(a.id, b.id);
    assert_eq!(a.status, TicketStatus::Open);
    assert_eq!(a.ticket_type, TicketType::C2);
    assert!(a.email_ids.is_empty());
    assert!(a.created_at > 1_600_000_000_000_000);
    assert!(a.updated_at >= a.created_at);
}

#[test]
fn linking_twice_gives_one_association() {
    let (mut store, mut index) = store_with(&[1], &[10]);
    let t = ticket(10);
    t.add_email(&mut store, &mut index, &1).unwrap();
    t.add_email(&mut store, &mut index, &1).unwrap();
    assert_eq!(t.get_emails(&store), vec![1]);
    assert_eq!(message(1).get_tickets(&store), vec![10]);
    message(1).link_ticket(&mut store, &mut index, 10).unwrap();
    assert_eq!(store.emails_linked_to(10), vec![1]);
    assert!(store.is_linked(1, 10));
}

#[test]
fn unlinking_what_is_not_linked_is_a_validation_error() {
    let (mut store, mut index) = store_with(&[1], &[10]);
    let t = ticket(10);
    let r = t.remove_email(&mut store, &mut index, &1);
    assert!(matches!(&r, Err(TicketError::Validation(m)) if m ==
        "Email 00000000-0000-0000-0000-000000000001 is not linked to ticket 00000000-0000-0000-0000-00000000000a"));
    let r = message(1).unlink_ticket(&mut store, &mut index, 10);
    assert!(matches!(&r, Err(EmailError::Validation(m)) if m ==
        "Email 00000000-0000-0000-0000-000000000001 is not linked to ticket 00000000-0000-0000-0000-00000000000a"));
    t.add_email(&mut store, &mut index, &1).unwrap();
    t.remove_email(&mut store, &mut index, &1).unwrap();
    assert!(t.get_emails(&store).is_empty());
    assert!(t.remove_email(&mut store, &mut index, &1).is_err());
}

#[test]
fn identifiers_are_written_as_hyphenated_hex() {
    let (mut store, mut index) = store_with(&[], &[10]);
    let id: u128 = 0x0123456789abcdef_fedcba9876543210;
    let r = ticket(10).add_email(&mut store, &mut index, &id);
    assert!(matches!(&r, Err(TicketError::Validation(m))
        if m == "Email 01234567-89ab-cdef-fedc-ba9876543210 does not exist"));
    assert_eq!(
        r.unwrap_err().to_string(),
        "Validation error: Email 01234567-89ab-cdef-fedc-ba9876543210 does not exist"
    );
}

#[test]
fn linking_needs_both_sides() {
    let (mut store, mut index) = store_with(&[1], &[10]);
    let r = ticket(11).add_email(&mut store, &mut index, &1);
    assert!(matches!(&r, Err(TicketError::Database(m)) if m == "foreign key constraint violated"));
    let r = message(1).link_ticket(&mut store, &mut index, 11);
    assert!(matches!(&r, Err(EmailError::Validation(m))
        if m == "Ticket 00000000-0000-0000-0000-00000000000b does not exist"));
    let r = message(2).link_ticket(&mut store, &mut index, 10);
    assert!(matches!(&r, Err(EmailError::Database(m)) if m == "foreign key constraint violated"));
    assert_eq!(store.link(1, 11), Err(StoreError::ForeignKey));
    assert!(store.emails_linked_to(10).is_empty());
}

#[test]
fn status_change_moves_time_forward() {
    let (mut store, mut index) = store_with(&[], &[10]);
    let mut t = Ticket::find_by_id(&store, 10).unwrap();
    assert_eq!(t.updated_at, 10);
    t.update_status(&mut store, &mut index, TicketStatus::InProgress, 50).unwrap();
    assert_eq!(t.updated_at, 50);
    assert_eq!(t.status, TicketStatus::InProgress);
    // The clock stands still, then runs backwards: the time still moves on.
    t.update_status(&mut store, &mut index, TicketStatus::Closed, 50).unwrap();
    assert_eq!(t.updated_at, 51);
    t.update_status(&mut store, &mut index, TicketStatus::Resolved, 3).unwrap();
    assert_eq!(t.updated_at, 52);
    let stored = Ticket::find_by_id(&store, 10).unwrap();
    assert_eq!(stored.status, TicketStatus::Resolved);
    assert_eq!(stored.updated_at, 52);
    assert_eq!(stored.created_at, 10);
    assert_eq!(index.ticket_status(10), Some(TicketStatus::Resolved));
}

#[test]
fn status_change_of_a_missing_ticket_fails() {
    let (mut store, mut index) = store_with(&[], &[]);
    let mut t = ticket(10);
    let r = t.update_status(&mut store, &mut index, TicketStatus::Closed, 50);
    assert!(matches!(&r, Err(TicketError::Database(m)) if m == "query returned no rows"));
    assert_eq!(t.status, TicketStatus::Open);
    assert_eq!(index.len(), 0);
}

#[test]
fn status_change_survives_an_index_failure() {
    let mut store = Store::new();
    let mut index = SearchIndex::new();
    ticket(10).save(&mut store, &mut index).unwrap();
    assert_eq!(index.ticket_status(10), Some(TicketStatus::Open));
    index.set_reachable(false);
    let r = update_ticket_status(&mut store, &mut index, 10, "Closed".to_string(), 99);
    assert_eq!(r.status, 200);
    assert_eq!(Ticket::find_by_id(&store, 10).unwrap().status, TicketStatus::Closed);
    assert_eq!(index.ticket_status(10), Some(TicketStatus::Open));
    assert_eq!(index.len(), 1);
}

#[test]
fn saving_a_ticket_checks_it() {
    let mut store = Store::new();
    let mut index = SearchIndex::new();
    let mut t = ticket(1);
    t.subject = String::new();
    let r = t.save(&mut store, &mut index);
    assert!(matches!(&r, Err(TicketError::Validation(m)) if m == "Subject cannot be empty"));
    let mut t = ticket(1);
    t.description = String::new();
    let r = t.save(&mut store, &mut index);
    assert!(matches!(&r, Err(TicketError::Validation(m)) if m == "Description cannot be empty"));
    let mut t = ticket(1);
    t.confidence_score = Some(Confidence { numeral: "1.01".into() });
    let r = t.save(&mut store, &mut index);
    assert!(matches!(&r, Err(TicketError::Validation(m))
        if m == "Confidence score must be between 0 and 1"));
    assert_eq!(ticket(1).save(&mut store, &mut index).unwrap(), 1);
    let r = ticket(1).save(&mut store, &mut index);
    assert!(matches!(&r, Err(TicketError::Database(m))
        if m == "duplicate key value violates unique constraint"));
    assert_eq!(list_tickets(&store).status, 200);
    assert_eq!(Ticket::list_all(&store).len(), 1);
    assert_eq!(index.len(), 1);
}

#[test]
fn create_ticket_with_all_messages_present() {
    let (mut store, mut index) = store_with(&[1, 2], &[]);
    let r = create_ticket(&mut store, &mut index, request(vec![1, 2]), 50, 1000);
    assert_eq!(r.status, 201);
    match r.body {
        Body::Json(answer) => {
            assert_eq!(answer.ticket_id, 50);
            assert_eq!(answer.linked_emails, vec![1, 2]);
            assert!(answer.failed_emails.is_empty());
        }
        _ => panic!("no answer"),
    }
    let t = Ticket::find_by_id(&store, 50).unwrap();
    assert_eq!(t.email_ids, vec![1, 2]);
    assert_eq!(t.ticket_type, TicketType::Spam);
    assert_eq!(t.ip_address, None);
    assert_eq!(t.created_at, 1000);
    assert_eq!(t.confidence_score.unwrap().numeral, "0.85");
    assert_eq!(index.ticket_status(50), Some(TicketStatus::Open));
}

#[test]
fn create_ticket_with_some_messages_missing() {
    let (mut store, mut index) = store_with(&[1], &[]);
    let r = create_ticket(&mut store, &mut index, request(vec![7, 1, 1]), 50, 1000);
    assert_eq!(r.status, 200);
    match r.body {
        Body::Json(answer) => {
            assert_eq!(answer.linked_emails, vec![1, 1]);
            assert_eq!(
                answer.failed_emails,
                vec![(
                    7,
                    "Validation error: Email 00000000-0000-0000-0000-000000000007 does not exist"
                        .to_string()
                )]
            );
        }
        _ => panic!("no answer"),
    }
    assert_eq!(store.emails_linked_to(50), vec![1]);
}

#[test]
fn create_ticket_with_no_message_present_keeps_nothing() {
    let (mut store, mut index) = store_with(&[1], &[]);
    let r = create_ticket(&mut store, &mut index, request(vec![7, 8]), 50, 1000);
    assert_eq!(r.status, 400);
    assert_eq!(said(&r.body), "No valid emails could be linked to the ticket");
    assert!(Ticket::find_by_id(&store, 50).is_none());
    assert!(Ticket::list_all(&store).is_empty());
    assert!(store.emails_linked_to(50).is_empty());
    assert_eq!(index.len(), 0);
}

#[test]
fn create_ticket_standing_alone() {
    let (mut store, mut index) = store_with(&[], &[]);
    let mut req = request(vec![]);
    req.ticket_type = None;
    let r = create_ticket(&mut store, &mut index, req, 50, 1000);
    assert_eq!(r.status, 201);
    let t = Ticket::find_by_id(&store, 50).unwrap();
    assert_eq!(t.ticket_type, TicketType::Other);
    assert!(t.email_ids.is_empty());
}

#[test]
fn create_ticket_rejects_bad_requests() {
    let (mut store, mut index) = store_with(&[1], &[]);
    let mut req = request(vec![1]);
    req.subject = String::new();
    let r = create_ticket(&mut store, &mut index, req, 50, 1000);
    assert_eq!(r.status, 400);
    assert_eq!(said(&r.body), "Validation error: Subject cannot be empty");
    let mut req = request(vec![1]);
    req.description = String::new();
    assert!(matches!(req.validate(), Err(TicketError::Validation(m))
        if m == "Description cannot be empty"));
    let mut req = request(vec![1]);
    req.confidence_score = Some(Confidence { numeral: "-0.5".into() });
    let r = create_ticket(&mut store, &mut index, req, 50, 1000);
    assert_eq!(said(&r.body), "Validation error: Confidence score must be between 0 and 1");
    assert!(request(vec![1]).validate().is_ok());
    assert!(Ticket::list_all(&store).is_empty());
    // A taken identifier is the store's failure, not the request's.
    ticket(50).save(&mut store, &mut index).unwrap();
    let r = create_ticket(&mut store, &mut index, request(vec![1]), 50, 1000);
    assert_eq!(r.status, 500);
    assert_eq!(said(&r.body), "Database error: duplicate key value violates unique constraint");
}

#[test]
fn ticket_endpoints_answer_by_state() {
    let (mut store, mut index) = store_with(&[1], &[10]);
    let r = add_email_to_ticket(&mut store, &mut index, 11, 1);
    assert_eq!((r.status, said(&r.body)), (404, "Ticket not found".to_string()));
    let r = add_email_to_ticket(&mut store, &mut index, 10, 2);
    assert_eq!(r.status, 400);
    assert_eq!(said(&r.body), "Email 00000000-0000-0000-0000-000000000002 does not exist");
    let r = add_email_to_ticket(&mut store, &mut index, 10, 1);
    assert_eq!(r.status, 200);
    assert!(matches!(r.body, Body::Empty));
    let r = get_ticket_emails(&store, 10);
    assert!(matches!(&r.body, Body::Json(ids) if ids == &vec![1u128]));
    assert_eq!(get_ticket_emails(&store, 11).status, 404);
    let r = get_ticket(&store, 10);
    assert!(matches!(&r.body, Body::Json(t) if t.id == 10 && t.email_ids == vec![1u128]));
    assert_eq!(get_ticket(&store, 11).status, 404);
    let r = remove_email_from_ticket(&mut store, &mut index, 10, 2);
    assert_eq!(r.status, 400);
    let r = remove_email_from_ticket(&mut store, &mut index, 11, 1);
    assert_eq!(r.status, 404);
    let r = remove_email_from_ticket(&mut store, &mut index, 10, 1);
    assert_eq!(r.status, 200);
    let r = update_ticket_status(&mut store, &mut index, 11, "Closed".into(), 5);
    assert_eq!(r.status, 404);
    let r = update_ticket_status(&mut store, &mut index, 10, "nonsense".into(), 50);
    assert_eq!(r.status, 200);
    assert_eq!(Ticket::find_by_id(&store, 10).unwrap().status, TicketStatus::Open);
}

#[test]
fn message_endpoints_answer_by_state() {
    let (mut store, mut index) = store_with(&[1, 2], &[10]);
    assert_eq!(link_to_ticket(&mut store, &mut index, 3, 10).status, 404);
    let r = link_to_ticket(&mut store, &mut index, 1, 11);
    assert_eq!(r.status, 400);
    assert_eq!(said(&r.body), "Ticket 00000000-0000-0000-0000-00000000000b does not exist");
    assert_eq!(link_to_ticket(&mut store, &mut index, 1, 10).status, 200);
    let r = get_email_tickets(&store, 1);
    assert!(matches!(&r.body, Body::Json(ids) if ids == &vec![10u128]));
    let r = get_email_tickets(&store, 3);
    assert_eq!(r.status, 404);
    assert_eq!(said(&r.body), "Email 00000000-0000-0000-0000-000000000003 not found");
    let r = delete_email(&mut store, 1);
    assert_eq!(r.status, 400);
    assert_eq!(
        said(&r.body),
        "Cannot delete email 00000000-0000-0000-0000-000000000001 because it is associated with one or more tickets"
    );
    assert_eq!(delete_email(&mut store, 3).status, 404);
    assert_eq!(delete_email(&mut store, 2).status, 204);
    assert!(Email::fetch_by_id(&store, &2).is_err());
    assert_eq!(unlink_from_ticket(&mut store, &mut index, 1, 11).status, 400);
    assert_eq!(unlink_from_ticket(&mut store, &mut index, 3, 10).status, 404);
    let r = mark_analyzed(&mut store, &mut index, 1);
    assert_eq!((r.status, said(&r.body)), (200, "Email marked as analyzed".to_string()));
    assert!(Email::fetch_by_id(&store, &1).unwrap().analyzed);
    assert_eq!(mark_analyzed(&mut store, &mut index, 3).status, 404);
    assert_eq!(force_delete_email(&mut store, &mut index, 3).status, 404);
    assert_eq!(force_delete_email(&mut store, &mut index, 1).status, 204);
    assert!(Email::fetch_by_id(&store, &1).is_err());
    assert!(store.emails_linked_to(10).is_empty());
    assert_eq!(index.email_analyzed(1), None);
    assert_eq!(unlink_from_ticket(&mut store, &mut index, 1, 10).status, 404);
}

#[test]
fn deleting_a_linked_message_is_refused_by_the_store() {
    let (mut store, _) = store_with(&[1], &[10]);
    store.link(1, 10).unwrap();
    assert_eq!(store.delete_email(1), Err(StoreError::ForeignKey));
    assert_eq!(store.unlink(1, 10), 1);
    assert_eq!(store.unlink(1, 10), 0);
    assert_eq!(store.delete_email(1), Ok(1));
    assert_eq!(store.delete_email(1), Ok(0));
    assert_eq!(store.set_analyzed(1), 0);
    assert_eq!(store.set_status(11, TicketStatus::Closed, 1), None);
}

#[test]
fn transaction_shows_only_when_committed() {
    let (mut store, _) = store_with(&[1], &[]);
    let t = ticket(10);
    let mut tx = store.begin();
    t.save_with_client(&mut tx).unwrap();
    t.add_email_with_client(&mut tx, &1).unwrap();
    assert!(t.add_email_with_client(&mut tx, &2).is_err());
    assert!(!store.ticket_exists(10));
    tx.rollback();
    assert!(!store.ticket_exists(10));
    let mut tx = store.begin();
    t.save_with_client(&mut tx).unwrap();
    t.add_email_with_client(&mut tx, &1).unwrap();
    tx.commit(&mut store);
    assert!(store.ticket_exists(10));
    assert_eq!(store.tickets_linked_to(1), vec![10]);
}

#[test]
fn store_is_loaded_from_rows() {
    let s = Store::from_rows(vec![message(1), message(2)], vec![ticket(10)], vec![(1, 10), (2, 10)]);
    let s = s.ok().unwrap();
    assert_eq!(s.emails_linked_to(10), vec![1, 2]);
    assert!(s.email_exists(2) && !s.email_exists(3));
    assert!(Store::from_rows(vec![message(1), message(1)], vec![], vec![]).is_err());
    assert!(Store::from_rows(vec![], vec![ticket(1), ticket(1)], vec![]).is_err());
    assert!(Store::from_rows(vec![message(1)], vec![ticket(10)], vec![(2, 10)]).is_err());
    assert!(Store::from_rows(vec![message(1)], vec![ticket(10)], vec![(1, 10), (1, 10)]).is_err());
    let copy = s.duplicate();
    assert_eq!(copy.all_emails().len(), 2);
    assert_eq!(copy.all_tickets()[0].email_ids, vec![1, 2]);
}

#[test]
fn sent_mail_is_kept_as_a_sent_message() {
    let (mut store, _) = store_with(&[], &[]);
    let mail = OutgoingEmail {
        recipient: "bob@example.org".into(),
        subject: "Hello".into(),
        body: "Text".into(),
    };
    let r = send(&mut store, mail, Ok(()), 9, "test@localhost", 77);
    assert_eq!(r.status, 201);
    assert!(matches!(&r.body, Body::Json(m) if m == "Successfully sent Hello to bob@example.org"));
    let m = Email::fetch_by_id(&store, &9).unwrap();
    assert!(m.is_sent && !m.analyzed);
    assert_eq!(m.sender, "test@localhost");
    assert_eq!(m.recipients, vec!["bob@example.org".to_string()]);
    assert_eq!(m.received_at, 77);
}

#[test]
fn mail_that_cannot_go_is_not_kept() {
    let (mut store, _) = store_with(&[], &[]);
    let mail = OutgoingEmail { recipient: "b@y".into(), subject: "".into(), body: "t".into() };
    let r = send(&mut store, mail, Ok(()), 9, "me", 1);
    assert_eq!((r.status, said(&r.body)), (400, "Validation error: Subject cannot be empty".into()));
    let mail = OutgoingEmail { recipient: "b@y".into(), subject: "s".into(), body: "".into() };
    assert!(matches!(mail.validate(), Err(EmailError::Validation(m)) if m == "Body cannot be empty"));
    let mail = OutgoingEmail { recipient: "b@y".into(), subject: "s".into(), body: "t".into() };
    let r = send(&mut store, mail, Err("connection refused".into()), 9, "me", 1);
    assert_eq!((r.status, said(&r.body)), (500, "SMTP error: connection refused".into()));
    assert!(store.all_emails().is_empty());
    let mail = OutgoingEmail { recipient: "b@y".into(), subject: "s".into(), body: "t".into() };
    assert_eq!(mail.save(&mut store, 9, "me", 1).unwrap(), "00000000-0000-0000-0000-000000000009");
    assert!(matches!(mail.save(&mut store, 9, "me", 1), Err(EmailError::Pool(_))));
}

#[test]
fn errors_say_what_they_are() {
    assert_eq!(ESError::NotFound.to_string(), "Not found");
    assert_eq!(ESError::Elastic("x".into()).to_string(), "Elasticsearch error: x");
    assert_eq!(ESError::Env("x".into()).to_string(), "Environment error: x");
    assert_eq!(ESError::Url("x".into()).to_string(), "URL parse error: x");
    assert_eq!(ESError::Json("x".into()).to_string(), "JSON error: x");
    assert_eq!(ESError::InvalidInput("x".into()).to_string(), "Invalid input: x");
    assert_eq!(TicketError::Database("x".into()).to_string(), "Database error: x");
    assert_eq!(TicketError::Pool("x".into()).to_string(), "Pool error: x");
    assert_eq!(TicketError::from(ESError::NotFound).to_string(), "ElasticSearch error: Not found");
    assert_eq!(EmailError::Database("x".into()).to_string(), "Database error: x");
    assert_eq!(EmailError::Smtp("x".into()).to_string(), "SMTP error: x");
    assert_eq!(EmailError::from("x".to_string()).to_string(), "Failed to analyze threat: x");
    assert_eq!(EmailError::Env("x".into()).to_string(), "Environment variable error: x");
    assert_eq!(EmailError::Validation("x".into()).to_string(), "Validation error: x");
    assert_eq!(EmailError::Pool("x".into()).to_string(), "Pool error: x");
    assert_eq!(EmailError::from(ESError::NotFound).to_string(), "ElasticSearch error: Not found");
    assert_eq!(StoreError::NoRow.to_string(), "query returned no rows");
    let mut index = SearchIndex::new();
    index.set_reachable(false);
    let r = ticket(1).index_to_es(&mut index);
    assert!(matches!(&r, Err(TicketError::Pool(m))
        if m == "Elasticsearch error: search index unreachable"));
}

#[test]
fn journal_names_what_changed() {
    let mut store = Store::from_rows(vec![message(1)], vec![ticket(10)], vec![]).ok().unwrap();
    assert!(store.journal().is_empty());
    message(2).save(&mut store, &mut SearchIndex::new()).unwrap();
    message(2).save(&mut store, &mut SearchIndex::new()).unwrap();
    store.link(1, 10).unwrap();
    store.link(1, 10).unwrap();
    store.set_analyzed(1);
    store.set_analyzed(3);
    store.set_status(10, TicketStatus::Closed, 99);
    store.unlink(2, 10);
    store.unlink(1, 10);
    store.unlink_all(2);
    store.delete_email(2).unwrap();
    assert_eq!(
        store.journal(),
        &vec![
            Change::InsertEmail(2),
            Change::Link(1, 10),
            Change::SetAnalyzed(1),
            Change::SetStatus(10),
            Change::Unlink(1, 10),
            Change::UnlinkAll(2),
            Change::DeleteEmail(2),
        ]
    );
    // What a transaction did shows in the journal once it is committed.
    let mut tx = store.begin();
    ticket(11).save_with_client(&mut tx).unwrap();
    tx.rollback();
    assert_eq!(store.journal().len(), 7);
    store.clear_journal();
    assert!(store.journal().is_empty());
    assert!(store.email_exists(1));
}

#[test]
fn links_are_shown_to_the_index() {
    let (mut store, mut index) = store_with(&[1], &[10, 11]);
    message(1).link_ticket(&mut store, &mut index, 10).unwrap();
    message(1).link_ticket(&mut store, &mut index, 11).unwrap();
    ticket(10).remove_email(&mut store, &mut index, &1).unwrap();
    assert_eq!(index.len(), 3);
    assert!(matches!(index.get(0),
        IndexWrite::EmailTickets { id: 1, ticket_ids } if ticket_ids == &vec![10u128]));
    assert!(matches!(index.get(1),
        IndexWrite::EmailTickets { id: 1, ticket_ids } if ticket_ids == &vec![10u128, 11]));
    assert!(matches!(index.get(2),
        IndexWrite::TicketEmails { id: 10, email_ids } if email_ids.is_empty()));
}
