use abuse_helper::models::email::{
    Email, SearchFilters as EmailFilters, SearchOptions as EmailOptions,
};
use abuse_helper::models::es::{
    delete_document, delete_index, ensure_index, index_document, search, update_document,
    Collection, ESError, FieldKind, Filter, SearchResult,
};
use abuse_helper::models::ticket::{
    SearchFilters, SearchOptions, Ticket, TicketStatus, TicketType,
};
use abuse_helper::routes::Body;

#[test]
fn ticket_search_has_defaults() {
    let r = Ticket::search(SearchOptions { query: "evil".into(), filters: None, from: None, size: None });
    assert_eq!(r.collection, Collection::Tickets);
    assert_eq!(r.query, "evil");
    assert!(r.filters.is_empty());
    assert_eq!((r.from, r.size), (0, 50));
}

#[test]
fn ticket_search_keeps_filters_in_order() {
    let r = Ticket::search(SearchOptions {
        query: "q".into(),
        filters: Some(SearchFilters {
            status: Some(TicketStatus::Closed),
            ticket_type: Some(TicketType::Spam),
            has_emails: Some(false),
        }),
        from: Some(20),
        size: Some(10),
    });
    assert_eq!(
        r.filters,
        vec![
            Filter::Status(TicketStatus::Closed),
            Filter::Category(TicketType::Spam),
            Filter::Linked(false)
        ]
    );
    assert_eq!((r.from, r.size), (20, 10));
}

#[test]
fn email_search_narrows_by_direction_and_links() {
    let r = Email::search(EmailOptions {
        query: "q".into(),
        filters: Some(EmailFilters { is_sent: Some(true), analyzed: Some(true), has_tickets: Some(true) }),
        from: None,
        size: Some(5),
    });
    assert_eq!(r.collection, Collection::Emails);
    assert_eq!(r.filters, vec![Filter::Sent(true), Filter::Linked(true)]);
    assert_eq!((r.from, r.size), (0, 5));
}

#[test]
fn collections_have_their_schema() {
    assert_eq!(Collection::Emails.as_str(), "emails");
    assert_eq!(Collection::Tickets.as_str(), "tickets");
    assert_eq!(Collection::Emails.analyzer_name(), "email_analyzer");
    assert_eq!(Collection::Tickets.analyzer_name(), "ticket_analyzer");
    assert_eq!(Collection::Emails.sort_field(), "received_at");
    assert_eq!(Collection::Tickets.sort_field(), "created_at");
    assert_eq!(Collection::Emails.searched_fields(), vec!["subject^2", "body", "sender", "recipients"]);
    assert_eq!(Collection::Tickets.searched_fields(), vec!["subject^2", "description", "ip_address"]);
    let e = Collection::Emails.fields();
    assert_eq!(e.len(), 9);
    assert_eq!((e[0].name, e[0].kind), ("id", FieldKind::Keyword));
    assert_eq!((e[4].name, e[4].kind), ("body", FieldKind::Text));
    assert_eq!((e[8].name, e[8].kind), ("ticket_ids", FieldKind::Keyword));
    let t = Collection::Tickets.fields();
    assert_eq!(t.len(), 13);
    assert_eq!((t[3].name, t[3].kind), ("ip_address", FieldKind::Ip));
    assert_eq!((t[6].name, t[6].kind), ("confidence_score", FieldKind::Float));
    assert_eq!((t[10].name, t[10].kind), ("created_at", FieldKind::Date));
    assert_eq!((e[6].name, e[6].kind), ("analyzed", FieldKind::Boolean));
}

#[test]
fn provisioning_creates_only_what_is_absent() {
    assert!(matches!(ensure_index(false, "emails"), Ok(Some(Collection::Emails))));
    assert!(matches!(ensure_index(false, "tickets"), Ok(Some(Collection::Tickets))));
    assert!(matches!(ensure_index(true, "emails"), Ok(None)));
    assert!(matches!(ensure_index(true, "whatever"), Ok(None)));
    assert!(matches!(ensure_index(false, "users"), Err(ESError::InvalidInput(m))
        if m == "Invalid index name"));
}

#[test]
fn index_answers_are_read_by_status() {
    assert!(index_document(201, "Created").is_ok());
    assert!(matches!(index_document(500, "Internal Server Error"), Err(ESError::InvalidInput(m))
        if m == "Failed to index document: 500 Internal Server Error"));
    assert!(update_document(200, "OK").is_ok());
    assert!(matches!(update_document(404, "Not Found"), Err(ESError::InvalidInput(m))
        if m == "Failed to update document: 404 Not Found"));
    assert!(delete_document(404).is_ok());
    assert!(delete_document(299).is_ok());
    assert!(matches!(delete_document(300), Err(ESError::InvalidInput(m))
        if m == "Failed to delete document: 300"));
    assert!(delete_index(404, "Not Found").is_ok());
    assert!(matches!(delete_index(199, "x"), Err(ESError::InvalidInput(m))
        if m == "Failed to delete index: 199 x"));
}

#[test]
fn search_answer_is_read() {
    let body: serde_json::Value = serde_json::from_str(
        "{\"hits\": {\"total\": {\"value\": 12}, \"hits\": [{\"_source\": {\"id\": 1}}, {\"x\": 2}, {\"_source\": \"s\"}]}}",
    )
    .unwrap();
    let found = search(200, &body).ok().unwrap();
    assert_eq!(found.total, 12);
    assert_eq!(found.hits.len(), 2);
    assert_eq!(found.hits[0].get("id").and_then(|v| v.as_u64()), Some(1));
    assert_eq!(found.hits[1].as_str(), Some("s"));
    assert!(matches!(search(404, &body), Err(ESError::NotFound)));
    let empty: serde_json::Value = serde_json::from_str("{\"hits\": {\"total\": {\"value\": -3}}}").unwrap();
    let found = search(200, &empty).ok().unwrap();
    assert_eq!(found.total, 0);
    assert!(found.hits.is_empty());
}

#[test]
fn search_endpoints_answer_with_what_was_found() {
    let m = Email::assemble(1, 0, "a@x".into(), vec![], "s".into(), "b".into());
    let r = abuse_helper::routes::email::search_emails(Ok(SearchResult { total: 7, hits: vec![m] }));
    assert_eq!(r.status, 200);
    assert!(matches!(&r.body, Body::Json(a) if a.total == 7 && a.hits.len() == 1 && a.hits[0].id == 1));
    let r = abuse_helper::routes::email::search_emails(Err(ESError::NotFound));
    assert_eq!(r.status, 500);
    assert!(matches!(&r.body, Body::Message(m) if m == "ElasticSearch error: Not found"));
    let r = abuse_helper::routes::ticket::search_tickets(Ok(SearchResult { total: 0, hits: vec![] }));
    assert!(matches!(&r.body, Body::Json(a) if a.total == 0 && a.hits.is_empty()));
    let r = abuse_helper::routes::ticket::search_tickets(Err(ESError::Elastic("down".into())));
    assert!(matches!(&r.body, Body::Message(m) if m == "ElasticSearch error: Elasticsearch error: down"));
}
