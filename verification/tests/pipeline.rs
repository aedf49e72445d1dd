use abuse_helper::llm::analyzer::{analyze_threat, prompt_for, MODEL};
use abuse_helper::llm::parser::parse_llm_response;
use abuse_helper::llm::threat_analysis::ThreatAnalysis;
use abuse_helper::models::email::{BatchItem, BatchJob, Email, EmailError, RawMessage};
use abuse_helper::models::es::{IndexWrite, SearchIndex};
use abuse_helper::models::ticket::{Ticket, TicketStatus, TicketType};
use abuse_helper::routes::email::{list_emails, process_emails};
use abuse_helper::routes::Body;
use abuse_helper::store::Store;

fn raw(sender: &str, subject: &str, body: &str) -> RawMessage {
    RawMessage {
        server_id: None,
        sender: sender.to_string(),
        recipients: vec!["abuse@example.org".to_string()],
        subject: subject.to_string(),
        body: body.to_string(),
        received_at: None,
    }
}

fn phishing() -> ThreatAnalysis {
    ThreatAnalysis::from_fields(
        "Phishing",
        "0.9",
        vec!["credential theft".to_string()],
        vec!["http://evil.example/reset".to_string(), "10.0.0.5".to_string()],
        "A phishing attempt".to_string(),
    )
    .unwrap()
}

#[test]
fn ingesting_the_same_content_twice_gives_one_message() {
    let mut store = Store::new();
    let mut index = SearchIndex::new();
    let first = raw("Someone@Example.org", "Hello", "same body").into_email(10);
    let second = raw("someone@example.ORG", "Hello", "same body").into_email(20);
    assert_eq!(first.id, second.id);
    let id = first.id;
    let a = Email::fetch_all(&mut store, &mut index, Ok(vec![first])).unwrap();
    assert_eq!(a.len(), 1);
    let b = Email::fetch_all(&mut store, &mut index, Ok(vec![second])).unwrap();
    assert_eq!(b.len(), 1);
    assert_eq!(b[0].id, id);
    assert_eq!(b[0].received_at, 10);
    assert_eq!(store.all_emails().len(), 1);
    assert_eq!(index.len(), 1);
}

#[test]
fn different_content_gives_different_identities() {
    let a = raw("a@example.org", "Hello", "one").into_email(1);
    let b = raw("a@example.org", "Hello", "two").into_email(1);
    assert_ne!(a.id, b.id);
}

#[test]
fn fingerprint_is_the_name_based_identifier_of_the_content() {
    let m = raw("A@Example.org", "S", "B");
    let text = "a@example.org\nabuse@example.org\nS\nB";
    let namespace = uuid::Uuid::from_u128(abuse_helper::ident::MESSAGE_NAMESPACE);
    let expected = uuid::Uuid::new_v5(&namespace, text.as_bytes()).as_u128();
    assert_eq!(m.fingerprint(), expected);
    assert_ne!(m.fingerprint(), abuse_helper::ident::MESSAGE_NAMESPACE);
}

#[test]
fn server_identifier_is_preferred_to_the_fingerprint() {
    let mut m = raw("a@example.org", "Hello", "one");
    m.server_id = Some(77);
    m.received_at = Some(5);
    let e = m.into_email(9);
    assert_eq!(e.id, 77);
    assert_eq!(e.received_at, 5);
    assert!(!e.analyzed);
    assert!(!e.is_sent);
}

#[test]
fn failed_fetch_commits_nothing() {
    let mut store = Store::new();
    let mut index = SearchIndex::new();
    let r = Email::fetch_all(
        &mut store,
        &mut index,
        Err(EmailError::Validation("Failed to connect to IMAP: refused".to_string())),
    );
    assert!(matches!(r, Err(EmailError::Validation(_))));
    assert_eq!(store.all_emails().len(), 0);
    assert_eq!(index.len(), 0);
}

#[test]
fn raw_mail_is_read_into_a_message() {
    let text = "From: Eve <eve@evil.example>\r\nTo: abuse@example.org\r\nTo: second@example.org\r\nSubject: Reset your password\r\n\r\nClick here\r\n";
    let m = RawMessage::parse(text.as_bytes()).unwrap();
    assert_eq!(m.sender, "Eve <eve@evil.example>");
    assert_eq!(
        m.recipients,
        vec!["abuse@example.org".to_string(), "second@example.org".to_string()]
    );
    assert_eq!(m.subject, "Reset your password");
    assert_eq!(m.body, "Click here\r\n");
    assert_eq!(m.server_id, None);
    assert_eq!(m.received_at, None);
}

#[test]
fn raw_mail_without_headers_has_empty_fields() {
    let m = RawMessage::parse(b"\r\njust a body").unwrap();
    assert_eq!(m.sender, "");
    assert!(m.recipients.is_empty());
    assert_eq!(m.subject, "");
    assert_eq!(m.body, "just a body");
}

#[test]
fn end_to_end_scenario() {
    let mut store = Store::new();
    let mut index = SearchIndex::new();
    let message = raw(
        "eve@evil.example",
        "Verify your account",
        "Click http://evil.example/reset to verify, IP 10.0.0.5 flagged",
    )
    .into_email(1_000);
    let message_id = message.id;
    let listing = list_emails(&mut store, &mut index, Ok(vec![message]));
    assert_eq!(listing.reply.status, 200);
    assert_eq!(listing.backlog, vec![message_id]);

    let reply = "{\"threat_type\": \"Phishing\", \"confidence_score\": 0.9, \
        \"identified_threats\": [\"credential theft\"], \
        \"extracted_indicators\": [\"http://evil.example/reset\", \"10.0.0.5\"], \
        \"summary\": \"A phishing attempt\"}";
    let analysis = analyze_threat(Ok(reply.to_string()));
    let items = vec![BatchItem { email_id: message_id, analysis, ticket_id: 42, now: 2_000 }];
    let (answer, outcomes) = process_emails(&mut store, &mut index, items);
    assert_eq!(answer.status, 200);
    assert!(matches!(&answer.body, Body::Message(m) if m == "Successfully processed 1 emails"));
    assert_eq!(outcomes.len(), 1);
    assert_eq!(outcomes[0].email_id, message_id);
    assert!(outcomes[0].result.is_ok());

    let tickets = Ticket::list_all(&store);
    assert_eq!(tickets.len(), 1);
    let ticket = &tickets[0];
    assert_eq!(ticket.id, 42);
    assert_eq!(ticket.ticket_type, TicketType::Phishing);
    assert_eq!(ticket.status, TicketStatus::Open);
    assert_eq!(ticket.ip_address, Some("10.0.0.5".to_string()));
    assert_eq!(ticket.subject, "Verify your account");
    assert_eq!(ticket.confidence_score.as_ref().unwrap().numeral, "0.9");
    assert_eq!(ticket.email_ids, vec![message_id]);
    assert_eq!(ticket.created_at, 2_000);
    assert_eq!(
        ticket.description,
        "Original Content:\nClick http://evil.example/reset to verify, IP 10.0.0.5 flagged\n\n\
Threat Analysis:\n- Confidence: 0.9\n- Identified Threats: credential theft\n\
- Extracted Indicators: http://evil.example/reset, 10.0.0.5\n\nSummary: A phishing attempt"
    );
    let stored = Email::fetch_by_id(&store, &message_id).unwrap();
    assert!(stored.analyzed);
    assert!(stored.is_analyzed());
    assert_eq!(stored.ticket_ids, vec![42]);
    assert_eq!(index.ticket_status(42), Some(TicketStatus::Open));
    assert_eq!(index.email_analyzed(message_id), Some(true));
}

#[test]
fn batch_reports_each_item() {
    let mut store = Store::new();
    let mut index = SearchIndex::new();
    let a = Email::assemble(1, 0, "a@x".into(), vec![], "first".into(), "body".into());
    let b = Email::assemble(2, 0, "b@x".into(), vec![], "second".into(), "body".into());
    let c = Email::assemble(3, 0, "c@x".into(), vec![], "".into(), "body".into());
    for m in [a, b, c] {
        m.save(&mut store, &mut index).unwrap();
    }
    let items = vec![
        BatchItem { email_id: 1, analysis: Ok(phishing()), ticket_id: 100, now: 5 },
        BatchItem { email_id: 2, analysis: Err("Failed to generate response: timeout".into()), ticket_id: 101, now: 5 },
        BatchItem { email_id: 9, analysis: Ok(phishing()), ticket_id: 102, now: 5 },
        BatchItem { email_id: 3, analysis: Ok(phishing()), ticket_id: 103, now: 5 },
        BatchItem { email_id: 1, analysis: Ok(phishing()), ticket_id: 100, now: 6 },
    ];
    let (answer, outcomes) = process_emails(&mut store, &mut index, items);
    assert_eq!(answer.status, 200);
    assert!(matches!(&answer.body, Body::Message(m) if m == "Processed 1 emails with 3 failures"));
    assert_eq!(outcomes.len(), 4);
    assert_eq!(outcomes[0].email_id, 1);
    assert!(outcomes[0].result.is_ok());
    assert_eq!(outcomes[1].email_id, 2);
    assert!(matches!(&outcomes[1].result,
        Err(EmailError::ThreatAnalysis(m)) if m == "Failed to generate response: timeout"));
    assert_eq!(outcomes[2].email_id, 3);
    assert!(matches!(&outcomes[2].result,
        Err(EmailError::ThreatAnalysis(m)) if m == "Validation error: Subject cannot be empty"));
    assert_eq!(outcomes[3].email_id, 1);
    assert!(matches!(&outcomes[3].result,
        Err(EmailError::ThreatAnalysis(m))
            if m == "Database error: duplicate key value violates unique constraint"));
    assert_eq!(Ticket::list_all(&store).len(), 1);
    assert!(Email::fetch_by_id(&store, &1).unwrap().analyzed);
    assert!(!Email::fetch_by_id(&store, &2).unwrap().analyzed);
    assert!(!Email::fetch_by_id(&store, &3).unwrap().analyzed);
}

#[test]
fn failed_item_leaves_no_ticket_behind() {
    let mut store = Store::new();
    let mut index = SearchIndex::new();
    let mut ghost = Email::assemble(5, 0, "a@x".into(), vec![], "s".into(), "b".into());
    let r = ghost.process(&mut store, &mut index, Ok(phishing()), 7, 1);
    assert!(matches!(&r, Err(EmailError::ThreatAnalysis(m))
        if m == "Validation error: Email 00000000-0000-0000-0000-000000000005 does not exist"));
    assert!(Ticket::find_by_id(&store, 7).is_none());
    assert!(!ghost.analyzed);
    assert_eq!(index.len(), 0);
}

#[test]
fn unreachable_service_is_a_hard_error() {
    let r = analyze_threat(Err("connection refused".to_string()));
    assert_eq!(r.err(), Some("Failed to generate response: connection refused".to_string()));
}

#[test]
fn any_answer_gives_an_assessment_in_range() {
    for text in ["", "   ", "not json", "[]", "{}", "{\"confidence_score\": 7}", "null"] {
        let a = analyze_threat(Ok(text.to_string())).unwrap();
        assert!(a.confidence_score.is_valid());
        assert_eq!(a.threat_type, TicketType::Other);
        assert!(a.identified_threats.is_empty());
        let b = parse_llm_response(text).unwrap();
        assert_eq!(a.summary, b.summary);
    }
}

#[test]
fn prompt_wraps_the_content() {
    let p = prompt_for("CONTENT");
    assert!(p.starts_with("<|im_start|>system\nYou are a security threat analyzer."));
    assert!(p.contains("Analyze this content for security threats:\nCONTENT\n\nRespond with"));
    assert!(p.contains("{\n    \"threat_type\": \"only one of the following values: Malware,"));
    assert!(p.ends_with("<|im_end|>\n<|im_start|>assistant"));
    assert_eq!(MODEL, "llama3.2:1b");
}

#[test]
fn message_content_has_four_lines() {
    let m = Email::assemble(
        1,
        0,
        "a@x".into(),
        vec!["b@y".to_string(), "c@z".to_string()],
        "Subj".into(),
        "Text".into(),
    );
    assert_eq!(m.content(), "From: a@x\nTo: b@y, c@z\nSubject: Subj\nBody: Text");
}

#[test]
fn new_message_is_fresh() {
    let a = Email::new("a@x".into(), vec![], "s".into(), "b".into());
    let b = Email::new("a@x".into(), vec![], "s".into(), "b".into());
    assert_ne!(a.id, b.id);
    assert!(a.received_at > 1_600_000_000_000_000);
    assert!(!a.analyzed && !a.is_sent && a.ticket_ids.is_empty());
    assert_eq!(a.sender, "a@x");
}

#[test]
fn index_writes_can_be_read_back() {
    let mut index = SearchIndex::new();
    let m = Email::assemble(1, 0, "a@x".into(), vec![], "s".into(), "b".into());
    m.index_to_es(&mut index).unwrap();
    assert_eq!(index.len(), 1);
    assert!(matches!(index.get(0), IndexWrite::PutEmail(e) if e.id == 1));
    assert_eq!(index.email_analyzed(1), Some(false));
    assert_eq!(index.email_analyzed(2), None);
    index.set_reachable(false);
    assert!(!index.is_reachable());
    assert!(m.index_to_es(&mut index).is_err());
    assert_eq!(index.len(), 1);
}

#[test]
fn batch_of_whole_messages_marks_those_that_went_through() {
    let mut store = Store::new();
    let mut index = SearchIndex::new();
    let a = Email::assemble(1, 0, "a@x".into(), vec![], "first".into(), "body".into());
    let b = Email::assemble(2, 0, "b@x".into(), vec![], "second".into(), "body".into());
    a.save(&mut store, &mut index).unwrap();
    b.save(&mut store, &mut index).unwrap();
    let jobs = vec![
        BatchJob { email: a, analysis: Ok(phishing()), ticket_id: 100, now: 5 },
        BatchJob { email: b, analysis: Err("no answer in time".into()), ticket_id: 101, now: 5 },
    ];
    let done = Email::process_batch(&mut store, &mut index, jobs);
    assert_eq!(done.len(), 2);
    assert!(done[0].result.is_ok());
    assert!(done[0].email.analyzed);
    assert_eq!(done[0].email.id, 1);
    assert!(matches!(&done[1].result,
        Err(EmailError::ThreatAnalysis(m)) if m == "no answer in time"));
    assert!(!done[1].email.analyzed);
    assert_eq!(store.tickets_linked_to(1), vec![100]);
    assert!(store.tickets_linked_to(2).is_empty());
    assert!(!store.ticket_exists(101));
}
