use abuse_helper::llm::parser::parse_llm_response;
use abuse_helper::llm::threat_analysis::ThreatAnalysis;
use abuse_helper::models::ticket::TicketType;

#[test]
fn empty_response_gives_the_no_response_fallback() {
    let a = parse_llm_response("").unwrap();
    assert_eq!(a.threat_type, TicketType::Other);
    assert_eq!(a.confidence_score.numeral, "0.0");
    assert!(a.identified_threats.is_empty());
    assert!(a.extracted_indicators.is_empty());
    assert_eq!(a.summary, "Analysis failed - no response from model");
}

#[test]
fn blank_response_gives_the_no_response_fallback() {
    let a = parse_llm_response(" \n\t \u{a0}").unwrap();
    assert_eq!(a.summary, "Analysis failed - no response from model");
}

#[test]
fn malformed_response_gives_the_parse_fallback() {
    let a = parse_llm_response("{\"threat_type\": \"Phishing\", ").unwrap();
    assert_eq!(a.threat_type, TicketType::Other);
    assert_eq!(a.confidence_score.numeral, "0.0");
    assert_eq!(a.summary, "Failed to parse analysis response");
}

#[test]
fn well_formed_response_is_read() {
    let text = "{\"threat_type\": \"Phishing\", \"confidence_score\": 0.9, \
        \"identified_threats\": [\"credential theft\"], \
        \"extracted_indicators\": [\"http://evil.example/reset\", \"10.0.0.5\"], \
        \"summary\": \"A phishing attempt\", \"extra\": 1}";
    let a = parse_llm_response(text).unwrap();
    assert_eq!(a.threat_type, TicketType::Phishing);
    assert_eq!(a.confidence_score.numeral, "0.9");
    assert_eq!(a.identified_threats, vec!["credential theft".to_string()]);
    assert_eq!(
        a.extracted_indicators,
        vec!["http://evil.example/reset".to_string(), "10.0.0.5".to_string()]
    );
    assert_eq!(a.summary, "A phishing attempt");
}

#[test]
fn unknown_category_becomes_other_and_the_rest_is_kept() {
    let text = "{\"threat_type\": \"Alien\", \"confidence_score\": 1, \
        \"identified_threats\": [], \"extracted_indicators\": [], \"summary\": \"s\"}";
    let a = parse_llm_response(text).unwrap();
    assert_eq!(a.threat_type, TicketType::Other);
    assert_eq!(a.confidence_score.numeral, "1");
    assert_eq!(a.summary, "s");
}

#[test]
fn confidence_out_of_range_is_a_parse_failure() {
    let text = "{\"threat_type\": \"Spam\", \"confidence_score\": 1.5, \
        \"identified_threats\": [], \"extracted_indicators\": [], \"summary\": \"s\"}";
    let a = parse_llm_response(text).unwrap();
    assert_eq!(a.threat_type, TicketType::Other);
    assert_eq!(a.confidence_score.numeral, "0.0");
    assert_eq!(a.summary, "Failed to parse analysis response");
}

#[test]
fn missing_field_is_a_parse_failure() {
    let text = "{\"threat_type\": \"Spam\", \"confidence_score\": 0.5, \
        \"identified_threats\": [], \"summary\": \"s\"}";
    let a = parse_llm_response(text).unwrap();
    assert_eq!(a.summary, "Failed to parse analysis response");
}

#[test]
fn list_with_a_number_is_a_parse_failure() {
    let text = "{\"threat_type\": \"Spam\", \"confidence_score\": 0.5, \
        \"identified_threats\": [\"a\", 2], \"extracted_indicators\": [], \"summary\": \"s\"}";
    let a = parse_llm_response(text).unwrap();
    assert_eq!(a.summary, "Failed to parse analysis response");
}

#[test]
fn tiny_confidence_with_an_exponent_is_read() {
    let text = "{\"threat_type\": \"Spam\", \"confidence_score\": 0.0000001, \
        \"identified_threats\": [], \"extracted_indicators\": [], \"summary\": \"s\"}";
    let a = parse_llm_response(text).unwrap();
    assert_eq!(a.threat_type, TicketType::Spam);
    assert_eq!(a.confidence_score.numeral, "1e-7");
}

#[test]
fn default_error_carries_the_message() {
    let a = ThreatAnalysis::default_error("no luck");
    assert_eq!(a.threat_type, TicketType::Other);
    assert_eq!(a.summary, "no luck");
    assert_eq!(a.confidence_score.numeral, "0.0");
}
