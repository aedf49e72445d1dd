//! From the inference service's answer to an assessment.
//!
//! The answer is read strictly: a JSON object with the five fields of an
//! assessment, each of its kind, and a confidence between 0 and 1. Whatever
//! else arrives, an empty answer included, becomes a fallback assessment.
//! No answer makes this fail.

use vstd::prelude::*;
use crate::json::{
    document, items, json_document, json_items, json_member, json_numeral, json_string, member,
    numeral, string,
};
use crate::llm::threat_analysis::{ThreatAnalysis, ThreatAnalysisView};
use crate::models::score::{unit_numeral, Confidence};
use crate::models::ticket::TicketType;

verus! {

/// Whether `c` is white space: a character with Unicode's `White_Space`
/// property.
pub open spec fn is_whitespace(c: char) -> bool {
    ||| ('\u{9}' <= c && c <= '\u{d}')
    ||| c == ' '
    ||| c == '\u{85}'
    ||| c == '\u{a0}'
    ||| c == '\u{1680}'
    ||| ('\u{2000}' <= c && c <= '\u{200a}')
    ||| c == '\u{2028}'
    ||| c == '\u{2029}'
    ||| c == '\u{202f}'
    ||| c == '\u{205f}'
    ||| c == '\u{3000}'
}

/// Whether `s` holds nothing but white space.
pub open spec fn is_blank(s: Seq<char>) -> bool {
    forall|i: int| 0 <= i < s.len() ==> is_whitespace(#[trigger] s[i])
}

/// The texts of `items`, if every one of them is a string.
pub open spec fn texts_of(items: Seq<serde_json::Value>) -> Option<Seq<Seq<char>>>
    decreases items.len(),
{
    if items.len() == 0 {
        Some(Seq::empty())
    } else {
        match (texts_of(items.drop_last()), json_string(items.last())) {
            (Some(rest), Some(s)) => Some(rest.push(s)),
            _ => None,
        }
    }
}

/// The text of the member `key` of `v`, if it is a string.
pub open spec fn text_field(v: serde_json::Value, key: Seq<char>) -> Option<Seq<char>> {
    match json_member(v, key) {
        Some(m) => json_string(m),
        None => None,
    }
}

/// The numeral of the member `key` of `v`, if it is a number.
pub open spec fn number_field(v: serde_json::Value, key: Seq<char>) -> Option<Seq<char>> {
    match json_member(v, key) {
        Some(m) => json_numeral(m),
        None => None,
    }
}

/// The texts of the member `key` of `v`, if it is an array of strings.
pub open spec fn list_field(v: serde_json::Value, key: Seq<char>) -> Option<Seq<Seq<char>>> {
    match json_member(v, key) {
        Some(m) => match json_items(m) {
            Some(items) => texts_of(items),
            None => None,
        },
        None => None,
    }
}

/// The assessment that the five fields give: the category that
/// `threat_type` names, `Other` where it names none. `None` where
/// `confidence` is no number between 0 and 1.
pub open spec fn assembled(
    threat_type: Seq<char>,
    confidence: Seq<char>,
    threats: Seq<Seq<char>>,
    indicators: Seq<Seq<char>>,
    summary: Seq<char>,
) -> Option<ThreatAnalysisView> {
    if unit_numeral(confidence) {
        Some(
            ThreatAnalysisView {
                threat_type: TicketType::parse(threat_type),
                confidence_score: confidence,
                identified_threats: threats,
                extracted_indicators: indicators,
                summary,
            },
        )
    } else {
        None
    }
}

/// The assessment that the document `v` holds, if it holds one: an object
/// with a string `threat_type`, a number `confidence_score`, arrays of
/// strings `identified_threats` and `extracted_indicators`, and a string
/// `summary`.
pub open spec fn decoded(v: serde_json::Value) -> Option<ThreatAnalysisView> {
    match (
        text_field(v, "threat_type"@),
        number_field(v, "confidence_score"@),
        list_field(v, "identified_threats"@),
        list_field(v, "extracted_indicators"@),
        text_field(v, "summary"@),
    ) {
        (Some(t), Some(c), Some(threats), Some(indicators), Some(s)) => assembled(
            t,
            c,
            threats,
            indicators,
            s,
        ),
        _ => None,
    }
}

/// The assessment for the answer `response`.
pub open spec fn assessment(response: Seq<char>) -> ThreatAnalysisView {
    if is_blank(response) {
        ThreatAnalysisView::fallback("Analysis failed - no response from model"@)
    } else {
        match json_document(response) {
            Some(v) => match decoded(v) {
                Some(a) => a,
                None => ThreatAnalysisView::fallback("Failed to parse analysis response"@),
            },
            None => ThreatAnalysisView::fallback("Failed to parse analysis response"@),
        }
    }
}

fn is_whitespace_char(c: char) -> (r: bool)
    ensures
        r == is_whitespace(c),
{
    ('\u{9}' <= c && c <= '\u{d}') || c == ' ' || c == '\u{85}' || c == '\u{a0}' || c
        == '\u{1680}' || ('\u{2000}' <= c && c <= '\u{200a}') || c == '\u{2028}' || c
        == '\u{2029}' || c == '\u{202f}' || c == '\u{205f}' || c == '\u{3000}'
}

/// Whether `s` holds nothing but white space, as `s.trim().is_empty()`
/// says.
pub fn is_blank_text(s: &str) -> (r: bool)
    ensures
        r == is_blank(s@),
{
    let mut blank = true;
    for c in it: s.chars()
        invariant
            it.seq() == s@,
            blank <==> forall|j: int| 0 <= j < it.index() ==> is_whitespace(#[trigger] s@[j]),
    {
        if !is_whitespace_char(c) {
            blank = false;
        }
    }
    blank
}

/// The texts of `values`, if every one of them is a string.
fn texts(values: &Vec<serde_json::Value>) -> (r: Option<Vec<String>>)
    ensures
        crate::text::opt_texts(r) == texts_of(values@),
{
    let mut out: Vec<String> = Vec::new();
    let mut i: usize = 0;
    proof {
        assert(values@.take(0) =~= Seq::empty());
        assert(out.deep_view() =~= Seq::empty());
    }
    while i < values.len()
        invariant
            0 <= i <= values@.len(),
            texts_of(values@.take(i as int)) == Some(out.deep_view()),
        decreases values@.len() - i,
    {
        proof {
            assert(values@.take(i + 1).drop_last() == values@.take(i as int));
            assert(values@.take(i + 1).last() == values@[i as int]);
        }
        match string(&values[i]) {
            None => {
                proof {
                    lemma_texts_of_prefix(values@, i + 1);
                }
                return None;
            },
            Some(s) => {
                let ghost before = out.deep_view();
                out.push(s.to_owned());
                proof {
                    assert(out.deep_view() =~= before.push(s@));
                }
            },
        }
        i += 1;
    }
    proof {
        assert(values@.take(values@.len() as int) == values@);
    }
    Some(out)
}

/// Where a prefix holds something that is no string, so does the whole.
proof fn lemma_texts_of_prefix(items: Seq<serde_json::Value>, n: int)
    requires
        0 <= n <= items.len(),
        texts_of(items.take(n)) is None,
    ensures
        texts_of(items) is None,
    decreases items.len() - n,
{
    if n < items.len() {
        assert(items.take(n + 1).drop_last() == items.take(n));
        lemma_texts_of_prefix(items, n + 1);
    } else {
        assert(items.take(n) == items);
    }
}

fn read_text(v: &serde_json::Value, key: &str) -> (r: Option<String>)
    ensures
        crate::text::opt_text(r) == text_field(*v, key@),
{
    match member(v, key) {
        None => None,
        Some(m) => match string(m) {
            None => None,
            Some(s) => Some(s.to_owned()),
        },
    }
}

fn read_number(v: &serde_json::Value, key: &str) -> (r: Option<String>)
    ensures
        crate::text::opt_text(r) == number_field(*v, key@),
{
    match member(v, key) {
        None => None,
        Some(m) => numeral(m),
    }
}

fn read_list(v: &serde_json::Value, key: &str) -> (r: Option<Vec<String>>)
    ensures
        crate::text::opt_texts(r) == list_field(*v, key@),
{
    match member(v, key) {
        None => None,
        Some(m) => match items(m) {
            None => None,
            Some(a) => texts(a),
        },
    }
}

impl ThreatAnalysis {
    /// The assessment that the five fields give: the category that
    /// `threat_type` names, `Other` where it names none. `None` where
    /// `confidence` is no number between 0 and 1.
    pub fn from_fields(
        threat_type: &str,
        confidence: &str,
        identified_threats: Vec<String>,
        extracted_indicators: Vec<String>,
        summary: String,
    ) -> (r: Option<ThreatAnalysis>)
        ensures
            r is Some <==> unit_numeral(confidence@),
            (match r {
                Some(a) => Some(a@),
                None => None,
            }) == assembled(
                threat_type@,
                confidence@,
                identified_threats.deep_view(),
                extracted_indicators.deep_view(),
                summary@,
            ),
            r matches Some(a) ==> a@.wf(),
    {
        match Confidence::parse(confidence) {
            None => None,
            Some(confidence_score) => Some(
                ThreatAnalysis {
                    threat_type: TicketType::from_name(threat_type),
                    confidence_score,
                    identified_threats,
                    extracted_indicators,
                    summary,
                },
            ),
        }
    }

    /// The assessment that the document `v` holds, if it holds one.
    pub fn decode(v: &serde_json::Value) -> (r: Option<ThreatAnalysis>)
        ensures
            (match r {
                Some(a) => Some(a@),
                None => None,
            }) == decoded(*v),
            r matches Some(a) ==> a@.wf(),
    {
        let threat_type = read_text(v, "threat_type");
        let confidence = read_number(v, "confidence_score");
        let threats = read_list(v, "identified_threats");
        let indicators = read_list(v, "extracted_indicators");
        let summary = read_text(v, "summary");
        match (threat_type, confidence, threats, indicators, summary) {
            (Some(t), Some(c), Some(threats), Some(indicators), Some(s)) => {
                ThreatAnalysis::from_fields(t.as_str(), c.as_str(), threats, indicators, s)
            },
            _ => None,
        }
    }
}

/// Turns the inference service's answer into an assessment. Every answer
/// gives one: an answer of white space alone, the fallback that says that
/// nothing came; an answer that is no JSON document, or holds no
/// assessment, the fallback that says that it could not be read. The
/// confidence of what comes back lies between 0 and 1.
pub fn parse_llm_response(response: &str) -> (r: Result<ThreatAnalysis, String>)
    ensures
        r is Ok,
        r->Ok_0@ == assessment(response@),
        r->Ok_0@.wf(),
{
    if is_blank_text(response) {
        return Ok(ThreatAnalysis::default_error("Analysis failed - no response from model"));
    }
    let parsed = match document(response) {
        None => None,
        Some(v) => ThreatAnalysis::decode(&v),
    };
    match parsed {
        Some(analysis) => Ok(analysis),
        None => Ok(ThreatAnalysis::default_error("Failed to parse analysis response")),
    }
}

} // verus!
