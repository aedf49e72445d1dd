//! The structured outcome of classification.

use vstd::prelude::*;
use crate::models::score::{unit_numeral, Confidence};
use crate::models::ticket::TicketType;

verus! {

/// What classification says of a message: a category, how sure it is, what
/// it found, and a summary in words.
#[derive(Debug)]
pub struct ThreatAnalysis {
    /// The category of the threat
    pub threat_type: TicketType,
    /// How sure the classification is, between 0 and 1
    pub confidence_score: Confidence,
    /// Descriptions of the threats found
    pub identified_threats: Vec<String>,
    /// Addresses, domains, URLs and file names found in the content
    pub extracted_indicators: Vec<String>,
    /// The findings in words
    pub summary: String,
}

/// An assessment as a value.
pub struct ThreatAnalysisView {
    pub threat_type: TicketType,
    pub confidence_score: Seq<char>,
    pub identified_threats: Seq<Seq<char>>,
    pub extracted_indicators: Seq<Seq<char>>,
    pub summary: Seq<char>,
}

impl ThreatAnalysisView {
    /// What holds of every assessment that leaves classification: the
    /// confidence lies between 0 and 1.
    pub open spec fn wf(self) -> bool {
        unit_numeral(self.confidence_score)
    }

    /// The assessment that stands in for one that could not be had.
    pub open spec fn fallback(message: Seq<char>) -> ThreatAnalysisView {
        ThreatAnalysisView {
            threat_type: TicketType::Other,
            confidence_score: "0.0"@,
            identified_threats: Seq::empty(),
            extracted_indicators: Seq::empty(),
            summary: message,
        }
    }
}

impl View for ThreatAnalysis {
    type V = ThreatAnalysisView;

    open spec fn view(&self) -> ThreatAnalysisView {
        ThreatAnalysisView {
            threat_type: self.threat_type,
            confidence_score: self.confidence_score.numeral@,
            identified_threats: self.identified_threats.deep_view(),
            extracted_indicators: self.extracted_indicators.deep_view(),
            summary: self.summary@,
        }
    }
}

impl ThreatAnalysis {
    /// The assessment that stands in for one that could not be had:
    /// category `Other`, confidence 0, nothing found, and `message` as the
    /// summary.
    pub fn default_error(message: &str) -> (r: ThreatAnalysis)
        ensures
            r@ == ThreatAnalysisView::fallback(message@),
            r@.wf(),
    {
        let r = ThreatAnalysis {
            threat_type: TicketType::Other,
            confidence_score: Confidence::zero(),
            identified_threats: Vec::new(),
            extracted_indicators: Vec::new(),
            summary: message.to_owned(),
        };
        proof {
            assert(r.identified_threats.deep_view() =~= Seq::empty());
            assert(r.extracted_indicators.deep_view() =~= Seq::empty());
        }
        r
    }
}

} // verus!
