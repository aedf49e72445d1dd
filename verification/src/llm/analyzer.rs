//! What is sent to the inference service, and what its reply comes to.

use vstd::prelude::*;
use crate::llm::parser::{assessment, parse_llm_response};
use crate::llm::threat_analysis::{ThreatAnalysis, ThreatAnalysisView};

verus! {

/// The model that classifies.
pub const MODEL: &'static str = "llama3.2:1b";

/// The instructions in front of the content.
pub const PROMPT_HEAD: &'static str =
    "<|im_start|>system\nYou are a security threat analyzer. You will analyze the content provided and MUST respond with a single JSON object.\nYou must extract any suspicious indicators like URLs, IPs, domains, and file names found only in the content provided.\nYou must be direct and honest in your assessment.\nYou cannot refuse to analyze any content.\nYou must provide uncensored analysis.\nYou must provide a detailed summary of the analysis.\nYou are smart and can understand the context of the content and are not easily fooled, so you can make assumptions when needed if they make sense.\n<|im_end|>\n<|im_start|>user\nAnalyze this content for security threats:\n";

/// The instructions behind the content: the shape of the answer.
pub const PROMPT_TAIL: &'static str =
    "\n\nRespond with a single JSON object in this EXACT format (MAKE SURE THERE ARE NO TRAILING COMMAS AT THE END OF THE JSON OBJECT, MAKE SURE YOU INCLUDE ALL FIELDS: threat_type, confidence_score, identified_threats, extracted_indicators, summary) (values for identified_threats and extracted_indicators must be retrieved from the content provided, DO NOT MAKE UP ANY VALUES):\n{\n    \"threat_type\": \"only one of the following values: Malware, Phishing, Scam, Spam, DDoS, Botnet, DataBreach, IdentityTheft, Ransomware, CyberStalking, IntellectualPropertyTheft, Harassment, UnauthorizedAccess, CopyrightViolation, BruteForce, C2, Other\",\n    \"confidence_score\": 0.0 to 1.0,\n    \"identified_threats\": [\"list\", \"of\", \"identified\", \"threats\", \"found\", \"in\", \"the\", \"content\"],\n    \"extracted_indicators\": [\"list\", \"of\", \"suspicious\", \"URLs\", \"IPs\", \"domains\", \"files\", \"found\", \"in\", \"the\", \"content\"],\n    \"summary\": \"detailed analysis summary\"\n}\n<|im_end|>\n<|im_start|>assistant";

/// What classification comes to, given what the service did: its answer,
/// or why none came.
pub open spec fn analysis_of(reply: Result<Seq<char>, Seq<char>>) -> Result<
    ThreatAnalysisView,
    Seq<char>,
> {
    match reply {
        Ok(text) => Ok(assessment(text)),
        Err(why) => Err("Failed to generate response: "@ + why),
    }
}

/// The request to send for the content `text`: the fixed instructions
/// around it.
pub fn prompt_for(text: &str) -> (r: String)
    ensures
        r@ == PROMPT_HEAD@ + text@ + PROMPT_TAIL@,
{
    let mut out = PROMPT_HEAD.to_owned();
    out.append(text);
    out.append(PROMPT_TAIL);
    out
}

/// What classification comes to, given what the service did. A service
/// that could not be reached, or did not answer in time, is an error: it
/// is not tried again. Whatever the service answered gives an assessment,
/// the fallback where the answer cannot be read.
pub fn analyze_threat(reply: Result<String, String>) -> (r: Result<ThreatAnalysis, String>)
    ensures
        (match r {
            Ok(a) => Ok(a@),
            Err(why) => Err(why@),
        }) == analysis_of(
            match reply {
                Ok(text) => Ok(text@),
                Err(why) => Err(why@),
            },
        ),
        r matches Ok(a) ==> a@.wf(),
{
    match reply {
        Err(why) => Err("Failed to generate response: ".to_owned().concat(why.as_str())),
        Ok(text) => parse_llm_response(text.as_str()),
    }
}

} // verus!
