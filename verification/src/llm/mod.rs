//! Classification: what is sent to the inference service, and how its
//! answer becomes an assessment whatever it holds.

pub mod analyzer;
pub mod parser;
pub mod threat_analysis;
