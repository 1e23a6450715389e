//! Signature-based detection for a traffic-inspecting firewall: a parser for
//! ModSecurity `SecRule` directives, a phase-indexed rule registry, and an
//! engine that evaluates request headers, query strings and bodies against it.
pub mod text;
pub mod rule;
pub mod errors;
pub mod parser;
pub mod ruleset;
pub mod engine;
pub mod anomaly;
pub mod request;

pub use anomaly::format_headers_for_embedding;
pub use engine::SignatureBasedDetectionEngine;
pub use errors::ValidationErrors;
pub use request::query_string_of;
pub use parser::{parse_sec_rule, validate_sec_rule, parse_operator_string, ValidatedSecRuleComponents};
pub use rule::{Directive, Operator, Phase, SecMarker, SecRule, Severity, Variable};
pub use ruleset::{RuleGroup, RuleSet};
