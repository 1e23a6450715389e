//! Rule sets and the phase-indexed rule group.
use vstd::prelude::*;
use crate::rule::{Directive, Phase};

verus! {

/// An ordered collection of directives, with optional metadata. The order of
/// the directives is the order in which they are evaluated.
#[derive(Clone, Debug, PartialEq)]
pub struct RuleSet {
    pub name: Option<String>,
    pub description: Option<String>,
    pub directives: Vec<Directive>,
    pub version: Option<String>,
}

impl RuleSet {
    pub fn new(name: String, description: String, version: String, directives: Vec<Directive>) -> (r: RuleSet)
        ensures
            r.name == Some(name),
            r.description == Some(description),
            r.version == Some(version),
            r.directives == directives,
    {
        RuleSet {
            name: Some(name),
            description: Some(description),
            directives: directives,
            version: Some(version),
        }
    }
}

/// The rule sets of each phase, in order.
#[derive(Clone, Debug)]
pub struct RuleGroup {
    request_headers: Vec<RuleSet>,
    request_body: Vec<RuleSet>,
    response_headers: Vec<RuleSet>,
    response_body: Vec<RuleSet>,
    logging: Vec<RuleSet>,
}

impl RuleGroup {
    /// The rule sets registered for phase `p`, in order.
    pub closed spec fn sets(self, p: Phase) -> Seq<RuleSet> {
        match p {
            Phase::RequestHeaders => self.request_headers@,
            Phase::RequestBody => self.request_body@,
            Phase::ResponseHeaders => self.response_headers@,
            Phase::ResponseBody => self.response_body@,
            Phase::Logging => self.logging@,
        }
    }

    /// A group with no rule set in any phase.
    pub fn new() -> (r: RuleGroup)
        ensures
            forall|p: Phase| #[trigger] r.sets(p).len() == 0,
    {
        RuleGroup {
            request_headers: Vec::new(),
            request_body: Vec::new(),
            response_headers: Vec::new(),
            response_body: Vec::new(),
            logging: Vec::new(),
        }
    }

    /// Registers `rulesets` for `phase`, in place of those registered before.
    pub fn insert(&mut self, phase: Phase, rulesets: Vec<RuleSet>)
        ensures
            final(self).sets(phase) == rulesets@,
            forall|p: Phase| p != phase ==> #[trigger] final(self).sets(p) == old(self).sets(p),
    {
        match phase {
            Phase::RequestHeaders => self.request_headers = rulesets,
            Phase::RequestBody => self.request_body = rulesets,
            Phase::ResponseHeaders => self.response_headers = rulesets,
            Phase::ResponseBody => self.response_body = rulesets,
            Phase::Logging => self.logging = rulesets,
        }
    }

    /// The rule sets registered for `phase`, in order; empty where none are.
    pub fn get(&self, phase: Phase) -> (r: &Vec<RuleSet>)
        ensures
            r@ == self.sets(phase),
    {
        match phase {
            Phase::RequestHeaders => &self.request_headers,
            Phase::RequestBody => &self.request_body,
            Phase::ResponseHeaders => &self.response_headers,
            Phase::ResponseBody => &self.response_body,
            Phase::Logging => &self.logging,
        }
    }
}

} // verus!
