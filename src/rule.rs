//! The rule model: phases, severities, operators, variables and the
//! matching rule itself, each with its mathematical view.
use vstd::prelude::*;
use crate::text::{chars_of, same_chars, slice_chars, string_of};

verus! {

/// The stage of request processing that a rule is declared for.
#[derive(Clone, Copy, Debug, PartialEq, Eq, Hash, Structural)]
pub enum Phase {
    RequestHeaders,
    RequestBody,
    ResponseHeaders,
    ResponseBody,
    Logging,
}

/// The phase with number `n`, if there is one.
pub open spec fn phase_numbered(n: int) -> Option<Phase> {
    if n == 1 {
        Some(Phase::RequestHeaders)
    } else if n == 2 {
        Some(Phase::RequestBody)
    } else if n == 3 {
        Some(Phase::ResponseHeaders)
    } else if n == 4 {
        Some(Phase::ResponseBody)
    } else if n == 5 {
        Some(Phase::Logging)
    } else {
        None
    }
}

impl Phase {
    /// The number of the phase, from 1 to 5.
    pub open spec fn number(self) -> u8 {
        match self {
            Phase::RequestHeaders => 1,
            Phase::RequestBody => 2,
            Phase::ResponseHeaders => 3,
            Phase::ResponseBody => 4,
            Phase::Logging => 5,
        }
    }

    /// The phase with the given number; `None` outside 1..=5.
    pub fn from_u8(value: u8) -> (r: Option<Phase>)
        ensures
            r == phase_numbered(value as int),
            r is Some <==> 1 <= value <= 5,
            r matches Some(p) ==> p.number() == value,
    {
        match value {
            1 => Some(Phase::RequestHeaders),
            2 => Some(Phase::RequestBody),
            3 => Some(Phase::ResponseHeaders),
            4 => Some(Phase::ResponseBody),
            5 => Some(Phase::Logging),
            _ => None,
        }
    }

    pub fn as_u8(self) -> (r: u8)
        ensures
            r == self.number(),
            1 <= r <= 5,
            phase_numbered(r as int) == Some(self),
    {
        match self {
            Phase::RequestHeaders => 1,
            Phase::RequestBody => 2,
            Phase::ResponseHeaders => 3,
            Phase::ResponseBody => 4,
            Phase::Logging => 5,
        }
    }
}

impl Default for Phase {
    fn default() -> (r: Phase)
        ensures
            r == Phase::RequestHeaders,
    {
        Phase::RequestHeaders
    }
}

/// How serious a rule's finding is, from emergency (0) to debug (7).
#[derive(Clone, Copy, Debug, PartialEq, Eq, Hash, Structural)]
pub enum Severity {
    Emergency,
    Alert,
    Critical,
    Error,
    Warning,
    Notice,
    Info,
    Debug,
}

/// The severity with number `n`, if there is one.
pub open spec fn severity_numbered(n: int) -> Option<Severity> {
    if n == 0 {
        Some(Severity::Emergency)
    } else if n == 1 {
        Some(Severity::Alert)
    } else if n == 2 {
        Some(Severity::Critical)
    } else if n == 3 {
        Some(Severity::Error)
    } else if n == 4 {
        Some(Severity::Warning)
    } else if n == 5 {
        Some(Severity::Notice)
    } else if n == 6 {
        Some(Severity::Info)
    } else if n == 7 {
        Some(Severity::Debug)
    } else {
        None
    }
}

impl Severity {
    /// The number of the severity, from 0 to 7.
    pub open spec fn number(self) -> u8 {
        match self {
            Severity::Emergency => 0,
            Severity::Alert => 1,
            Severity::Critical => 2,
            Severity::Error => 3,
            Severity::Warning => 4,
            Severity::Notice => 5,
            Severity::Info => 6,
            Severity::Debug => 7,
        }
    }

    /// The severity with the given number; `None` above 7.
    pub fn from_u8(value: u8) -> (r: Option<Severity>)
        ensures
            r == severity_numbered(value as int),
            r is Some <==> value <= 7,
            r matches Some(s) ==> s.number() == value,
    {
        match value {
            0 => Some(Severity::Emergency),
            1 => Some(Severity::Alert),
            2 => Some(Severity::Critical),
            3 => Some(Severity::Error),
            4 => Some(Severity::Warning),
            5 => Some(Severity::Notice),
            6 => Some(Severity::Info),
            7 => Some(Severity::Debug),
            _ => None,
        }
    }

    pub fn as_u8(self) -> (r: u8)
        ensures
            r == self.number(),
            r <= 7,
            severity_numbered(r as int) == Some(self),
    {
        match self {
            Severity::Emergency => 0,
            Severity::Alert => 1,
            Severity::Critical => 2,
            Severity::Error => 3,
            Severity::Warning => 4,
            Severity::Notice => 5,
            Severity::Info => 6,
            Severity::Debug => 7,
        }
    }
}

impl Default for Severity {
    fn default() -> (r: Severity)
        ensures
            r == Severity::Emergency,
    {
        Severity::Emergency
    }
}

/// What `str::to_lowercase` makes of a string.
pub uninterp spec fn lower_of(s: Seq<char>) -> Seq<char>;

/// What `str::to_uppercase` makes of a string.
pub uninterp spec fn upper_of(s: Seq<char>) -> Seq<char>;

/// Relies on `str::to_lowercase`: the Unicode lower-case form of `s`, which
/// depends on the characters of `s` alone.
#[verifier::external_body]
fn to_lowercase(s: &str) -> (r: String)
    ensures
        r@ == lower_of(s@),
{
    s.to_lowercase()
}

/// Relies on `str::to_uppercase`: the Unicode upper-case form of `s`, which
/// depends on the characters of `s` alone.
#[verifier::external_body]
fn to_uppercase(s: &str) -> (r: String)
    ensures
        r@ == upper_of(s@),
{
    s.to_uppercase()
}

/// The test that a rule applies to the inspected value.
#[derive(Clone, Copy, Debug, PartialEq, Eq, Hash, Structural)]
pub enum Operator {
    /// Case-insensitive substring test.
    Contains,
    /// Regular-expression test. Part of the rule model, but neither produced
    /// by the rule parser nor evaluated by the engine yet.
    Rx,
}

/// `s` without one leading `@`.
pub open spec fn without_marker(s: Seq<char>) -> Seq<char> {
    if s.len() > 0 && s[0] == '@' {
        s.drop_first()
    } else {
        s
    }
}

/// The operator whose lower-case name is `lower`.
pub open spec fn operator_for_lowercase(lower: Seq<char>) -> Option<Operator> {
    if lower == "contains"@ {
        Some(Operator::Contains)
    } else {
        None
    }
}

/// The operator that the text `s` names, if any.
pub open spec fn operator_named(s: Seq<char>) -> Option<Operator> {
    operator_for_lowercase(lower_of(without_marker(s)))
}

/// The name of an operator, as the engine reports it.
pub open spec fn operator_name(op: Operator) -> Seq<char> {
    match op {
        Operator::Contains => "Contains"@,
        Operator::Rx => "Rx"@,
    }
}

impl Operator {
    /// The operator whose name, already in lower case, is `lower`.
    pub fn from_lowercase(lower: &[char]) -> (r: Option<Operator>)
        ensures
            r == operator_for_lowercase(lower@),
    {
        if same_chars(lower, "contains") {
            Some(Operator::Contains)
        } else {
            None
        }
    }

    /// The operator that `s` names, with or without a leading `@`, in any case.
    pub fn parse(s: &str) -> (r: Result<Operator, String>)
        ensures
            r matches Ok(op) ==> operator_named(s@) == Some(op),
            r matches Err(m) ==> operator_named(s@) is None
                && m@ == "operator type unknown (or unimplemented): '"@ + s@ + "'"@,
            r is Ok <==> operator_named(s@) is Some,
    {
        let cs = chars_of(s);
        let mut start: usize = 0;
        if cs.len() > 0 && cs[0] == '@' {
            start = 1;
        }
        let name = string_of(&slice_chars(&cs, start, cs.len()));
        assert(name@ == without_marker(s@)) by {
            assert(cs@.subrange(start as int, cs@.len() as int) =~= without_marker(s@));
        }
        let lowered = to_lowercase(name.as_str());
        let lc = chars_of(lowered.as_str());
        match Operator::from_lowercase(&lc) {
            Some(op) => Ok(op),
            None => {
                let mut m = chars_of("operator type unknown (or unimplemented): '");
                let mut rest = chars_of(s);
                m.append(&mut rest);
                let mut close = chars_of("'");
                m.append(&mut close);
                Err(string_of(&m))
            },
        }
    }

    /// The name of the operator.
    pub fn name(&self) -> (r: String)
        ensures
            r@ == operator_name(*self),
    {
        match self {
            Operator::Contains => string_of(&chars_of("Contains")),
            Operator::Rx => string_of(&chars_of("Rx")),
        }
    }
}

impl Default for Operator {
    fn default() -> (r: Operator)
        ensures
            r == Operator::Contains,
    {
        Operator::Contains
    }
}

/// The part of a request or response that a rule inspects.
#[derive(Clone, Copy, Debug, PartialEq, Eq, Hash, Structural)]
pub enum Variable {
    RequestHeaders,
    ResponseHeaders,
    RequestBody,
    Args,
}

/// The variable whose upper-case name is `upper`.
pub open spec fn variable_for_uppercase(upper: Seq<char>) -> Option<Variable> {
    if upper == "REQUEST_HEADERS"@ {
        Some(Variable::RequestHeaders)
    } else if upper == "REQUEST_BODY"@ {
        Some(Variable::RequestBody)
    } else if upper == "ARGS"@ {
        Some(Variable::Args)
    } else {
        None
    }
}

/// The variable that the text `s` names, if any.
pub open spec fn variable_named(s: Seq<char>) -> Option<Variable> {
    variable_for_uppercase(upper_of(s))
}

impl Variable {
    /// The variable whose name, already in upper case, is `upper`.
    pub fn from_uppercase(upper: &[char]) -> (r: Option<Variable>)
        ensures
            r == variable_for_uppercase(upper@),
    {
        if same_chars(upper, "REQUEST_HEADERS") {
            Some(Variable::RequestHeaders)
        } else if same_chars(upper, "REQUEST_BODY") {
            Some(Variable::RequestBody)
        } else if same_chars(upper, "ARGS") {
            Some(Variable::Args)
        } else {
            None
        }
    }

    /// The variable that `s` names, in any case.
    pub fn parse(s: &str) -> (r: Result<Variable, String>)
        ensures
            r matches Ok(v) ==> variable_named(s@) == Some(v),
            r matches Err(m) ==> variable_named(s@) is None
                && m@ == "unknown variable type: '"@ + s@ + "'"@,
            r is Ok <==> variable_named(s@) is Some,
    {
        let raised = to_uppercase(s);
        let uc = chars_of(raised.as_str());
        match Variable::from_uppercase(&uc) {
            Some(v) => Ok(v),
            None => {
                let mut m = chars_of("unknown variable type: '");
                let mut rest = chars_of(s);
                m.append(&mut rest);
                let mut close = chars_of("'");
                m.append(&mut close);
                Err(string_of(&m))
            },
        }
    }
}

impl Default for Variable {
    fn default() -> (r: Variable)
        ensures
            r == Variable::RequestHeaders,
    {
        Variable::RequestHeaders
    }
}

/// The characters of each string, in order.
pub open spec fn texts(v: Seq<String>) -> Seq<Seq<char>> {
    v.map_values(|s: String| s@)
}

/// The characters of an optional string.
pub open spec fn opt_text(o: Option<String>) -> Option<Seq<char>> {
    match o {
        Some(s) => Some(s@),
        None => None,
    }
}

/// A matching rule as a mathematical value.
pub struct RuleSpec {
    pub id: u32,
    pub phase: Phase,
    pub action: Seq<char>,
    pub operator: Operator,
    pub operator_target: Option<Seq<char>>,
    pub variable: Variable,
    pub variable_target: Option<Seq<char>>,
    pub pattern: Seq<char>,
    pub transformations: Seq<Seq<char>>,
    pub tags: Seq<Seq<char>>,
    pub message: Option<Seq<char>>,
    pub severity: Option<Severity>,
    pub chain: bool,
}

/// The rule that every field left unset in a rule's text takes its value from.
pub open spec fn default_rule() -> RuleSpec {
    RuleSpec {
        id: 0,
        phase: Phase::RequestHeaders,
        action: Seq::empty(),
        operator: Operator::Contains,
        operator_target: None,
        variable: Variable::RequestHeaders,
        variable_target: None,
        pattern: Seq::empty(),
        transformations: Seq::empty(),
        tags: Seq::empty(),
        message: None,
        severity: None,
        chain: false,
    }
}

/// A matching rule: which variable it inspects, which operator it applies,
/// and the actions and metadata that come with a match.
#[derive(Debug, PartialEq)]
pub struct SecRule {
    pub id: u32,
    pub phase: Phase,
    pub action: String,
    pub operator: Operator,
    pub operator_target: Option<String>,
    pub variable: Variable,
    pub variable_target: Option<String>,
    pub pattern: String,
    pub transformations: Vec<String>,
    pub tags: Vec<String>,
    pub message: Option<String>,
    pub severity: Option<Severity>,
    pub chain: bool,
}

impl View for SecRule {
    type V = RuleSpec;

    open spec fn view(&self) -> RuleSpec {
        RuleSpec {
            id: self.id,
            phase: self.phase,
            action: self.action@,
            operator: self.operator,
            operator_target: opt_text(self.operator_target),
            variable: self.variable,
            variable_target: opt_text(self.variable_target),
            pattern: self.pattern@,
            transformations: texts(self.transformations@),
            tags: texts(self.tags@),
            message: opt_text(self.message),
            severity: self.severity,
            chain: self.chain,
        }
    }
}

/// A copy of an optional string.
pub fn clone_opt_text(o: &Option<String>) -> (r: Option<String>)
    ensures
        opt_text(r) == opt_text(*o),
{
    match o {
        Some(s) => Some(s.clone()),
        None => None,
    }
}

/// A copy of a list of strings.
pub fn clone_texts(v: &Vec<String>) -> (r: Vec<String>)
    ensures
        texts(r@) == texts(v@),
{
    let mut r: Vec<String> = Vec::new();
    let mut i: usize = 0;
    while i < v.len()
        invariant
            i <= v.len(),
            r@.len() == i,
            forall|k: int| 0 <= k < i ==> #[trigger] r@[k]@ == v@[k]@,
        decreases v.len() - i,
    {
        r.push(v[i].clone());
        i = i + 1;
    }
    assert(texts(r@) =~= texts(v@));
    r
}

impl Clone for SecRule {
    fn clone(&self) -> (r: SecRule)
        ensures
            r@ == self@,
    {
        SecRule {
            id: self.id,
            phase: self.phase,
            action: self.action.clone(),
            operator: self.operator,
            operator_target: clone_opt_text(&self.operator_target),
            variable: self.variable,
            variable_target: clone_opt_text(&self.variable_target),
            pattern: self.pattern.clone(),
            transformations: clone_texts(&self.transformations),
            tags: clone_texts(&self.tags),
            message: clone_opt_text(&self.message),
            severity: self.severity,
            chain: self.chain,
        }
    }
}

impl Default for SecRule {
    fn default() -> (r: SecRule)
        ensures
            r@ == default_rule(),
    {
        let r = SecRule {
            id: 0,
            phase: Phase::RequestHeaders,
            action: String::new(),
            operator: Operator::Contains,
            operator_target: None,
            variable: Variable::RequestHeaders,
            variable_target: None,
            pattern: String::new(),
            transformations: Vec::new(),
            tags: Vec::new(),
            message: None,
            severity: None,
            chain: false,
        };
        assert(r@.transformations =~= Seq::<Seq<char>>::empty());
        assert(r@.tags =~= Seq::<Seq<char>>::empty());
        r
    }
}

/// A label that other directives can refer to; the engine does not evaluate it.
#[derive(Debug, PartialEq, Eq)]
pub struct SecMarker {
    pub name: String,
}

impl Clone for SecMarker {
    fn clone(&self) -> (r: SecMarker)
        ensures
            r.name@ == self.name@,
    {
        SecMarker { name: self.name.clone() }
    }
}

/// One entry of a rule set.
#[derive(Debug, PartialEq)]
pub enum Directive {
    SecRule(SecRule),
    SecMarker(SecMarker),
}

impl Clone for Directive {
    fn clone(&self) -> (r: Directive)
        ensures
            r matches Directive::SecRule(rr) ==> self matches Directive::SecRule(sr) && rr@ == sr@,
            r is SecMarker <==> self is SecMarker,
    {
        match self {
            Directive::SecRule(rule) => Directive::SecRule(rule.clone()),
            Directive::SecMarker(marker) => Directive::SecMarker(marker.clone()),
        }
    }
}

} // verus!
