//! The detection engine: evaluates the rules of a phase against request data,
//! first match wins.
use vstd::prelude::*;
use std::sync::atomic::{AtomicU64, Ordering};
use crate::rule::{operator_name, Directive, Operator, Phase, RuleSpec, SecRule, Variable};
use crate::parser::{parse_rule, parse_sec_rule};
use crate::ruleset::{RuleGroup, RuleSet};
use crate::text::{
    chars_of, contains_folded, contains_ignore_ascii_case, decimal, decimal_chars, eq_folded,
    eq_ignore_ascii_case, fold, occurs_at, string_of,
};

verus! {

/// The request data that one phase evaluation inspects.
pub enum Inspected {
    /// Header name/value pairs.
    Headers(Seq<(Seq<char>, Seq<char>)>),
    /// The raw query string.
    Query(Seq<char>),
    /// The raw body text.
    Body(Seq<char>),
}

/// The variable that rules must name to be considered for `input`.
pub open spec fn inspected_variable(input: Inspected) -> Variable {
    match input {
        Inspected::Headers(_) => Variable::RequestHeaders,
        Inspected::Query(_) => Variable::Args,
        Inspected::Body(_) => Variable::RequestBody,
    }
}

/// Some header of `h` is named `name`, up to ASCII case, and its value holds
/// `target`, up to ASCII case.
pub open spec fn some_header_holds(h: Seq<(Seq<char>, Seq<char>)>, name: Seq<char>, target: Seq<char>) -> bool {
    exists|k: int| 0 <= k < h.len() && eq_folded(#[trigger] h[k].0, name) && contains_folded(h[k].1, target)
}

/// Whether the substring test of `rule` succeeds on `input`: for headers, some
/// header named like the rule's variable target holds its operator target;
/// otherwise the whole text holds it. Names and text compare up to ASCII case.
pub open spec fn rule_hits(rule: RuleSpec, input: Inspected) -> bool {
    match input {
        Inspected::Headers(h) => {
            &&& rule.variable_target is Some
            &&& rule.operator_target is Some
            &&& some_header_holds(h, rule.variable_target->0, rule.operator_target->0)
        },
        Inspected::Query(q) => match rule.operator_target {
            Some(target) => contains_folded(q, target),
            None => false,
        },
        Inspected::Body(b) => match rule.operator_target {
            Some(target) => contains_folded(b, target),
            None => false,
        },
    }
}

/// The fault reported for a rule whose operator the engine cannot evaluate.
pub open spec fn fault_message(rule: RuleSpec) -> Seq<char> {
    operator_name(rule.operator) + " operator is not yet implemented. rule: "@ + decimal(rule.id as nat)
}

/// The verdict of one rule on `input`: skipped (`Ok(None)`) when it inspects
/// another variable, a fault when its operator is not `contains`, else a
/// match or not.
pub open spec fn rule_verdict(rule: RuleSpec, input: Inspected) -> Result<Option<RuleSpec>, Seq<char>> {
    if rule.variable != inspected_variable(input) {
        Ok(None)
    } else if rule.operator != Operator::Contains {
        Err(fault_message(rule))
    } else if rule_hits(rule, input) {
        Ok(Some(rule))
    } else {
        Ok(None)
    }
}

/// The verdict of the directives `ds` on `input`: the first rule, in order,
/// whose verdict is not `Ok(None)` decides.
pub open spec fn directives_verdict(ds: Seq<Directive>, input: Inspected) -> Result<Option<RuleSpec>, Seq<char>>
    decreases ds.len(),
{
    if ds.len() == 0 {
        Ok(None)
    } else {
        match ds[0] {
            Directive::SecRule(rule) => match rule_verdict(rule@, input) {
                Ok(None) => directives_verdict(ds.drop_first(), input),
                decided => decided,
            },
            Directive::SecMarker(_) => directives_verdict(ds.drop_first(), input),
        }
    }
}

/// The verdict of the rule sets `sets` on `input`: the first set, in order,
/// whose verdict is not `Ok(None)` decides.
pub open spec fn rulesets_verdict(sets: Seq<RuleSet>, input: Inspected) -> Result<Option<RuleSpec>, Seq<char>>
    decreases sets.len(),
{
    if sets.len() == 0 {
        Ok(None)
    } else {
        match directives_verdict(sets[0].directives@, input) {
            Ok(None) => rulesets_verdict(sets.drop_first(), input),
            decided => decided,
        }
    }
}

/// The view of an evaluation's outcome.
pub open spec fn verdict_view(r: Result<Option<SecRule>, String>) -> Result<Option<RuleSpec>, Seq<char>> {
    match r {
        Ok(Some(rule)) => Ok(Some(rule@)),
        Ok(None) => Ok(None),
        Err(m) => Err(m@),
    }
}

/// The characters of each header name and value.
pub open spec fn headers_view(h: Seq<(String, String)>) -> Seq<(Seq<char>, Seq<char>)> {
    h.map_values(|p: (String, String)| (p.0@, p.1@))
}

/// The fault reported for `rule`.
fn fault(rule: &SecRule) -> (r: String)
    ensures
        r@ == fault_message(rule@),
{
    let mut m = chars_of(rule.operator.name().as_str());
    let mut middle = chars_of(" operator is not yet implemented. rule: ");
    m.append(&mut middle);
    let mut id = decimal_chars(rule.id as u64);
    m.append(&mut id);
    string_of(&m)
}

fn check_ruleset_against_headers(ruleset: &RuleSet, headers: &[(String, String)]) -> (r: Result<Option<SecRule>, String>)
    ensures
        verdict_view(r) == directives_verdict(ruleset.directives@, Inspected::Headers(headers_view(headers@))),
{
    let ghost input = Inspected::Headers(headers_view(headers@));
    let ds = &ruleset.directives;
    let mut i: usize = 0;
    assert(ds@.skip(0) =~= ds@);
    while i < ds.len()
        invariant
            input == Inspected::Headers(headers_view(headers@)),
            i <= ds.len(),
            directives_verdict(ds@.skip(i as int), input) == directives_verdict(ds@, input),
            ds@ == ruleset.directives@,
        decreases ds.len() - i,
    {
        let ghost rest = ds@.skip(i as int);
        assert(rest.drop_first() =~= ds@.skip(i + 1));
        assert(rest[0] == ds@[i as int]);
        match &ds[i] {
            Directive::SecRule(sec_rule) => {
                assert(directives_verdict(rest, input) == match rule_verdict(sec_rule@, input) {
                    Ok(None) => directives_verdict(ds@.skip(i + 1), input),
                    decided => decided,
                });
                match check_rule_against_headers(sec_rule, headers) {
                    Ok(Some(matched_rule)) => {
                        assert(directives_verdict(rest, input) == Ok::<_, Seq<char>>(Some(matched_rule@)));
                        return Ok(Some(matched_rule));
                    },
                    Ok(None) => {},
                    Err(e) => return Err(e),
                }
            },
            Directive::SecMarker(_) => {
                assert(directives_verdict(rest, input) == directives_verdict(ds@.skip(i + 1), input));
            },
        }
        i = i + 1;
    }
    Ok(None)
}

fn check_rule_against_headers(sec_rule: &SecRule, headers: &[(String, String)]) -> (r: Result<Option<SecRule>, String>)
    ensures
        verdict_view(r) == rule_verdict(sec_rule@, Inspected::Headers(headers_view(headers@))),
{
    if sec_rule.variable != Variable::RequestHeaders {
        return Ok(None);
    }
    if sec_rule.operator != Operator::Contains {
        return Err(fault(sec_rule));
    }
    if rule_matches_headers(sec_rule, headers) {
        Ok(Some(sec_rule.clone()))
    } else {
        Ok(None)
    }
}

fn check_ruleset_against_args(ruleset: &RuleSet, query_string: &str) -> (r: Result<Option<SecRule>, String>)
    ensures
        verdict_view(r) == directives_verdict(ruleset.directives@, Inspected::Query(query_string@)),
{
    let ghost input = Inspected::Query(query_string@);
    let ds = &ruleset.directives;
    let mut i: usize = 0;
    assert(ds@.skip(0) =~= ds@);
    while i < ds.len()
        invariant
            input == Inspected::Query(query_string@),
            i <= ds.len(),
            directives_verdict(ds@.skip(i as int), input) == directives_verdict(ds@, input),
            ds@ == ruleset.directives@,
        decreases ds.len() - i,
    {
        let ghost rest = ds@.skip(i as int);
        assert(rest.drop_first() =~= ds@.skip(i + 1));
        assert(rest[0] == ds@[i as int]);
        match &ds[i] {
            Directive::SecRule(sec_rule) => {
                assert(directives_verdict(rest, input) == match rule_verdict(sec_rule@, input) {
                    Ok(None) => directives_verdict(ds@.skip(i + 1), input),
                    decided => decided,
                });
                match check_rule_against_args(sec_rule, query_string) {
                    Ok(Some(matched_rule)) => {
                        assert(directives_verdict(rest, input) == Ok::<_, Seq<char>>(Some(matched_rule@)));
                        return Ok(Some(matched_rule));
                    },
                    Ok(None) => {},
                    Err(e) => return Err(e),
                }
            },
            Directive::SecMarker(_) => {
                assert(directives_verdict(rest, input) == directives_verdict(ds@.skip(i + 1), input));
            },
        }
        i = i + 1;
    }
    Ok(None)
}

fn check_rule_against_args(sec_rule: &SecRule, query_string: &str) -> (r: Result<Option<SecRule>, String>)
    ensures
        verdict_view(r) == rule_verdict(sec_rule@, Inspected::Query(query_string@)),
{
    if sec_rule.variable != Variable::Args {
        return Ok(None);
    }
    if sec_rule.operator != Operator::Contains {
        return Err(fault(sec_rule));
    }
    if rule_matches_args(sec_rule, query_string) {
        Ok(Some(sec_rule.clone()))
    } else {
        Ok(None)
    }
}

fn check_ruleset_against_body(ruleset: &RuleSet, body: &str) -> (r: Result<Option<SecRule>, String>)
    ensures
        verdict_view(r) == directives_verdict(ruleset.directives@, Inspected::Body(body@)),
{
    let ghost input = Inspected::Body(body@);
    let ds = &ruleset.directives;
    let mut i: usize = 0;
    assert(ds@.skip(0) =~= ds@);
    while i < ds.len()
        invariant
            input == Inspected::Body(body@),
            i <= ds.len(),
            directives_verdict(ds@.skip(i as int), input) == directives_verdict(ds@, input),
            ds@ == ruleset.directives@,
        decreases ds.len() - i,
    {
        let ghost rest = ds@.skip(i as int);
        assert(rest.drop_first() =~= ds@.skip(i + 1));
        assert(rest[0] == ds@[i as int]);
        match &ds[i] {
            Directive::SecRule(sec_rule) => {
                assert(directives_verdict(rest, input) == match rule_verdict(sec_rule@, input) {
                    Ok(None) => directives_verdict(ds@.skip(i + 1), input),
                    decided => decided,
                });
                match check_rule_against_body(sec_rule, body) {
                    Ok(Some(matched_rule)) => {
                        assert(directives_verdict(rest, input) == Ok::<_, Seq<char>>(Some(matched_rule@)));
                        return Ok(Some(matched_rule));
                    },
                    Ok(None) => {},
                    Err(e) => return Err(e),
                }
            },
            Directive::SecMarker(_) => {
                assert(directives_verdict(rest, input) == directives_verdict(ds@.skip(i + 1), input));
            },
        }
        i = i + 1;
    }
    Ok(None)
}

fn check_rule_against_body(sec_rule: &SecRule, body: &str) -> (r: Result<Option<SecRule>, String>)
    ensures
        verdict_view(r) == rule_verdict(sec_rule@, Inspected::Body(body@)),
{
    if sec_rule.variable != Variable::RequestBody {
        return Ok(None);
    }
    if sec_rule.operator != Operator::Contains {
        return Err(fault(sec_rule));
    }
    if rule_matches_body(sec_rule, body) {
        Ok(Some(sec_rule.clone()))
    } else {
        Ok(None)
    }
}

fn rule_matches_headers(sec_rule: &SecRule, headers: &[(String, String)]) -> (r: bool)
    ensures
        r == rule_hits(sec_rule@, Inspected::Headers(headers_view(headers@))),
{
    let variable_target = match &sec_rule.variable_target {
        Some(target) => chars_of(target.as_str()),
        None => return false,
    };
    let operator_target = match &sec_rule.operator_target {
        Some(target) => chars_of(target.as_str()),
        None => return false,
    };
    let ghost h = headers_view(headers@);
    let mut i: usize = 0;
    while i < headers.len()
        invariant
            i <= headers.len(),
            h == headers_view(headers@),
            sec_rule@.variable_target == Some(variable_target@),
            sec_rule@.operator_target == Some(operator_target@),
            forall|k: int| 0 <= k < i ==> !(eq_folded(#[trigger] h[k].0, variable_target@)
                && contains_folded(h[k].1, operator_target@)),
        decreases headers.len() - i,
    {
        let name = chars_of(headers[i].0.as_str());
        if eq_ignore_ascii_case(&name, &variable_target) {
            let value = chars_of(headers[i].1.as_str());
            if contains_ignore_ascii_case(&value, &operator_target) {
                assert(eq_folded(h[i as int].0, variable_target@) && contains_folded(h[i as int].1, operator_target@));
                assert(h.len() == headers@.len());
                assert(some_header_holds(h, variable_target@, operator_target@));
                return true;
            }
        }
        i = i + 1;
    }
    false
}

fn rule_matches_args(sec_rule: &SecRule, query_string: &str) -> (r: bool)
    ensures
        r == rule_hits(sec_rule@, Inspected::Query(query_string@)),
{
    let operator_target = match &sec_rule.operator_target {
        Some(target) => chars_of(target.as_str()),
        None => return false,
    };
    contains_ignore_ascii_case(&chars_of(query_string), &operator_target)
}

fn rule_matches_body(sec_rule: &SecRule, body: &str) -> (r: bool)
    ensures
        r == rule_hits(sec_rule@, Inspected::Body(body@)),
{
    let operator_target = match &sec_rule.operator_target {
        Some(target) => chars_of(target.as_str()),
        None => return false,
    };
    contains_ignore_ascii_case(&chars_of(body), &operator_target)
}

/// A header rule that flags clients that call themselves bots.
pub const EXAMPLE_BOT_RULE: &'static str = r#"SecRule REQUEST_HEADERS:User-Agent \
        "@contains bot" \
        "id:1001,\
        phase:1,\
        deny,\
        msg:'bot detected',\
        severity:3,\
        tag:'attack/bot'""#;

/// A query-argument rule against script injection.
pub const EXAMPLE_XSS_RULE: &'static str = r#"SecRule ARGS \
        "@contains <script" \
        "id:1002,\
        phase:2,\
        deny,\
        msg:'XSS attempt detected',\
        severity:2,\
        tag:'attack/xss'""#;

/// A query-argument rule against URL-encoded script injection.
pub const EXAMPLE_ENCODED_XSS_RULE: &'static str = r#"SecRule ARGS \
        "@contains %3Cscript" \
        "id:1004,\
        phase:2,\
        deny,\
        msg:'URL-encoded XSS attempt detected',\
        severity:2,\
        tag:'attack/xss'""#;

/// A request-body rule against SQL injection.
pub const EXAMPLE_SQLI_RULE: &'static str = r#"SecRule REQUEST_BODY \
        "@contains DROP TABLE" \
        "id:1003,\
        phase:2,\
        deny,\
        msg:'SQL injection attempt detected in request body',\
        severity:2,\
        tag:'attack/sqli'""#;

/// The rules that the texts `texts` describe, in order, leaving out the
/// texts that are rejected.
pub open spec fn parsed_rules(texts: Seq<Seq<char>>) -> Seq<RuleSpec>
    decreases texts.len(),
{
    if texts.len() == 0 {
        Seq::empty()
    } else {
        match parse_rule(texts[0]) {
            Ok(rule) => seq![rule] + parsed_rules(texts.drop_first()),
            Err(_) => parsed_rules(texts.drop_first()),
        }
    }
}

/// The rules among the directives `ds`, in order.
pub open spec fn rules_in(ds: Seq<Directive>) -> Seq<RuleSpec>
    decreases ds.len(),
{
    if ds.len() == 0 {
        Seq::empty()
    } else {
        match ds.last() {
            Directive::SecRule(rule) => rules_in(ds.drop_last()).push(rule@),
            Directive::SecMarker(_) => rules_in(ds.drop_last()),
        }
    }
}

proof fn parsed_rules_prepend(text: Seq<char>, rest: Seq<Seq<char>>)
    ensures
        parsed_rules(seq![text] + rest) == parsed_rules(seq![text]) + parsed_rules(rest),
{
    let all = seq![text] + rest;
    assert(all.drop_first() =~= rest);
    assert(seq![text].drop_first() =~= Seq::<Seq<char>>::empty());
    assert(parsed_rules(Seq::<Seq<char>>::empty()) == Seq::<RuleSpec>::empty());
    match parse_rule(text) {
        Ok(rule) => {
            assert(parsed_rules(seq![text]) =~= seq![rule]);
        },
        Err(_) => {
            assert(parsed_rules(seq![text]) =~= Seq::<RuleSpec>::empty());
            assert(parsed_rules(rest) =~= Seq::<RuleSpec>::empty() + parsed_rules(rest));
        },
    }
}

/// Appends the rule that `text` describes, if the text is accepted.
fn push_parsed(ds: &mut Vec<Directive>, text: &str)
    ensures
        rules_in(final(ds)@) == rules_in(old(ds)@) + parsed_rules(seq![text@]),
{
    let ghost texts = seq![text@];
    assert(texts.drop_first() =~= Seq::<Seq<char>>::empty());
    assert(texts[0] == text@);
    assert(parsed_rules(texts.drop_first()) == Seq::<RuleSpec>::empty());
    match parse_sec_rule(string_of(&chars_of(text))) {
        Ok(rule) => {
            let ghost before = ds@;
            ds.push(Directive::SecRule(rule));
            assert(ds@.drop_last() =~= before);
            assert(parsed_rules(texts) =~= seq![rule@]);
            assert(rules_in(ds@) =~= rules_in(before) + parsed_rules(texts));
        },
        Err(_) => {
            assert(parsed_rules(texts) == Seq::<RuleSpec>::empty());
            assert(rules_in(ds@) =~= rules_in(ds@) + parsed_rules(texts));
        },
    }
}

/// The signature-based detection engine: a frozen rule group, and a count of
/// the evaluations it has been asked for.
#[derive(Debug)]
pub struct SignatureBasedDetectionEngine {
    pub counter: AtomicU64,
    pub rule_group: RuleGroup,
}

impl SignatureBasedDetectionEngine {
    pub fn new(rule_group: RuleGroup) -> (r: SignatureBasedDetectionEngine)
        ensures
            r.rule_group == rule_group,
    {
        SignatureBasedDetectionEngine { counter: AtomicU64::new(0), rule_group }
    }

    /// An engine with the example rules: the bot rule under phase 1; the two
    /// script-injection rules and the SQL-injection rule, in that order,
    /// under phase 2. A text that the parser rejected would be left out.
    pub fn new_example() -> (r: SignatureBasedDetectionEngine)
        ensures
            r.rule_group.sets(Phase::RequestHeaders).len() == 1,
            rules_in(r.rule_group.sets(Phase::RequestHeaders)[0].directives@)
                == parsed_rules(seq![EXAMPLE_BOT_RULE@]),
            r.rule_group.sets(Phase::RequestBody).len() == 1,
            rules_in(r.rule_group.sets(Phase::RequestBody)[0].directives@)
                == parsed_rules(seq![EXAMPLE_XSS_RULE@, EXAMPLE_ENCODED_XSS_RULE@, EXAMPLE_SQLI_RULE@]),
            r.rule_group.sets(Phase::ResponseHeaders).len() == 0,
            r.rule_group.sets(Phase::ResponseBody).len() == 0,
            r.rule_group.sets(Phase::Logging).len() == 0,
    {
        let mut header_directives: Vec<Directive> = Vec::new();
        push_parsed(&mut header_directives, EXAMPLE_BOT_RULE);
        let mut body_directives: Vec<Directive> = Vec::new();
        push_parsed(&mut body_directives, EXAMPLE_XSS_RULE);
        push_parsed(&mut body_directives, EXAMPLE_ENCODED_XSS_RULE);
        push_parsed(&mut body_directives, EXAMPLE_SQLI_RULE);
        proof {
            let a = EXAMPLE_XSS_RULE@;
            let b = EXAMPLE_ENCODED_XSS_RULE@;
            let c = EXAMPLE_SQLI_RULE@;
            assert(seq![a, b, c].drop_first() =~= seq![b, c]);
            assert(seq![b, c].drop_first() =~= seq![c]);
            assert(seq![a].drop_first() =~= Seq::<Seq<char>>::empty());
            assert(seq![b].drop_first() =~= Seq::<Seq<char>>::empty());
            assert(Seq::<Directive>::empty().len() == 0);
            assert(seq![a, b, c] =~= seq![a] + seq![b, c]);
            assert(seq![b, c] =~= seq![b] + seq![c]);
            parsed_rules_prepend(a, seq![b, c]);
            parsed_rules_prepend(b, seq![c]);
            assert(parsed_rules(seq![a, b, c]) =~= parsed_rules(seq![a]) + parsed_rules(seq![b])
                + parsed_rules(seq![c]));
        }
        let mut rule_group = RuleGroup::new();
        let header_set = RuleSet::new(
            string_of(&chars_of("Request Header Phase Rules")),
            string_of(&chars_of("Request header processing rules")),
            string_of(&chars_of("0.0.1")),
            header_directives,
        );
        rule_group.insert(Phase::RequestHeaders, vec![header_set]);
        let body_set = RuleSet::new(
            string_of(&chars_of("Request Body Phase Rules")),
            string_of(&chars_of("Request body processing rules")),
            string_of(&chars_of("0.0.1")),
            body_directives,
        );
        rule_group.insert(Phase::RequestBody, vec![body_set]);
        SignatureBasedDetectionEngine { counter: AtomicU64::new(0), rule_group }
    }

    /// How many phase evaluations the engine has been asked for so far.
    /// Only informative: it never takes part in a verdict.
    pub fn requests_seen(&self) -> u64 {
        self.counter.load(Ordering::Relaxed)
    }

    /// Evaluates the request-header rules against the header name/value pairs.
    /// The rule sets of phase RequestHeaders are tried in order, and the
    /// directives of each in order; the first match or fault decides.
    pub fn run_header_phase(&self, headers: Vec<(String, String)>) -> (r: Result<Option<SecRule>, String>)
        ensures
            verdict_view(r) == rulesets_verdict(
                self.rule_group.sets(Phase::RequestHeaders),
                Inspected::Headers(headers_view(headers@)),
            ),
    {
        self.counter.fetch_add(1, Ordering::Relaxed);
        let ghost input = Inspected::Headers(headers_view(headers@));
        let sets = self.rule_group.get(Phase::RequestHeaders);
        let mut i: usize = 0;
        assert(sets@.skip(0) =~= sets@);
        while i < sets.len()
            invariant
                i <= sets.len(),
                input == Inspected::Headers(headers_view(headers@)),
                sets@ == self.rule_group.sets(Phase::RequestHeaders),
                rulesets_verdict(sets@.skip(i as int), input) == rulesets_verdict(sets@, input),
            decreases sets.len() - i,
        {
            let ghost rest = sets@.skip(i as int);
            assert(rest.drop_first() =~= sets@.skip(i + 1));
            assert(rest[0] == sets@[i as int]);
            match check_ruleset_against_headers(&sets[i], &headers) {
                Ok(Some(matched_rule)) => return Ok(Some(matched_rule)),
                Ok(None) => {},
                Err(e) => return Err(e),
            }
            i = i + 1;
        }
        Ok(None)
    }

    /// Evaluates the query-argument rules against the raw query string.
    /// The rule sets of phase RequestBody are tried in order, and the
    /// directives of each in order; the first match or fault decides.
    pub fn run_args_phase(&self, query_string: &str) -> (r: Result<Option<SecRule>, String>)
        ensures
            verdict_view(r) == rulesets_verdict(
                self.rule_group.sets(Phase::RequestBody),
                Inspected::Query(query_string@),
            ),
    {
        self.counter.fetch_add(1, Ordering::Relaxed);
        let ghost input = Inspected::Query(query_string@);
        let sets = self.rule_group.get(Phase::RequestBody);
        let mut i: usize = 0;
        assert(sets@.skip(0) =~= sets@);
        while i < sets.len()
            invariant
                i <= sets.len(),
                input == Inspected::Query(query_string@),
                sets@ == self.rule_group.sets(Phase::RequestBody),
                rulesets_verdict(sets@.skip(i as int), input) == rulesets_verdict(sets@, input),
            decreases sets.len() - i,
        {
            let ghost rest = sets@.skip(i as int);
            assert(rest.drop_first() =~= sets@.skip(i + 1));
            assert(rest[0] == sets@[i as int]);
            match check_ruleset_against_args(&sets[i], query_string) {
                Ok(Some(matched_rule)) => return Ok(Some(matched_rule)),
                Ok(None) => {},
                Err(e) => return Err(e),
            }
            i = i + 1;
        }
        Ok(None)
    }

    /// Evaluates the request-body rules against the raw body text.
    /// The rule sets of phase RequestBody are tried in order, and the
    /// directives of each in order; the first match or fault decides.
    pub fn run_body_phase(&self, body: &str) -> (r: Result<Option<SecRule>, String>)
        ensures
            verdict_view(r) == rulesets_verdict(
                self.rule_group.sets(Phase::RequestBody),
                Inspected::Body(body@),
            ),
    {
        self.counter.fetch_add(1, Ordering::Relaxed);
        let ghost input = Inspected::Body(body@);
        let sets = self.rule_group.get(Phase::RequestBody);
        let mut i: usize = 0;
        assert(sets@.skip(0) =~= sets@);
        while i < sets.len()
            invariant
                i <= sets.len(),
                input == Inspected::Body(body@),
                sets@ == self.rule_group.sets(Phase::RequestBody),
                rulesets_verdict(sets@.skip(i as int), input) == rulesets_verdict(sets@, input),
            decreases sets.len() - i,
        {
            let ghost rest = sets@.skip(i as int);
            assert(rest.drop_first() =~= sets@.skip(i + 1));
            assert(rest[0] == sets@[i as int]);
            match check_ruleset_against_body(&sets[i], body) {
                Ok(Some(matched_rule)) => return Ok(Some(matched_rule)),
                Ok(None) => {},
                Err(e) => return Err(e),
            }
            i = i + 1;
        }
        Ok(None)
    }

}

/// The substring test only sees ASCII-folded characters.
proof fn contains_respects_folding(h1: Seq<char>, n1: Seq<char>, h2: Seq<char>, n2: Seq<char>)
    requires
        eq_folded(h1, h2),
        eq_folded(n1, n2),
    ensures
        contains_folded(h1, n1) == contains_folded(h2, n2),
{
    assert forall|i: int| occurs_at(h1, n1, i) <==> occurs_at(h2, n2, i) by {
        if 0 <= i && i + n1.len() <= h1.len() {
            assert forall|j: int| 0 <= j < n1.len() implies
                (fold(h1[i + j]) == fold(n1[j]) <==> fold(h2[i + j]) == fold(n2[j])) by {
                assert(fold(h1[i + j]) == fold(h2[i + j]));
                assert(fold(n1[j]) == fold(n2[j]));
            }
        }
    }
    if contains_folded(h1, n1) {
        let i = choose|i: int| occurs_at(h1, n1, i);
        assert(occurs_at(h2, n2, i));
    }
    if contains_folded(h2, n2) {
        let i = choose|i: int| occurs_at(h2, n2, i);
        assert(occurs_at(h1, n1, i));
    }
}

proof fn eq_folded_trans(a: Seq<char>, b: Seq<char>, c: Seq<char>)
    requires
        eq_folded(a, b),
        eq_folded(b, c),
    ensures
        eq_folded(a, c),
{
    assert forall|j: int| 0 <= j < a.len() implies #[trigger] fold(a[j]) == fold(c[j]) by {
        assert(fold(a[j]) == fold(b[j]));
        assert(fold(b[j]) == fold(c[j]));
    }
}

/// Header matching ignores ASCII case: header names and values, and the
/// rule's header name and substring, may each change the case of their
/// ASCII letters without changing whether the rule matches.
pub proof fn header_match_ignores_ascii_case(
    r1: RuleSpec,
    r2: RuleSpec,
    h1: Seq<(Seq<char>, Seq<char>)>,
    h2: Seq<(Seq<char>, Seq<char>)>,
)
    requires
        r1.variable_target is Some <==> r2.variable_target is Some,
        r1.operator_target is Some <==> r2.operator_target is Some,
        r1.variable_target is Some ==> eq_folded(r1.variable_target->0, r2.variable_target->0),
        r1.operator_target is Some ==> eq_folded(r1.operator_target->0, r2.operator_target->0),
        h1.len() == h2.len(),
        forall|k: int| 0 <= k < h1.len() ==> eq_folded(#[trigger] h1[k].0, h2[k].0) && eq_folded(h1[k].1, h2[k].1),
    ensures
        rule_hits(r1, Inspected::Headers(h1)) == rule_hits(r2, Inspected::Headers(h2)),
{
    if r1.variable_target is Some && r1.operator_target is Some {
        let (n1, t1) = (r1.variable_target->0, r1.operator_target->0);
        let (n2, t2) = (r2.variable_target->0, r2.operator_target->0);
        assert forall|k: int| 0 <= k < h1.len() implies
            (eq_folded(h1[k].0, n1) && contains_folded(h1[k].1, t1))
                == (eq_folded(h2[k].0, n2) && contains_folded(h2[k].1, t2)) by {
            assert(eq_folded(h1[k].0, h2[k].0));
            contains_respects_folding(h1[k].1, t1, h2[k].1, t2);
            if eq_folded(h1[k].0, n1) {
                eq_folded_trans(h2[k].0, h1[k].0, n1);
                eq_folded_trans(h2[k].0, n1, n2);
            }
            if eq_folded(h2[k].0, n2) {
                eq_folded_trans(h1[k].0, h2[k].0, n2);
                eq_folded_trans(h1[k].0, n2, n1);
            }
        }
        if some_header_holds(h1, n1, t1) {
            let k = choose|k: int| 0 <= k < h1.len() && eq_folded(#[trigger] h1[k].0, n1) && contains_folded(h1[k].1, t1);
            assert(eq_folded(h2[k].0, n2) && contains_folded(h2[k].1, t2));
        }
        if some_header_holds(h2, n2, t2) {
            let k = choose|k: int| 0 <= k < h2.len() && eq_folded(#[trigger] h2[k].0, n2) && contains_folded(h2[k].1, t2);
            assert(eq_folded(h1[k].0, n1) && contains_folded(h1[k].1, t1));
        }
    }
}

/// Query and body matching ignore ASCII case: the inspected text and the
/// rule's substring may each change the case of their ASCII letters without
/// changing whether the rule matches.
pub proof fn text_match_ignores_ascii_case(r1: RuleSpec, r2: RuleSpec, t1: Seq<char>, t2: Seq<char>)
    requires
        r1.operator_target is Some <==> r2.operator_target is Some,
        r1.operator_target is Some ==> eq_folded(r1.operator_target->0, r2.operator_target->0),
        eq_folded(t1, t2),
    ensures
        rule_hits(r1, Inspected::Query(t1)) == rule_hits(r2, Inspected::Query(t2)),
        rule_hits(r1, Inspected::Body(t1)) == rule_hits(r2, Inspected::Body(t2)),
{
    if r1.operator_target is Some {
        contains_respects_folding(t1, r1.operator_target->0, t2, r2.operator_target->0);
    }
}

/// Case folding is ASCII only: it changes the capital letters `A` to `Z` and
/// no other character.
pub proof fn folding_is_ascii_only(c: char)
    ensures
        fold(c) != c as u32 <==> 'A' <= c && c <= 'Z',
{
}

/// The verdict of one directive, `Ok(None)` for a marker.
pub open spec fn directive_verdict(d: Directive, input: Inspected) -> Result<Option<RuleSpec>, Seq<char>> {
    match d {
        Directive::SecRule(rule) => rule_verdict(rule@, input),
        Directive::SecMarker(_) => Ok(None),
    }
}

/// First match wins: when every directive before position `k` passes over
/// the input and the directive at `k` matches or faults, the directives'
/// verdict is that of `k`, whatever follows it.
pub proof fn first_declared_match_wins(ds: Seq<Directive>, input: Inspected, k: int)
    requires
        0 <= k < ds.len(),
        directive_verdict(ds[k], input) != Ok::<Option<RuleSpec>, Seq<char>>(None),
        forall|j: int| 0 <= j < k ==> #[trigger] directive_verdict(ds[j], input) == Ok::<Option<RuleSpec>, Seq<char>>(None),
    ensures
        directives_verdict(ds, input) == directive_verdict(ds[k], input),
    decreases k,
{
    if k > 0 {
        let rest = ds.drop_first();
        assert(directive_verdict(ds[0], input) == Ok::<Option<RuleSpec>, Seq<char>>(None));
        assert forall|j: int| 0 <= j < k - 1 implies #[trigger] directive_verdict(rest[j], input)
            == Ok::<Option<RuleSpec>, Seq<char>>(None) by {
            assert(rest[j] == ds[j + 1]);
        }
        first_declared_match_wins(rest, input, k - 1);
    }
}

} // verus!
