use signature_detection_engine::{
    format_headers_for_embedding, parse_sec_rule, Directive, Operator, Phase, RuleGroup, RuleSet,
    SecMarker, SecRule, SignatureBasedDetectionEngine,
};

fn headers(pairs: &[(&str, &str)]) -> Vec<(String, String)> {
    pairs.iter().map(|(n, v)| (n.to_string(), v.to_string())).collect()
}

fn rule(text: &str) -> SecRule {
    parse_sec_rule(text.to_string()).unwrap()
}

fn ruleset(rules: Vec<SecRule>) -> RuleSet {
    RuleSet::new(
        "rules".to_string(),
        "test rules".to_string(),
        "1".to_string(),
        rules.into_iter().map(Directive::SecRule).collect(),
    )
}

fn engine_with(phase: Phase, rules: Vec<SecRule>) -> SignatureBasedDetectionEngine {
    let mut group = RuleGroup::new();
    group.insert(phase, vec![ruleset(rules)]);
    SignatureBasedDetectionEngine::new(group)
}

#[test]
fn header_rule_matches_bot_user_agent() {
    let r = rule(r#"SecRule REQUEST_HEADERS:User-Agent "@contains bot" "id:1001,phase:1,deny,msg:'bot detected',severity:3,tag:'attack/bot'""#);
    let engine = engine_with(Phase::RequestHeaders, vec![r]);
    let hit = engine.run_header_phase(headers(&[("User-Agent", "malicious-bot")])).unwrap().unwrap();
    assert_eq!(hit.id, 1001);
    assert_eq!(hit.message.as_deref(), Some("bot detected"));
    assert_eq!(engine.run_header_phase(headers(&[("User-Agent", "chrome")])), Ok(None));
}

#[test]
fn body_rule_matches_sql_injection() {
    let r = rule(r#"SecRule REQUEST_BODY "@contains DROP TABLE" "id:1003,phase:2,deny,msg:'sqli',severity:2,tag:'attack/sqli'""#);
    let engine = engine_with(Phase::RequestBody, vec![r]);
    let hit = engine.run_body_phase("...'); DROP TABLE users;--").unwrap().unwrap();
    assert_eq!(hit.id, 1003);
    assert_eq!(engine.run_body_phase("select 1"), Ok(None));
}

#[test]
fn first_declared_query_rule_wins() {
    let a = rule(r#"SecRule ARGS "@contains <script" "id:1002,phase:2,deny""#);
    let b = rule(r#"SecRule ARGS "@contains script" "id:1004,phase:2,deny""#);
    let engine = engine_with(Phase::RequestBody, vec![a, b]);
    let hit = engine.run_args_phase("q=<script>alert(1)</script>").unwrap().unwrap();
    assert_eq!(hit.id, 1002);
}

#[test]
fn first_ruleset_wins_over_later_rulesets() {
    let a = rule(r#"SecRule ARGS "@contains x" "id:1,phase:2""#);
    let b = rule(r#"SecRule ARGS "@contains x" "id:2,phase:2""#);
    let mut group = RuleGroup::new();
    group.insert(Phase::RequestBody, vec![ruleset(vec![a]), ruleset(vec![b])]);
    let engine = SignatureBasedDetectionEngine::new(group);
    assert_eq!(engine.run_args_phase("x").unwrap().unwrap().id, 1);
}

#[test]
fn unsupported_operator_is_a_fault() {
    let mut r = rule(r#"SecRule REQUEST_HEADERS:Host "@contains evil" "id:1005,phase:1""#);
    r.operator = Operator::Rx;
    let engine = engine_with(Phase::RequestHeaders, vec![r]);
    let fault = engine.run_header_phase(headers(&[("Host", "good")])).unwrap_err();
    assert_eq!(fault, "Rx operator is not yet implemented. rule: 1005");
    assert!(fault.contains("1005"));
}

#[test]
fn unsupported_operator_on_other_variable_is_skipped() {
    let mut r = rule(r#"SecRule REQUEST_BODY "@contains evil" "id:1006,phase:1""#);
    r.operator = Operator::Rx;
    let engine = engine_with(Phase::RequestHeaders, vec![r]);
    assert_eq!(engine.run_header_phase(headers(&[("Host", "evil")])), Ok(None));
}

#[test]
fn header_matching_ignores_case() {
    let r = rule(r#"SecRule REQUEST_HEADERS:User-Agent "@contains BoT" "id:1""#);
    let engine = engine_with(Phase::RequestHeaders, vec![r]);
    let hit = engine.run_header_phase(headers(&[("accept", "*/*"), ("USER-AGENT", "some bOt here")]));
    assert_eq!(hit.unwrap().unwrap().id, 1);
    assert_eq!(engine.run_header_phase(headers(&[("User-Agents", "bot")])), Ok(None));
    assert_eq!(engine.run_header_phase(headers(&[])), Ok(None));
}

#[test]
fn query_and_body_matching_fold_ascii_only() {
    let q = rule(r#"SecRule ARGS "@contains %3cScript" "id:1""#);
    let b = rule(r#"SecRule REQUEST_BODY "@contains straße" "id:2""#);
    let engine = engine_with(Phase::RequestBody, vec![q, b]);
    assert_eq!(engine.run_args_phase("search=%3CSCRIPT%3E").unwrap().unwrap().id, 1);
    assert_eq!(engine.run_body_phase("STRAßE").unwrap().unwrap().id, 2);
    assert_eq!(engine.run_body_phase("STRASSE"), Ok(None));
    assert_eq!(engine.run_body_phase("straẞe"), Ok(None));
}

#[test]
fn rule_without_operator_target_never_matches() {
    let r = rule(r#"SecRule REQUEST_BODY "@contains" "id:9""#);
    let engine = engine_with(Phase::RequestBody, vec![r]);
    assert_eq!(engine.run_body_phase("anything"), Ok(None));
}

#[test]
fn header_rule_without_header_name_never_matches() {
    let r = rule(r#"SecRule REQUEST_HEADERS "@contains x" "id:9""#);
    let engine = engine_with(Phase::RequestHeaders, vec![r]);
    assert_eq!(engine.run_header_phase(headers(&[("x", "x")])), Ok(None));
}

#[test]
fn markers_are_skipped() {
    let r = rule(r#"SecRule ARGS "@contains x" "id:3""#);
    let set = RuleSet::new(
        "n".to_string(),
        "d".to_string(),
        "v".to_string(),
        vec![Directive::SecMarker(SecMarker { name: "start".to_string() }), Directive::SecRule(r)],
    );
    let mut group = RuleGroup::new();
    group.insert(Phase::RequestBody, vec![set]);
    let engine = SignatureBasedDetectionEngine::new(group);
    assert_eq!(engine.run_args_phase("axb").unwrap().unwrap().id, 3);
}

#[test]
fn empty_group_matches_nothing() {
    let engine = SignatureBasedDetectionEngine::new(RuleGroup::new());
    assert_eq!(engine.run_header_phase(headers(&[("a", "b")])), Ok(None));
    assert_eq!(engine.run_args_phase("a"), Ok(None));
    assert_eq!(engine.run_body_phase("a"), Ok(None));
}

#[test]
fn example_engine_rules() {
    let engine = SignatureBasedDetectionEngine::new_example();
    assert_eq!(engine.rule_group.get(Phase::RequestHeaders).len(), 1);
    assert_eq!(engine.rule_group.get(Phase::RequestBody).len(), 1);
    assert_eq!(engine.rule_group.get(Phase::RequestBody)[0].directives.len(), 3);
    assert!(engine.rule_group.get(Phase::Logging).is_empty());
    let hit = engine.run_header_phase(headers(&[("User-Agent", "malicious-bot")])).unwrap().unwrap();
    assert_eq!(hit.id, 1001);
    assert_eq!(engine.run_header_phase(headers(&[("User-Agent", "chrome")])), Ok(None));
    let hit = engine.run_body_phase("{\"user\": \"Robert');DROP TABLE users;--\"}").unwrap().unwrap();
    assert_eq!(hit.id, 1003);
    assert_eq!(engine.run_args_phase("search=%3Cscript%3E").unwrap().unwrap().id, 1004);
    assert_eq!(engine.run_args_phase("input=<script>alert('xss')</script>").unwrap().unwrap().id, 1002);
    assert_eq!(engine.run_args_phase("q=hello"), Ok(None));
}

#[test]
fn counter_counts_evaluations() {
    let engine = SignatureBasedDetectionEngine::new_example();
    assert_eq!(engine.requests_seen(), 0);
    let _ = engine.run_header_phase(headers(&[]));
    let _ = engine.run_args_phase("");
    let _ = engine.run_body_phase("");
    assert_eq!(engine.requests_seen(), 3);
}

#[test]
fn rule_group_insert_replaces() {
    let mut group = RuleGroup::new();
    group.insert(Phase::Logging, vec![ruleset(vec![])]);
    group.insert(Phase::Logging, vec![ruleset(vec![]), ruleset(vec![])]);
    assert_eq!(group.get(Phase::Logging).len(), 2);
    assert!(group.get(Phase::RequestHeaders).is_empty());
}

#[test]
fn ruleset_new_keeps_metadata() {
    let set = RuleSet::new("n".to_string(), "d".to_string(), "0.0.1".to_string(), vec![]);
    assert_eq!(set.name.as_deref(), Some("n"));
    assert_eq!(set.description.as_deref(), Some("d"));
    assert_eq!(set.version.as_deref(), Some("0.0.1"));
    assert!(set.directives.is_empty());
}

#[test]
fn clone_keeps_rule() {
    let r = rule(r#"SecRule REQUEST_HEADERS:User-Agent "@contains bot" "id:1001,phase:1,deny,msg:'bot detected',severity:3,tag:'attack/bot',t:none""#);
    assert_eq!(r.clone(), r);
}

#[test]
fn formats_headers_for_scorer() {
    assert_eq!(
        format_headers_for_embedding(&headers(&[("Host", "a.b"), ("User-Agent", "curl/8")])),
        "Host: a.b | User-Agent: curl/8"
    );
    assert_eq!(format_headers_for_embedding(&headers(&[("A", "1")])), "A: 1");
    assert_eq!(format_headers_for_embedding(&[]), "");
}

#[test]
fn query_string_follows_first_question_mark() {
    assert_eq!(
        signature_detection_engine::query_string_of("/test?search=%3Cscript%3E&a=?b"),
        Some("search=%3Cscript%3E&a=?b".to_string())
    );
    assert_eq!(signature_detection_engine::query_string_of("/test?"), Some(String::new()));
    assert_eq!(signature_detection_engine::query_string_of("/test"), None);
}
