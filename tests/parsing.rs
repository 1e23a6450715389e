use signature_detection_engine::{
    parse_operator_string, parse_sec_rule, validate_sec_rule, Operator, Phase, Severity,
    ValidationErrors, Variable,
};

const BOT_RULE: &str = r#"SecRule REQUEST_HEADERS:User-Agent "@contains bot" "id:1001,phase:1,deny,msg:'bot detected',severity:3,tag:'attack/bot'""#;

fn parse(text: &str) -> Result<signature_detection_engine::SecRule, ValidationErrors> {
    parse_sec_rule(text.to_string())
}

#[test]
fn parses_bot_rule_fields() {
    let rule = parse(BOT_RULE).unwrap();
    assert_eq!(rule.id, 1001);
    assert_eq!(rule.phase, Phase::RequestHeaders);
    assert_eq!(rule.action, "deny");
    assert_eq!(rule.operator, Operator::Contains);
    assert_eq!(rule.operator_target.as_deref(), Some("bot"));
    assert_eq!(rule.variable, Variable::RequestHeaders);
    assert_eq!(rule.variable_target.as_deref(), Some("User-Agent"));
    assert_eq!(rule.message.as_deref(), Some("bot detected"));
    assert_eq!(rule.severity, Some(Severity::Error));
    assert_eq!(rule.tags, vec!["attack/bot".to_string()]);
    assert!(rule.transformations.is_empty());
    assert_eq!(rule.pattern, "");
    assert!(!rule.chain);
}

#[test]
fn parses_line_continuations() {
    let text = "SecRule REQUEST_BODY \\\n        \"@contains DROP TABLE\" \\\n        \"id:1003,\\\n        phase:2,\\\n        deny\"";
    let rule = parse(text).unwrap();
    assert_eq!(rule.id, 1003);
    assert_eq!(rule.phase, Phase::RequestBody);
    assert_eq!(rule.variable, Variable::RequestBody);
    assert_eq!(rule.variable_target, None);
    assert_eq!(rule.operator_target.as_deref(), Some("DROP TABLE"));
    assert_eq!(rule.action, "deny");
}

#[test]
fn parsing_is_deterministic() {
    assert_eq!(parse(BOT_RULE), parse(BOT_RULE));
    let bad = "SecRule ARGS \"@contains x\"";
    assert_eq!(parse(bad), parse(bad));
}

#[test]
fn defaults_when_unspecified() {
    let rule = parse("SecRule ARGS \"@contains x\" \"deny\"").unwrap();
    assert_eq!(rule.id, 0);
    assert_eq!(rule.phase, Phase::RequestHeaders);
    assert_eq!(rule.severity, None);
    assert_eq!(rule.message, None);
    assert!(rule.tags.is_empty());
}

#[test]
fn last_bare_action_wins() {
    let rule = parse("SecRule ARGS \"@contains x\" \"deny,log,pass\"").unwrap();
    assert_eq!(rule.action, "pass");
}

#[test]
fn tags_and_transformations_accumulate() {
    let rule = parse("SecRule ARGS \"@contains x\" \"tag:'a',t:lowercase,tag:b,t:'none'\"").unwrap();
    assert_eq!(rule.tags, vec!["a".to_string(), "b".to_string()]);
    assert_eq!(rule.transformations, vec!["lowercase".to_string(), "'none'".to_string()]);
}

#[test]
fn operator_without_target() {
    let rule = parse("SecRule ARGS \"@contains\" \"id:1\"").unwrap();
    assert_eq!(rule.operator_target, None);
    let rule = parse("SecRule ARGS \"contains   \" \"id:1\"").unwrap();
    assert_eq!(rule.operator_target, None);
}

#[test]
fn operator_and_variable_names_ignore_case() {
    let rule = parse("SecRule request_body \"@CONTAINS abc\" \"id:7\"").unwrap();
    assert_eq!(rule.variable, Variable::RequestBody);
    assert_eq!(rule.operator, Operator::Contains);
    assert_eq!(Operator::parse("@CoNtAiNs"), Ok(Operator::Contains));
    assert_eq!(Variable::parse("args"), Ok(Variable::Args));
    assert_eq!(Variable::parse("Request_Headers"), Ok(Variable::RequestHeaders));
}

#[test]
fn unknown_names_are_reported() {
    assert_eq!(
        Operator::parse("@rx"),
        Err("operator type unknown (or unimplemented): '@rx'".to_string())
    );
    assert_eq!(Variable::parse("FOO"), Err("unknown variable type: 'FOO'".to_string()));
    assert_eq!(Variable::parse("RESPONSE_HEADERS").is_err(), true);
}

#[test]
fn wrong_token_count_is_rejected() {
    assert_eq!(
        parse("SecRule ARGS \"@contains x\""),
        Err(ValidationErrors::InvalidFormat { expected: 4, found: 3 })
    );
    assert_eq!(
        parse("SecRule ARGS \"@contains x\" \"id:1\" extra"),
        Err(ValidationErrors::InvalidFormat { expected: 4, found: 5 })
    );
}

#[test]
fn unknown_action_key_is_rejected() {
    assert_eq!(
        parse("SecRule ARGS \"@contains x\" \"id:1,foo:bar\""),
        Err(ValidationErrors::InvalidDirective { found: "foo".to_string() })
    );
}

#[test]
fn empty_rule_is_rejected() {
    assert_eq!(parse(""), Err(ValidationErrors::EmptyRule));
    assert_eq!(parse("  \n\t "), Err(ValidationErrors::EmptyRule));
}

#[test]
fn wrong_keyword_is_rejected() {
    assert_eq!(
        parse("SecAction ARGS \"@contains x\" \"id:1\""),
        Err(ValidationErrors::InvalidDirective { found: "SecAction".to_string() })
    );
}

#[test]
fn empty_tokens_are_rejected() {
    assert_eq!(parse("SecRule \"\" \"@contains x\" \"id:1\""), Err(ValidationErrors::EmptyVariable));
    assert_eq!(parse("SecRule ARGS \"\" \"id:1\""), Err(ValidationErrors::EmptyOperator));
    assert_eq!(parse("SecRule ARGS \"@contains x\" \"\""), Err(ValidationErrors::EmptyActions));
}

#[test]
fn unknown_variable_and_operator_are_rejected() {
    assert_eq!(
        parse("SecRule FOO:bar \"@contains x\" \"id:1\""),
        Err(ValidationErrors::InvalidVariable { value: "FOO".to_string() })
    );
    assert_eq!(
        parse("SecRule ARGS \"@rx abc\" \"id:1\""),
        Err(ValidationErrors::InvalidOperator { value: "@rx".to_string() })
    );
}

#[test]
fn invalid_ids_are_rejected() {
    assert_eq!(
        parse("SecRule ARGS \"@contains x\" \"id:abc\""),
        Err(ValidationErrors::InvalidRuleId { value: "abc".to_string() })
    );
    assert_eq!(
        parse("SecRule ARGS \"@contains x\" \"id:4294967296\""),
        Err(ValidationErrors::InvalidRuleId { value: "4294967296".to_string() })
    );
    assert_eq!(parse("SecRule ARGS \"@contains x\" \"id:4294967295\"").unwrap().id, 4294967295);
    assert_eq!(parse("SecRule ARGS \"@contains x\" \"id:+12\"").unwrap().id, 12);
}

#[test]
fn phase_out_of_range_is_rejected() {
    for value in ["0", "6", "255", "256", "-1", "x"] {
        let text = format!("SecRule ARGS \"@contains x\" \"id:1,phase:{}\"", value);
        assert_eq!(parse(&text), Err(ValidationErrors::InvalidPhase { value: value.to_string() }));
    }
    for (value, phase) in [("1", Phase::RequestHeaders), ("3", Phase::ResponseHeaders), ("5", Phase::Logging)] {
        let text = format!("SecRule ARGS \"@contains x\" \"phase:{}\"", value);
        assert_eq!(parse(&text).unwrap().phase, phase);
    }
}

#[test]
fn severity_out_of_range_is_rejected() {
    for value in ["8", "255", "300", "high"] {
        let text = format!("SecRule ARGS \"@contains x\" \"severity:{}\"", value);
        assert_eq!(parse(&text), Err(ValidationErrors::InvalidSeverity { value: value.to_string() }));
    }
    let rule = parse("SecRule ARGS \"@contains x\" \"severity:0\"").unwrap();
    assert_eq!(rule.severity, Some(Severity::Emergency));
    let rule = parse("SecRule ARGS \"@contains x\" \"severity:7\"").unwrap();
    assert_eq!(rule.severity, Some(Severity::Debug));
}

#[test]
fn validation_splits_tokens() {
    let c = validate_sec_rule(BOT_RULE.to_string()).unwrap();
    assert_eq!(c.variable, Variable::RequestHeaders);
    assert_eq!(c.variable_target.as_deref(), Some("User-Agent"));
    assert_eq!(c.operator, "@contains bot");
    assert!(c.actions_str.starts_with("id:1001,"));
}

#[test]
fn operator_string_splits_target() {
    assert_eq!(
        parse_operator_string("@contains  drop  table "),
        Ok((Operator::Contains, Some("drop  table".to_string())))
    );
    assert_eq!(parse_operator_string("@contains"), Ok((Operator::Contains, None)));
    assert_eq!(
        parse_operator_string("@gt 5"),
        Err(ValidationErrors::InvalidOperator { value: "@gt".to_string() })
    );
}

#[test]
fn phase_and_severity_numbers() {
    assert_eq!(Phase::from_u8(0), None);
    assert_eq!(Phase::from_u8(2), Some(Phase::RequestBody));
    assert_eq!(Phase::from_u8(6), None);
    assert_eq!(Phase::ResponseBody.as_u8(), 4);
    assert_eq!(Severity::from_u8(8), None);
    assert_eq!(Severity::from_u8(4), Some(Severity::Warning));
    assert_eq!(Severity::Notice.as_u8(), 5);
    assert_eq!(Phase::default(), Phase::RequestHeaders);
    assert_eq!(Severity::default(), Severity::Emergency);
    assert_eq!(Operator::default(), Operator::Contains);
    assert_eq!(Variable::default(), Variable::RequestHeaders);
}

#[test]
fn error_messages() {
    assert_eq!(
        ValidationErrors::InvalidFormat { expected: 4, found: 3 }.message(),
        "Invalid rule format: expected 4 parts, found 3"
    );
    assert_eq!(
        ValidationErrors::InvalidSeverity { value: "9".to_string() }.message(),
        "Invalid severity: '9' is not a valid severity (0-7)"
    );
    assert_eq!(
        ValidationErrors::InvalidDirective { found: "foo".to_string() }.message(),
        "Invalid directive: expected 'SecRule', found 'foo'"
    );
    assert_eq!(ValidationErrors::EmptyActions.message(), "Actions cannot be empty");
    assert_eq!(ValidationErrors::EmptyRule.message(), "Rule string is empty or contains only whitespace");
}
