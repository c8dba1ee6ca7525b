use reproxy::pattern::Pattern;
use reproxy::router::{decide, plan_headers, route, Decision, HeaderFailure, HeaderOp, InboundHeader, REDIRECT_LIMIT};
use reproxy::rules::{compile, CompileError, HeaderActionDefinition, HeaderDefinition, ProxyRule, RuleDefinition};
use reproxy::text::compose_url;

fn header(name: &str, action: HeaderActionDefinition) -> HeaderDefinition {
    HeaderDefinition { name: name.to_string(), action }
}

fn replace(pattern: &str, replace: &str) -> HeaderActionDefinition {
    HeaderActionDefinition::Replace { pattern: pattern.to_string(), replace: replace.to_string() }
}

fn rule(name: &str, pattern: &str, target: &str, headers: Vec<HeaderDefinition>) -> RuleDefinition {
    RuleDefinition {
        name: name.to_string(),
        pattern: pattern.to_string(),
        target: target.to_string(),
        follow_redirect: false,
        headers,
    }
}

fn compiled(defs: Vec<RuleDefinition>) -> Vec<ProxyRule> {
    match compile(&defs) {
        Ok(rules) => rules,
        Err(e) => panic!("rule {} has a bad pattern {}", e.rule, e.pattern),
    }
}

fn expect_failure(defs: Vec<RuleDefinition>) -> CompileError {
    match compile(&defs) {
        Ok(_) => panic!("compiled"),
        Err(e) => e,
    }
}

fn inbound(name: &str, value: &str) -> InboundHeader {
    InboundHeader { name: name.to_string(), text: Some(value.to_string()) }
}

#[test]
fn rewrites_target_with_capture_group() {
    let rules = compiled(vec![rule("api", "^example.com/api/(.*)$", "http://backend/$1", vec![])]);
    match decide(&rules, "example.com/api/users/7", &vec![]) {
        Decision::Forward { rule, target, headers, redirect_limit } => {
            assert_eq!(rule, 0);
            assert_eq!(target, "http://backend/users/7");
            assert!(headers.is_empty());
            assert_eq!(redirect_limit, 0);
        }
        _ => panic!("not forwarded"),
    }
}

#[test]
fn rewrite_replaces_only_the_first_match() {
    let rules = compiled(vec![rule("a", "a", "b", vec![])]);
    match decide(&rules, "xaya", &vec![]) {
        Decision::Forward { target, .. } => assert_eq!(target, "xbya"),
        _ => panic!("not forwarded"),
    }
}

#[test]
fn routing_is_deterministic() {
    let rules = compiled(vec![
        rule("one", "^a.com/", "http://one/", vec![]),
        rule("two", "^b.com/", "http://two/", vec![]),
    ]);
    for _ in 0..5 {
        assert_eq!(route(&rules, "b.com/x"), Some(1));
        assert_eq!(route(&rules, "c.com/x"), None);
    }
}

#[test]
fn first_compiled_rule_wins() {
    let first = || rule("first", "example", "http://first/", vec![]);
    let second = || rule("second", "^example.com/", "http://second/", vec![]);
    let rules = compiled(vec![first(), second()]);
    assert_eq!(route(&rules, "example.com/x"), Some(0));
    assert_eq!(rules[0].name(), "first");
    let swapped = compiled(vec![second(), first()]);
    assert_eq!(route(&swapped, "example.com/x"), Some(0));
    assert_eq!(swapped[0].name(), "second");
}

#[test]
fn matching_is_case_sensitive_and_unanchored() {
    let rules = compiled(vec![rule("r", "api", "http://x/", vec![])]);
    assert_eq!(route(&rules, "host/v1/api/x"), Some(0));
    assert_eq!(route(&rules, "host/v1/API/x"), None);
}

#[test]
fn no_match_is_not_found() {
    let rules = compiled(vec![rule("api", "^example.com/api/", "http://backend/", vec![])]);
    let d = decide(&rules, "other.com/api/", &vec![inbound("accept", "*/*")]);
    assert!(matches!(d, Decision::NotFound));
    assert_eq!(d.status(), Some(404));
}

#[test]
fn empty_rule_set_matches_nothing() {
    let rules = compiled(vec![]);
    assert!(rules.is_empty());
    assert_eq!(route(&rules, "example.com/"), None);
}

#[test]
fn unlisted_headers_are_dropped_without_default() {
    let rules = compiled(vec![rule(
        "r",
        "^h/",
        "http://u/",
        vec![header("Accept", HeaderActionDefinition::Passthrough)],
    )]);
    let headers = vec![inbound("cookie", "a=b"), inbound("accept", "*/*"), inbound("x-other", "1")];
    match plan_headers(&rules[0], &headers) {
        Ok(ops) => {
            assert_eq!(ops.len(), 1);
            assert!(matches!(ops[0], HeaderOp::Copy { index: 1 }));
        }
        Err(_) => panic!("headers failed"),
    }
}

#[test]
fn default_entry_sets_the_fallback() {
    let rules = compiled(vec![rule(
        "r",
        "^h/",
        "http://u/",
        vec![
            header("$default", HeaderActionDefinition::Passthrough),
            header("Cookie", HeaderActionDefinition::Ignore),
        ],
    )]);
    let headers = vec![inbound("cookie", "a=b"), inbound("accept", "*/*"), inbound("X-Trace", "7")];
    match plan_headers(&rules[0], &headers) {
        Ok(ops) => {
            assert_eq!(ops.len(), 2);
            assert!(matches!(ops[0], HeaderOp::Copy { index: 1 }));
            assert!(matches!(ops[1], HeaderOp::Copy { index: 2 }));
        }
        Err(_) => panic!("headers failed"),
    }
}

#[test]
fn later_entry_wins_after_lowercasing() {
    let rules = compiled(vec![rule(
        "r",
        "^h/",
        "http://u/",
        vec![
            header("X-Key", HeaderActionDefinition::Passthrough),
            header("x-key", HeaderActionDefinition::Ignore),
        ],
    )]);
    match plan_headers(&rules[0], &vec![inbound("x-key", "v")]) {
        Ok(ops) => assert!(ops.is_empty()),
        Err(_) => panic!("headers failed"),
    }
}

#[test]
fn replace_rewrites_header_value() {
    let rules = compiled(vec![rule(
        "r",
        "^h/",
        "http://u/",
        vec![header("Host", replace("^(.*)\\.local$", "$1.internal"))],
    )]);
    let d = decide(&rules, "h/x", &vec![inbound("host", "svc.local")]);
    match d {
        Decision::Forward { headers, .. } => {
            assert_eq!(headers.len(), 1);
            match &headers[0] {
                HeaderOp::Replace { index, value } => {
                    assert_eq!(*index, 0);
                    assert_eq!(value, "svc.internal");
                }
                _ => panic!("not replaced"),
            }
        }
        _ => panic!("not forwarded"),
    }
}

#[test]
fn unmatched_replace_is_rejected() {
    let rules = compiled(vec![rule(
        "r",
        "^h/",
        "http://u/",
        vec![
            header("$default", HeaderActionDefinition::Passthrough),
            header("Authorization", replace("^Bearer (.*)$", "Token $1")),
        ],
    )]);
    let d = decide(&rules, "h/x", &vec![inbound("accept", "*/*"), inbound("authorization", "Basic abc")]);
    assert!(matches!(d, Decision::Rejected { rule: 0, header: 1 }));
    assert_eq!(d.status(), Some(400));
}

#[test]
fn replace_on_non_text_value_fails() {
    let rules = compiled(vec![rule("r", "^h/", "http://u/", vec![header("X-Bin", replace(".*", "x"))])]);
    let headers = vec![InboundHeader { name: "x-bin".to_string(), text: None }];
    assert!(matches!(plan_headers(&rules[0], &headers), Err(HeaderFailure::NotText { index: 0 })));
    let d = decide(&rules, "h/", &headers);
    assert!(matches!(d, Decision::Failed { rule: 0, header: 0 }));
    assert_eq!(d.status(), Some(500));
}

#[test]
fn invalid_match_pattern_fails_whole_set() {
    let e = expect_failure(vec![
        rule("good", "^a/", "http://a/", vec![]),
        rule("bad", "^b/(", "http://b/", vec![]),
        rule("later", "^c/", "http://c/", vec![]),
    ]);
    assert_eq!(e.rule, "bad");
    assert_eq!(e.pattern, "^b/(");
}

#[test]
fn invalid_header_pattern_fails_whole_set() {
    let e = expect_failure(vec![
        rule("good", "^a/", "http://a/", vec![]),
        rule("bad", "^b/", "http://b/", vec![header("X-A", replace("[", "x"))]),
    ]);
    assert_eq!(e.rule, "bad");
    assert_eq!(e.pattern, "[");
}

#[test]
fn redirect_limit_follows_rule_flag() {
    let mut follow = rule("f", "^f/", "http://f/", vec![]);
    follow.follow_redirect = true;
    let rules = compiled(vec![follow, rule("n", "^n/", "http://n/", vec![])]);
    assert!(rules[0].follow_redirect());
    match decide(&rules, "f/", &vec![]) {
        Decision::Forward { redirect_limit, .. } => assert_eq!(redirect_limit, REDIRECT_LIMIT),
        _ => panic!("not forwarded"),
    }
    match decide(&rules, "n/", &vec![]) {
        Decision::Forward { redirect_limit, .. } => assert_eq!(redirect_limit, 0),
        _ => panic!("not forwarded"),
    }
    assert_eq!(REDIRECT_LIMIT, 10);
}

#[test]
fn composed_url_is_host_then_target() {
    assert_eq!(compose_url("example.com:8080", "/api/x?y=1"), "example.com:8080/api/x?y=1");
    assert_eq!(compose_url("", "/"), "/");
}

#[test]
fn pattern_reports_its_source_and_matches() {
    let p = match Pattern::new("b(.)") {
        Ok(p) => p,
        Err(_) => panic!("did not compile"),
    };
    assert_eq!(p.as_str(), "b(.)");
    assert!(p.is_match("abc"));
    assert!(!p.is_match("xyz"));
    assert_eq!(p.replace("abcd", &"[$1]".to_string()), "a[c]d");
    assert_eq!(p.replace("xyz", &"[$1]".to_string()), "xyz");
    assert!(Pattern::new("(").is_err());
}

#[test]
fn resolve_lowercases_the_name() {
    let rules = compiled(vec![rule(
        "r",
        "^h/",
        "http://u/",
        vec![header("X-Up", HeaderActionDefinition::Passthrough)],
    )]);
    assert!(matches!(rules[0].resolve("X-UP"), reproxy::rules::HeaderAction::Passthrough));
    assert!(matches!(rules[0].resolve("x-down"), reproxy::rules::HeaderAction::Ignore));
    assert_eq!(rules[0].target(), "http://u/");
    assert_eq!(rules[0].pattern().as_str(), "^h/");
}
