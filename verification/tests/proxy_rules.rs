use havi_core::proxy::{action_for, answer_for};
use havi_core::cef::resource::SyntheticResource;
use havi_core::proxy::{before_resource_load, mime_of, resource_handler, rewrite_url, Compiled, ProxyRule, RequestAction};

fn rule(pattern: &str) -> ProxyRule {
    ProxyRule {
        pattern: pattern.to_string(),
        to: None,
        pass: None,
        block: None,
        status: None,
        body: None,
        headers: None,
    }
}

fn compile(rules: Vec<ProxyRule>) -> Compiled {
    match Compiled::from_rules(rules) {
        Ok(c) => c,
        Err(e) => panic!("rules should compile: {}", e),
    }
}

fn drain(res: &mut SyntheticResource, chunk: i32) -> Vec<u8> {
    let mut all = Vec::new();
    loop {
        let c = res.read(chunk);
        if c.more == 0 {
            assert!(c.data.is_empty());
            break;
        }
        assert!(c.data.len() <= chunk as usize);
        all.extend_from_slice(&c.data);
    }
    all
}

#[test]
fn bad_pattern_is_reported() {
    let r = Compiled::from_rules(vec![rule("https://ok.example/*"), rule("https://bad.example/[")]);
    match r {
        Ok(_) => panic!("an unclosed class must not compile"),
        Err(e) => assert!(!e.is_empty()),
    }
}

#[test]
fn empty_rule_list_matches_nothing() {
    let c = compile(Vec::new());
    assert!(c.first_match("https://example.com/").is_none());
    assert!(matches!(before_resource_load(&c, "https://example.com/"), RequestAction::Continue));
    assert!(resource_handler(&c, "https://example.com/").is_none());
}

#[test]
fn first_matching_rule_wins() {
    let mut blocker = rule("https://ads.example/*");
    blocker.block = Some(true);
    let mut redirect = rule("https://ads.example/banner*");
    redirect.to = Some("https://cdn.example/".to_string());
    let c = compile(vec![blocker, redirect]);
    let m = c.first_match("https://ads.example/banner.png").expect("a rule matches");
    assert_eq!(m.pattern, "https://ads.example/*");
    assert!(matches!(before_resource_load(&c, "https://ads.example/banner.png"), RequestAction::Cancel));
    assert!(resource_handler(&c, "https://ads.example/banner.png").is_none());
}

#[test]
fn redirect_replaces_literal_prefix() {
    let mut r = rule("https://old.example/assets/*");
    r.to = Some("http://localhost:8080/".to_string());
    let c = compile(vec![r]);
    match before_resource_load(&c, "https://old.example/assets/js/app.js") {
        RequestAction::Redirect(u) => assert_eq!(u, "http://localhost:8080/js/app.js"),
        _ => panic!("expected a redirect"),
    }
    assert!(matches!(before_resource_load(&c, "https://other.example/x"), RequestAction::Continue));
}

#[test]
fn rewrite_keeps_urls_outside_the_prefix() {
    assert_eq!(rewrite_url("https://a.example/*", "https://b.example/", "https://a.example/p?q=1"), "https://b.example/p?q=1");
    assert_eq!(rewrite_url("*.js", "x", "https://a.example/app.js"), "xhttps://a.example/app.js");
    assert_eq!(rewrite_url("https://a.example/{x,y}", "z", "https://c.example/"), "https://c.example/");
    assert_eq!(rewrite_url("exact", "to", "exactly"), "toly");
}

#[test]
fn mime_comes_from_content_type_in_any_case() {
    let none: Vec<(String, String)> = Vec::new();
    assert_eq!(mime_of(&none), "text/plain");
    let h = vec![
        ("X-Trace".to_string(), "1".to_string()),
        ("CONTENT-type".to_string(), "application/json".to_string()),
    ];
    assert_eq!(mime_of(&h), "application/json");
}

#[test]
fn mock_rule_answers_in_memory() {
    let mut r = rule("*/api/*");
    r.status = Some(201);
    r.body = Some("{\"ok\":true}".to_string());
    r.headers = Some(vec![("Content-Type".to_string(), "application/json".to_string())]);
    let c = compile(vec![r]);
    let mut res = resource_handler(&c, "https://site.example/api/v1").expect("mocked");
    assert_eq!(res.status, 201);
    assert_eq!(res.mime, "application/json");
    let (status, mime, headers, len) = res.response_headers();
    assert_eq!(status, 201);
    assert_eq!(mime, "application/json");
    assert_eq!(headers[0], ("Access-Control-Allow-Origin".to_string(), "*".to_string()));
    assert_eq!(headers[1], ("Content-Type".to_string(), "application/json".to_string()));
    assert_eq!(headers.len(), 2);
    assert_eq!(len, 11);
    assert_eq!(drain(&mut res, 4), b"{\"ok\":true}".to_vec());
    assert!(matches!(before_resource_load(&c, "https://site.example/api/v1"), RequestAction::Continue));
}

#[test]
fn mock_defaults_and_out_of_range_status() {
    let mut body_only = rule("https://a.example/*");
    body_only.body = Some("hi".to_string());
    let mut huge = rule("https://b.example/*");
    huge.status = Some(70000);
    let c = compile(vec![body_only, huge]);
    let a = resource_handler(&c, "https://a.example/x").expect("mocked");
    assert_eq!(a.status, 200);
    assert_eq!(a.mime, "text/plain");
    assert_eq!(a.bytes, b"hi".to_vec());
    let b = resource_handler(&c, "https://b.example/x").expect("mocked");
    assert_eq!(b.status, 200);
    assert!(b.bytes.is_empty());
}

#[test]
fn pass_and_plain_rules_are_not_mocked() {
    let mut pass = rule("https://p.example/*");
    pass.pass = Some(true);
    pass.status = Some(404);
    let plain = rule("https://q.example/*");
    let c = compile(vec![pass, plain]);
    assert!(resource_handler(&c, "https://p.example/x").is_none());
    assert!(resource_handler(&c, "https://q.example/x").is_none());
    assert!(matches!(before_resource_load(&c, "https://p.example/x"), RequestAction::Continue));
}

#[test]
fn reads_hand_out_the_body_in_order() {
    let mut r = rule("*");
    r.body = Some("abcdefghij".to_string());
    let c = compile(vec![r]);
    let mut res = resource_handler(&c, "anything").expect("mocked");
    let first = res.read(3);
    assert_eq!(first.more, 1);
    assert_eq!(first.data, b"abc".to_vec());
    let none = res.read(0);
    assert_eq!(none.more, 0);
    assert_eq!(res.pos, 3);
    let rest = res.read(100);
    assert_eq!(rest.data, b"defghij".to_vec());
    assert_eq!(res.read(5).more, 0);
    assert_eq!(res.read(-1).more, 0);
}

#[test]
fn readme_proxy_rules() {
    let mut rewrite = rule("https://api.public.com/**");
    rewrite.to = Some("https://api.internal/".to_string());
    let mut block = rule("**/*.gtag*");
    block.block = Some(true);
    let mut mock = rule("https://mock.api/**");
    mock.status = Some(200);
    mock.body = Some("{}".to_string());
    mock.headers = Some(vec![("content-type".to_string(), "application/json".to_string())]);
    let c = compile(vec![rewrite, block, mock]);
    match before_resource_load(&c, "https://api.public.com/v1/users") {
        RequestAction::Redirect(u) => assert_eq!(u, "https://api.internal/v1/users"),
        _ => panic!("expected a redirect"),
    }
    assert!(matches!(before_resource_load(&c, "https://www.site.com/js/x.gtag.js"), RequestAction::Cancel));
    let res = resource_handler(&c, "https://mock.api/anything").expect("mocked");
    assert_eq!(res.status, 200);
    assert_eq!(res.mime, "application/json");
    assert_eq!(res.bytes, b"{}".to_vec());
    assert!(matches!(before_resource_load(&c, "https://mock.api/anything"), RequestAction::Continue));
}

#[test]
fn fate_of_a_request_under_a_rule() {
    assert!(matches!(action_for(None, "https://a.example/x"), RequestAction::Continue));
    let mut block = rule("*");
    block.block = Some(true);
    block.to = Some("https://b.example/".to_string());
    assert!(matches!(action_for(Some(&block), "https://a.example/x"), RequestAction::Cancel));
    assert!(answer_for(Some(&block)).is_none());
    let mut redirect = rule("https://a.example/*");
    redirect.to = Some("https://b.example/".to_string());
    match action_for(Some(&redirect), "https://a.example/x") {
        RequestAction::Redirect(u) => assert_eq!(u, "https://b.example/x"),
        _ => panic!("expected a redirect"),
    }
    let mut mock = rule("*");
    mock.body = Some("ok".to_string());
    assert!(matches!(action_for(Some(&mock), "u"), RequestAction::Continue));
    let res = answer_for(Some(&mock)).expect("mocked");
    assert_eq!(res.bytes, b"ok".to_vec());
    assert!(answer_for(None).is_none());
}
