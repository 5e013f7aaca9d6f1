use ghl::api::{
    assignees_request_body, assignees_url, bearer_header_value, escape_json, pr_number_from_url,
    pr_request_body, pulls_url, strip_quotes, user_url,
};

#[test]
fn pr_body_has_fixed_fields_and_draft() {
    let body = pr_request_body("feat: x [ENG-1]", "feat/eng-1-x", "main", "Description.");
    assert_eq!(
        body,
        "{\"title\":\"feat: x [ENG-1]\",\"head\":\"feat/eng-1-x\",\"base\":\"main\",\"body\":\"Description.\",\"draft\":true}"
    );
}

#[test]
fn pr_body_escapes_its_fields() {
    let body = pr_request_body("a \"quoted\" title", "h", "b", "line one\nline two\\end");
    assert_eq!(
        body,
        "{\"title\":\"a \\\"quoted\\\" title\",\"head\":\"h\",\"base\":\"b\",\"body\":\"line one\\nline two\\\\end\",\"draft\":true}"
    );
    let parsed: serde_json::Value = serde_json::from_str(&body).unwrap();
    assert_eq!(parsed["title"], "a \"quoted\" title");
    assert_eq!(parsed["body"], "line one\nline two\\end");
    assert_eq!(parsed["draft"], true);
}

#[test]
fn assignees_body_lists_the_user() {
    let body = assignees_request_body("octocat");
    assert_eq!(body, "{\"assignees\":[\"octocat\"]}");
    let parsed: serde_json::Value = serde_json::from_str(&body).unwrap();
    assert_eq!(parsed["assignees"][0], "octocat");
}

#[test]
fn json_escaping_covers_short_escapes_and_controls() {
    assert_eq!(escape_json("plain"), "plain");
    assert_eq!(escape_json("q\"b\\"), "q\\\"b\\\\");
    assert_eq!(
        escape_json("\u{8}\t\n\u{c}\r"),
        "\\b\\t\\n\\f\\r"
    );
    assert_eq!(escape_json("\u{1}\u{1f}"), "\\u0001\\u001f");
    assert_eq!(escape_json("caf\u{e9}"), "caf\u{e9}");
}

#[test]
fn endpoints_name_the_repository() {
    assert_eq!(
        pulls_url("acme/widgets"),
        "https://api.github.com/repos/acme/widgets/pulls"
    );
    assert_eq!(
        assignees_url("acme/widgets", "77"),
        "https://api.github.com/repos/acme/widgets/issues/77/assignees"
    );
    assert_eq!(user_url(), "https://api.github.com/user");
}

#[test]
fn bearer_value_prefixes_the_token() {
    assert_eq!(bearer_header_value("tok123"), "Bearer tok123");
}

#[test]
fn pr_number_is_the_last_path_segment() {
    assert_eq!(
        pr_number_from_url("https://github.com/acme/widgets/pull/123"),
        "123"
    );
    assert_eq!(pr_number_from_url("123"), "123");
    assert_eq!(pr_number_from_url("a/"), "");
}

#[test]
fn quote_stripping_removes_every_quote() {
    assert_eq!(
        strip_quotes("\"https://github.com/acme/widgets/pull/123\""),
        "https://github.com/acme/widgets/pull/123"
    );
    assert_eq!(strip_quotes("no quotes"), "no quotes");
    assert_eq!(strip_quotes("\"\""), "");
}
