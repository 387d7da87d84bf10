use umami_alerts::api::{
    auth_plan, login_decode_error, login_error, needs_error_text, response_decode_error,
    response_error, status_text, strip_trailing_slashes, AuthPlan, HttpMethod, UmamiClient,
};
use umami_alerts::config::WebsiteConfig;
use umami_alerts::AppError;

fn api_message(e: Option<AppError>) -> String {
    match e {
        Some(AppError::Api(m)) => m,
        other => panic!("expected an API error, got {:?}", other),
    }
}

#[test]
fn base_url_loses_trailing_slashes() {
    let client = UmamiClient::new("https://umami.example.com//".to_string()).unwrap();
    assert_eq!(client.base_url(), "https://umami.example.com");
    assert_eq!(strip_trailing_slashes("/"), "");
    assert_eq!(strip_trailing_slashes("a/b"), "a/b");
}

#[test]
fn login_request() {
    let client = UmamiClient::new("http://localhost:3000/".to_string()).unwrap();
    let r = client.login_request("test", "pa\"ss");
    assert_eq!(r.method, HttpMethod::Post);
    assert_eq!(r.url, "http://localhost:3000/api/auth/login");
    assert!(r.query.is_empty());
    assert_eq!(r.bearer_token, None);
    let body = r.json_body.unwrap();
    assert_eq!(body, r#"{"password":"pa\"ss","username":"test"}"#);
    let parsed: serde_json::Value = serde_json::from_str(&body).unwrap();
    assert_eq!(parsed, serde_json::from_str::<serde_json::Value>(r#"{"username":"test","password":"pa\"ss"}"#).unwrap());
}

#[test]
fn share_stats_and_metrics_requests() {
    let client = UmamiClient::new("http://localhost".to_string()).unwrap();
    let r = client.share_request("abc");
    assert_eq!(r.method, HttpMethod::Get);
    assert_eq!(r.url, "http://localhost/api/share/abc");

    let r = client.stats_request("token", "test-id", 0, 1000);
    assert_eq!(r.url, "http://localhost/api/websites/test-id/stats");
    assert_eq!(
        r.query,
        vec![
            ("startAt".to_string(), "0".to_string()),
            ("endAt".to_string(), "1000".to_string())
        ]
    );
    assert_eq!(r.bearer_token.as_deref(), Some("token"));

    let r = client.metrics_request("t", "id", "country", -5, 1735689599000, 10);
    assert_eq!(r.url, "http://localhost/api/websites/id/metrics");
    assert_eq!(
        r.query,
        vec![
            ("type".to_string(), "country".to_string()),
            ("startAt".to_string(), "-5".to_string()),
            ("endAt".to_string(), "1735689599000".to_string()),
            ("limit".to_string(), "10".to_string())
        ]
    );
}

#[test]
fn status_codes_display_like_http() {
    assert_eq!(status_text(401), "401 Unauthorized");
    assert_eq!(status_text(500), "500 Internal Server Error");
    assert_eq!(status_text(599), "599 <unknown status code>");
}

#[test]
fn responses_are_judged_by_status() {
    assert!(response_error(200, None).is_none());
    assert_eq!(api_message(response_error(401, None)), "Authentication token expired or invalid");
    assert_eq!(api_message(response_error(404, Some("x"))), "Resource not found");
    assert_eq!(api_message(response_error(429, None)), "Rate limit exceeded");
    assert_eq!(
        api_message(response_error(500, Some("boom"))),
        "API request failed (500 Internal Server Error): boom"
    );
    assert_eq!(
        api_message(response_error(503, None)),
        "API request failed (503 Service Unavailable): Unknown error"
    );
    assert!(needs_error_text(500));
    assert!(!needs_error_text(401));
}

#[test]
fn logins_are_judged_by_status() {
    assert!(login_error(200, None).is_none());
    assert_eq!(
        api_message(login_error(401, Some("{\"error\": \"Invalid credentials\"}"))),
        "Authentication failed (401 Unauthorized): {\"error\": \"Invalid credentials\"}"
    );
    assert_eq!(
        api_message(Some(login_decode_error("eof"))),
        "Failed to parse authentication response: eof"
    );
    assert_eq!(api_message(Some(response_decode_error("eof"))), "Failed to parse API response: eof");
}

#[test]
fn share_id_decides_the_authentication() {
    let mut site = WebsiteConfig {
        id: "site-id".to_string(),
        name: "Site".to_string(),
        base_url: "https://umami.example.com".to_string(),
        username: "u".to_string(),
        password: "p".to_string(),
        share_id: None,
        share_url: None,
        recipients: vec!["a@example.com".to_string()],
        timezone: "UTC".to_string(),
        disabled: false,
    };
    match auth_plan(&site).unwrap() {
        AuthPlan::Password { username, password, website_id } => {
            assert_eq!((username.as_str(), password.as_str(), website_id.as_str()), ("u", "p", "site-id"));
        }
        other => panic!("unexpected {:?}", other),
    }
    site.share_id = Some("share".to_string());
    assert!(matches!(auth_plan(&site).unwrap(), AuthPlan::Share { share_id } if share_id == "share"));
    site.share_url = Some("https://umami.example.com/share/from-url".to_string());
    assert!(matches!(auth_plan(&site).unwrap(), AuthPlan::Share { share_id } if share_id == "from-url"));
    site.share_url = Some("invalid-url".to_string());
    match auth_plan(&site) {
        Err(AppError::Config(m)) => assert_eq!(m, "share URL missing /share/ path: invalid-url"),
        other => panic!("unexpected {:?}", other),
    }
    site.share_url = Some("https://umami.example.com/share/".to_string());
    match auth_plan(&site) {
        Err(AppError::Config(m)) => {
            assert_eq!(m, "Invalid share URL: https://umami.example.com/share/")
        }
        other => panic!("unexpected {:?}", other),
    }
    assert!(site.validate().is_ok());
}

#[test]
fn login_body_escapes_like_serde_json() {
    let client = UmamiClient::new("http://localhost:3000".to_string()).unwrap();
    let r = client.login_request("a\u{1}\n\\\t\u{1f}", "é/\u{8}\u{c}\r\u{7f}");
    let body = r.json_body.unwrap();
    assert_eq!(
        body,
        "{\"password\":\"é/\\b\\f\\r\u{7f}\",\"username\":\"a\\u0001\\n\\\\\\t\\u001f\"}"
    );
}
