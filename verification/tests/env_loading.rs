use umami_alerts::api::auth_plan;
use umami_alerts::config::{AppConfig, Config, ReportType, SmtpConfig, WebsiteConfig};
use umami_alerts::env::{
    apply_env_overrides, report_type_text, truthy_text,
    load_from_env, load_websites_from_env, parse_bool_env, parse_report_type_env, parse_usize_env,
};

fn vars(pairs: &[(&str, &str)]) -> Vec<(String, String)> {
    pairs.iter().map(|(k, v)| (k.to_string(), v.to_string())).collect()
}

fn smtp() -> Vec<(&'static str, &'static str)> {
    vec![
        ("SMTP_HOST", "mail.smtp2go.com"),
        ("SMTP_PORT", "2525"),
        ("SMTP_USERNAME", "user"),
        ("SMTP_PASSWORD", "secret"),
        ("SMTP_FROM", "reports@example.com"),
    ]
}

#[test]
fn missing_smtp_variable_gives_nothing() {
    let mut pairs = smtp();
    pairs.retain(|(k, _)| *k != "SMTP_FROM");
    assert!(load_from_env(&vars(&pairs)).is_none());
    assert!(load_from_env(&vars(&[])).is_none());
}

#[test]
fn smtp_and_app_settings() {
    let mut pairs = smtp();
    pairs.push(("SMTP_TLS", "no"));
    pairs.push(("SMTP_SKIP_TLS_VERIFY", "TRUE"));
    pairs.push(("APP_DEBUG", "On"));
    pairs.push(("APP_DRY_RUN", "1"));
    pairs.push(("APP_MAX_CONCURRENT_JOBS", "+7"));
    pairs.push(("APP_REPORT_TYPE", "WEEKLY"));
    let config = load_from_env(&vars(&pairs)).unwrap();
    assert_eq!(config.smtp.host, "mail.smtp2go.com");
    assert_eq!(config.smtp.port, 2525);
    assert_eq!(config.smtp.username, "user");
    assert_eq!(config.smtp.password, "secret");
    assert_eq!(config.smtp.from, "reports@example.com");
    assert!(!config.smtp.tls);
    assert!(config.smtp.skip_verify);
    assert_eq!(config.smtp.timeout_seconds, 30);
    assert!(config.app.debug);
    assert!(config.app.dry_run);
    assert_eq!(config.app.max_concurrent_jobs, 7);
    assert_eq!(config.app.report_type, ReportType::Weekly);
    assert!(config.websites.is_empty());
}

#[test]
fn defaults_when_unset_or_unreadable() {
    let mut pairs = smtp();
    pairs[1] = ("SMTP_PORT", "70000");
    pairs.push(("APP_MAX_CONCURRENT_JOBS", "four"));
    pairs.push(("APP_REPORT_TYPE", "monthly"));
    let config = load_from_env(&vars(&pairs)).unwrap();
    assert_eq!(config.smtp.port, 587);
    assert!(config.smtp.tls);
    assert!(!config.smtp.skip_verify);
    assert!(!config.app.debug);
    assert_eq!(config.app.max_concurrent_jobs, 4);
    assert_eq!(config.app.report_type, ReportType::Daily);
}

#[test]
fn setting_parsers() {
    let v = vars(&[("A", "yes"), ("B", "nope"), ("C", "12"), ("D", " 12"), ("E", "Daily")]);
    assert!(parse_bool_env(&v, "A", false));
    assert!(!parse_bool_env(&v, "B", true));
    assert!(parse_bool_env(&v, "Z", true));
    assert_eq!(parse_usize_env(&v, "C", 3), 12);
    assert_eq!(parse_usize_env(&v, "D", 3), 3);
    assert_eq!(parse_usize_env(&v, "Z", 3), 3);
    assert_eq!(parse_report_type_env(&v, "E", ReportType::Weekly), ReportType::Daily);
    assert_eq!(parse_report_type_env(&v, "Z", ReportType::Weekly), ReportType::Weekly);
}

#[test]
fn websites_are_numbered_until_a_name_is_missing() {
    let v = vars(&[
        ("APP_WEBSITE_1_NAME", "Blog"),
        ("APP_WEBSITE_1_SHARE_URL", "https://umami.example.com/share/xxxxx"),
        ("APP_WEBSITE_1_RECIPIENTS", "you@example.com"),
        ("APP_WEBSITE_2_NAME", "Shop"),
        ("APP_WEBSITE_2_SHARE_ID", "yyyyy"),
        ("APP_WEBSITE_2_BASE_URL", "https://umami.example.com"),
        ("APP_WEBSITE_2_RECIPIENTS", "sales@example.com, you@example.com"),
        ("APP_WEBSITE_2_TIMEZONE", "America/New_York"),
        ("APP_WEBSITE_3_NAME", "Hidden"),
        ("APP_WEBSITE_3_DISABLED", "true"),
        ("APP_WEBSITE_3_RECIPIENTS", "x@example.com"),
        ("APP_WEBSITE_4_NAME", "Nobody"),
        ("APP_WEBSITE_5_NAME", "Marketing Site"),
        ("APP_WEBSITE_5_BASE_URL", "https://umami.example.com"),
        ("APP_WEBSITE_5_ID", "uuid-here"),
        ("APP_WEBSITE_5_USERNAME", "user"),
        ("APP_WEBSITE_5_PASSWORD", "pass"),
        ("APP_WEBSITE_5_RECIPIENTS", "marketing@example.com"),
        ("APP_WEBSITE_5_TIMEZONE", ""),
        ("APP_WEBSITE_7_NAME", "Never reached"),
        ("APP_WEBSITE_7_RECIPIENTS", "x@example.com"),
    ]);
    let sites = load_websites_from_env(&v);
    let names: Vec<&str> = sites.iter().map(|(k, _)| k.as_str()).collect();
    assert_eq!(names, vec!["website_1", "website_2", "website_5"]);

    let blog = &sites[0].1;
    assert_eq!(blog.name, "Blog");
    assert_eq!(blog.share_url.as_deref(), Some("https://umami.example.com/share/xxxxx"));
    assert_eq!(blog.share_id.as_deref(), Some("xxxxx"));
    assert_eq!(blog.base_url, "https://umami.example.com");
    assert_eq!(blog.timezone, "UTC");
    assert_eq!(blog.recipients, vec!["you@example.com".to_string()]);
    assert!(!blog.disabled);

    let shop = &sites[1].1;
    assert_eq!(shop.share_id.as_deref(), Some("yyyyy"));
    assert_eq!(shop.timezone, "America/New_York");
    assert_eq!(
        shop.recipients,
        vec!["sales@example.com".to_string(), "you@example.com".to_string()]
    );

    let marketing = &sites[2].1;
    assert_eq!(marketing.id, "uuid-here");
    assert_eq!(marketing.username, "user");
    assert_eq!(marketing.password, "pass");
    assert_eq!(marketing.timezone, "UTC");
}

#[test]
fn an_empty_name_ends_the_scan() {
    let v = vars(&[
        ("APP_WEBSITE_1_NAME", ""),
        ("APP_WEBSITE_2_NAME", "Later"),
        ("APP_WEBSITE_2_RECIPIENTS", "a@example.com"),
    ]);
    assert!(load_websites_from_env(&v).is_empty());
}

#[test]
fn share_url_gives_base_url_and_share_id() {
    let v = vars(&[
        ("APP_WEBSITE_1_SHARE_URL", "https://umami.eli.pizza/share/xxxxx"),
        ("APP_WEBSITE_1_NAME", "Your Website"),
        ("APP_WEBSITE_1_RECIPIENTS", "your-email@example.com"),
        ("APP_WEBSITE_1_TIMEZONE", "UTC"),
    ]);
    let sites = load_websites_from_env(&v);
    assert_eq!(sites.len(), 1);
    assert_eq!(sites[0].0, "website_1");
    let site = &sites[0].1;
    assert_eq!(site.base_url, "https://umami.eli.pizza");
    assert_eq!(site.share_id.as_deref(), Some("xxxxx"));
    assert_eq!(site.name, "Your Website");
    assert_eq!(site.recipients, vec!["your-email@example.com".to_string()]);
    assert_eq!(site.timezone, "UTC");
    assert!(site.validate().is_ok());
}

#[test]
fn share_url_wins_over_base_url_and_share_id() {
    let v = vars(&[
        ("APP_WEBSITE_1_NAME", "Sub"),
        ("APP_WEBSITE_1_SHARE_URL", "https://example.com/umami/share/abc/"),
        ("APP_WEBSITE_1_SHARE_ID", "other"),
        ("APP_WEBSITE_1_BASE_URL", "https://elsewhere.example.com"),
        ("APP_WEBSITE_1_RECIPIENTS", "a@example.com"),
    ]);
    let sites = load_websites_from_env(&v);
    assert_eq!(sites[0].1.base_url, "https://example.com/umami");
    assert_eq!(sites[0].1.share_id.as_deref(), Some("abc"));
}

#[test]
fn invalid_share_url_is_kept_and_reported() {
    let v = vars(&[
        ("APP_WEBSITE_1_NAME", "Blog"),
        ("APP_WEBSITE_1_SHARE_URL", "invalid-url"),
        ("APP_WEBSITE_1_SHARE_ID", "abc"),
        ("APP_WEBSITE_1_BASE_URL", "https://umami.example.com"),
        ("APP_WEBSITE_1_RECIPIENTS", "a@example.com"),
    ]);
    let sites = load_websites_from_env(&v);
    let site = &sites[0].1;
    assert_eq!(site.base_url, "https://umami.example.com");
    assert_eq!(site.share_id.as_deref(), Some("abc"));
    assert_eq!(site.share_url.as_deref(), Some("invalid-url"));
    assert!(site.validate().is_ok());
    assert_eq!(
        auth_plan(site).unwrap_err().to_string(),
        "Configuration error: share URL missing /share/ path: invalid-url"
    );
}

#[test]
fn environment_overrides_the_file() {
    let site = |base: &str| WebsiteConfig {
        id: "id".to_string(),
        name: "File site".to_string(),
        base_url: base.to_string(),
        username: "u".to_string(),
        password: "p".to_string(),
        share_id: None,
        share_url: None,
        recipients: vec!["a@example.com".to_string()],
        timezone: "UTC".to_string(),
        disabled: false,
    };
    let file = Config {
        smtp: SmtpConfig {
            host: "file.example.com".to_string(),
            port: 25,
            username: "file-user".to_string(),
            password: "file-pass".to_string(),
            from: "file@example.com".to_string(),
            tls: true,
            timeout_seconds: 10,
            skip_verify: false,
        },
        websites: vec![
            ("website_1".to_string(), site("https://one.example.com")),
            ("blog".to_string(), site("https://blog.example.com")),
        ],
        app: AppConfig {
            debug: false,
            dry_run: false,
            max_concurrent_jobs: 2,
            report_type: ReportType::Daily,
        },
    };
    let v = vars(&[
        ("SMTP_HOST", "env.example.com"),
        ("SMTP_PORT", "not-a-port"),
        ("SMTP_TLS", "off"),
        ("APP_REPORT_TYPE", "weekly"),
        ("APP_WEBSITE_1_NAME", "Env site"),
        ("APP_WEBSITE_1_SHARE_URL", "https://umami.example.com/share/s1"),
        ("APP_WEBSITE_1_RECIPIENTS", "b@example.com"),
        ("APP_WEBSITE_2_NAME", "Second"),
        ("APP_WEBSITE_2_SHARE_ID", "s2"),
        ("APP_WEBSITE_2_BASE_URL", "https://umami.example.com"),
        ("APP_WEBSITE_2_RECIPIENTS", "c@example.com"),
    ]);
    let c = apply_env_overrides(file, &v);
    assert_eq!(c.smtp.host, "env.example.com");
    assert_eq!(c.smtp.port, 25);
    assert_eq!(c.smtp.username, "file-user");
    assert!(!c.smtp.tls);
    assert_eq!(c.smtp.timeout_seconds, 10);
    assert_eq!(c.app.max_concurrent_jobs, 2);
    assert_eq!(c.app.report_type, ReportType::Weekly);
    let keys: Vec<&str> = c.websites.iter().map(|(k, _)| k.as_str()).collect();
    assert_eq!(keys, vec!["website_1", "blog", "website_2"]);
    assert_eq!(c.websites[0].1.name, "Env site");
    assert_eq!(c.websites[0].1.share_id.as_deref(), Some("s1"));
    assert_eq!(c.websites[1].1.base_url, "https://blog.example.com");
    assert_eq!(c.websites[2].1.share_id.as_deref(), Some("s2"));
}

#[test]
fn lowercased_setting_words() {
    for w in ["true", "1", "yes", "on"] {
        assert!(truthy_text(w));
    }
    for w in ["TRUE", "no", "", "y", "2"] {
        assert!(!truthy_text(w));
    }
    assert_eq!(report_type_text("daily"), Some(ReportType::Daily));
    assert_eq!(report_type_text("weekly"), Some(ReportType::Weekly));
    assert_eq!(report_type_text("Weekly"), None);
    assert_eq!(report_type_text("monthly"), None);
}
