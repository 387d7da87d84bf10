use umami_alerts::config::{AppConfig, Config, ReportType, SmtpConfig, WebsiteConfig};
use umami_alerts::config::{split_share_url, validate_config};
use umami_alerts::AppError;

fn create_test_config() -> Config {
    Config {
        smtp: SmtpConfig {
            host: "smtp.example.com".to_string(),
            port: 587,
            username: "test".to_string(),
            password: "password".to_string(),
            from: "test@example.com".to_string(),
            tls: true,
            timeout_seconds: 30,
            skip_verify: false,
        },
        websites: vec![(
            "test".to_string(),
            WebsiteConfig {
                id: "test-id".to_string(),
                name: "Test Site".to_string(),
                base_url: "https://analytics.example.com".to_string(),
                username: "test".to_string(),
                password: "password".to_string(),
                share_id: None,
                share_url: None,
                recipients: vec!["admin@example.com".to_string()],
                timezone: "UTC".to_string(),
                disabled: false,
            },
        )],
        app: AppConfig {
            debug: false,
            dry_run: false,
            max_concurrent_jobs: 4,
            report_type: ReportType::Daily,
        },
    }
}

fn site_mut<'a>(config: &'a mut Config, name: &str) -> &'a mut WebsiteConfig {
    &mut config.websites.iter_mut().find(|(n, _)| n == name).unwrap().1
}

fn config_message(r: Result<(), AppError>) -> String {
    match r {
        Err(AppError::Config(m)) => m,
        other => panic!("expected a configuration error, got {:?}", other),
    }
}

#[test]
fn test_valid_config() {
    let config = create_test_config();
    assert!(validate_config(&config).is_ok());
}

#[test]
fn test_smtp_validation() {
    let mut config = create_test_config();
    config.smtp.host = "".to_string();
    assert!(validate_config(&config).is_err());
}

#[test]
fn test_website_validation() {
    let mut config = create_test_config();
    site_mut(&mut config, "test").base_url = "invalid-url".to_string();
    assert!(validate_config(&config).is_err());
}

#[test]
fn test_timezone_validation() {
    let mut config = create_test_config();
    site_mut(&mut config, "test").timezone = "Invalid/Timezone".to_string();
    assert!(validate_config(&config).is_err());
}

#[test]
fn smtp_errors_come_in_order() {
    let mut config = create_test_config();
    config.smtp.port = 0;
    assert_eq!(config_message(validate_config(&config)), "Invalid SMTP port");
    config.smtp.host = String::new();
    assert_eq!(config_message(validate_config(&config)), "SMTP host cannot be empty");

    let mut config = create_test_config();
    config.smtp.username = String::new();
    assert_eq!(config_message(config.smtp.validate()), "SMTP username cannot be empty");
    let mut config = create_test_config();
    config.smtp.password = String::new();
    assert_eq!(config_message(config.smtp.validate()), "SMTP password cannot be empty");
    let mut config = create_test_config();
    config.smtp.from = "reports.example.com".to_string();
    assert_eq!(config_message(config.smtp.validate()), "Invalid SMTP from address");
}

#[test]
fn website_error_messages() {
    let mut config = create_test_config();
    site_mut(&mut config, "test").base_url = "invalid-url".to_string();
    let msg = config_message(validate_config(&config));
    assert!(msg.starts_with("Invalid base URL invalid-url: "), "{msg}");

    let mut config = create_test_config();
    site_mut(&mut config, "test").timezone = "Invalid/Timezone".to_string();
    assert_eq!(
        config_message(validate_config(&config)),
        "Invalid timezone Invalid/Timezone: failed to parse timezone"
    );

    let mut config = create_test_config();
    site_mut(&mut config, "test").recipients = vec!["a@example.com".to_string(), "bob".to_string()];
    assert_eq!(config_message(validate_config(&config)), "Invalid email address: bob");

    let mut config = create_test_config();
    site_mut(&mut config, "test").recipients = vec![];
    assert_eq!(config_message(validate_config(&config)), "At least one recipient is required");

    let mut config = create_test_config();
    site_mut(&mut config, "test").name = String::new();
    assert_eq!(config_message(validate_config(&config)), "Website name cannot be empty");

    let mut config = create_test_config();
    site_mut(&mut config, "test").id = String::new();
    assert_eq!(
        config_message(validate_config(&config)),
        "Website ID cannot be empty when not using share_id"
    );

    let mut config = create_test_config();
    site_mut(&mut config, "test").username = String::new();
    assert_eq!(
        config_message(validate_config(&config)),
        "Username cannot be empty when not using share_id"
    );

    let mut config = create_test_config();
    site_mut(&mut config, "test").password = String::new();
    assert_eq!(
        config_message(validate_config(&config)),
        "Password cannot be empty when not using share_id"
    );
}

#[test]
fn share_id_replaces_credentials() {
    let mut config = create_test_config();
    {
        let site = site_mut(&mut config, "test");
        site.share_id = Some("abc".to_string());
        site.id = String::new();
        site.username = String::new();
        site.password = String::new();
    }
    assert!(validate_config(&config).is_ok());
    site_mut(&mut config, "test").share_id = Some(String::new());
    assert_eq!(config_message(validate_config(&config)), "Share ID cannot be empty");
}

#[test]
fn websites_must_exist_and_be_enabled() {
    let mut config = create_test_config();
    config.websites.clear();
    assert_eq!(config_message(validate_config(&config)), "No websites configured");

    let mut config = create_test_config();
    site_mut(&mut config, "test").disabled = true;
    assert_eq!(config_message(validate_config(&config)), "No enabled websites found");
}

#[test]
fn disabled_websites_are_not_checked() {
    let mut config = create_test_config();
    let mut broken = config.websites[0].1.clone();
    broken.base_url = "invalid-url".to_string();
    broken.disabled = true;
    config.websites.push(("broken".to_string(), broken));
    assert!(validate_config(&config).is_ok());
    let enabled = config.enabled_websites();
    assert_eq!(enabled.len(), 1);
    assert_eq!(enabled[0].0, "test");
}

#[test]
fn job_limit_must_be_positive() {
    let mut config = create_test_config();
    config.app.max_concurrent_jobs = 0;
    assert_eq!(
        config_message(validate_config(&config)),
        "max_concurrent_jobs must be greater than 0"
    );
}

#[test]
fn defaults() {
    let app = AppConfig::default();
    assert!(!app.debug);
    assert!(!app.dry_run);
    assert_eq!(app.max_concurrent_jobs, 4);
    assert_eq!(app.report_type, ReportType::Daily);
    assert_eq!(umami_alerts::config::default_timeout(), 30);
    assert!(umami_alerts::config::default_tls());
    assert_eq!(umami_alerts::config::default_timezone(), "UTC");
    assert_eq!(ReportType::Weekly.to_string(), "Weekly");
    assert_eq!(ReportType::Daily.to_string(), "Daily");
}

#[test]
fn share_urls_split_or_explain() {
    assert_eq!(
        split_share_url("https://umami.eli.pizza/share/xxxxx"),
        Ok(("https://umami.eli.pizza".to_string(), "xxxxx".to_string()))
    );
    assert_eq!(
        split_share_url("https://x.example.com/share/a/share/b"),
        Err("Invalid share URL: https://x.example.com/share/a/share/b".to_string())
    );
    assert_eq!(
        split_share_url("invalid-url"),
        Err("share URL missing /share/ path: invalid-url".to_string())
    );
    assert_eq!(
        split_share_url("/share/xxxxx"),
        Err("Invalid share URL: /share/xxxxx".to_string())
    );
    assert_eq!(
        split_share_url("https://umami.eli.pizza/share///"),
        Err("Invalid share URL: https://umami.eli.pizza/share///".to_string())
    );
}

#[test]
fn a_bad_share_url_is_no_validation_error() {
    let mut config = create_test_config();
    let site = site_mut(&mut config, "test");
    site.share_url = Some("https://umami.example.com/stats/xxxxx".to_string());
    assert!(validate_config(&config).is_ok());
    let site = site_mut(&mut config, "test");
    site.base_url = "not a url".to_string();
    assert_eq!(
        config_message(validate_config(&config)),
        "Invalid base URL not a url: relative URL without a base"
    );
}

#[test]
fn enabled_websites_keep_distinct_names() {
    let mut config = create_test_config();
    let mut second = config.websites[0].1.clone();
    second.disabled = true;
    config.websites.push(("second".to_string(), second.clone()));
    second.disabled = false;
    config.websites.push(("third".to_string(), second));
    let names: Vec<&str> = config.enabled_websites().iter().map(|p| p.0.as_str()).collect();
    assert_eq!(names, vec!["test", "third"]);
}
