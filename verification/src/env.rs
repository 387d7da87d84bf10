use vstd::prelude::*;

use crate::config::{
    names_distinct, opt_view, share_parts, sites_view, split_share_url, AppConfig, Config,
    ConfigView, ReportType, SmtpConfig, SmtpView, WebsiteConfig, WebsiteView,
};
use crate::text::{
    decimal, decimal_text, lemma_decimal_injective, lemma_split_on_nonempty, parse_unsigned,
    parse_unsigned_text, split_on, split_trimmed, strings_view, to_lowercase, trimmed,
    unicode_lowercase,
};

verus! {

broadcast use vstd::string::group_string_axioms;

/// The environment as names and values.
pub open spec fn env_view(vars: Seq<(String, String)>) -> Seq<(Seq<char>, Seq<char>)> {
    vars.map_values(|p: (String, String)| (p.0@, p.1@))
}

/// The value of an environment variable: the first entry with that name.
pub open spec fn env_get(ev: Seq<(Seq<char>, Seq<char>)>, key: Seq<char>) -> Option<Seq<char>>
    decreases ev.len(),
{
    if ev.len() == 0 {
        None
    } else if ev[0].0 == key {
        Some(ev[0].1)
    } else {
        env_get(ev.drop_first(), key)
    }
}

/// The value of an environment variable, if it is set.
pub fn env_var<'a>(vars: &'a Vec<(String, String)>, key: &String) -> (r: Option<&'a String>)
    ensures
        match r {
            Some(v) => env_get(env_view(vars@), key@) == Some(v@),
            None => env_get(env_view(vars@), key@) is None,
        },
{
    let ghost ev = env_view(vars@);
    assert(ev.subrange(0, ev.len() as int) =~= ev);
    let mut i: usize = 0;
    while i < vars.len()
        invariant
            i <= vars.len(),
            ev == env_view(vars@),
            env_get(ev, key@) == env_get(ev.subrange(i as int, ev.len() as int), key@),
        decreases vars.len() - i,
    {
        proof {
            let rest = ev.subrange(i as int, ev.len() as int);
            assert(rest[0] == (vars@[i as int].0@, vars@[i as int].1@));
            assert(rest.drop_first() =~= ev.subrange(i + 1, ev.len() as int));
        }
        if vars[i].0 == *key {
            return Some(&vars[i].1);
        }
        i = i + 1;
    }
    None
}

/// Whether a lowercased setting reads as "on".
pub open spec fn is_truthy(v: Seq<char>) -> bool {
    v == "true"@ || v == "1"@ || v == "yes"@ || v == "on"@
}

/// A yes/no setting: when set, whether its lowercase form is `true`, `1`,
/// `yes` or `on`; when unset, the default.
pub open spec fn bool_setting(ev: Seq<(Seq<char>, Seq<char>)>, key: Seq<char>, default: bool) -> bool {
    match env_get(ev, key) {
        Some(v) => is_truthy(unicode_lowercase(v)),
        None => default,
    }
}

/// A count setting: its value when set and a valid `usize`, else the default.
pub open spec fn usize_setting(ev: Seq<(Seq<char>, Seq<char>)>, key: Seq<char>, default: usize) -> usize {
    match env_get(ev, key) {
        Some(v) => match parse_unsigned(v, usize::MAX as nat) {
            Some(n) => n as usize,
            None => default,
        },
        None => default,
    }
}

/// A report kind setting: `daily` or `weekly` in any case, else the default.
pub open spec fn report_type_setting(
    ev: Seq<(Seq<char>, Seq<char>)>,
    key: Seq<char>,
    default: ReportType,
) -> ReportType {
    match env_get(ev, key) {
        Some(v) => match report_type_named(unicode_lowercase(v)) {
            Some(t) => t,
            None => default,
        },
        None => default,
    }
}

/// The report kind a lowercased setting names: `daily` or `weekly`.
pub open spec fn report_type_named(v: Seq<char>) -> Option<ReportType> {
    if v == "daily"@ {
        Some(ReportType::Daily)
    } else if v == "weekly"@ {
        Some(ReportType::Weekly)
    } else {
        None
    }
}

/// Whether a lowercased setting reads as "on": `true`, `1`, `yes` or `on`.
pub fn truthy_text(v: &str) -> (r: bool)
    ensures
        r == is_truthy(v@),
{
    let v = v.to_string();
    v == "true".to_string() || v == "1".to_string() || v == "yes".to_string() || v
        == "on".to_string()
}

/// The report kind a lowercased setting names, if any.
pub fn report_type_text(v: &str) -> (r: Option<ReportType>)
    ensures
        r == report_type_named(v@),
{
    let v = v.to_string();
    if v == "daily".to_string() {
        Some(ReportType::Daily)
    } else if v == "weekly".to_string() {
        Some(ReportType::Weekly)
    } else {
        None
    }
}

/// Reads a yes/no setting.
pub fn parse_bool_env(vars: &Vec<(String, String)>, key: &str, default: bool) -> (r: bool)
    ensures
        r == bool_setting(env_view(vars@), key@, default),
{
    match env_var(vars, &key.to_string()) {
        Some(v) => truthy_text(to_lowercase(v.as_str()).as_str()),
        None => default,
    }
}

/// Reads a count setting.
pub fn parse_usize_env(vars: &Vec<(String, String)>, key: &str, default: usize) -> (r: usize)
    ensures
        r == usize_setting(env_view(vars@), key@, default),
{
    match env_var(vars, &key.to_string()) {
        Some(v) => match parse_unsigned_text(v.as_str(), usize::MAX as u64) {
            Some(n) => n as usize,
            None => default,
        },
        None => default,
    }
}

/// Reads a report kind setting.
pub fn parse_report_type_env(vars: &Vec<(String, String)>, key: &str, default: ReportType) -> (r:
    ReportType)
    ensures
        r == report_type_setting(env_view(vars@), key@, default),
{
    match env_var(vars, &key.to_string()) {
        Some(v) => match report_type_text(to_lowercase(v.as_str()).as_str()) {
            Some(t) => t,
            None => default,
        },
        None => default,
    }
}

// ---------------------------------------------------------------------------
// Websites numbered APP_WEBSITE_1_*, APP_WEBSITE_2_*, ...
// ---------------------------------------------------------------------------

/// The name of a field of the website with the given number.
pub open spec fn site_key(i: nat, field: Seq<char>) -> Seq<char> {
    "APP_WEBSITE_"@ + decimal(i) + "_"@ + field
}

/// The configuration name of the website with the given number.
pub open spec fn site_config_name(i: nat) -> Seq<char> {
    "website_"@ + decimal(i)
}

/// The value of a setting, unless it is unset or empty.
pub open spec fn non_empty(v: Option<Seq<char>>) -> Option<Seq<char>> {
    match v {
        Some(s) => if s.len() > 0 {
            Some(s)
        } else {
            None
        },
        None => None,
    }
}

/// The value of a setting, or the empty text when it is unset.
pub open spec fn or_empty(v: Option<Seq<char>>) -> Seq<char> {
    match v {
        Some(s) => s,
        None => Seq::empty(),
    }
}

/// The name of the website with the given number, unless it is unset or
/// empty; the scan of websites stops at the first number without one.
pub open spec fn site_name(ev: Seq<(Seq<char>, Seq<char>)>, i: nat) -> Option<Seq<char>> {
    non_empty(env_get(ev, site_key(i, "NAME"@)))
}

/// The website with the given number, given its name: none when it is
/// disabled or has no recipients, else its configuration name and settings.
/// A valid share URL gives the server's address and the share ID, in place
/// of `BASE_URL` and `SHARE_ID`; an invalid one is kept, and the website
/// fails with its message when its requests are planned (`auth_plan`).
pub open spec fn site_entry(ev: Seq<(Seq<char>, Seq<char>)>, i: nat, name: Seq<char>) -> Option<
    (Seq<char>, WebsiteView),
> {
    let raw = or_empty(env_get(ev, site_key(i, "RECIPIENTS"@)));
    let share_url = non_empty(env_get(ev, site_key(i, "SHARE_URL"@)));
    if bool_setting(ev, site_key(i, "DISABLED"@), false) {
        None
    } else if raw.len() == 0 {
        None
    } else {
        Some(
            (
                site_config_name(i),
                WebsiteView {
                    id: or_empty(env_get(ev, site_key(i, "ID"@))),
                    name: name,
                    base_url: match share_parts(share_url) {
                        Some(p) => p.0,
                        None => or_empty(env_get(ev, site_key(i, "BASE_URL"@))),
                    },
                    username: or_empty(env_get(ev, site_key(i, "USERNAME"@))),
                    password: or_empty(env_get(ev, site_key(i, "PASSWORD"@))),
                    share_id: match share_parts(share_url) {
                        Some(p) => Some(p.1),
                        None => non_empty(env_get(ev, site_key(i, "SHARE_ID"@))),
                    },
                    share_url: share_url,
                    recipients: split_on(raw, ',').map_values(|p: Seq<char>| trimmed(p)),
                    timezone: match non_empty(env_get(ev, site_key(i, "TIMEZONE"@))) {
                        Some(t) => t,
                        None => "UTC"@,
                    },
                    disabled: false,
                },
            ),
        )
    }
}

/// The websites from number `i` on, up to the first number without a name.
/// No scan passes the number of environment entries: that many distinct
/// names cannot all be set.
pub open spec fn sites_from(ev: Seq<(Seq<char>, Seq<char>)>, i: nat) -> Seq<(Seq<char>, WebsiteView)>
    decreases ev.len() + 1 - i,
{
    if i == 0 || i > ev.len() || site_name(ev, i) is None {
        Seq::empty()
    } else {
        match site_entry(ev, i, site_name(ev, i)->0) {
            Some(e) => seq![e] + sites_from(ev, i + 1),
            None => sites_from(ev, i + 1),
        }
    }
}

/// The websites the environment describes.
pub open spec fn env_websites(ev: Seq<(Seq<char>, Seq<char>)>) -> Seq<(Seq<char>, WebsiteView)> {
    sites_from(ev, 1)
}

fn field_key(prefix: &String, field: &str) -> (r: String)
    ensures
        r@ == prefix@ + field@,
{
    prefix.clone().concat(field)
}

fn value_or_empty(v: Option<&String>) -> (r: String)
    ensures
        r@ == or_empty(
            match v {
                Some(s) => Some(s@),
                None => None,
            },
        ),
{
    match v {
        Some(s) => s.clone(),
        None => String::new(),
    }
}

fn non_empty_value(v: Option<&String>) -> (r: Option<String>)
    ensures
        opt_view(r) == non_empty(
            match v {
                Some(s) => Some(s@),
                None => None,
            },
        ),
{
    match v {
        Some(s) => if s.as_str().is_empty() {
            None
        } else {
            Some(s.clone())
        },
        None => None,
    }
}

/// Reads the websites APP_WEBSITE_1_*, APP_WEBSITE_2_*, ... up to the first
/// number whose NAME is unset or empty, leaving out disabled websites and
/// websites without recipients.
pub fn load_websites_from_env(vars: &Vec<(String, String)>) -> (r: Vec<(String, WebsiteConfig)>)
    ensures
        sites_view(r@) == env_websites(env_view(vars@)),
        forall|k: int|
            0 <= k < r.len() ==> !(#[trigger] r@[k]).1.disabled && (r@[k].1.share_id matches Some(
                id,
            ) ==> id@.len() > 0),
{
    proof {
        lemma_env_websites_well_formed(env_view(vars@));
    }
    let ghost ev = env_view(vars@);
    let mut out: Vec<(String, WebsiteConfig)> = Vec::new();
    let mut k: usize = 0;
    let mut going = true;
    while going && k < vars.len()
        invariant
            ev == env_view(vars@),
            ev.len() == vars.len(),
            k <= vars.len(),
            going ==> sites_view(out@) + sites_from(ev, (k + 1) as nat) == env_websites(ev),
            !going ==> sites_view(out@) == env_websites(ev),
        decreases 2 * (vars.len() - k) + if going { 1int } else { 0int },
    {
        let i: u64 = (k + 1) as u64;
        let prefix = "APP_WEBSITE_".to_string().concat(decimal_text(i).as_str()).concat("_");
        let ghost n = i as nat;
        assert(prefix@ == "APP_WEBSITE_"@ + decimal(n) + "_"@);
        let name_key = field_key(&prefix, "NAME");
        let name = env_var(vars, &name_key);
        let name = match name {
            Some(v) => if v.as_str().is_empty() {
                None
            } else {
                Some(v)
            },
            None => None,
        };
        match name {
            None => {
                going = false;
            },
            Some(name) => {
                let ghost rest = sites_from(ev, n + 1);
                let disabled = parse_bool_env(vars, field_key(&prefix, "DISABLED").as_str(), false);
                if !disabled {
                    let raw = value_or_empty(env_var(vars, &field_key(&prefix, "RECIPIENTS")));
                    if !raw.as_str().is_empty() {
                        let recipients = split_trimmed(raw.as_str(), ',');
                        let timezone = match non_empty_value(
                            env_var(vars, &field_key(&prefix, "TIMEZONE")),
                        ) {
                            Some(t) => t,
                            None => "UTC".to_string(),
                        };
                        let share_url = non_empty_value(
                            env_var(vars, &field_key(&prefix, "SHARE_URL")),
                        );
                        let parts: Option<(String, String)> = match &share_url {
                            Some(u) => match split_share_url(u.as_str()) {
                                Ok(p) => Some(p),
                                Err(_) => None,
                            },
                            None => None,
                        };
                        let (base_url, share_id) = match parts {
                            Some(p) => (p.0, Some(p.1)),
                            None => (
                                value_or_empty(env_var(vars, &field_key(&prefix, "BASE_URL"))),
                                non_empty_value(env_var(vars, &field_key(&prefix, "SHARE_ID"))),
                            ),
                        };
                        let website = WebsiteConfig {
                            id: value_or_empty(env_var(vars, &field_key(&prefix, "ID"))),
                            name: name.clone(),
                            base_url,
                            username: value_or_empty(env_var(vars, &field_key(&prefix, "USERNAME"))),
                            password: value_or_empty(env_var(vars, &field_key(&prefix, "PASSWORD"))),
                            share_id,
                            share_url,
                            recipients,
                            timezone,
                            disabled: false,
                        };
                        let key = "website_".to_string().concat(decimal_text(i).as_str());
                        let ghost old_out = sites_view(out@);
                        let ghost entry = (key@, website@);
                        out.push((key, website));
                        proof {
                            assert(site_entry(ev, n, name@) == Some(entry));
                            assert(sites_from(ev, n) == seq![entry] + rest);
                            assert(sites_view(out@) =~= old_out.push(entry));
                            assert(sites_view(out@) + rest =~= old_out + (seq![entry] + rest));
                        }
                    } else {
                        assert(sites_from(ev, n) == rest);
                    }
                } else {
                    assert(sites_from(ev, n) == rest);
                }
                k = k + 1;
            },
        }
    }
    proof {
        if going {
            assert(sites_from(ev, (k + 1) as nat) == Seq::<(Seq<char>, WebsiteView)>::empty());
            assert(sites_view(out@) + Seq::<(Seq<char>, WebsiteView)>::empty() =~= sites_view(
                out@,
            ));
        }
        assert forall|k: int| 0 <= k < out.len() implies !(#[trigger] out@[k]).1.disabled && (
        out@[k].1.share_id matches Some(id) ==> id@.len() > 0) by {
            assert(sites_view(out@)[k] == (out@[k].0@, out@[k].1@));
            assert(env_websites(ev)[k] == sites_view(out@)[k]);
        }
    }
    out
}

/// The configuration the environment describes: none unless `SMTP_HOST`,
/// `SMTP_PORT`, `SMTP_USERNAME`, `SMTP_PASSWORD` and `SMTP_FROM` are all
/// set; the other settings fall back to their defaults.
pub open spec fn env_config(ev: Seq<(Seq<char>, Seq<char>)>) -> Option<ConfigView> {
    let host = env_get(ev, "SMTP_HOST"@);
    let port = env_get(ev, "SMTP_PORT"@);
    let username = env_get(ev, "SMTP_USERNAME"@);
    let password = env_get(ev, "SMTP_PASSWORD"@);
    let from = env_get(ev, "SMTP_FROM"@);
    if host is None || port is None || username is None || password is None || from is None {
        None
    } else {
        Some(
            ConfigView {
                smtp: SmtpView {
                    host: host->0,
                    port: match parse_unsigned(port->0, u16::MAX as nat) {
                        Some(p) => p as u16,
                        None => 587,
                    },
                    username: username->0,
                    password: password->0,
                    from: from->0,
                    tls: bool_setting(ev, "SMTP_TLS"@, true),
                    timeout_seconds: 30,
                    skip_verify: bool_setting(ev, "SMTP_SKIP_TLS_VERIFY"@, false),
                },
                websites: env_websites(ev),
                app: AppConfig {
                    debug: bool_setting(ev, "APP_DEBUG"@, false),
                    dry_run: bool_setting(ev, "APP_DRY_RUN"@, false),
                    max_concurrent_jobs: usize_setting(ev, "APP_MAX_CONCURRENT_JOBS"@, 4),
                    report_type: report_type_setting(ev, "APP_REPORT_TYPE"@, ReportType::Daily),
                },
            },
        )
    }
}

/// All five SMTP variables are set.
pub open spec fn smtp_vars_set(ev: Seq<(Seq<char>, Seq<char>)>) -> bool {
    &&& env_get(ev, "SMTP_HOST"@) is Some
    &&& env_get(ev, "SMTP_PORT"@) is Some
    &&& env_get(ev, "SMTP_USERNAME"@) is Some
    &&& env_get(ev, "SMTP_PASSWORD"@) is Some
    &&& env_get(ev, "SMTP_FROM"@) is Some
}

/// A yes/no setting read from the environment: when set, whether its
/// lowercase form is `true`, `1`, `yes` or `on`; when unset, the given value.
pub open spec fn flag_read(ev: Seq<(Seq<char>, Seq<char>)>, key: Seq<char>, value: bool, unset: bool) -> bool {
    match env_get(ev, key) {
        Some(v) => value == (unicode_lowercase(v) == "true"@ || unicode_lowercase(v) == "1"@
            || unicode_lowercase(v) == "yes"@ || unicode_lowercase(v) == "on"@),
        None => value == unset,
    }
}

/// A configuration as the environment's variables give it, setting by
/// setting: the SMTP texts as set; the port as set when it reads as a port
/// number, else 587; TLS on, certificate checks kept, debug and dry run off,
/// four jobs and daily reports unless set otherwise; a 30 second timeout;
/// and the websites the environment numbers.
pub open spec fn env_settings_read(ev: Seq<(Seq<char>, Seq<char>)>, c: ConfigView) -> bool {
    &&& env_get(ev, "SMTP_HOST"@) == Some(c.smtp.host)
    &&& env_get(ev, "SMTP_USERNAME"@) == Some(c.smtp.username)
    &&& env_get(ev, "SMTP_PASSWORD"@) == Some(c.smtp.password)
    &&& env_get(ev, "SMTP_FROM"@) == Some(c.smtp.from)
    &&& (match env_get(ev, "SMTP_PORT"@) {
        Some(v) => match parse_unsigned(v, 65535) {
            Some(p) => c.smtp.port == p,
            None => c.smtp.port == 587,
        },
        None => false,
    })
    &&& c.smtp.timeout_seconds == 30
    &&& flag_read(ev, "SMTP_TLS"@, c.smtp.tls, true)
    &&& flag_read(ev, "SMTP_SKIP_TLS_VERIFY"@, c.smtp.skip_verify, false)
    &&& flag_read(ev, "APP_DEBUG"@, c.app.debug, false)
    &&& flag_read(ev, "APP_DRY_RUN"@, c.app.dry_run, false)
    &&& (env_get(ev, "APP_MAX_CONCURRENT_JOBS"@) is None ==> c.app.max_concurrent_jobs == 4)
    &&& (env_get(ev, "APP_REPORT_TYPE"@) is None ==> c.app.report_type == ReportType::Daily)
    &&& (env_get(ev, "APP_REPORT_TYPE"@) matches Some(v) && unicode_lowercase(v) == "weekly"@
        ==> c.app.report_type == ReportType::Weekly)
    &&& c.websites == env_websites(ev)
}

/// The configuration the environment describes exists exactly when the five
/// SMTP variables are set, and then reads each setting as
/// `env_settings_read` says: an unset setting takes its documented default
/// (TLS on, certificate checks kept, debug and dry run off, four jobs, daily
/// reports, port 587 where the port does not read as a number).
pub proof fn lemma_env_config_reads(ev: Seq<(Seq<char>, Seq<char>)>)
    ensures
        env_config(ev) is Some <==> smtp_vars_set(ev),
        env_config(ev) matches Some(c) ==> env_settings_read(ev, c),
{
    if let Some(c) = env_config(ev) {
        let port = env_get(ev, "SMTP_PORT"@)->0;
        if let Some(p) = parse_unsigned(port, u16::MAX as nat) {
            assert(p <= 65535);
            assert(c.smtp.port == p);
        }
        reveal_strlit("daily");
        reveal_strlit("weekly");
        assert(flag_read(ev, "SMTP_TLS"@, c.smtp.tls, true));
        assert(flag_read(ev, "SMTP_SKIP_TLS_VERIFY"@, c.smtp.skip_verify, false));
        assert(flag_read(ev, "APP_DEBUG"@, c.app.debug, false));
        assert(flag_read(ev, "APP_DRY_RUN"@, c.app.dry_run, false));
        assert(env_get(ev, "APP_MAX_CONCURRENT_JOBS"@) is None ==> c.app.max_concurrent_jobs == 4);
        assert(env_get(ev, "APP_REPORT_TYPE"@) is None ==> c.app.report_type == ReportType::Daily);
        assert(u16::MAX as nat == 65535);
        assert("weekly"@ != "daily"@) by {
            assert("weekly"@.len() != "daily"@.len());
        }
        assert(env_get(ev, "APP_REPORT_TYPE"@) matches Some(v) && unicode_lowercase(v) == "weekly"@
            ==> c.app.report_type == ReportType::Weekly);
        assert(match env_get(ev, "SMTP_PORT"@) {
            Some(v) => match parse_unsigned(v, 65535) {
                Some(p) => c.smtp.port == p,
                None => c.smtp.port == 587,
            },
            None => false,
        });
    }
}

/// Builds the configuration from the environment's variables. Gives `None`
/// unless all five SMTP variables are set.
pub fn load_from_env(vars: &Vec<(String, String)>) -> (r: Option<Config>)
    ensures
        match r {
            Some(c) => env_config(env_view(vars@)) == Some(c@),
            None => env_config(env_view(vars@)) is None,
        },
        r is Some <==> smtp_vars_set(env_view(vars@)),
        r matches Some(c) ==> env_settings_read(env_view(vars@), c@),
{
    let host = env_var(vars, &"SMTP_HOST".to_string());
    let port = env_var(vars, &"SMTP_PORT".to_string());
    let username = env_var(vars, &"SMTP_USERNAME".to_string());
    let password = env_var(vars, &"SMTP_PASSWORD".to_string());
    let from = env_var(vars, &"SMTP_FROM".to_string());
    match (host, port, username, password, from) {
        (Some(host), Some(port), Some(username), Some(password), Some(from)) => {
            let port = match parse_unsigned_text(port.as_str(), u16::MAX as u64) {
                Some(p) => p as u16,
                None => 587,
            };
            let config = Config {
                smtp: SmtpConfig {
                    host: host.clone(),
                    port,
                    username: username.clone(),
                    password: password.clone(),
                    from: from.clone(),
                    tls: parse_bool_env(vars, "SMTP_TLS", true),
                    timeout_seconds: 30,
                    skip_verify: parse_bool_env(vars, "SMTP_SKIP_TLS_VERIFY", false),
                },
                websites: load_websites_from_env(vars),
                app: AppConfig {
                    debug: parse_bool_env(vars, "APP_DEBUG", false),
                    dry_run: parse_bool_env(vars, "APP_DRY_RUN", false),
                    max_concurrent_jobs: parse_usize_env(vars, "APP_MAX_CONCURRENT_JOBS", 4),
                    report_type: parse_report_type_env(vars, "APP_REPORT_TYPE", ReportType::Daily),
                },
            };
            proof {
                lemma_env_config_reads(env_view(vars@));
            }
            Some(config)
        },
        _ => {
            proof {
                lemma_env_config_reads(env_view(vars@));
            }
            None
        },
    }
}

// ---------------------------------------------------------------------------
// Environment variables over a configuration file
// ---------------------------------------------------------------------------

/// A text setting: its value when set, else the current one.
pub open spec fn text_setting(ev: Seq<(Seq<char>, Seq<char>)>, key: Seq<char>, current: Seq<char>) -> Seq<
    char,
> {
    match env_get(ev, key) {
        Some(v) => v,
        None => current,
    }
}

/// The mail server port: `SMTP_PORT` when set and a valid port number, else
/// the current one.
pub open spec fn port_setting(ev: Seq<(Seq<char>, Seq<char>)>, current: u16) -> u16 {
    match env_get(ev, "SMTP_PORT"@) {
        Some(v) => match parse_unsigned(v, u16::MAX as nat) {
            Some(p) => p as u16,
            None => current,
        },
        None => current,
    }
}

/// The settings of the first website with the given configuration name.
pub open spec fn find_site(ws: Seq<(Seq<char>, WebsiteView)>, key: Seq<char>) -> Option<WebsiteView>
    decreases ws.len(),
{
    if ws.len() == 0 {
        None
    } else if ws[0].0 == key {
        Some(ws[0].1)
    } else {
        find_site(ws.drop_first(), key)
    }
}

/// The websites of a file with those of the environment laid over them: a
/// website the environment describes under the same configuration name
/// takes the file's place, and the environment's other websites follow, in
/// order.
pub open spec fn overlay_sites(
    file: Seq<(Seq<char>, WebsiteView)>,
    envw: Seq<(Seq<char>, WebsiteView)>,
) -> Seq<(Seq<char>, WebsiteView)> {
    file.map_values(
        |p: (Seq<char>, WebsiteView)|
            match find_site(envw, p.0) {
                Some(w) => (p.0, w),
                None => p,
            },
    ) + envw.filter(|p: (Seq<char>, WebsiteView)| find_site(file, p.0) is None)
}

/// A configuration with the environment's settings laid over it: every
/// setting whose variable is set takes that value (a port or count only
/// when it reads as a number), and the environment's websites are laid over
/// the configuration's.
pub open spec fn overridden_config(c: ConfigView, ev: Seq<(Seq<char>, Seq<char>)>) -> ConfigView {
    ConfigView {
        smtp: SmtpView {
            host: text_setting(ev, "SMTP_HOST"@, c.smtp.host),
            port: port_setting(ev, c.smtp.port),
            username: text_setting(ev, "SMTP_USERNAME"@, c.smtp.username),
            password: text_setting(ev, "SMTP_PASSWORD"@, c.smtp.password),
            from: text_setting(ev, "SMTP_FROM"@, c.smtp.from),
            tls: bool_setting(ev, "SMTP_TLS"@, c.smtp.tls),
            timeout_seconds: c.smtp.timeout_seconds,
            skip_verify: bool_setting(ev, "SMTP_SKIP_TLS_VERIFY"@, c.smtp.skip_verify),
        },
        websites: overlay_sites(c.websites, env_websites(ev)),
        app: AppConfig {
            debug: bool_setting(ev, "APP_DEBUG"@, c.app.debug),
            dry_run: bool_setting(ev, "APP_DRY_RUN"@, c.app.dry_run),
            max_concurrent_jobs: usize_setting(
                ev,
                "APP_MAX_CONCURRENT_JOBS"@,
                c.app.max_concurrent_jobs,
            ),
            report_type: report_type_setting(ev, "APP_REPORT_TYPE"@, c.app.report_type),
        },
    }
}

/// A text setting read over a current value: the variable's value when it
/// is set, else the current value.
pub open spec fn text_read(
    ev: Seq<(Seq<char>, Seq<char>)>,
    key: Seq<char>,
    value: Seq<char>,
    current: Seq<char>,
) -> bool {
    match env_get(ev, key) {
        Some(v) => value == v,
        None => value == current,
    }
}

/// What laying the environment over a file's configuration gives, setting by
/// setting: each SMTP text and yes/no setting whose variable is set takes the
/// variable's value (a yes/no setting: whether it reads `true`, `1`, `yes`
/// or `on` in any case), an unset one keeps the file's; the port takes a set
/// variable that reads as a port number; the timeout, and a job count or
/// report kind whose variable is unset, stay as in the file. Each of the
/// file's websites keeps its place and name, takes the settings the
/// environment gives under that name, and is unchanged where it gives none;
/// every website the environment gives under another name is added.
pub open spec fn overrides_read(ev: Seq<(Seq<char>, Seq<char>)>, file: ConfigView, c: ConfigView) -> bool {
    let envw = env_websites(ev);
    &&& text_read(ev, "SMTP_HOST"@, c.smtp.host, file.smtp.host)
    &&& text_read(ev, "SMTP_USERNAME"@, c.smtp.username, file.smtp.username)
    &&& text_read(ev, "SMTP_PASSWORD"@, c.smtp.password, file.smtp.password)
    &&& text_read(ev, "SMTP_FROM"@, c.smtp.from, file.smtp.from)
    &&& (match env_get(ev, "SMTP_PORT"@) {
        Some(v) => match parse_unsigned(v, 65535) {
            Some(p) => c.smtp.port == p,
            None => c.smtp.port == file.smtp.port,
        },
        None => c.smtp.port == file.smtp.port,
    })
    &&& c.smtp.timeout_seconds == file.smtp.timeout_seconds
    &&& flag_read(ev, "SMTP_TLS"@, c.smtp.tls, file.smtp.tls)
    &&& flag_read(ev, "SMTP_SKIP_TLS_VERIFY"@, c.smtp.skip_verify, file.smtp.skip_verify)
    &&& flag_read(ev, "APP_DEBUG"@, c.app.debug, file.app.debug)
    &&& flag_read(ev, "APP_DRY_RUN"@, c.app.dry_run, file.app.dry_run)
    &&& (env_get(ev, "APP_MAX_CONCURRENT_JOBS"@) is None ==> c.app.max_concurrent_jobs
        == file.app.max_concurrent_jobs)
    &&& (env_get(ev, "APP_REPORT_TYPE"@) is None ==> c.app.report_type == file.app.report_type)
    &&& c.websites.len() >= file.websites.len()
    &&& forall|k: int|
        0 <= k < file.websites.len() ==> (#[trigger] c.websites[k]).0 == file.websites[k].0 && match find_site(
            envw,
            file.websites[k].0,
        ) {
            Some(w) => c.websites[k].1 == w,
            None => c.websites[k] == file.websites[k],
        }
    &&& forall|j: int|
        0 <= j < envw.len() && find_site(file.websites, (#[trigger] envw[j]).0) is None
            ==> c.websites.contains(envw[j])
}

/// Environment variables override a file's configuration, as
/// `overrides_read` says setting by setting.
pub proof fn lemma_overrides_read(file: ConfigView, ev: Seq<(Seq<char>, Seq<char>)>)
    ensures
        overrides_read(ev, file, overridden_config(file, ev)),
{
    let c = overridden_config(file, ev);
    let envw = env_websites(ev);
    let keep = |p: (Seq<char>, WebsiteView)| find_site(file.websites, p.0) is None;
    let added = envw.filter(keep);
    let first = file.websites.map_values(
        |p: (Seq<char>, WebsiteView)|
            match find_site(envw, p.0) {
                Some(w) => (p.0, w),
                None => p,
            },
    );
    assert(c.websites == first + added);
    assert(u16::MAX as nat == 65535);
    assert forall|k: int| 0 <= k < file.websites.len() implies (#[trigger] c.websites[k]).0
        == file.websites[k].0 && match find_site(envw, file.websites[k].0) {
        Some(w) => c.websites[k].1 == w,
        None => c.websites[k] == file.websites[k],
    } by {
        assert(c.websites[k] == first[k]);
    }
    assert forall|j: int| 0 <= j < envw.len() && find_site(file.websites, (#[trigger] envw[j]).0) is None
        implies c.websites.contains(envw[j]) by {
        envw.lemma_filter_contains(keep, j);
        let m = choose|m: int| 0 <= m < added.len() && added[m] == envw[j];
        assert(c.websites[first.len() + m] == added[m]);
    }
}

fn text_or(vars: &Vec<(String, String)>, key: &str, current: String) -> (r: String)
    ensures
        r@ == text_setting(env_view(vars@), key@, current@),
{
    match env_var(vars, &key.to_string()) {
        Some(v) => v.clone(),
        None => current,
    }
}

fn copy_texts(v: &Vec<String>) -> (r: Vec<String>)
    ensures
        strings_view(r@) == strings_view(v@),
{
    let mut out: Vec<String> = Vec::new();
    let mut i: usize = 0;
    while i < v.len()
        invariant
            i <= v.len(),
            strings_view(out@) == strings_view(v@).subrange(0, i as int),
        decreases v.len() - i,
    {
        let ghost old_out = strings_view(out@);
        out.push(v[i].clone());
        assert(strings_view(out@) =~= old_out.push(v@[i as int]@));
        assert(strings_view(v@).subrange(0, i + 1) =~= strings_view(v@).subrange(0, i as int).push(
            v@[i as int]@,
        ));
        i = i + 1;
    }
    assert(strings_view(v@).subrange(0, i as int) =~= strings_view(v@));
    out
}

fn copy_opt_text(o: &Option<String>) -> (r: Option<String>)
    ensures
        opt_view(r) == opt_view(*o),
{
    match o {
        Some(s) => Some(s.clone()),
        None => None,
    }
}

fn copy_site(w: &WebsiteConfig) -> (r: WebsiteConfig)
    ensures
        r@ == w@,
{
    WebsiteConfig {
        id: w.id.clone(),
        name: w.name.clone(),
        base_url: w.base_url.clone(),
        username: w.username.clone(),
        password: w.password.clone(),
        share_id: copy_opt_text(&w.share_id),
        share_url: copy_opt_text(&w.share_url),
        recipients: copy_texts(&w.recipients),
        timezone: w.timezone.clone(),
        disabled: w.disabled,
    }
}

fn site_named<'a>(ws: &'a Vec<(String, WebsiteConfig)>, key: &String) -> (r: Option<&'a WebsiteConfig>)
    ensures
        match r {
            Some(w) => find_site(sites_view(ws@), key@) == Some(w@),
            None => find_site(sites_view(ws@), key@) is None,
        },
{
    let ghost sv = sites_view(ws@);
    assert(sv.subrange(0, sv.len() as int) =~= sv);
    let mut i: usize = 0;
    while i < ws.len()
        invariant
            i <= ws.len(),
            sv == sites_view(ws@),
            find_site(sv, key@) == find_site(sv.subrange(i as int, sv.len() as int), key@),
        decreases ws.len() - i,
    {
        proof {
            let rest = sv.subrange(i as int, sv.len() as int);
            assert(rest[0] == (ws@[i as int].0@, ws@[i as int].1@));
            assert(rest.drop_first() =~= sv.subrange(i + 1, sv.len() as int));
        }
        if ws[i].0 == *key {
            return Some(&ws[i].1);
        }
        i = i + 1;
    }
    None
}

/// Lays the environment's settings over a configuration read from a file:
/// environment variables take precedence over the file's values.
pub fn apply_env_overrides(config: Config, vars: &Vec<(String, String)>) -> (r: Config)
    ensures
        r@ == overridden_config(config@, env_view(vars@)),
        overrides_read(env_view(vars@), config@, r@),
{
    proof {
        lemma_overrides_read(config@, env_view(vars@));
    }
    let ghost ev = env_view(vars@);
    let ghost file = sites_view(config.websites@);
    let env_sites = load_websites_from_env(vars);
    let ghost envw = sites_view(env_sites@);
    let ghost f = |p: (Seq<char>, WebsiteView)|
        match find_site(envw, p.0) {
            Some(w) => (p.0, w),
            None => p,
        };
    let ghost keep = |p: (Seq<char>, WebsiteView)| find_site(file, p.0) is None;
    let mut websites: Vec<(String, WebsiteConfig)> = Vec::new();
    let mut i: usize = 0;
    while i < config.websites.len()
        invariant
            i <= config.websites.len(),
            file == sites_view(config.websites@),
            envw == sites_view(env_sites@),
            f == (|p: (Seq<char>, WebsiteView)|
                match find_site(envw, p.0) {
                    Some(w) => (p.0, w),
                    None => p,
                }),
            sites_view(websites@) == file.subrange(0, i as int).map_values(f),
        decreases config.websites.len() - i,
    {
        let key = &config.websites[i].0;
        let site = match site_named(&env_sites, key) {
            Some(w) => copy_site(w),
            None => copy_site(&config.websites[i].1),
        };
        let ghost old_out = sites_view(websites@);
        let ghost entry = (key@, site@);
        websites.push((key.clone(), site));
        proof {
            assert(file[i as int] == (config.websites@[i as int].0@, config.websites@[i as int].1@));
            assert(f(file[i as int]) == entry);
            assert(sites_view(websites@) =~= old_out.push(entry));
            assert(file.subrange(0, i + 1).map_values(f) =~= file.subrange(0, i as int).map_values(
                f,
            ).push(f(file[i as int])));
        }
        i = i + 1;
    }
    assert(file.subrange(0, i as int) =~= file);
    let ghost first = sites_view(websites@);
    let mut j: usize = 0;
    while j < env_sites.len()
        invariant
            j <= env_sites.len(),
            file == sites_view(config.websites@),
            envw == sites_view(env_sites@),
            keep == (|p: (Seq<char>, WebsiteView)| find_site(file, p.0) is None),
            first == file.map_values(f),
            sites_view(websites@) == first + envw.subrange(0, j as int).filter(keep),
        decreases env_sites.len() - j,
    {
        let ghost old_out = sites_view(websites@);
        proof {
            reveal_with_fuel(Seq::<_>::filter, 1);
            assert(envw.subrange(0, j + 1).drop_last() =~= envw.subrange(0, j as int));
            assert(envw[j as int] == (env_sites@[j as int].0@, env_sites@[j as int].1@));
        }
        if site_named(&config.websites, &env_sites[j].0).is_none() {
            let site = copy_site(&env_sites[j].1);
            websites.push((env_sites[j].0.clone(), site));
            proof {
                assert(sites_view(websites@) =~= old_out.push(envw[j as int]));
            }
        } else {
            proof {
                assert(sites_view(websites@) =~= old_out);
            }
        }
        j = j + 1;
    }
    assert(envw.subrange(0, j as int) =~= envw);
    let port = match env_var(vars, &"SMTP_PORT".to_string()) {
        Some(v) => match parse_unsigned_text(v.as_str(), u16::MAX as u64) {
            Some(p) => p as u16,
            None => config.smtp.port,
        },
        None => config.smtp.port,
    };
    let r = Config {
        smtp: SmtpConfig {
            host: text_or(vars, "SMTP_HOST", config.smtp.host),
            port,
            username: text_or(vars, "SMTP_USERNAME", config.smtp.username),
            password: text_or(vars, "SMTP_PASSWORD", config.smtp.password),
            from: text_or(vars, "SMTP_FROM", config.smtp.from),
            tls: parse_bool_env(vars, "SMTP_TLS", config.smtp.tls),
            timeout_seconds: config.smtp.timeout_seconds,
            skip_verify: parse_bool_env(vars, "SMTP_SKIP_TLS_VERIFY", config.smtp.skip_verify),
        },
        websites,
        app: AppConfig {
            debug: parse_bool_env(vars, "APP_DEBUG", config.app.debug),
            dry_run: parse_bool_env(vars, "APP_DRY_RUN", config.app.dry_run),
            max_concurrent_jobs: parse_usize_env(
                vars,
                "APP_MAX_CONCURRENT_JOBS",
                config.app.max_concurrent_jobs,
            ),
            report_type: parse_report_type_env(vars, "APP_REPORT_TYPE", config.app.report_type),
        },
    };
    r
}

// ---------------------------------------------------------------------------
// Laws of the website scan
// ---------------------------------------------------------------------------

proof fn lemma_env_get_found(ev: Seq<(Seq<char>, Seq<char>)>, key: Seq<char>)
    requires
        env_get(ev, key) is Some,
    ensures
        exists|k: int| 0 <= k < ev.len() && (#[trigger] ev[k]).0 == key,
    decreases ev.len(),
{
    if ev[0].0 != key {
        lemma_env_get_found(ev.drop_first(), key);
        let k = choose|k: int| 0 <= k < ev.len() - 1 && (#[trigger] ev.drop_first()[k]).0 == key;
        assert(ev[k + 1] == ev.drop_first()[k]);
    }
}

proof fn lemma_site_key_injective(a: nat, b: nat, field: Seq<char>)
    requires
        site_key(a, field) == site_key(b, field),
    ensures
        a == b,
{
    reveal_strlit("APP_WEBSITE_");
    let p = "APP_WEBSITE_"@;
    let ka = site_key(a, field);
    let kb = site_key(b, field);
    assert(ka.len() == p.len() + decimal(a).len() + "_"@.len() + field.len());
    assert(kb.len() == p.len() + decimal(b).len() + "_"@.len() + field.len());
    assert(decimal(a).len() == decimal(b).len());
    assert(decimal(a) =~= ka.subrange(p.len() as int, (p.len() + decimal(a).len()) as int));
    assert(decimal(b) =~= kb.subrange(p.len() as int, (p.len() + decimal(b).len()) as int));
    lemma_decimal_injective(a, b);
}

proof fn lemma_site_config_name_injective(a: nat, b: nat)
    requires
        site_config_name(a) == site_config_name(b),
    ensures
        a == b,
{
    reveal_strlit("website_");
    let p = "website_"@;
    assert(decimal(a) =~= site_config_name(a).subrange(p.len() as int, site_config_name(a).len() as int));
    assert(decimal(b) =~= site_config_name(b).subrange(p.len() as int, site_config_name(b).len() as int));
    lemma_decimal_injective(a, b);
}

/// Where website numbers 1 to `i` all have a name, there are at least `i`
/// environment entries: the names are distinct variables. So the scan of
/// websites always stops at a number without a name, never for want of
/// entries.
pub proof fn lemma_site_scan_bounded(ev: Seq<(Seq<char>, Seq<char>)>, i: nat)
    requires
        forall|j: nat| 1 <= j <= i ==> #[trigger] site_name(ev, j) is Some,
    ensures
        i <= ev.len(),
{
    let nums = vstd::set_lib::set_int_range(1, (i + 1) as int);
    vstd::set_lib::lemma_int_range(1, (i + 1) as int);
    let f = |j: int|
        choose|k: int| 0 <= k < ev.len() && (#[trigger] ev[k]).0 == site_key(j as nat, "NAME"@);
    assert forall|j: int| nums.contains(j) implies 0 <= f(j) < ev.len() && (#[trigger] ev[f(j)]).0
        == site_key(j as nat, "NAME"@) by {
        assert(site_name(ev, j as nat) is Some);
        lemma_env_get_found(ev, site_key(j as nat, "NAME"@));
    }
    assert(vstd::relations::injective_on(f, nums)) by {
        assert forall|a: int, b: int| nums.contains(a) && nums.contains(b) && #[trigger] f(a) == #[trigger] f(
            b,
        ) implies a == b by {
            assert(ev[f(a)].0 == site_key(a as nat, "NAME"@));
            assert(ev[f(b)].0 == site_key(b as nat, "NAME"@));
            lemma_site_key_injective(a as nat, b as nat, "NAME"@);
        }
    }
    let found = nums.map(f);
    vstd::set_lib::lemma_map_size(nums, found, f);
    let slots = vstd::set_lib::set_int_range(0, ev.len() as int);
    vstd::set_lib::lemma_int_range(0, ev.len() as int);
    assert(found.subset_of(slots)) by {
        assert forall|k: int| found.contains(k) implies slots.contains(k) by {
            let j = choose|j: int| nums.contains(j) && f(j) == k;
            assert(ev[f(j)].0 == site_key(j as nat, "NAME"@));
        }
    }
    vstd::set_lib::lemma_len_subset(found, slots);
}

/// The website number a configuration name was made from is at least `i`.
pub open spec fn numbered_from(name: Seq<char>, i: nat) -> bool {
    exists|j: nat| j >= i && name == #[trigger] site_config_name(j)
}

proof fn lemma_sites_from_shape(ev: Seq<(Seq<char>, Seq<char>)>, i: nat)
    ensures
        names_distinct(sites_from(ev, i)),
        forall|k: int|
            0 <= k < sites_from(ev, i).len() ==> {
                let e = #[trigger] sites_from(ev, i)[k];
                &&& numbered_from(e.0, i)
                &&& !e.1.disabled
                &&& e.1.name.len() > 0
                &&& e.1.recipients.len() >= 1
                &&& e.1.timezone.len() > 0
                &&& e.1.share_id matches Some(id) ==> id.len() > 0
            },
    decreases ev.len() + 1 - i,
{
    if i == 0 || i > ev.len() || site_name(ev, i) is None {
    } else {
        lemma_sites_from_shape(ev, i + 1);
        let rest = sites_from(ev, i + 1);
        let s = sites_from(ev, i);
        assert forall|k: int| 0 <= k < rest.len() implies numbered_from((#[trigger] rest[k]).0, i) by {
            let j = choose|j: nat| j >= i + 1 && rest[k].0 == #[trigger] site_config_name(j);
        }
        match site_entry(ev, i, site_name(ev, i)->0) {
            Some(e) => {
                assert(s == seq![e] + rest);
                let raw = or_empty(env_get(ev, site_key(i, "RECIPIENTS"@)));
                lemma_split_on_nonempty(raw, ',');
                reveal_strlit("UTC");
                assert(e.0 == site_config_name(i));
                assert forall|k: int| 0 <= k < s.len() implies {
                    let x = #[trigger] s[k];
                    &&& numbered_from(x.0, i)
                    &&& !x.1.disabled
                    &&& x.1.name.len() > 0
                    &&& x.1.recipients.len() >= 1
                    &&& x.1.timezone.len() > 0
                    &&& x.1.share_id matches Some(id) ==> id.len() > 0
                } by {
                    if k == 0 {
                        assert(s[0] == e);
                    } else {
                        assert(s[k] == rest[k - 1]);
                    }
                }
                assert forall|a: int, b: int| 0 <= a < b < s.len() implies #[trigger] s[a].0
                    != #[trigger] s[b].0 by {
                    assert(s[b] == rest[b - 1]);
                    if a == 0 {
                        let j = choose|j: nat| j >= i + 1 && rest[b - 1].0 == #[trigger] site_config_name(j);
                        if s[a].0 == s[b].0 {
                            lemma_site_config_name_injective(i, j);
                        }
                    } else {
                        assert(s[a] == rest[a - 1]);
                    }
                }
            },
            None => {
                assert(s == rest);
            },
        }
    }
}

/// The websites read from the environment have distinct configuration
/// names, and each is enabled, named, has at least one recipient and a
/// time zone, and has no share ID or a non-empty one (an empty `SHARE_ID`
/// counts as unset).
pub proof fn lemma_env_websites_well_formed(ev: Seq<(Seq<char>, Seq<char>)>)
    ensures
        names_distinct(env_websites(ev)),
        forall|k: int|
            0 <= k < env_websites(ev).len() ==> {
                let w = (#[trigger] env_websites(ev)[k]).1;
                &&& !w.disabled
                &&& w.name.len() > 0
                &&& w.recipients.len() >= 1
                &&& w.timezone.len() > 0
                &&& w.share_id matches Some(id) ==> id.len() > 0
            },
{
    lemma_sites_from_shape(ev, 1);
}

/// Every website number from 1 to `i` has a name.
pub open spec fn named_through(ev: Seq<(Seq<char>, Seq<char>)>, i: nat) -> bool {
    forall|j: nat| 1 <= j <= i ==> #[trigger] site_name(ev, j) is Some
}

/// The website with the given number is not disabled and has recipients.
pub open spec fn site_kept(ev: Seq<(Seq<char>, Seq<char>)>, i: nat) -> bool {
    !bool_setting(ev, site_key(i, "DISABLED"@), false) && or_empty(
        env_get(ev, site_key(i, "RECIPIENTS"@)),
    ).len() > 0
}

proof fn lemma_site_entry_key(ev: Seq<(Seq<char>, Seq<char>)>, i: nat, name: Seq<char>)
    ensures
        site_entry(ev, i, name) is Some <==> site_kept(ev, i),
        site_entry(ev, i, name) matches Some(e) ==> e.0 == site_config_name(i),
{
}

#[verifier::spinoff_prover]
#[verifier::rlimit(50)]
proof fn lemma_sites_from_keys(ev: Seq<(Seq<char>, Seq<char>)>, i: nat)
    requires
        i >= 1,
        named_through(ev, (i - 1) as nat),
    ensures
        forall|k: int|
            0 <= k < sites_from(ev, i).len() ==> exists|j: nat|
                j >= i && named_through(ev, j) && site_kept(ev, j) && (#[trigger] sites_from(ev, i)[k]).0
                    == #[trigger] site_config_name(j),
        forall|j: nat|
            j >= i && named_through(ev, j) && #[trigger] site_kept(ev, j) ==> exists|k: int|
                0 <= k < sites_from(ev, i).len() && (#[trigger] sites_from(ev, i)[k]).0
                    == site_config_name(j),
    decreases ev.len() + 1 - i,
{
    let s = sites_from(ev, i);
    if i > ev.len() || site_name(ev, i) is None {
        assert(s.len() == 0);
        assert forall|j: nat| j >= i && named_through(ev, j) && #[trigger] site_kept(ev, j) implies exists|k: int|
            0 <= k < s.len() && (#[trigger] s[k]).0 == site_config_name(j) by {
            assert(site_name(ev, i) is Some);
            lemma_site_scan_bounded(ev, j);
        }
    } else {
        assert(named_through(ev, i)) by {
            assert forall|j: nat| 1 <= j <= i implies #[trigger] site_name(ev, j) is Some by {
                if j < i {
                    assert(site_name(ev, j) is Some);
                }
            }
        }
        lemma_sites_from_keys(ev, i + 1);
        let rest = sites_from(ev, i + 1);
        let name = site_name(ev, i)->0;
        lemma_site_entry_key(ev, i, name);
        match site_entry(ev, i, name) {
            Some(e) => {
                assert(s == seq![e] + rest);
                assert forall|k: int| 0 <= k < s.len() implies exists|j: nat|
                    j >= i && named_through(ev, j) && site_kept(ev, j) && (#[trigger] s[k]).0
                        == #[trigger] site_config_name(j) by {
                    if k == 0 {
                        assert(s[0] == e);
                        assert(site_config_name(i) == e.0);
                    } else {
                        assert(s[k] == rest[k - 1]);
                        let j = choose|j: nat|
                            j >= i + 1 && named_through(ev, j) && site_kept(ev, j) && (#[trigger] rest[k - 1]).0
                                == #[trigger] site_config_name(j);
                        assert(site_config_name(j) == s[k].0);
                    }
                }
                assert forall|j: nat| j >= i && named_through(ev, j) && #[trigger] site_kept(ev, j) implies exists|k: int|
                    0 <= k < s.len() && (#[trigger] s[k]).0 == site_config_name(j) by {
                    if j == i {
                        assert(s[0] == e);
                    } else {
                        let k = choose|k: int|
                            0 <= k < rest.len() && (#[trigger] rest[k]).0 == site_config_name(j);
                        assert(s[k + 1] == rest[k]);
                    }
                }
            },
            None => {
                assert(s == rest);
                assert forall|k: int| 0 <= k < s.len() implies exists|j: nat|
                    j >= i && named_through(ev, j) && site_kept(ev, j) && (#[trigger] s[k]).0
                        == #[trigger] site_config_name(j) by {
                    let j = choose|j: nat|
                        j >= i + 1 && named_through(ev, j) && site_kept(ev, j) && (#[trigger] rest[k]).0
                            == #[trigger] site_config_name(j);
                    assert(site_config_name(j) == s[k].0);
                }
                assert forall|j: nat| j >= i && named_through(ev, j) && #[trigger] site_kept(ev, j) implies exists|k: int|
                    0 <= k < s.len() && (#[trigger] s[k]).0 == site_config_name(j) by {
                    assert(j != i);
                    let k = choose|k: int|
                        0 <= k < rest.len() && (#[trigger] rest[k]).0 == site_config_name(j);
                    assert(s[k] == rest[k]);
                }
            },
        }
    }
}

/// The websites read from the environment are exactly those numbered 1, 2,
/// ... before the first number whose NAME is unset or empty, less those
/// that are disabled or have no recipients: the one numbered `i` under the
/// key `website_i`, enabled. Nothing past that first gap is read.
pub proof fn lemma_env_website_keys(ev: Seq<(Seq<char>, Seq<char>)>)
    ensures
        forall|k: int|
            0 <= k < env_websites(ev).len() ==> !(#[trigger] env_websites(ev)[k]).1.disabled && exists|i: nat|
                i >= 1 && named_through(ev, i) && site_kept(ev, i) && env_websites(ev)[k].0
                    == #[trigger] site_config_name(i),
        forall|i: nat|
            i >= 1 && named_through(ev, i) && #[trigger] site_kept(ev, i) ==> exists|k: int|
                0 <= k < env_websites(ev).len() && (#[trigger] env_websites(ev)[k]).0
                    == site_config_name(i),
{
    lemma_sites_from_keys(ev, 1);
    lemma_sites_from_shape(ev, 1);
    assert forall|k: int| 0 <= k < env_websites(ev).len() implies !(#[trigger] env_websites(ev)[k]).1.disabled
        && exists|i: nat|
        i >= 1 && named_through(ev, i) && site_kept(ev, i) && env_websites(ev)[k].0
            == #[trigger] site_config_name(i) by {
        assert(sites_from(ev, 1)[k] == env_websites(ev)[k]);
    }
}

} // verus!
