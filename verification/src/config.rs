use vstd::prelude::*;

use crate::api::{strip_trailing, strip_trailing_slashes};
use crate::error::{config_outcome, outcome, AppError};
use crate::text::{contains_char, strings_view};
use crate::time::{check_timezone, known_timezone};

verus! {

broadcast use vstd::string::group_string_axioms;

/// How much time one report covers.
#[derive(Clone, Copy, Debug, PartialEq, Eq, Structural)]
pub enum ReportType {
    Daily,
    Weekly,
}

impl ReportType {
    /// The name shown in report subjects.
    pub open spec fn label(self) -> Seq<char> {
        match self {
            ReportType::Daily => "Daily"@,
            ReportType::Weekly => "Weekly"@,
        }
    }

    /// The name shown in report subjects: `Daily` or `Weekly`.
    pub fn to_string(&self) -> (r: String)
        ensures
            r@ == self.label(),
            *self == ReportType::Daily ==> r@ == "Daily"@,
            *self == ReportType::Weekly ==> r@ == "Weekly"@,
    {
        match self {
            ReportType::Daily => "Daily".to_string(),
            ReportType::Weekly => "Weekly".to_string(),
        }
    }
}

/// Settings of the run as a whole.
#[derive(Clone, Copy, Debug, PartialEq, Eq, Structural)]
pub struct AppConfig {
    pub debug: bool,
    pub dry_run: bool,
    pub max_concurrent_jobs: usize,
    pub report_type: ReportType,
}

/// The number of websites processed at once when nothing else is set.
pub fn default_max_concurrent_jobs() -> (n: usize)
    ensures
        n == 4,
{
    4
}

/// The report kind when nothing else is set.
pub fn default_report_type() -> (t: ReportType)
    ensures
        t == ReportType::Daily,
{
    ReportType::Daily
}

/// The SMTP timeout in seconds when nothing else is set.
pub fn default_timeout() -> (t: u64)
    ensures
        t == 30,
{
    30
}

/// Whether SMTP uses TLS when nothing else is set.
pub fn default_tls() -> (b: bool)
    ensures
        b,
{
    true
}

/// A website's time zone when nothing else is set.
pub fn default_timezone() -> (tz: String)
    ensures
        tz@ == "UTC"@,
{
    "UTC".to_string()
}

impl Default for AppConfig {
    fn default() -> (c: AppConfig)
        ensures
            c == (AppConfig {
                debug: false,
                dry_run: false,
                max_concurrent_jobs: 4,
                report_type: ReportType::Daily,
            }),
    {
        AppConfig {
            debug: false,
            dry_run: false,
            max_concurrent_jobs: default_max_concurrent_jobs(),
            report_type: default_report_type(),
        }
    }
}

/// The mail server the reports are sent through.
#[derive(Clone, Debug)]
pub struct SmtpConfig {
    pub host: String,
    pub port: u16,
    pub username: String,
    pub password: String,
    pub from: String,
    pub tls: bool,
    pub timeout_seconds: u64,
    pub skip_verify: bool,
}

pub struct SmtpView {
    pub host: Seq<char>,
    pub port: u16,
    pub username: Seq<char>,
    pub password: Seq<char>,
    pub from: Seq<char>,
    pub tls: bool,
    pub timeout_seconds: u64,
    pub skip_verify: bool,
}

impl View for SmtpConfig {
    type V = SmtpView;

    open spec fn view(&self) -> SmtpView {
        SmtpView {
            host: self.host@,
            port: self.port,
            username: self.username@,
            password: self.password@,
            from: self.from@,
            tls: self.tls,
            timeout_seconds: self.timeout_seconds,
            skip_verify: self.skip_verify,
        }
    }
}

/// One website whose analytics are reported.
#[derive(Clone, Debug)]
pub struct WebsiteConfig {
    pub id: String,
    pub name: String,
    pub base_url: String,
    pub username: String,
    pub password: String,
    pub share_id: Option<String>,
    pub share_url: Option<String>,
    pub recipients: Vec<String>,
    pub timezone: String,
    pub disabled: bool,
}

pub struct WebsiteView {
    pub id: Seq<char>,
    pub name: Seq<char>,
    pub base_url: Seq<char>,
    pub username: Seq<char>,
    pub password: Seq<char>,
    pub share_id: Option<Seq<char>>,
    pub share_url: Option<Seq<char>>,
    pub recipients: Seq<Seq<char>>,
    pub timezone: Seq<char>,
    pub disabled: bool,
}

pub open spec fn opt_view(o: Option<String>) -> Option<Seq<char>> {
    match o {
        Some(s) => Some(s@),
        None => None,
    }
}


impl View for WebsiteConfig {
    type V = WebsiteView;

    open spec fn view(&self) -> WebsiteView {
        WebsiteView {
            id: self.id@,
            name: self.name@,
            base_url: self.base_url@,
            username: self.username@,
            password: self.password@,
            share_id: opt_view(self.share_id),
            share_url: opt_view(self.share_url),
            recipients: strings_view(self.recipients@),
            timezone: self.timezone@,
            disabled: self.disabled,
        }
    }
}

/// The whole configuration: the mail server, the websites by their
/// configuration names, and the run settings.
#[derive(Clone, Debug)]
pub struct Config {
    pub smtp: SmtpConfig,
    pub websites: Vec<(String, WebsiteConfig)>,
    pub app: AppConfig,
}

pub struct ConfigView {
    pub smtp: SmtpView,
    pub websites: Seq<(Seq<char>, WebsiteView)>,
    pub app: AppConfig,
}

pub open spec fn sites_view(ws: Seq<(String, WebsiteConfig)>) -> Seq<(Seq<char>, WebsiteView)> {
    ws.map_values(|p: (String, WebsiteConfig)| (p.0@, p.1@))
}

impl View for Config {
    type V = ConfigView;

    open spec fn view(&self) -> ConfigView {
        ConfigView { smtp: self.smtp@, websites: sites_view(self.websites@), app: self.app }
    }
}

/// No configuration name occurs twice among the websites.
pub open spec fn names_distinct(ws: Seq<(Seq<char>, WebsiteView)>) -> bool {
    forall|i: int, j: int| 0 <= i < j < ws.len() ==> #[trigger] ws[i].0 != #[trigger] ws[j].0
}

// ---------------------------------------------------------------------------
// What makes a configuration acceptable
// ---------------------------------------------------------------------------

/// The first problem with the mail server settings, if any.
pub open spec fn smtp_problem(s: SmtpView) -> Option<Seq<char>> {
    if s.host.len() == 0 {
        Some("SMTP host cannot be empty"@)
    } else if s.port == 0 {
        Some("Invalid SMTP port"@)
    } else if s.username.len() == 0 {
        Some("SMTP username cannot be empty"@)
    } else if s.password.len() == 0 {
        Some("SMTP password cannot be empty"@)
    } else if !s.from.contains('@') {
        Some("Invalid SMTP from address"@)
    } else {
        None
    }
}

/// The first recipient that is no mail address (it has no `@`), if any.
pub open spec fn first_bad_recipient(rs: Seq<Seq<char>>) -> Option<Seq<char>>
    decreases rs.len(),
{
    if rs.len() == 0 {
        None
    } else if !rs[0].contains('@') {
        Some(rs[0])
    } else {
        first_bad_recipient(rs.drop_first())
    }
}

// ---------------------------------------------------------------------------
// Share URLs
// ---------------------------------------------------------------------------

/// The first position from `i` on where `pat` occurs in `s`, if any.
pub open spec fn find_from(s: Seq<char>, pat: Seq<char>, i: int) -> Option<int>
    decreases s.len() - i,
{
    if i < 0 || i >= s.len() || i + pat.len() > s.len() {
        None
    } else if s.subrange(i, i + pat.len()) == pat {
        Some(i)
    } else {
        find_from(s, pat, i + 1)
    }
}

/// What a share URL such as `https://umami.example.com/share/xxxxx` gives:
/// the server's address (the part before the first `/share/`) and the share
/// ID (the part after it, trailing slashes dropped), or the message of what
/// is wrong with it. The URL is invalid when either part is empty or the ID
/// holds a further `/`.
pub open spec fn share_url_parts(url: Seq<char>) -> Result<(Seq<char>, Seq<char>), Seq<char>> {
    match find_from(url, "/share/"@, 0) {
        None => Err("share URL missing /share/ path: "@ + url),
        Some(k) => {
            let base = url.subrange(0, k);
            let id = strip_trailing(url.subrange(k + "/share/"@.len(), url.len() as int), '/');
            if base.len() == 0 || id.len() == 0 || id.contains('/') {
                Err("Invalid share URL: "@ + url)
            } else {
                Ok((base, id))
            }
        }
    }
}

/// The server address and share ID a share URL gives, if it is set and
/// valid.
pub open spec fn share_parts(share_url: Option<Seq<char>>) -> Option<(Seq<char>, Seq<char>)> {
    match share_url {
        Some(u) => match share_url_parts(u) {
            Ok(p) => Some(p),
            Err(_) => None,
        },
        None => None,
    }
}

/// What is wrong with a website's share URL, if it is set and invalid.
pub open spec fn share_url_problem(share_url: Option<Seq<char>>) -> Option<Seq<char>> {
    match share_url {
        Some(u) => match share_url_parts(u) {
            Ok(_) => None,
            Err(m) => Some(m),
        },
        None => None,
    }
}

/// Splits a share URL into the server's address and the share ID, or gives
/// the message of what is wrong with it: "share URL missing /share/ path: "
/// or "Invalid share URL: ", each followed by the URL.
pub fn split_share_url(url: &str) -> (r: Result<(String, String), String>)
    ensures
        match r {
            Ok(p) => share_url_parts(url@) == Ok::<(Seq<char>, Seq<char>), Seq<char>>((p.0@, p.1@)),
            Err(m) => share_url_parts(url@) == Err::<(Seq<char>, Seq<char>), Seq<char>>(m@),
        },
{
    let ghost marker = "/share/"@;
    proof {
        reveal_strlit("/share/");
    }
    let n = url.unicode_len();
    let m: usize = 7;
    let mut k: usize = 0;
    let mut going = true;
    while going && k < n && n - k >= m
        invariant
            marker == "/share/"@,
            marker.len() == m,
            n == url@.len(),
            k <= n,
            going ==> find_from(url@, marker, 0) == find_from(url@, marker, k as int),
            !going ==> k + m <= n && find_from(url@, marker, 0) == Some(k as int),
        decreases n - k + if going { 1int } else { 0int },
    {
        let piece = url.substring_char(k, k + m).to_string();
        if piece == "/share/".to_string() {
            assert(url@.subrange(k as int, k + m) == marker);
            going = false;
        } else {
            assert(url@.subrange(k as int, k + m) != marker);
            k = k + 1;
        }
    }
    if going {
        assert(find_from(url@, marker, k as int) is None);
        let msg = "share URL missing /share/ path: ".to_string().concat(url);
        return Err(msg);
    }
    let base = url.substring_char(0, k).to_string();
    let rest = url.substring_char(k + m, n);
    let id = strip_trailing_slashes(rest).to_string();
    if base.as_str().is_empty() || id.as_str().is_empty() || contains_char(id.as_str(), '/') {
        let msg = "Invalid share URL: ".to_string().concat(url);
        return Err(msg);
    }
    Ok((base, id))
}

/// The first problem with a website, given what parsing its base URL and its
/// time zone gave (`None` where the parse succeeded, else the parser's
/// message).
pub open spec fn website_problem(
    w: WebsiteView,
    url_error: Option<Seq<char>>,
    timezone_error: Option<Seq<char>>,
) -> Option<Seq<char>> {
    if w.name.len() == 0 {
        Some("Website name cannot be empty"@)
    } else if url_error is Some {
        Some("Invalid base URL "@ + w.base_url + ": "@ + url_error->0)
    } else if w.share_id is Some && w.share_id->0.len() == 0 {
        Some("Share ID cannot be empty"@)
    } else if w.share_id is None && w.id.len() == 0 {
        Some("Website ID cannot be empty when not using share_id"@)
    } else if w.share_id is None && w.username.len() == 0 {
        Some("Username cannot be empty when not using share_id"@)
    } else if w.share_id is None && w.password.len() == 0 {
        Some("Password cannot be empty when not using share_id"@)
    } else if w.recipients.len() == 0 {
        Some("At least one recipient is required"@)
    } else if first_bad_recipient(w.recipients) is Some {
        Some("Invalid email address: "@ + first_bad_recipient(w.recipients)->0)
    } else if timezone_error is Some {
        Some("Invalid timezone "@ + w.timezone + ": "@ + timezone_error->0)
    } else {
        None
    }
}

/// What URL parsing reports for a text: `None` when `url::Url::parse`
/// accepts it, else the text of its error.
pub uninterp spec fn url_parse_error(text: Seq<char>) -> Option<Seq<char>>;

/// What parsing a time zone name reports: `None` for a name of the time zone
/// database, else the parser's message.
pub open spec fn timezone_error(name: Seq<char>) -> Option<Seq<char>> {
    if known_timezone(name) {
        None
    } else {
        Some("failed to parse timezone"@)
    }
}

/// The first problem with a website, its base URL and time zone parsed.
pub open spec fn website_check(w: WebsiteView) -> Option<Seq<char>> {
    website_problem(w, url_parse_error(w.base_url), timezone_error(w.timezone))
}

/// The first problem among the websites that are not disabled, in order.
pub open spec fn first_site_problem(ws: Seq<(Seq<char>, WebsiteView)>) -> Option<Seq<char>>
    decreases ws.len(),
{
    if ws.len() == 0 {
        None
    } else if ws[0].1.disabled {
        first_site_problem(ws.drop_first())
    } else if website_check(ws[0].1) is Some {
        website_check(ws[0].1)
    } else {
        first_site_problem(ws.drop_first())
    }
}

/// Some website is not disabled.
pub open spec fn has_enabled_site(ws: Seq<(Seq<char>, WebsiteView)>) -> bool {
    exists|i: int| 0 <= i < ws.len() && !(#[trigger] ws[i]).1.disabled
}

/// The first problem with a configuration, if any.
pub open spec fn config_problem(c: ConfigView) -> Option<Seq<char>> {
    if smtp_problem(c.smtp) is Some {
        smtp_problem(c.smtp)
    } else if c.websites.len() == 0 {
        Some("No websites configured"@)
    } else if first_site_problem(c.websites) is Some {
        first_site_problem(c.websites)
    } else if !has_enabled_site(c.websites) {
        Some("No enabled websites found"@)
    } else if c.app.max_concurrent_jobs == 0 {
        Some("max_concurrent_jobs must be greater than 0"@)
    } else {
        None
    }
}

proof fn lemma_first_site_problem_none(ws: Seq<(Seq<char>, WebsiteView)>)
    requires
        first_site_problem(ws) is None,
    ensures
        forall|i: int|
            0 <= i < ws.len() && !(#[trigger] ws[i]).1.disabled ==> website_check(ws[i].1) is None,
    decreases ws.len(),
{
    if ws.len() > 0 {
        lemma_first_site_problem_none(ws.drop_first());
        assert forall|i: int| 0 < i < ws.len() implies #[trigger] ws[i] == ws.drop_first()[i - 1] by {}
    }
}

/// A configuration that passes validation has valid mail server settings,
/// at least one enabled website, only valid enabled websites (base URL and
/// time zone parsed) and a positive job limit.
pub proof fn lemma_accepted_config(c: ConfigView)
    requires
        config_problem(c) is None,
    ensures
        smtp_problem(c.smtp) is None,
        has_enabled_site(c.websites),
        forall|i: int|
            0 <= i < c.websites.len() && !(#[trigger] c.websites[i]).1.disabled ==> website_check(
                c.websites[i].1,
            ) is None,
        c.app.max_concurrent_jobs > 0,
{
    lemma_first_site_problem_none(c.websites);
}

proof fn lemma_first_site_problem_replace_disabled(
    ws: Seq<(Seq<char>, WebsiteView)>,
    i: int,
    entry: (Seq<char>, WebsiteView),
)
    requires
        0 <= i < ws.len(),
        ws[i].1.disabled,
        entry.1.disabled,
    ensures
        first_site_problem(ws.update(i, entry)) == first_site_problem(ws),
    decreases ws.len(),
{
    let vs = ws.update(i, entry);
    if i > 0 {
        assert(vs.drop_first() =~= ws.drop_first().update(i - 1, entry));
        lemma_first_site_problem_replace_disabled(ws.drop_first(), i - 1, entry);
    } else {
        assert(vs.drop_first() =~= ws.drop_first());
    }
}

/// Disabled websites play no part in validation: replacing one with any
/// other disabled website leaves the verdict unchanged.
pub proof fn lemma_disabled_sites_ignored(c: ConfigView, i: int, entry: (Seq<char>, WebsiteView))
    requires
        0 <= i < c.websites.len(),
        c.websites[i].1.disabled,
        entry.1.disabled,
    ensures
        config_problem(ConfigView { websites: c.websites.update(i, entry), ..c }) == config_problem(c),
{
    let vs = c.websites.update(i, entry);
    lemma_first_site_problem_replace_disabled(c.websites, i, entry);
    if has_enabled_site(vs) {
        let k = choose|k: int| 0 <= k < vs.len() && !(#[trigger] vs[k]).1.disabled;
        assert(c.websites[k] == vs[k]);
    }
    if has_enabled_site(c.websites) {
        let k = choose|k: int| 0 <= k < c.websites.len() && !(#[trigger] c.websites[k]).1.disabled;
        assert(c.websites[k] == vs[k]);
    }
}

/// Parses the text as a URL with `url::Url::parse`; gives `Ok` when it
/// parses and the error's display text otherwise. The parsed URL itself is
/// not kept.
#[verifier::external_body]
fn check_url(text: &str) -> (r: Result<(), String>)
    ensures
        match r {
            Ok(()) => url_parse_error(text@) is None,
            Err(e) => url_parse_error(text@) == Some(e@),
        },
{
    match url::Url::parse(text) {
        Ok(_) => Ok(()),
        Err(e) => Err(e.to_string()),
    }
}

impl SmtpConfig {
    /// Checks the mail server settings.
    pub fn validate(&self) -> (r: Result<(), AppError>)
        ensures
            outcome(r) == config_outcome(smtp_problem(self@)),
    {
        if self.host.as_str().is_empty() {
            return Err(AppError::Config("SMTP host cannot be empty".to_string()));
        }
        if self.port == 0 {
            return Err(AppError::Config("Invalid SMTP port".to_string()));
        }
        if self.username.as_str().is_empty() {
            return Err(AppError::Config("SMTP username cannot be empty".to_string()));
        }
        if self.password.as_str().is_empty() {
            return Err(AppError::Config("SMTP password cannot be empty".to_string()));
        }
        if !contains_char(self.from.as_str(), '@') {
            return Err(AppError::Config("Invalid SMTP from address".to_string()));
        }
        Ok(())
    }
}

impl WebsiteConfig {
    /// Checks the website, given what parsing its base URL and its time zone
    /// reported: `None` where the parse succeeded, else the parser's message.
    #[verifier::loop_isolation(false)]
    pub fn validate_with(&self, url_error: Option<&str>, timezone_error: Option<&str>) -> (r: Result<
        (),
        AppError,
    >)
        ensures
            outcome(r) == config_outcome(
                website_problem(
                    self@,
                    match url_error {
                        Some(e) => Some(e@),
                        None => None,
                    },
                    match timezone_error {
                        Some(e) => Some(e@),
                        None => None,
                    },
                ),
            ),
    {
        if self.name.as_str().is_empty() {
            return Err(AppError::Config("Website name cannot be empty".to_string()));
        }
        if let Some(e) = url_error {
            let msg = "Invalid base URL ".to_string().concat(self.base_url.as_str()).concat(
                ": ",
            ).concat(e);
            return Err(AppError::Config(msg));
        }
        match &self.share_id {
            Some(share_id) => {
                if share_id.as_str().is_empty() {
                    return Err(AppError::Config("Share ID cannot be empty".to_string()));
                }
            },
            None => {
                if self.id.as_str().is_empty() {
                    return Err(
                        AppError::Config(
                            "Website ID cannot be empty when not using share_id".to_string(),
                        ),
                    );
                }
                if self.username.as_str().is_empty() {
                    return Err(
                        AppError::Config(
                            "Username cannot be empty when not using share_id".to_string(),
                        ),
                    );
                }
                if self.password.as_str().is_empty() {
                    return Err(
                        AppError::Config(
                            "Password cannot be empty when not using share_id".to_string(),
                        ),
                    );
                }
            },
        }
        if self.recipients.len() == 0 {
            return Err(AppError::Config("At least one recipient is required".to_string()));
        }
        let ghost rs = strings_view(self.recipients@);
        assert(rs.subrange(0, rs.len() as int) =~= rs);
        let mut i: usize = 0;
        while i < self.recipients.len()
            invariant
                i <= self.recipients.len(),
                rs == strings_view(self.recipients@),
                first_bad_recipient(rs) == first_bad_recipient(rs.subrange(i as int, rs.len() as int)),
            decreases self.recipients.len() - i,
        {
            let recipient = &self.recipients[i];
            proof {
                let rest = rs.subrange(i as int, rs.len() as int);
                assert(rs.len() == self.recipients.len());
                assert(rest.len() > 0);
                assert(rest[0] == recipient@);
                assert(rest.drop_first() =~= rs.subrange(i + 1, rs.len() as int));
            }
            if !contains_char(recipient.as_str(), '@') {
                let msg = "Invalid email address: ".to_string().concat(recipient.as_str());
                proof {
                    let rest = rs.subrange(i as int, rs.len() as int);
                    assert(!rest[0].contains('@'));
                    assert(first_bad_recipient(rest) == Some(recipient@));
                    assert(first_bad_recipient(self@.recipients) == Some(recipient@));
                    assert(msg@ == "Invalid email address: "@ + recipient@);
                }
                return Err(AppError::Config(msg));
            }
            i = i + 1;
        }
        proof {
            assert(rs.subrange(i as int, rs.len() as int) =~= Seq::<Seq<char>>::empty());
        }
        if let Some(e) = timezone_error {
            let msg = "Invalid timezone ".to_string().concat(self.timezone.as_str()).concat(
                ": ",
            ).concat(e);
            return Err(AppError::Config(msg));
        }
        Ok(())
    }

    /// Checks the website: its name, its base URL (with `url`), how it
    /// authenticates (a share ID, or an ID with user name and password), its
    /// recipients and its time zone (with `chrono_tz`).
    pub fn validate(&self) -> (r: Result<(), AppError>)
        ensures
            outcome(r) == config_outcome(website_check(self@)),
    {
        let url_check = check_url(self.base_url.as_str());
        let tz_check = check_timezone(self.timezone.as_str());
        let url_error = match &url_check {
            Ok(()) => None,
            Err(e) => Some(e.as_str()),
        };
        let tz_error = match &tz_check {
            Ok(()) => None,
            Err(e) => Some(e.as_str()),
        };
        self.validate_with(url_error, tz_error)
    }
}

impl Config {
    /// The websites that are not disabled, in configuration order. Where the
    /// configuration names are distinct, so are those handed out.
    pub fn enabled_websites(&self) -> (r: Vec<&(String, WebsiteConfig)>)
        ensures
            r@.map_values(|p: &(String, WebsiteConfig)| *p) == self.websites@.filter(
                |p: (String, WebsiteConfig)| !p.1.disabled,
            ),
            names_distinct(self@.websites) ==> names_distinct(
                sites_view(r@.map_values(|p: &(String, WebsiteConfig)| *p)),
            ),
    {
        let ghost pred = |p: (String, WebsiteConfig)| !p.1.disabled;
        let mut r: Vec<&(String, WebsiteConfig)> = Vec::new();
        let mut i: usize = 0;
        while i < self.websites.len()
            invariant
                i <= self.websites.len(),
                pred == (|p: (String, WebsiteConfig)| !p.1.disabled),
                r@.map_values(|p: &(String, WebsiteConfig)| *p) == self.websites@.subrange(
                    0,
                    i as int,
                ).filter(pred),
                forall|a: int|
                    0 <= a < r.len() ==> exists|k: int|
                        0 <= k < i && *(#[trigger] r@[a]) == self.websites@[k],
                names_distinct(self@.websites) ==> names_distinct(
                    sites_view(r@.map_values(|p: &(String, WebsiteConfig)| *p)),
                ),
            decreases self.websites.len() - i,
        {
            let site = &self.websites[i];
            let ghost old_r = r@;
            proof {
                reveal_with_fuel(Seq::<_>::filter, 1);
                assert(self.websites@.subrange(0, i + 1).drop_last() =~= self.websites@.subrange(
                    0,
                    i as int,
                ));
            }
            if !site.1.disabled {
                proof {
                    if names_distinct(self@.websites) {
                        assert forall|a: int| 0 <= a < r.len() implies (*r@[a]).0@ != site.0@ by {
                            let k = choose|k: int| 0 <= k < i && *r@[a] == self.websites@[k];
                            assert(self@.websites[k].0 == self.websites@[k].0@);
                            assert(self@.websites[i as int].0 == self.websites@[i as int].0@);
                        }
                    }
                }
                let ghost old_names = sites_view(r@.map_values(|p: &(String, WebsiteConfig)| *p));
                r.push(site);
                proof {
                    let names = sites_view(r@.map_values(|p: &(String, WebsiteConfig)| *p));
                    assert(names =~= old_names.push((site.0@, site.1@)));
                    assert forall|a: int| 0 <= a < r.len() implies exists|k: int|
                        0 <= k < i + 1 && *(#[trigger] r@[a]) == self.websites@[k] by {
                        if a == r.len() - 1 {
                            assert(*r@[a] == self.websites@[i as int]);
                        } else {
                            assert(r@[a] == old_r[a]);
                        }
                    }
                    if names_distinct(self@.websites) {
                        assert forall|x: int, y: int| 0 <= x < y < names.len() implies #[trigger] names[x].0
                            != #[trigger] names[y].0 by {
                            if y == names.len() - 1 {
                                assert(names[x].0 == (*r@[x]).0@);
                            } else {
                                assert(names[x] == old_names[x]);
                                assert(names[y] == old_names[y]);
                            }
                        }
                    }
                }
                assert(r@.map_values(|p: &(String, WebsiteConfig)| *p) =~= old_r.map_values(
                    |p: &(String, WebsiteConfig)| *p,
                ).push(*site));
            }
            i = i + 1;
        }
        assert(self.websites@.subrange(0, i as int) =~= self.websites@);
        r
    }
}

/// Checks a whole configuration: the mail server, that there are websites,
/// every website that is not disabled (in order), that one of them is
/// enabled, and the job limit.
pub fn validate_config(config: &Config) -> (r: Result<(), AppError>)
    ensures
        outcome(r) == config_outcome(config_problem(config@)),
{
    config.smtp.validate()?;
    if config.websites.len() == 0 {
        return Err(AppError::Config("No websites configured".to_string()));
    }
    let ghost ws = sites_view(config.websites@);
    assert(ws.subrange(0, ws.len() as int) =~= ws);
    let mut has_enabled = false;
    let mut i: usize = 0;
    while i < config.websites.len()
        invariant
            i <= config.websites.len(),
            ws == sites_view(config.websites@),
            smtp_problem(config.smtp@) is None,
            first_site_problem(ws) == first_site_problem(ws.subrange(i as int, ws.len() as int)),
            has_enabled <==> exists|k: int| 0 <= k < i && !(#[trigger] ws[k]).1.disabled,
        decreases config.websites.len() - i,
    {
        let website = &config.websites[i].1;
        proof {
            let rest = ws.subrange(i as int, ws.len() as int);
            assert(rest[0] == ws[i as int]);
            assert(rest.drop_first() =~= ws.subrange(i + 1, ws.len() as int));
        }
        if !website.disabled {
            has_enabled = true;
            match website.validate() {
                Ok(()) => {},
                Err(e) => {
                    return Err(e);
                },
            }
        }
        i = i + 1;
    }
    proof {
        assert(ws.subrange(i as int, ws.len() as int) =~= Seq::<(Seq<char>, WebsiteView)>::empty());
    }
    if !has_enabled {
        return Err(AppError::Config("No enabled websites found".to_string()));
    }
    if config.app.max_concurrent_jobs == 0 {
        return Err(AppError::Config("max_concurrent_jobs must be greater than 0".to_string()));
    }
    Ok(())
}

} // verus!
