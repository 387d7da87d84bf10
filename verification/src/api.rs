use vstd::prelude::*;

use crate::config::{opt_view, share_parts, share_url_problem, split_share_url, WebsiteConfig};
use crate::countries::{country_name, get_country_name, CountryMap};
use crate::error::{AppError, ErrorView};
use crate::text::{decimal, decimal_text, int_text, int_text_of, strings_view};

verus! {

broadcast use vstd::string::group_string_axioms;

/// The HTTP client of `reqwest`; requests go through it unchanged.
#[verifier::external_type_specification]
#[verifier::external_body]
pub struct ExHttpClient(reqwest::Client);

/// Seconds an API request may take.
pub const API_TIMEOUT_SECS: u64 = 30;

/// A `reqwest` client together with the request timeout, in seconds, it was
/// built with.
struct BuiltClient {
    client: reqwest::Client,
    timeout_secs: u64,
}

/// Builds a `reqwest::Client` with the given request timeout
/// (`ClientBuilder::timeout`, then `build`). Building can fail (for instance
/// when the TLS backend cannot start); then the error's display text is
/// given. Of a built client only the timeout it was given is stated.
#[verifier::external_body]
fn build_http_client(timeout_secs: u64) -> (r: Result<BuiltClient, String>)
    ensures
        r matches Ok(b) ==> b.timeout_secs == timeout_secs,
{
    match reqwest::Client::builder().timeout(std::time::Duration::from_secs(timeout_secs)).build() {
        Ok(client) => Ok(BuiltClient { client, timeout_secs }),
        Err(e) => Err(e.to_string()),
    }
}

/// The text with every trailing occurrence of the character removed, as
/// `str::trim_end_matches` does with a single character.
pub open spec fn strip_trailing(s: Seq<char>, c: char) -> Seq<char>
    decreases s.len(),
{
    if s.len() > 0 && s.last() == c {
        strip_trailing(s.drop_last(), c)
    } else {
        s
    }
}

proof fn lemma_strip_trailing_take(s: Seq<char>, c: char, j: int)
    requires
        0 <= j <= s.len(),
        forall|k: int| j <= k < s.len() ==> #[trigger] s[k] == c,
    ensures
        strip_trailing(s, c) == strip_trailing(s.subrange(0, j), c),
    decreases s.len() - j,
{
    if j < s.len() {
        assert(s.drop_last().subrange(0, j) =~= s.subrange(0, j));
        lemma_strip_trailing_take(s.drop_last(), c, j);
    } else {
        assert(s.subrange(0, j) =~= s);
    }
}

/// Stripping a trailing character leaves a text that does not end with it,
/// so stripping again changes nothing: a server address normalised once
/// stays as it is.
pub proof fn lemma_strip_trailing_idempotent(s: Seq<char>, c: char)
    ensures
        strip_trailing(s, c).len() == 0 || strip_trailing(s, c).last() != c,
        strip_trailing(strip_trailing(s, c), c) == strip_trailing(s, c),
    decreases s.len(),
{
    if s.len() > 0 && s.last() == c {
        lemma_strip_trailing_idempotent(s.drop_last(), c);
    }
}

/// The text with its trailing slashes removed.
pub fn strip_trailing_slashes(s: &str) -> (r: &str)
    ensures
        r@ == strip_trailing(s@, '/'),
{
    let n = s.unicode_len();
    let mut j: usize = n;
    let mut more = true;
    while more && j > 0
        invariant
            n == s@.len(),
            j <= n,
            forall|k: int| j <= k < n ==> #[trigger] s@[k] == '/',
            !more ==> 0 < j && s@[j - 1] != '/',
        decreases 2 * j + if more { 1int } else { 0int },
    {
        if s.get_char(j - 1) == '/' {
            j = j - 1;
        } else {
            more = false;
        }
    }
    proof {
        lemma_strip_trailing_take(s@, '/', j as int);
        let u = s@.subrange(0, j as int);
        if j > 0 {
            assert(u.last() == s@[j - 1]);
        }
        assert(strip_trailing(u, '/') == u);
    }
    s.substring_char(0, j)
}

/// A client of one Umami server's API.
pub struct UmamiClient {
    http: BuiltClient,
    base_url: String,
}

/// What the share endpoint answers: a token and the shared website's ID.
#[derive(Clone, Debug)]
pub struct ShareResponse {
    pub token: String,
    pub website_id: String,
}

/// The HTTP methods the API is called with.
#[derive(Clone, Copy, Debug, PartialEq, Eq, Structural)]
pub enum HttpMethod {
    Get,
    Post,
}

/// One API call: where it goes, what it sends and how it authenticates.
#[derive(Clone, Debug)]
pub struct ApiRequest {
    pub method: HttpMethod,
    pub url: String,
    pub query: Vec<(String, String)>,
    pub bearer_token: Option<String>,
    pub json_body: Option<String>,
}

pub struct ApiRequestView {
    pub method: HttpMethod,
    pub url: Seq<char>,
    pub query: Seq<(Seq<char>, Seq<char>)>,
    pub bearer_token: Option<Seq<char>>,
    pub json_body: Option<Seq<char>>,
}

impl View for ApiRequest {
    type V = ApiRequestView;

    open spec fn view(&self) -> ApiRequestView {
        ApiRequestView {
            method: self.method,
            url: self.url@,
            query: self.query@.map_values(|p: (String, String)| (p.0@, p.1@)),
            bearer_token: opt_view(self.bearer_token),
            json_body: opt_view(self.json_body),
        }
    }
}

/// A lower-case hexadecimal digit.
pub open spec fn hex_digit(n: int) -> char {
    if n < 10 {
        (48 + n) as char
    } else {
        (87 + n) as char
    }
}

/// How `serde_json` writes one character inside a string: a quote and a
/// backslash behind a backslash, backspace, tab, line feed, form feed and
/// carriage return as `\b`, `\t`, `\n`, `\f`, `\r`, the other control
/// characters below U+0020 as `\u00` and two lower-case hex digits, and
/// every other character as it is.
pub open spec fn json_char_escape(c: char) -> Seq<char> {
    if c == '"' {
        seq!['\\', '"']
    } else if c == '\\' {
        seq!['\\', '\\']
    } else if c == '\u{8}' {
        seq!['\\', 'b']
    } else if c == '\t' {
        seq!['\\', 't']
    } else if c == '\n' {
        seq!['\\', 'n']
    } else if c == '\u{c}' {
        seq!['\\', 'f']
    } else if c == '\r' {
        seq!['\\', 'r']
    } else if (c as int) < 0x20 {
        seq!['\\', 'u', '0', '0', hex_digit((c as int) / 16), hex_digit((c as int) % 16)]
    } else {
        seq![c]
    }
}

/// A text with every character escaped as `serde_json` does.
pub open spec fn json_escaped(s: Seq<char>) -> Seq<char>
    decreases s.len(),
{
    if s.len() == 0 {
        Seq::empty()
    } else {
        json_escaped(s.drop_last()) + json_char_escape(s.last())
    }
}

/// What `serde_json` writes for a string: the escaped text in double
/// quotes.
pub open spec fn json_string_literal(s: Seq<char>) -> Seq<char> {
    seq!['"'] + json_escaped(s) + seq!['"']
}

/// Writes a string as a JSON string with `serde_json::to_string`, which
/// escapes it as `json_string_literal` says. Writing a string into memory
/// cannot fail.
#[verifier::external_body]
fn json_string(s: &str) -> (r: String)
    ensures
        r@ == json_string_literal(s@),
{
    serde_json::to_string(s).unwrap()
}

/// The login request body: a JSON object of the user name and password,
/// keys in `serde_json`'s sorted order.
pub open spec fn login_body(username: Seq<char>, password: Seq<char>) -> Seq<char> {
    "{\"password\":"@ + json_string_literal(password) + ",\"username\":"@ + json_string_literal(
        username,
    ) + "}"@
}

impl UmamiClient {
    /// The server's address, without trailing slashes.
    pub closed spec fn base(&self) -> Seq<char> {
        self.base_url@
    }

    /// The HTTP client the client was made with.
    pub closed spec fn client(&self) -> reqwest::Client {
        self.http.client
    }

    /// The request timeout, in seconds, the HTTP client was built with.
    pub closed spec fn timeout(&self) -> u64 {
        self.http.timeout_secs
    }

    /// Makes a client for the server at the given address; trailing slashes
    /// of the address are dropped, and requests time out after
    /// `API_TIMEOUT_SECS` seconds. Fails when the HTTP client cannot be built.
    pub fn new(base_url: String) -> (r: Result<UmamiClient, AppError>)
        ensures
            r matches Ok(c) ==> c.base() == strip_trailing(base_url@, '/'),
            r matches Ok(c) ==> c.timeout() == API_TIMEOUT_SECS,
            r matches Err(e) ==> exists|d: Seq<char>|
                e@ == ErrorView::Api("Failed to create HTTP client: "@ + d),
    {
        let http = match build_http_client(API_TIMEOUT_SECS) {
            Ok(c) => c,
            Err(e) => {
                let msg = "Failed to create HTTP client: ".to_string().concat(e.as_str());
                return Err(AppError::Api(msg));
            },
        };
        let base_url = strip_trailing_slashes(base_url.as_str()).to_string();
        Ok(UmamiClient { http, base_url })
    }

    /// The server's address, without trailing slashes.
    pub fn base_url(&self) -> (r: &str)
        ensures
            r@ == self.base(),
    {
        self.base_url.as_str()
    }

    /// The HTTP client requests are sent with: the one the client was made
    /// with.
    pub fn http(&self) -> (r: &reqwest::Client)
        ensures
            *r == self.client(),
    {
        &self.http.client
    }

    /// The login request for a user name and password.
    pub fn login_request(&self, username: &str, password: &str) -> (r: ApiRequest)
        ensures
            r@ == (ApiRequestView {
                method: HttpMethod::Post,
                url: self.base() + "/api/auth/login"@,
                query: Seq::empty(),
                bearer_token: None,
                json_body: Some(login_body(username@, password@)),
            }),
    {
        let body = "{\"password\":".to_string().concat(json_string(password).as_str()).concat(
            ",\"username\":",
        ).concat(json_string(username).as_str()).concat("}");
        let r = ApiRequest {
            method: HttpMethod::Post,
            url: self.base_url.clone().concat("/api/auth/login"),
            query: Vec::new(),
            bearer_token: None,
            json_body: Some(body),
        };
        assert(r@.query =~= Seq::<(Seq<char>, Seq<char>)>::empty());
        r
    }

    /// The request that exchanges a share ID for a token and a website ID.
    pub fn share_request(&self, share_id: &str) -> (r: ApiRequest)
        ensures
            r@ == (ApiRequestView {
                method: HttpMethod::Get,
                url: self.base() + "/api/share/"@ + share_id@,
                query: Seq::empty(),
                bearer_token: None,
                json_body: None,
            }),
    {
        let r = ApiRequest {
            method: HttpMethod::Get,
            url: self.base_url.clone().concat("/api/share/").concat(share_id),
            query: Vec::new(),
            bearer_token: None,
            json_body: None,
        };
        assert(r@.query =~= Seq::<(Seq<char>, Seq<char>)>::empty());
        r
    }

    /// The request for a website's summary statistics between two instants
    /// (milliseconds since the Unix epoch).
    pub fn stats_request(&self, token: &str, website_id: &str, start_at: i64, end_at: i64) -> (r:
        ApiRequest)
        ensures
            r@ == (ApiRequestView {
                method: HttpMethod::Get,
                url: self.base() + "/api/websites/"@ + website_id@ + "/stats"@,
                query: seq![
                    ("startAt"@, int_text(start_at as int)),
                    ("endAt"@, int_text(end_at as int)),
                ],
                bearer_token: Some(token@),
                json_body: None,
            }),
    {
        let mut query: Vec<(String, String)> = Vec::new();
        query.push(("startAt".to_string(), int_text_of(start_at)));
        query.push(("endAt".to_string(), int_text_of(end_at)));
        let r = ApiRequest {
            method: HttpMethod::Get,
            url: self.base_url.clone().concat("/api/websites/").concat(website_id).concat("/stats"),
            query,
            bearer_token: Some(token.to_string()),
            json_body: None,
        };
        assert(r@.query =~= seq![
            ("startAt"@, int_text(start_at as int)),
            ("endAt"@, int_text(end_at as int)),
        ]);
        r
    }

    /// The request for a website's top values of one metric (such as `url`
    /// or `country`) between two instants, at most `limit` of them.
    pub fn metrics_request(
        &self,
        token: &str,
        website_id: &str,
        metric_type: &str,
        start_at: i64,
        end_at: i64,
        limit: u32,
    ) -> (r: ApiRequest)
        ensures
            r@ == (ApiRequestView {
                method: HttpMethod::Get,
                url: self.base() + "/api/websites/"@ + website_id@ + "/metrics"@,
                query: seq![
                    ("type"@, metric_type@),
                    ("startAt"@, int_text(start_at as int)),
                    ("endAt"@, int_text(end_at as int)),
                    ("limit"@, decimal(limit as nat)),
                ],
                bearer_token: Some(token@),
                json_body: None,
            }),
    {
        let mut query: Vec<(String, String)> = Vec::new();
        query.push(("type".to_string(), metric_type.to_string()));
        query.push(("startAt".to_string(), int_text_of(start_at)));
        query.push(("endAt".to_string(), int_text_of(end_at)));
        query.push(("limit".to_string(), decimal_text(limit as u64)));
        let r = ApiRequest {
            method: HttpMethod::Get,
            url: self.base_url.clone().concat("/api/websites/").concat(website_id).concat(
                "/metrics",
            ),
            query,
            bearer_token: Some(token.to_string()),
            json_body: None,
        };
        assert(r@.query =~= seq![
            ("type"@, metric_type@),
            ("startAt"@, int_text(start_at as int)),
            ("endAt"@, int_text(end_at as int)),
            ("limit"@, decimal(limit as nat)),
        ]);
        r
    }
}

// ---------------------------------------------------------------------------
// Responses
// ---------------------------------------------------------------------------

/// The reason phrase the HTTP standard gives a status code, if any.
pub uninterp spec fn canonical_reason(code: int) -> Option<Seq<char>>;

/// The standard reason phrase of a status code, with
/// `StatusCode::canonical_reason` (through `reqwest`'s re-export of `http`).
#[verifier::external_body]
fn reason_phrase(code: u16) -> (r: Option<&'static str>)
    requires
        100 <= code <= 999,
    ensures
        match r {
            Some(p) => canonical_reason(code as int) == Some(p@),
            None => canonical_reason(code as int) is None,
        },
{
    reqwest::StatusCode::from_u16(code).unwrap().canonical_reason()
}

/// How a status code is displayed: the number, a space and its reason
/// phrase, or `<unknown status code>` when it has none.
pub open spec fn status_display(code: int) -> Seq<char> {
    decimal(code as nat) + " "@ + match canonical_reason(code) {
        Some(p) => p,
        None => "<unknown status code>"@,
    }
}

/// The display text of an HTTP status code.
pub fn status_text(code: u16) -> (r: String)
    requires
        100 <= code <= 999,
    ensures
        r@ == status_display(code as int),
{
    let reason = match reason_phrase(code) {
        Some(p) => p,
        None => "<unknown status code>",
    };
    decimal_text(code as u64).concat(" ").concat(reason)
}

/// The text of an error response, or "Unknown error" when it could not be
/// read.
pub open spec fn error_detail(text: Option<Seq<char>>) -> Seq<char> {
    match text {
        Some(t) => t,
        None => "Unknown error"@,
    }
}

/// How an API response with the given status is judged: `None` for 200 OK,
/// whose body is then decoded, else the API error to report.
pub open spec fn response_problem(status: int, text: Option<Seq<char>>) -> Option<ErrorView> {
    if status == 200 {
        None
    } else if status == 401 {
        Some(ErrorView::Api("Authentication token expired or invalid"@))
    } else if status == 404 {
        Some(ErrorView::Api("Resource not found"@))
    } else if status == 429 {
        Some(ErrorView::Api("Rate limit exceeded"@))
    } else {
        Some(
            ErrorView::Api(
                "API request failed ("@ + status_display(status) + "): "@ + error_detail(text),
            ),
        )
    }
}

pub open spec fn str_opt_view(o: Option<&str>) -> Option<Seq<char>> {
    match o {
        Some(s) => Some(s@),
        None => None,
    }
}

pub open spec fn error_opt_view(o: Option<AppError>) -> Option<ErrorView> {
    match o {
        Some(e) => Some(e@),
        None => None,
    }
}

/// Whether judging a response with this status reads its body as text.
pub fn needs_error_text(status: u16) -> (r: bool)
    ensures
        r == (status != 200 && status != 401 && status != 404 && status != 429),
{
    status != 200 && status != 401 && status != 404 && status != 429
}

/// Judges an API response by its status; `error_text` is the body's text,
/// or `None` when it could not be read.
pub fn response_error(status: u16, error_text: Option<&str>) -> (r: Option<AppError>)
    requires
        100 <= status <= 999,
    ensures
        error_opt_view(r) == response_problem(status as int, str_opt_view(error_text)),
{
    if status == 200 {
        None
    } else if status == 401 {
        Some(AppError::api("Authentication token expired or invalid"))
    } else if status == 404 {
        Some(AppError::api("Resource not found"))
    } else if status == 429 {
        Some(AppError::api("Rate limit exceeded"))
    } else {
        let detail = match error_text {
            Some(t) => t,
            None => "Unknown error",
        };
        let msg = "API request failed (".to_string().concat(status_text(status).as_str()).concat(
            "): ",
        ).concat(detail);
        Some(AppError::Api(msg))
    }
}

/// How a login response is judged: `None` for 200 OK, whose body then holds
/// the token, else the API error to report.
pub open spec fn login_problem(status: int, text: Option<Seq<char>>) -> Option<ErrorView> {
    if status == 200 {
        None
    } else {
        Some(
            ErrorView::Api(
                "Authentication failed ("@ + status_display(status) + "): "@ + error_detail(text),
            ),
        )
    }
}

/// Judges a login response by its status.
pub fn login_error(status: u16, error_text: Option<&str>) -> (r: Option<AppError>)
    requires
        100 <= status <= 999,
    ensures
        error_opt_view(r) == login_problem(status as int, str_opt_view(error_text)),
{
    if status == 200 {
        None
    } else {
        let detail = match error_text {
            Some(t) => t,
            None => "Unknown error",
        };
        let msg = "Authentication failed (".to_string().concat(status_text(status).as_str()).concat(
            "): ",
        ).concat(detail);
        Some(AppError::Api(msg))
    }
}

/// The error for a login response body that could not be decoded.
pub fn login_decode_error(detail: &str) -> (r: AppError)
    ensures
        r@ == ErrorView::Api("Failed to parse authentication response: "@ + detail@),
{
    AppError::Api("Failed to parse authentication response: ".to_string().concat(detail))
}

/// The error for an API response body that could not be decoded.
pub fn response_decode_error(detail: &str) -> (r: AppError)
    ensures
        r@ == ErrorView::Api("Failed to parse API response: "@ + detail@),
{
    AppError::Api("Failed to parse API response: ".to_string().concat(detail))
}

/// The labels of a metric as reported: country codes become country names,
/// other metrics keep their labels.
pub fn relabel_metrics(metric_type: &str, labels: Vec<String>, countries: &CountryMap) -> (r: Vec<
    String,
>)
    ensures
        strings_view(r@) == if metric_type@ == "country"@ {
            strings_view(labels@).map_values(|c: Seq<char>| country_name(c, countries@))
        } else {
            strings_view(labels@)
        },
{
    if !(metric_type.to_string() == "country".to_string()) {
        return labels;
    }
    let mut out: Vec<String> = Vec::new();
    let mut i: usize = 0;
    while i < labels.len()
        invariant
            i <= labels.len(),
            strings_view(out@) == strings_view(labels@).subrange(0, i as int).map_values(
                |c: Seq<char>| country_name(c, countries@),
            ),
        decreases labels.len() - i,
    {
        let name = get_country_name(labels[i].as_str(), countries);
        let ghost old_out = strings_view(out@);
        out.push(name);
        assert(strings_view(out@) =~= old_out.push(name@));
        assert(strings_view(labels@)[i as int] == labels@[i as int]@);
        assert(strings_view(out@) =~= strings_view(labels@).subrange(0, i + 1).map_values(
            |c: Seq<char>| country_name(c, countries@),
        ));
        i = i + 1;
    }
    assert(strings_view(labels@).subrange(0, i as int) =~= strings_view(labels@));
    out
}

// ---------------------------------------------------------------------------
// Authentication
// ---------------------------------------------------------------------------

/// How a website authenticates: with its share ID, or with a user name and
/// password for its configured website ID.
#[derive(Clone, Debug)]
pub enum AuthPlan {
    Share { share_id: String },
    Password { username: String, password: String, website_id: String },
}

/// Chooses how a website authenticates, for the requests made for it. A
/// share URL, when set, decides: its share ID is used, or, where the URL is
/// invalid, the website fails with the URL's message. Otherwise the share ID
/// is used when there is one, else the user name and password.
pub fn auth_plan(website: &WebsiteConfig) -> (r: Result<AuthPlan, AppError>)
    ensures
        match share_url_problem(website@.share_url) {
            Some(m) => r matches Err(e) && e@ == ErrorView::Config(m),
            None => match share_parts(website@.share_url) {
                Some(p) => r matches Ok(AuthPlan::Share { share_id }) && share_id@ == p.1,
                None => match website.share_id {
                    Some(s) => r matches Ok(AuthPlan::Share { share_id }) && share_id@ == s@,
                    None => r matches Ok(AuthPlan::Password { username, password, website_id })
                        && username@ == website.username@ && password@ == website.password@
                        && website_id@ == website.id@,
                },
            },
        },
{
    if let Some(u) = &website.share_url {
        match split_share_url(u.as_str()) {
            Ok(p) => {
                return Ok(AuthPlan::Share { share_id: p.1 });
            },
            Err(m) => {
                return Err(AppError::Config(m));
            },
        }
    }
    match &website.share_id {
        Some(s) => Ok(AuthPlan::Share { share_id: s.clone() }),
        None => Ok(
            AuthPlan::Password {
                username: website.username.clone(),
                password: website.password.clone(),
                website_id: website.id.clone(),
            },
        ),
    }
}

} // verus!
