use vstd::prelude::*;

verus! {

broadcast use vstd::string::group_string_axioms;

/// Standard I/O failures are carried through unchanged.
#[verifier::external_type_specification]
#[verifier::external_body]
pub struct ExIoError(std::io::Error);

/// JSON decoding failures of `serde_json`.
#[verifier::external_type_specification]
#[verifier::external_body]
pub struct ExJsonError(serde_json::Error);

/// TOML decoding failures of `toml`.
#[verifier::external_type_specification]
#[verifier::external_body]
pub struct ExTomlError(toml::de::Error);

/// HTTP client failures of `reqwest`.
#[verifier::external_type_specification]
#[verifier::external_body]
pub struct ExRequestError(reqwest::Error);

/// Template rendering failures of `handlebars`.
#[verifier::external_type_specification]
#[verifier::external_body]
pub struct ExRenderError(handlebars::RenderError);

/// Template registration failures of `handlebars`.
#[verifier::external_type_specification]
#[verifier::external_body]
pub struct ExTemplateError(handlebars::TemplateError);

/// URL parsing failures of `url`.
#[verifier::external_type_specification]
#[verifier::external_body]
pub struct ExUrlParseError(url::ParseError);

/// Message building failures of `lettre`.
#[verifier::external_type_specification]
#[verifier::external_body]
pub struct ExMessageError(lettre::error::Error);

/// SMTP transport failures of `lettre`.
#[verifier::external_type_specification]
#[verifier::external_body]
pub struct ExSmtpError(lettre::transport::smtp::Error);

/// Address parsing failures of `lettre`.
#[verifier::external_type_specification]
#[verifier::external_body]
pub struct ExAddressError(lettre::address::AddressError);

/// Every failure the application reports.
#[derive(Debug)]
pub enum AppError {
    Io(std::io::Error),
    Config(String),
    Api(String),
    Template(String),
    Smtp(String),
    Json(serde_json::Error),
    Toml(toml::de::Error),
    Request(reqwest::Error),
    Email(String),
    Handlebars(handlebars::RenderError),
    Url(url::ParseError),
    Task(String),
}

/// The mathematical shape of an error: its kind and, for the kinds that
/// carry a message, that message.
pub enum ErrorView {
    Io,
    Config(Seq<char>),
    Api(Seq<char>),
    Template(Seq<char>),
    Smtp(Seq<char>),
    Json,
    Toml,
    Request,
    Email(Seq<char>),
    Handlebars,
    Url,
    Task(Seq<char>),
}

impl View for AppError {
    type V = ErrorView;

    open spec fn view(&self) -> ErrorView {
        match self {
            AppError::Io(_) => ErrorView::Io,
            AppError::Config(m) => ErrorView::Config(m@),
            AppError::Api(m) => ErrorView::Api(m@),
            AppError::Template(m) => ErrorView::Template(m@),
            AppError::Smtp(m) => ErrorView::Smtp(m@),
            AppError::Json(_) => ErrorView::Json,
            AppError::Toml(_) => ErrorView::Toml,
            AppError::Request(_) => ErrorView::Request,
            AppError::Email(m) => ErrorView::Email(m@),
            AppError::Handlebars(_) => ErrorView::Handlebars,
            AppError::Url(_) => ErrorView::Url,
            AppError::Task(m) => ErrorView::Task(m@),
        }
    }
}

/// The result of a check, seen through the error's view.
pub open spec fn outcome<T>(r: Result<T, AppError>) -> Result<T, ErrorView> {
    match r {
        Ok(v) => Ok(v),
        Err(e) => Err(e@),
    }
}

/// A check that fails with a configuration message, or passes.
pub open spec fn config_outcome(problem: Option<Seq<char>>) -> Result<(), ErrorView> {
    match problem {
        Some(m) => Err(ErrorView::Config(m)),
        None => Ok(()),
    }
}

/// The text in front of every error's message, by kind.
pub open spec fn display_prefix(v: ErrorView) -> Seq<char> {
    match v {
        ErrorView::Io => "IO error: "@,
        ErrorView::Config(_) => "Configuration error: "@,
        ErrorView::Api(_) => "API error: "@,
        ErrorView::Template(_) => "Template error: "@,
        ErrorView::Smtp(_) => "SMTP error: "@,
        ErrorView::Json => "JSON error: "@,
        ErrorView::Toml => "TOML error: "@,
        ErrorView::Request => "Request error: "@,
        ErrorView::Email(_) => "Email error: "@,
        ErrorView::Handlebars => "Handlebars error: "@,
        ErrorView::Url => "URL parsing error: "@,
        ErrorView::Task(_) => "Task error: "@,
    }
}

/// The message an error carries itself, for the kinds that carry one.
pub open spec fn own_message(v: ErrorView) -> Option<Seq<char>> {
    match v {
        ErrorView::Config(m) => Some(m),
        ErrorView::Api(m) => Some(m),
        ErrorView::Template(m) => Some(m),
        ErrorView::Smtp(m) => Some(m),
        ErrorView::Email(m) => Some(m),
        ErrorView::Task(m) => Some(m),
        _ => None,
    }
}

impl AppError {
    /// An API error with the given message.
    pub fn api(msg: &str) -> (r: AppError)
        ensures
            r@ == ErrorView::Api(msg@),
    {
        AppError::Api(msg.to_string())
    }

    /// A task error with the given message.
    pub fn task(msg: &str) -> (r: AppError)
        ensures
            r@ == ErrorView::Task(msg@),
    {
        AppError::Task(msg.to_string())
    }

    /// The human-readable text of the error: a prefix naming its kind,
    /// followed by its message.
    pub fn to_string(&self) -> (r: String)
        ensures
            r@.len() >= display_prefix(self@).len(),
            r@.subrange(0, display_prefix(self@).len() as int) == display_prefix(self@),
            own_message(self@) matches Some(m) ==> r@ == display_prefix(self@) + m,
    {
        let (prefix, detail) = match self {
            AppError::Io(e) => ("IO error: ", e.to_string()),
            AppError::Config(m) => ("Configuration error: ", m.clone()),
            AppError::Api(m) => ("API error: ", m.clone()),
            AppError::Template(m) => ("Template error: ", m.clone()),
            AppError::Smtp(m) => ("SMTP error: ", m.clone()),
            AppError::Json(e) => ("JSON error: ", e.to_string()),
            AppError::Toml(e) => ("TOML error: ", e.to_string()),
            AppError::Request(e) => ("Request error: ", e.to_string()),
            AppError::Email(m) => ("Email error: ", m.clone()),
            AppError::Handlebars(e) => ("Handlebars error: ", e.to_string()),
            AppError::Url(e) => ("URL parsing error: ", e.to_string()),
            AppError::Task(m) => ("Task error: ", m.clone()),
        };
        proof {
            assert(prefix@ == display_prefix(self@));
        }
        let r = prefix.to_string().concat(detail.as_str());
        assert(r@.subrange(0, prefix@.len() as int) =~= prefix@);
        r
    }
}

impl From<std::io::Error> for AppError {
    fn from(err: std::io::Error) -> (r: AppError)
        ensures
            r == AppError::Io(err),
    {
        AppError::Io(err)
    }
}

impl vstd::std_specs::convert::FromSpecImpl<std::io::Error> for AppError {
    open spec fn obeys_from_spec() -> bool {
        true
    }

    open spec fn from_spec(err: std::io::Error) -> AppError {
        AppError::Io(err)
    }
}

impl From<reqwest::Error> for AppError {
    fn from(err: reqwest::Error) -> (r: AppError)
        ensures
            r == AppError::Request(err),
    {
        AppError::Request(err)
    }
}

impl vstd::std_specs::convert::FromSpecImpl<reqwest::Error> for AppError {
    open spec fn obeys_from_spec() -> bool {
        true
    }

    open spec fn from_spec(err: reqwest::Error) -> AppError {
        AppError::Request(err)
    }
}

impl From<serde_json::Error> for AppError {
    fn from(err: serde_json::Error) -> (r: AppError)
        ensures
            r == AppError::Json(err),
    {
        AppError::Json(err)
    }
}

impl vstd::std_specs::convert::FromSpecImpl<serde_json::Error> for AppError {
    open spec fn obeys_from_spec() -> bool {
        true
    }

    open spec fn from_spec(err: serde_json::Error) -> AppError {
        AppError::Json(err)
    }
}

impl From<toml::de::Error> for AppError {
    fn from(err: toml::de::Error) -> (r: AppError)
        ensures
            r == AppError::Toml(err),
    {
        AppError::Toml(err)
    }
}

impl vstd::std_specs::convert::FromSpecImpl<toml::de::Error> for AppError {
    open spec fn obeys_from_spec() -> bool {
        true
    }

    open spec fn from_spec(err: toml::de::Error) -> AppError {
        AppError::Toml(err)
    }
}

impl From<url::ParseError> for AppError {
    fn from(err: url::ParseError) -> (r: AppError)
        ensures
            r == AppError::Url(err),
    {
        AppError::Url(err)
    }
}

impl vstd::std_specs::convert::FromSpecImpl<url::ParseError> for AppError {
    open spec fn obeys_from_spec() -> bool {
        true
    }

    open spec fn from_spec(err: url::ParseError) -> AppError {
        AppError::Url(err)
    }
}

impl From<handlebars::RenderError> for AppError {
    fn from(err: handlebars::RenderError) -> (r: AppError)
        ensures
            r == AppError::Handlebars(err),
    {
        AppError::Handlebars(err)
    }
}

impl vstd::std_specs::convert::FromSpecImpl<handlebars::RenderError> for AppError {
    open spec fn obeys_from_spec() -> bool {
        true
    }

    open spec fn from_spec(err: handlebars::RenderError) -> AppError {
        AppError::Handlebars(err)
    }
}

impl From<handlebars::TemplateError> for AppError {
    /// The error's own text becomes the message.
    fn from(err: handlebars::TemplateError) -> (r: AppError)
        ensures
            r is Template,
    {
        AppError::Template(err.to_string())
    }
}

impl vstd::std_specs::convert::FromSpecImpl<handlebars::TemplateError> for AppError {
    /// The message is the outside error's display text, which has no
    /// specification here.
    open spec fn obeys_from_spec() -> bool {
        false
    }

    open spec fn from_spec(err: handlebars::TemplateError) -> AppError {
        vstd::pervasive::arbitrary()
    }
}

impl From<lettre::error::Error> for AppError {
    /// The error's own text becomes the message.
    fn from(err: lettre::error::Error) -> (r: AppError)
        ensures
            r is Smtp,
    {
        AppError::Smtp(err.to_string())
    }
}

impl vstd::std_specs::convert::FromSpecImpl<lettre::error::Error> for AppError {
    /// The message is the outside error's display text, which has no
    /// specification here.
    open spec fn obeys_from_spec() -> bool {
        false
    }

    open spec fn from_spec(err: lettre::error::Error) -> AppError {
        vstd::pervasive::arbitrary()
    }
}

impl From<lettre::transport::smtp::Error> for AppError {
    /// The error's own text becomes the message.
    fn from(err: lettre::transport::smtp::Error) -> (r: AppError)
        ensures
            r is Smtp,
    {
        AppError::Smtp(err.to_string())
    }
}

impl vstd::std_specs::convert::FromSpecImpl<lettre::transport::smtp::Error> for AppError {
    /// The message is the outside error's display text, which has no
    /// specification here.
    open spec fn obeys_from_spec() -> bool {
        false
    }

    open spec fn from_spec(err: lettre::transport::smtp::Error) -> AppError {
        vstd::pervasive::arbitrary()
    }
}

impl From<lettre::address::AddressError> for AppError {
    /// The error's own text becomes the message.
    fn from(err: lettre::address::AddressError) -> (r: AppError)
        ensures
            r is Email,
    {
        AppError::Email(err.to_string())
    }
}

impl vstd::std_specs::convert::FromSpecImpl<lettre::address::AddressError> for AppError {
    /// The message is the outside error's display text, which has no
    /// specification here.
    open spec fn obeys_from_spec() -> bool {
        false
    }

    open spec fn from_spec(err: lettre::address::AddressError) -> AppError {
        vstd::pervasive::arbitrary()
    }
}

impl From<&str> for AppError {
    fn from(msg: &str) -> (r: AppError)
        ensures
            r@ == ErrorView::Task(msg@),
    {
        AppError::Task(msg.to_string())
    }
}

impl vstd::std_specs::convert::FromSpecImpl<&str> for AppError {
    /// A fresh `String` is made from the text, which a spec function cannot
    /// build; the impl states the view instead.
    open spec fn obeys_from_spec() -> bool {
        false
    }

    open spec fn from_spec(msg: &str) -> AppError {
        vstd::pervasive::arbitrary()
    }
}

impl From<String> for AppError {
    fn from(msg: String) -> (r: AppError)
        ensures
            r == AppError::Task(msg),
    {
        AppError::Task(msg)
    }
}

impl vstd::std_specs::convert::FromSpecImpl<String> for AppError {
    open spec fn obeys_from_spec() -> bool {
        true
    }

    open spec fn from_spec(msg: String) -> AppError {
        AppError::Task(msg)
    }
}

} // verus!
