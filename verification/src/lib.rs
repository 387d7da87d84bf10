//! Daily and weekly analytics reports for Umami websites: configuration
//! checking, environment loading, request planning and report framing.

pub mod api;
pub mod config;
pub mod countries;
pub mod env;
pub mod error;
pub mod report;
pub mod text;
pub mod time;

pub use config::{AppConfig, Config, ReportType, SmtpConfig, WebsiteConfig};
pub use config::validate_config;
pub use error::{AppError, ErrorView};
