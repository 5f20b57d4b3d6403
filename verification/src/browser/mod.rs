//! Driving the browser: what to start, what to run in a page, and what its state means.
pub mod cdk;
pub mod engine;
pub mod fetch;
pub mod gate;
pub mod oauth;
pub mod script;

pub use engine::{browser_candidates, check_engines, detect_executable, BrowserMode};
pub use oauth::OAuthOutcome;
pub use script::JS_EXTRACT_BANNED;
