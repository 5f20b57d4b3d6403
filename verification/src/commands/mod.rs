//! The operations that an operator performs.
pub mod accounts;
pub mod group;
pub mod import;
pub mod mail_ops;
pub mod oauth_openai;
pub mod reauth;
