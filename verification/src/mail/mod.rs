//! The mailbox service: its records, the verification codes in them, and the waiting for one.
pub mod bind;
pub mod code;
pub mod html;
pub mod record;
pub mod service;
pub mod wait;

pub use bind::{BindItem, BindReport, BindSummary};
pub use code::{extract_code_from_text, first_six_digit, site_reference_extract};
pub use html::html_to_text;
pub use record::{parse_time_epoch, pick_code, MailBaseline, MailConfig, MailRecord};
pub use service::MailClient;
