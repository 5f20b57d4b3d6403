//! Giving accounts new credentials.
pub mod apply;
pub mod once;
pub mod plan;
pub mod run;

pub use apply::{ApplyOpts, DeleteOutcome};
pub use once::{detect, OnceOpts, OnceResult};
pub use plan::{build_plan, ApplyOutcome, ApplyReport, FieldPreview, PlanItem};
