//! A composable boolean-predicate engine.
//!
//! Callers define atomic yes/no rules over a candidate value and combine them
//! with `and`, `or`, `xor` and `invert` into an immutable tree that itself
//! behaves as a single rule.  The tree can be evaluated against a candidate,
//! asked for the minimal sub-tree responsible for a failed evaluation, and
//! rendered as a parenthesized infix string for diagnostics.

mod composition;
mod evaluate;
mod hiring;
pub mod laws;
pub mod model;
pub mod reminder;
mod render;
mod rules;

pub use composition::Describe;
pub use composition::IntoComposite;
pub use composition::Specification;
pub use composition::SpecificationCompositions;
pub use hiring::HiringRule;
pub use hiring::JobCandidate;
pub use hiring::Language;
pub use hiring::yes_or_no;
pub use model::CompositionModel;
pub use rules::IntRule;
