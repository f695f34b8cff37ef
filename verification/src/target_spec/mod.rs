//! Target specifications: `cfg(...)` expressions and bare target triples,
//! parsed from text and evaluated against a platform.

pub mod evaluator;
pub mod parser;
pub mod platform;
pub mod types;

pub use evaluator::{eval, EvalError};
pub use parser::ParseError;
pub use platform::{Platform, TargetFeatures};
pub use types::TargetSpec;
