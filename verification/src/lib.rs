//! Configuration loading and validation for a request router.
//!
//! The library models a configuration of named routing targets
//! ("policies"), each holding a list of backend endpoints ("LLMs").
//! It resolves `${NAME}` environment placeholders in raw configuration
//! text, validates required fields, and offers lookup and redaction
//! operations over the validated model.

pub mod environment;
pub mod error;
pub mod laws;
pub mod model;
pub mod subst;
pub mod text;
pub mod validate;

pub use environment::EnvVars;
pub use error::ConfigError;
pub use model::{Llm, Policy, RouterConfig};
pub use subst::SubstEvent;
pub use text::trim_str;
pub use validate::validate_config;
