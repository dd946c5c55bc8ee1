//! The closed error taxonomy of configuration loading.

use vstd::prelude::*;

verus! {

/// Everything that can make a load attempt fail. Each kind propagates
/// unchanged to the caller of the load operation; none is retried or
/// recovered internally.
#[derive(Debug)]
pub enum ConfigError {
    /// The configuration file could not be read.
    IoError { message: String },
    /// The substituted text does not decode into the expected shape;
    /// the message keeps the decoder's diagnostics.
    ParseError { message: String },
    /// A policy is missing a required value; carries the (possibly
    /// empty) policy name and the field name.
    MissingPolicyField { policy: String, field: String },
    /// An endpoint is missing a required value; carries the endpoint
    /// name and the field name.
    MissingLlmField { llm: String, field: String },
}

impl ConfigError {
    /// A human-readable description of the error.
    pub fn describe(&self) -> (r: String)
        ensures
            r@ == match *self {
                ConfigError::IoError { message } => "failed to read config: "@ + message@,
                ConfigError::ParseError { message } => "failed to parse config: "@ + message@,
                ConfigError::MissingPolicyField { policy, field } => "policy '"@ + policy@
                    + "' is missing required field '"@ + field@ + "'"@,
                ConfigError::MissingLlmField { llm, field } => "llm '"@ + llm@
                    + "' is missing required field '"@ + field@ + "'"@,
            },
    {
        let r = match self {
            ConfigError::IoError { message } => "failed to read config: ".to_owned().concat(
                message.as_str(),
            ),
            ConfigError::ParseError { message } => "failed to parse config: ".to_owned().concat(
                message.as_str(),
            ),
            ConfigError::MissingPolicyField { policy, field } => "policy '".to_owned().concat(
                policy.as_str(),
            ).concat("' is missing required field '").concat(field.as_str()).concat("'"),
            ConfigError::MissingLlmField { llm, field } => "llm '".to_owned().concat(
                llm.as_str(),
            ).concat("' is missing required field '").concat(field.as_str()).concat("'"),
        };
        r
    }
}

} // verus!
