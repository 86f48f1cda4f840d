//! The crate's error type.

use vstd::prelude::*;

use crate::text::{decimal, decimal_string, push_str};

verus! {

#[verifier::external_type_specification]
#[verifier::external_body]
pub struct ExIoError(std::io::Error);

/// All errors surfaced by the crate.
#[non_exhaustive]
#[derive(Debug)]
pub enum Error {
    /// The caller-supplied input violated a precondition.
    InvalidInput(String),
    /// Two embeddings were compared whose `model_id` fields disagree.
    ModelMismatch {
        /// `model_id` of the first operand.
        a: String,
        /// `model_id` of the second operand.
        b: String,
    },
    /// Two embeddings or signatures were compared with mismatched dimensions.
    DimensionMismatch {
        /// Dimension of the first operand.
        a: usize,
        /// Dimension of the second operand.
        b: usize,
    },
    /// A configuration value was rejected.
    Config(String),
    /// An I/O failure.
    Io(std::io::Error),
    /// A tokenizer reported a fatal error.
    Tokenizer(String),
    /// An inference runtime reported a fatal error.
    Onnx(String),
    /// A cloud provider reported an HTTP error.
    Http(String),
    /// A provider returned an empty embedding payload.
    EmptyEmbedding,
    /// A serialized signature does not match the expected schema version.
    SchemaMismatch {
        /// Schema version this build expects.
        expected: u16,
        /// Schema version observed in the input.
        actual: u16,
    },
    /// A feature-gated API was invoked that is not enabled.
    FeatureDisabled(&'static str),
}

/// Shorthand for `core::result::Result<T, Error>`.
pub type Result<T, E = Error> = core::result::Result<T, E>;

impl Error {
    /// The human-readable rendering of every variant except `Io`, whose
    /// text comes from the operating system.
    pub open spec fn spec_message(&self) -> Seq<char> {
        match self {
            Error::InvalidInput(s) => "invalid input: "@ + s@,
            Error::ModelMismatch { a, b } => "model id mismatch: a = "@ + a@ + ", b = "@ + b@,
            Error::DimensionMismatch { a, b } => "dimension mismatch: a = "@ + decimal(*a as nat)
                + ", b = "@ + decimal(*b as nat),
            Error::Config(s) => "config error: "@ + s@,
            Error::Io(_) => "io error: "@,
            Error::Tokenizer(s) => "tokenizer error: "@ + s@,
            Error::Onnx(s) => "onnx error: "@ + s@,
            Error::Http(s) => "http error: "@ + s@,
            Error::EmptyEmbedding => "provider returned no embeddings"@,
            Error::SchemaMismatch { expected, actual } => "schema version mismatch: expected "@
                + decimal(*expected as nat) + ", got "@ + decimal(*actual as nat),
            Error::FeatureDisabled(name) => "feature `"@ + name@ + "` not enabled at compile time"@,
        }
    }

    /// Render the error as text.
    pub fn message(&self) -> (m: String)
        ensures
            !(self is Io) ==> m@ == self.spec_message(),
    {
        let mut m = String::new();
        match self {
            Error::InvalidInput(s) => {
                push_str(&mut m, "invalid input: ");
                push_str(&mut m, s.as_str());
            },
            Error::ModelMismatch { a, b } => {
                push_str(&mut m, "model id mismatch: a = ");
                push_str(&mut m, a.as_str());
                push_str(&mut m, ", b = ");
                push_str(&mut m, b.as_str());
            },
            Error::DimensionMismatch { a, b } => {
                push_str(&mut m, "dimension mismatch: a = ");
                let da = decimal_string(*a as u64);
                push_str(&mut m, da.as_str());
                push_str(&mut m, ", b = ");
                let db = decimal_string(*b as u64);
                push_str(&mut m, db.as_str());
            },
            Error::Config(s) => {
                push_str(&mut m, "config error: ");
                push_str(&mut m, s.as_str());
            },
            Error::Io(e) => {
                push_str(&mut m, "io error: ");
                let t = io_error_text(e);
                push_str(&mut m, t.as_str());
            },
            Error::Tokenizer(s) => {
                push_str(&mut m, "tokenizer error: ");
                push_str(&mut m, s.as_str());
            },
            Error::Onnx(s) => {
                push_str(&mut m, "onnx error: ");
                push_str(&mut m, s.as_str());
            },
            Error::Http(s) => {
                push_str(&mut m, "http error: ");
                push_str(&mut m, s.as_str());
            },
            Error::EmptyEmbedding => {
                push_str(&mut m, "provider returned no embeddings");
            },
            Error::SchemaMismatch { expected, actual } => {
                push_str(&mut m, "schema version mismatch: expected ");
                let de = decimal_string(*expected as u64);
                push_str(&mut m, de.as_str());
                push_str(&mut m, ", got ");
                let da = decimal_string(*actual as u64);
                push_str(&mut m, da.as_str());
            },
            Error::FeatureDisabled(name) => {
                push_str(&mut m, "feature `");
                push_str(&mut m, name);
                push_str(&mut m, "` not enabled at compile time");
            },
        }
        m
    }
}

/// `Error::InvalidInput` carrying `msg`.
pub fn invalid_input(msg: &str) -> (e: Error)
    ensures
        e is InvalidInput,
        e->InvalidInput_0@ == msg@,
{
    let mut s = String::new();
    push_str(&mut s, msg);
    Error::InvalidInput(s)
}

/// `Error::Config` carrying `msg`.
pub fn config_error(msg: &str) -> (e: Error)
    ensures
        e is Config,
        e->Config_0@ == msg@,
{
    let mut s = String::new();
    push_str(&mut s, msg);
    Error::Config(s)
}

/// The operating system's description of an I/O error (its `Display`
/// text). Nothing is stated of it: the text comes from the platform.
#[verifier::external_body]
fn io_error_text(e: &std::io::Error) -> String {
    format!("{e}")
}

} // verus!
