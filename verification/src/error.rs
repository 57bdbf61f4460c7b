//! Error types for core operations.
use vstd::prelude::*;
use crate::text::push_str;

verus! {

/// Errors that can occur during invariant analysis and generation.
#[derive(Debug, Clone, PartialEq, Eq)]
pub enum InvarError {
    /// IO error occurred during file operations; holds the system's message.
    IoError(String),
    /// Invalid invariant syntax or structure.
    InvalidInvariant(String),
    /// Undefined identifier in invariant expression.
    UndefinedIdentifier(String),
    /// Type mismatch in expression.
    TypeMismatch(String),
    /// Unsupported chain or pattern.
    Unsupported(String),
    /// Analysis failed with details.
    AnalysisFailed(String),
    /// Generation failed with details.
    GenerationFailed(String),
    /// Simulation failed with details.
    SimulationFailed(String),
    /// Configuration or parsing error.
    ConfigError(String),
    /// Custom error message.
    Custom(String),
}

/// The message of an error: a fixed prefix for its kind, then its detail.
pub open spec fn invar_error_text(e: InvarError) -> Seq<char> {
    match e {
        InvarError::IoError(m) => "IO error: "@ + m@,
        InvarError::InvalidInvariant(m) => "Invalid invariant: "@ + m@,
        InvarError::UndefinedIdentifier(m) => "Undefined identifier: "@ + m@,
        InvarError::TypeMismatch(m) => "Type mismatch: "@ + m@,
        InvarError::Unsupported(m) => "Unsupported: "@ + m@,
        InvarError::AnalysisFailed(m) => "Analysis failed: "@ + m@,
        InvarError::GenerationFailed(m) => "Generation failed: "@ + m@,
        InvarError::SimulationFailed(m) => "Simulation failed: "@ + m@,
        InvarError::ConfigError(m) => "Configuration error: "@ + m@,
        InvarError::Custom(m) => m@,
    }
}

impl InvarError {
    /// A custom error with a message.
    pub fn custom(msg: String) -> (r: Self)
        ensures
            r == InvarError::Custom(msg),
    {
        InvarError::Custom(msg)
    }

    /// An invalid invariant error.
    pub fn invalid_invariant(msg: String) -> (r: Self)
        ensures
            r == InvarError::InvalidInvariant(msg),
    {
        InvarError::InvalidInvariant(msg)
    }

    /// An undefined identifier error.
    pub fn undefined_identifier(name: String) -> (r: Self)
        ensures
            r == InvarError::UndefinedIdentifier(name),
    {
        InvarError::UndefinedIdentifier(name)
    }

    /// A type mismatch error.
    pub fn type_mismatch(msg: String) -> (r: Self)
        ensures
            r == InvarError::TypeMismatch(msg),
    {
        InvarError::TypeMismatch(msg)
    }

    /// An unsupported pattern error.
    pub fn unsupported(msg: String) -> (r: Self)
        ensures
            r == InvarError::Unsupported(msg),
    {
        InvarError::Unsupported(msg)
    }

    /// The message of this error.
    pub fn to_string(&self) -> (r: String)
        ensures
            r@ == invar_error_text(*self),
    {
        let mut out = String::new();
        let (prefix, detail): (&str, &String) = match self {
            InvarError::IoError(m) => ("IO error: ", m),
            InvarError::InvalidInvariant(m) => ("Invalid invariant: ", m),
            InvarError::UndefinedIdentifier(m) => ("Undefined identifier: ", m),
            InvarError::TypeMismatch(m) => ("Type mismatch: ", m),
            InvarError::Unsupported(m) => ("Unsupported: ", m),
            InvarError::AnalysisFailed(m) => ("Analysis failed: ", m),
            InvarError::GenerationFailed(m) => ("Generation failed: ", m),
            InvarError::SimulationFailed(m) => ("Simulation failed: ", m),
            InvarError::ConfigError(m) => ("Configuration error: ", m),
            InvarError::Custom(m) => ("", m),
        };
        proof {
            reveal_strlit("");
        }
        push_str(&mut out, prefix);
        push_str(&mut out, detail.as_str());
        assert(out@ =~= invar_error_text(*self));
        out
    }
}

/// The result type for core operations.
pub type InvarResult<T> = Result<T, InvarError>;

} // verus!
