//! Fatal diagnostics: a symbolic code, a source position, and an ordered list
//! of message arguments. Rendering and process exit policy belong to the
//! caller; the parser stops at the first diagnostic it raises.
use vstd::prelude::*;

verus! {

/// The taxonomy of parse-time failures.
#[derive(Clone, Copy, PartialEq, Eq, Structural, Debug)]
pub enum ErrorCode {
    /// A required token or category was absent at the current position.
    UnexpectedToken,
    /// A literal token lacks the payload its category promises.
    MalformedLiteral,
    /// Structurally well formed but invalid at parse time, such as an
    /// assignment whose target is not a bare variable reference.
    InvalidConstruct,
    /// A name that must follow the enum naming convention does not start with
    /// an uppercase character.
    ExpectedUppercaseIdentifier,
}

/// One fatal, positioned, non-resumable diagnostic.
#[derive(PartialEq, Eq, Debug)]
pub struct Diagnostic {
    pub code: ErrorCode,
    pub line: usize,
    pub pos: (usize, usize),
    pub args: Vec<String>,
}

} // verus!
