use vstd::string::*;
use vstd::prelude::*;

verus! {

/// The two classes of failure the compiler reports.
#[derive(Debug, Clone, Copy, PartialEq, Eq, Structural)]
pub enum ErrorKind {
    Syntax,
    Semantic,
}

/// An error reported while compiling: malformed input (syntax) or a program
/// that breaks a rule of the language (semantics).
#[derive(Debug)]
pub enum CompilerError {
    SyntaxError(String),
    SemanticError(String),
}

impl CompilerError {
    /// Which class of error this is.
    pub open spec fn kind(&self) -> ErrorKind {
        match self {
            CompilerError::SyntaxError(_) => ErrorKind::Syntax,
            CompilerError::SemanticError(_) => ErrorKind::Semantic,
        }
    }

    /// Builds an error of the given kind with a message.
    pub fn with_message(kind: ErrorKind, message: &str) -> (e: CompilerError)
        ensures
            e.kind() == kind,
            e.message()@ == message@,
    {
        match kind {
            ErrorKind::Syntax => CompilerError::SyntaxError(String::from_str(message)),
            ErrorKind::Semantic => CompilerError::SemanticError(String::from_str(message)),
        }
    }

    /// The message carried by the error.
    pub open spec fn message(&self) -> String {
        match self {
            CompilerError::SyntaxError(m) => *m,
            CompilerError::SemanticError(m) => *m,
        }
    }

    /// The human-readable rendering: `Syntax Error: ...` or `Semantic Error: ...`.
    pub fn to_string(&self) -> (s: String)
        ensures
            s@ == (match self.kind() {
                ErrorKind::Syntax => "Syntax Error: "@,
                ErrorKind::Semantic => "Semantic Error: "@,
            }) + self.message()@,
    {
        match self {
            CompilerError::SyntaxError(m) => {
                let mut s = String::from_str("Syntax Error: ");
                s.append(m.as_str());
                s
            },
            CompilerError::SemanticError(m) => {
                let mut s = String::from_str("Semantic Error: ");
                s.append(m.as_str());
                s
            },
        }
    }
}

/// How a step that also changes a state relates to its model: on success the
/// same value and the same state after it, else an error of the same kind.
pub open spec fn step_outcome<T, S>(r: Result<T, CompilerError>, m: Result<(T, S), ErrorKind>, after: S) -> bool {
    match m {
        Ok((v, s)) => r matches Ok(x) && x == v && after == s,
        Err(k) => r matches Err(e) && e.kind() == k,
    }
}

} // verus!
