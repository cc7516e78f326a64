use vstd::prelude::*;

verus! {

/// The two lexical error kinds: a character that starts no valid token, and a
/// string literal that reaches end of input before its closing quote.
#[derive(Clone, Copy, Debug, PartialEq, Eq)]
pub enum ErrKind {
    UnexpectedChar(char),
    UnterminatedString,
}

/// One reported lexical error: the error kind and the 1-based source line it
/// is attributed to.  Diagnostics are collected in scan order; rendering them
/// for a human reader is left to the caller.
#[derive(Clone, Copy, Debug, PartialEq, Eq)]
pub struct Diagnostic {
    pub line: usize,
    pub kind: ErrKind,
}

/// Mathematical model of a diagnostic.
#[verifier::ext_equal]
pub struct SpecDiag {
    pub line: int,
    pub kind: ErrKind,
}

impl View for Diagnostic {
    type V = SpecDiag;

    open spec fn view(&self) -> SpecDiag {
        SpecDiag { line: self.line as int, kind: self.kind }
    }
}

} // verus!
