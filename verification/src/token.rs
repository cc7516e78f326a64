use crate::token_type::TokenType;
use crate::value::SpecValue;
use crate::value::Value;
use vstd::prelude::*;

verus! {

/// One classified lexical unit: its category, the exact source slice it was
/// matched from, an optional literal payload, and the 1-based line on which
/// its first character sits.
#[derive(Clone, Debug, PartialEq, Eq)]
pub struct Token {
    pub tag: TokenType,
    pub lexeme: Vec<char>,
    pub value: Option<Value>,
    pub line: usize,
}

/// Mathematical model of a token.
#[verifier::ext_equal]
pub struct SpecToken {
    pub tag: TokenType,
    pub lexeme: Seq<char>,
    pub value: Option<SpecValue>,
    pub line: int,
}

/// Model of an optional literal payload.
pub open spec fn view_value(v: Option<Value>) -> Option<SpecValue> {
    match v {
        Some(x) => Some(x@),
        None => None,
    }
}

impl View for Token {
    type V = SpecToken;

    open spec fn view(&self) -> SpecToken {
        SpecToken {
            tag: self.tag,
            lexeme: self.lexeme@,
            value: view_value(self.value),
            line: self.line as int,
        }
    }
}

impl Token {
    pub fn new(tag: TokenType, lexeme: Vec<char>, value: Option<Value>, line: usize) -> (t: Token)
        ensures
            t@ == (SpecToken {
                tag,
                lexeme: lexeme@,
                value: view_value(value),
                line: line as int,
            }),
    {
        Token { tag, lexeme, value, line }
    }
}

} // verus!
