use vstd::prelude::*;

verus! {

/// Literal payload attached to word, string and number tokens.
///
/// A number token keeps the digits of its lexeme; deriving the machine
/// floating-point value from them is left to unverified callers, so that the
/// scanner itself stays within exactly representable data.
#[derive(Clone, Debug, PartialEq, Eq)]
pub enum Value {
    Word(Vec<char>),
    Str(Vec<char>),
    Number(Vec<char>),
}

/// Mathematical model of a literal payload.
#[verifier::ext_equal]
pub enum SpecValue {
    Word(Seq<char>),
    Str(Seq<char>),
    Number(Seq<char>),
}

impl View for Value {
    type V = SpecValue;

    open spec fn view(&self) -> SpecValue {
        match self {
            Value::Word(w) => SpecValue::Word(w@),
            Value::Str(s) => SpecValue::Str(s@),
            Value::Number(d) => SpecValue::Number(d@),
        }
    }
}

} // verus!
