use crate::token_type::TokenType;
use vstd::prelude::*;
use vstd::string::StrSliceExecFns;

verus! {

/// The fixed sixteen-entry reserved-word table, as a mapping from the exact
/// spelling of a word to its token category.  Lookup is by exact,
/// case-sensitive equality; any other spelling is a generic word.
pub open spec fn keyword_of(w: Seq<char>) -> Option<TokenType> {
    if w == "and"@ {
        Some(TokenType::And)
    } else if w == "class"@ {
        Some(TokenType::Class)
    } else if w == "else"@ {
        Some(TokenType::Else)
    } else if w == "false"@ {
        Some(TokenType::False)
    } else if w == "for"@ {
        Some(TokenType::For)
    } else if w == "fun"@ {
        Some(TokenType::Fun)
    } else if w == "if"@ {
        Some(TokenType::If)
    } else if w == "nil"@ {
        Some(TokenType::Nil)
    } else if w == "or"@ {
        Some(TokenType::Or)
    } else if w == "print"@ {
        Some(TokenType::Print)
    } else if w == "return"@ {
        Some(TokenType::Return)
    } else if w == "super"@ {
        Some(TokenType::Super)
    } else if w == "this"@ {
        Some(TokenType::This)
    } else if w == "true"@ {
        Some(TokenType::True)
    } else if w == "var"@ {
        Some(TokenType::Var)
    } else if w == "while"@ {
        Some(TokenType::While)
    } else {
        None
    }
}

/// Compares a scanned word with one spelling of the table, character by
/// character.
fn text_eq(w: &Vec<char>, s: &str) -> (r: bool)
    ensures
        r == (w@ == s@),
{
    let n = s.unicode_len();
    if w.len() != n {
        proof {
            assert(w@ != s@) by {
                if w@ == s@ {
                    assert(w@.len() == s@.len());
                }
            }
        }
        return false;
    }
    let mut i: usize = 0;
    while i < n
        invariant
            n as nat == s@.len(),
            w@.len() == n as nat,
            i <= n,
            forall|j: int| 0 <= j < i ==> w@[j] == s@[j],
        decreases n - i,
    {
        if w[i] != s.get_char(i) {
            proof {
                assert(w@ != s@) by {
                    if w@ == s@ {
                        assert(w@[i as int] == s@[i as int]);
                    }
                }
            }
            return false;
        }
        i += 1;
    }
    proof {
        assert(w@ =~= s@);
    }
    true
}

/// Looks a word up in the reserved-word table.
pub fn get(word: &Vec<char>) -> (r: Option<TokenType>)
    ensures
        r == keyword_of(word@),
{
    if text_eq(word, "and") {
        Some(TokenType::And)
    } else if text_eq(word, "class") {
        Some(TokenType::Class)
    } else if text_eq(word, "else") {
        Some(TokenType::Else)
    } else if text_eq(word, "false") {
        Some(TokenType::False)
    } else if text_eq(word, "for") {
        Some(TokenType::For)
    } else if text_eq(word, "fun") {
        Some(TokenType::Fun)
    } else if text_eq(word, "if") {
        Some(TokenType::If)
    } else if text_eq(word, "nil") {
        Some(TokenType::Nil)
    } else if text_eq(word, "or") {
        Some(TokenType::Or)
    } else if text_eq(word, "print") {
        Some(TokenType::Print)
    } else if text_eq(word, "return") {
        Some(TokenType::Return)
    } else if text_eq(word, "super") {
        Some(TokenType::Super)
    } else if text_eq(word, "this") {
        Some(TokenType::This)
    } else if text_eq(word, "true") {
        Some(TokenType::True)
    } else if text_eq(word, "var") {
        Some(TokenType::Var)
    } else if text_eq(word, "while") {
        Some(TokenType::While)
    } else {
        None
    }
}

} // verus!
