//! Mathematical model of the scan: how the source decomposes, from left to
//! right, into lexical units (a token, a discarded window, or an error), and
//! what each unit produces.

use crate::diag::ErrKind;
use crate::diag::SpecDiag;
use crate::keywords::keyword_of;
use crate::token::SpecToken;
use crate::token_type::TokenType;
use crate::value::SpecValue;
use vstd::prelude::*;

verus! {

// ---------------------------------------------------------------------------
// Character classes
// ---------------------------------------------------------------------------
/// ASCII decimal digit.
pub open spec fn is_digit(c: char) -> bool {
    48 <= c as u32 && c as u32 <= 57
}

/// ASCII letter or underscore: what may open an identifier.
pub open spec fn is_alpha(c: char) -> bool {
    (97 <= c as u32 && c as u32 <= 122) || (65 <= c as u32 && c as u32 <= 90) || c == '_'
}

/// ASCII letter, digit or underscore: what may continue an identifier.
pub open spec fn is_alnum(c: char) -> bool {
    is_alpha(c) || is_digit(c)
}

/// Discarded whitespace: space, tab, carriage return, newline.
pub open spec fn is_space(c: char) -> bool {
    c == ' ' || c == '\t' || c == '\r' || c == '\n'
}

pub fn ch_is_digit(c: char) -> (b: bool)
    ensures
        b == is_digit(c),
{
    let u = c as u32;
    48 <= u && u <= 57
}

pub fn ch_is_alpha(c: char) -> (b: bool)
    ensures
        b == is_alpha(c),
{
    let u = c as u32;
    (97 <= u && u <= 122) || (65 <= u && u <= 90) || c == '_'
}

pub fn ch_is_alnum(c: char) -> (b: bool)
    ensures
        b == is_alnum(c),
{
    ch_is_alpha(c) || ch_is_digit(c)
}

pub fn ch_is_space(c: char) -> (b: bool)
    ensures
        b == is_space(c),
{
    c == ' ' || c == '\t' || c == '\r' || c == '\n'
}

// ---------------------------------------------------------------------------
// Lines and greedy runs
// ---------------------------------------------------------------------------
/// The 1-based line on which the character at position `i` sits: one more
/// than the number of newlines strictly before `i`.  (A newline sits on the
/// line it terminates.)
pub open spec fn line_at(s: Seq<char>, i: int) -> int
    decreases i,
{
    if i <= 0 {
        1
    } else {
        line_at(s, i - 1) + if s[i - 1] == '\n' {
            1int
        } else {
            0int
        }
    }
}

pub proof fn lemma_line_at_bounds(s: Seq<char>, i: int)
    ensures
        1 <= line_at(s, i),
        i >= 0 ==> line_at(s, i) <= i + 1,
    decreases i,
{
    if i > 0 {
        lemma_line_at_bounds(s, i - 1);
    }
}

/// The first position at or after `i` where `p` fails, or the end of input:
/// the end of the greedy run of `p`-characters starting at `i`.
pub open spec fn run_end(s: Seq<char>, i: int, p: spec_fn(char) -> bool) -> int
    decreases s.len() - i,
{
    if i >= s.len() {
        s.len() as int
    } else if p(s[i]) {
        run_end(s, i + 1, p)
    } else {
        i
    }
}

pub proof fn lemma_run_end(s: Seq<char>, i: int, p: spec_fn(char) -> bool)
    requires
        0 <= i <= s.len(),
    ensures
        i <= run_end(s, i, p) <= s.len(),
        forall|j: int| i <= j < run_end(s, i, p) ==> p(s[j]),
        run_end(s, i, p) < s.len() ==> !p(s[run_end(s, i, p)]),
    decreases s.len() - i,
{
    if i < s.len() && p(s[i]) {
        lemma_run_end(s, i + 1, p);
    }
}

/// What may continue an identifier, as a run predicate.
pub open spec fn alnum_pred() -> spec_fn(char) -> bool {
    |c: char| is_alnum(c)
}

/// A digit, as a run predicate.
pub open spec fn digit_pred() -> spec_fn(char) -> bool {
    |c: char| is_digit(c)
}

/// A character that does not close a string literal.
pub open spec fn not_quote_pred() -> spec_fn(char) -> bool {
    |c: char| c != '"'
}

/// A character that does not end a line comment.
pub open spec fn not_newline_pred() -> spec_fn(char) -> bool {
    |c: char| c != '\n'
}

// ---------------------------------------------------------------------------
// One lexical unit
// ---------------------------------------------------------------------------
/// What scanning one lexical unit produces: a token, a discarded window
/// (whitespace or a comment), or a diagnostic.
#[verifier::ext_equal]
pub enum SpecUnit {
    Tok(SpecToken),
    Skip,
    Fault(SpecDiag),
}

/// A token with no literal payload, spanning `s[i..e]`.
pub open spec fn plain_tok(s: Seq<char>, i: int, e: int, tag: TokenType) -> SpecToken {
    SpecToken { tag, lexeme: s.subrange(i, e), value: None, line: line_at(s, i) }
}

/// The one- or two-character operator rule: the `=` lookahead always wins
/// over emitting the bare operator.
pub open spec fn maybe_equal_tok(s: Seq<char>, i: int, one: TokenType, two: TokenType) -> (
    int,
    SpecToken,
) {
    if i + 1 < s.len() && s[i + 1] == '=' {
        (i + 2, plain_tok(s, i, i + 2, two))
    } else {
        (i + 1, plain_tok(s, i, i + 1, one))
    }
}

/// The identifier rule: the whole alphanumeric run is taken, then looked up
/// in the reserved-word table.
pub open spec fn word_tok(s: Seq<char>, i: int) -> (int, SpecToken) {
    let e = run_end(s, i + 1, alnum_pred());
    let w = s.subrange(i, e);
    match keyword_of(w) {
        Some(k) => (e, SpecToken { tag: k, lexeme: w, value: None, line: line_at(s, i) }),
        None => (
            e,
            SpecToken {
                tag: TokenType::Word,
                lexeme: w,
                value: Some(SpecValue::Word(w)),
                line: line_at(s, i),
            },
        ),
    }
}

/// The number rule: a digit run, and a fractional part only when the dot is
/// followed by another digit.
pub open spec fn number_tok(s: Seq<char>, i: int) -> (int, SpecToken) {
    let e1 = run_end(s, i + 1, digit_pred());
    let e = if e1 + 1 < s.len() && s[e1] == '.' && is_digit(s[e1 + 1]) {
        run_end(s, e1 + 1, digit_pred())
    } else {
        e1
    };
    let w = s.subrange(i, e);
    (
        e,
        SpecToken {
            tag: TokenType::Number,
            lexeme: w,
            value: Some(SpecValue::Number(w)),
            line: line_at(s, i),
        },
    )
}

/// The string rule: everything up to the closing quote, which is consumed;
/// the payload strips the two delimiters.  Reaching end of input first is the
/// unterminated-string error, reported at the line the scan stopped on.
pub open spec fn string_unit(s: Seq<char>, i: int) -> (int, SpecUnit) {
    let body = run_end(s, i + 1, not_quote_pred());
    if body >= s.len() {
        (
            s.len() as int,
            SpecUnit::Fault(
                SpecDiag { line: line_at(s, s.len() as int), kind: ErrKind::UnterminatedString },
            ),
        )
    } else {
        (
            body + 1,
            SpecUnit::Tok(
                SpecToken {
                    tag: TokenType::Str,
                    lexeme: s.subrange(i, body + 1),
                    value: Some(SpecValue::Str(s.subrange(i + 1, body))),
                    line: line_at(s, i),
                },
            ),
        )
    }
}

/// The slash rule: a second slash opens a line comment, discarded up to (and
/// excluding) the newline; otherwise the division operator.
pub open spec fn slash_unit(s: Seq<char>, i: int) -> (int, SpecUnit) {
    if i + 1 < s.len() && s[i + 1] == '/' {
        (run_end(s, i + 2, not_newline_pred()), SpecUnit::Skip)
    } else {
        (i + 1, SpecUnit::Tok(plain_tok(s, i, i + 1, TokenType::Slash)))
    }
}

/// One lexical unit starting at position `i`: where it ends, and what it
/// produces.  The dispatch is on the first character alone.
pub open spec fn scan_unit(s: Seq<char>, i: int) -> (int, SpecUnit)
    recommends
        0 <= i < s.len(),
{
    let c = s[i];
    if c == '(' {
        (i + 1, SpecUnit::Tok(plain_tok(s, i, i + 1, TokenType::LeftParen)))
    } else if c == ')' {
        (i + 1, SpecUnit::Tok(plain_tok(s, i, i + 1, TokenType::RightParen)))
    } else if c == '{' {
        (i + 1, SpecUnit::Tok(plain_tok(s, i, i + 1, TokenType::LeftBrace)))
    } else if c == '}' {
        (i + 1, SpecUnit::Tok(plain_tok(s, i, i + 1, TokenType::RightBrace)))
    } else if c == ',' {
        (i + 1, SpecUnit::Tok(plain_tok(s, i, i + 1, TokenType::Comma)))
    } else if c == '.' {
        (i + 1, SpecUnit::Tok(plain_tok(s, i, i + 1, TokenType::Dot)))
    } else if c == '-' {
        (i + 1, SpecUnit::Tok(plain_tok(s, i, i + 1, TokenType::Minus)))
    } else if c == '+' {
        (i + 1, SpecUnit::Tok(plain_tok(s, i, i + 1, TokenType::Plus)))
    } else if c == ';' {
        (i + 1, SpecUnit::Tok(plain_tok(s, i, i + 1, TokenType::Semicolon)))
    } else if c == '*' {
        (i + 1, SpecUnit::Tok(plain_tok(s, i, i + 1, TokenType::Star)))
    } else if c == '!' {
        let (e, t) = maybe_equal_tok(s, i, TokenType::Bang, TokenType::BangEqual);
        (e, SpecUnit::Tok(t))
    } else if c == '<' {
        let (e, t) = maybe_equal_tok(s, i, TokenType::Less, TokenType::LessEqual);
        (e, SpecUnit::Tok(t))
    } else if c == '=' {
        let (e, t) = maybe_equal_tok(s, i, TokenType::Equal, TokenType::EqualEqual);
        (e, SpecUnit::Tok(t))
    } else if c == '>' {
        let (e, t) = maybe_equal_tok(s, i, TokenType::Greater, TokenType::GreaterEqual);
        (e, SpecUnit::Tok(t))
    } else if c == '"' {
        string_unit(s, i)
    } else if c == '/' {
        slash_unit(s, i)
    } else if is_space(c) {
        (i + 1, SpecUnit::Skip)
    } else if is_alpha(c) {
        let (e, t) = word_tok(s, i);
        (e, SpecUnit::Tok(t))
    } else if is_digit(c) {
        let (e, t) = number_tok(s, i);
        (e, SpecUnit::Tok(t))
    } else {
        (
            i + 1,
            SpecUnit::Fault(SpecDiag { line: line_at(s, i), kind: ErrKind::UnexpectedChar(c) }),
        )
    }
}

/// Every unit consumes at least one character and stays within the input.
pub proof fn lemma_scan_unit_bounds(s: Seq<char>, i: int)
    requires
        0 <= i < s.len(),
    ensures
        i < scan_unit(s, i).0 <= s.len(),
{
    let c = s[i];
    if c == '"' {
        lemma_run_end(s, i + 1, not_quote_pred());
    } else if c == '/' {
        if i + 1 < s.len() && s[i + 1] == '/' {
            lemma_run_end(s, i + 2, not_newline_pred());
        }
    } else if is_alpha(c) {
        lemma_run_end(s, i + 1, alnum_pred());
    } else if is_digit(c) {
        lemma_run_end(s, i + 1, digit_pred());
        let e1 = run_end(s, i + 1, digit_pred());
        if e1 + 1 < s.len() && s[e1] == '.' && is_digit(s[e1 + 1]) {
            lemma_run_end(s, e1 + 1, digit_pred());
        }
    }
}

// ---------------------------------------------------------------------------
// The whole decomposition
// ---------------------------------------------------------------------------
/// The sequence of lexical units from position `i` to the end of input.
pub open spec fn units_from(s: Seq<char>, i: int) -> Seq<SpecUnit>
    decreases s.len() - i,
{
    if !(0 <= i < s.len()) {
        Seq::empty()
    } else {
        let e = scan_unit(s, i).0;
        if i < e <= s.len() {
            seq![scan_unit(s, i).1] + units_from(s, e)
        } else {
            seq![scan_unit(s, i).1]
        }
    }
}

/// The tokens among a sequence of units, in order.
pub open spec fn unit_toks(us: Seq<SpecUnit>) -> Seq<SpecToken>
    decreases us.len(),
{
    if us.len() == 0 {
        Seq::empty()
    } else {
        let rest = unit_toks(us.drop_first());
        match us[0] {
            SpecUnit::Tok(t) => seq![t] + rest,
            _ => rest,
        }
    }
}

/// The diagnostics among a sequence of units, in order.
pub open spec fn unit_diags(us: Seq<SpecUnit>) -> Seq<SpecDiag>
    decreases us.len(),
{
    if us.len() == 0 {
        Seq::empty()
    } else {
        let rest = unit_diags(us.drop_first());
        match us[0] {
            SpecUnit::Fault(d) => seq![d] + rest,
            _ => rest,
        }
    }
}

/// The terminal end-marker: empty lexeme, no payload, the line of the end of
/// input.
pub open spec fn eof_tok(s: Seq<char>) -> SpecToken {
    SpecToken {
        tag: TokenType::Eof,
        lexeme: Seq::empty(),
        value: None,
        line: line_at(s, s.len() as int),
    }
}

/// The full token sequence of a successful scan of `s`.
pub open spec fn spec_tokens(s: Seq<char>) -> Seq<SpecToken> {
    unit_toks(units_from(s, 0)) + seq![eof_tok(s)]
}

/// All diagnostics a scan of `s` reports, in order.
pub open spec fn spec_diags(s: Seq<char>) -> Seq<SpecDiag> {
    unit_diags(units_from(s, 0))
}

/// Unfolding one step of the decomposition, together with how the token and
/// diagnostic projections step with it.
pub proof fn lemma_units_from_step(s: Seq<char>, i: int)
    requires
        0 <= i < s.len(),
    ensures
        units_from(s, i) == seq![scan_unit(s, i).1] + units_from(s, scan_unit(s, i).0),
        unit_toks(units_from(s, i)) == (match scan_unit(s, i).1 {
            SpecUnit::Tok(t) => seq![t],
            _ => Seq::empty(),
        }) + unit_toks(units_from(s, scan_unit(s, i).0)),
        unit_diags(units_from(s, i)) == (match scan_unit(s, i).1 {
            SpecUnit::Fault(d) => seq![d],
            _ => Seq::empty(),
        }) + unit_diags(units_from(s, scan_unit(s, i).0)),
{
    lemma_scan_unit_bounds(s, i);
    let u = scan_unit(s, i).1;
    let e = scan_unit(s, i).0;
    let us = units_from(s, i);
    assert(us == seq![u] + units_from(s, e));
    assert(us.len() > 0);
    assert(us[0] == u);
    assert(us.drop_first() =~= units_from(s, e));
    match u {
        SpecUnit::Tok(t) => {
            assert(unit_toks(us) == seq![t] + unit_toks(units_from(s, e)));
            assert(unit_diags(us) == unit_diags(units_from(s, e)));
            assert(unit_diags(us) =~= Seq::<SpecDiag>::empty() + unit_diags(units_from(s, e)));
        },
        SpecUnit::Skip => {
            assert(unit_toks(us) =~= Seq::<SpecToken>::empty() + unit_toks(units_from(s, e)));
            assert(unit_diags(us) =~= Seq::<SpecDiag>::empty() + unit_diags(units_from(s, e)));
        },
        SpecUnit::Fault(d) => {
            assert(unit_toks(us) =~= Seq::<SpecToken>::empty() + unit_toks(units_from(s, e)));
            assert(unit_diags(us) == seq![d] + unit_diags(units_from(s, e)));
        },
    }
}

} // verus!
