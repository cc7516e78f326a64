//! General laws of the scan, stated over the model and proved once and for
//! all: every executable result inherits them through `scan`'s contract.

use crate::keywords::keyword_of;
use crate::model::alnum_pred;
use crate::model::is_alnum;
use crate::model::is_alpha;
use crate::model::lemma_run_end;
use crate::model::lemma_scan_unit_bounds;
use crate::model::lemma_units_from_step;
use crate::model::line_at;
use crate::model::run_end;
use crate::model::scan_unit;
use crate::model::spec_tokens;
use crate::model::unit_toks;
use crate::model::units_from;
use crate::model::SpecUnit;
use crate::token_type::TokenType;
use vstd::prelude::*;

verus! {

/// No reserved word maps to the end-marker category.
proof fn lemma_keyword_not_eof(w: Seq<char>)
    ensures
        match keyword_of(w) {
            Some(k) => k != TokenType::Eof,
            None => true,
        },
{
}

/// No lexical unit of the input ever produces an end-marker token.
proof fn lemma_unit_toks_no_eof(s: Seq<char>, i: int)
    requires
        0 <= i <= s.len(),
    ensures
        forall|j: int|
            0 <= j < unit_toks(units_from(s, i)).len() ==> unit_toks(units_from(s, i))[j].tag
                != TokenType::Eof,
    decreases s.len() - i,
{
    if i < s.len() {
        lemma_units_from_step(s, i);
        lemma_scan_unit_bounds(s, i);
        let e = scan_unit(s, i).0;
        lemma_unit_toks_no_eof(s, e);
        match scan_unit(s, i).1 {
            SpecUnit::Tok(t) => {
                lemma_keyword_not_eof(s.subrange(i, run_end(s, i + 1, alnum_pred())));
                assert(t.tag != TokenType::Eof);
            },
            _ => {},
        }
    }
}

/// Law: the token sequence of a scan ends with the end-marker, and with no
/// other: exactly its last element has the `Eof` category, whatever the
/// input.
pub proof fn lemma_eof_terminator(s: Seq<char>)
    ensures
        spec_tokens(s).len() >= 1,
        spec_tokens(s).last().tag == TokenType::Eof,
        forall|j: int|
            0 <= j < spec_tokens(s).len() - 1 ==> spec_tokens(s)[j].tag != TokenType::Eof,
{
    lemma_unit_toks_no_eof(s, 0);
}

/// The one-character category of each maybe-equal operator.
pub open spec fn bare_tag(c: char) -> TokenType {
    if c == '!' {
        TokenType::Bang
    } else if c == '<' {
        TokenType::Less
    } else if c == '=' {
        TokenType::Equal
    } else {
        TokenType::Greater
    }
}

/// The two-character category of each maybe-equal operator.
pub open spec fn paired_tag(c: char) -> TokenType {
    if c == '!' {
        TokenType::BangEqual
    } else if c == '<' {
        TokenType::LessEqual
    } else if c == '=' {
        TokenType::EqualEqual
    } else {
        TokenType::GreaterEqual
    }
}

/// Law: greedy maximal munch for the two-character operators.  An operator
/// character followed by `=` always lexes as the single two-character token
/// spanning both; the bare one-character token arises exactly when no `=`
/// follows.
pub proof fn lemma_maximal_munch_operators(s: Seq<char>, i: int)
    requires
        0 <= i < s.len(),
        s[i] == '!' || s[i] == '<' || s[i] == '=' || s[i] == '>',
    ensures
        i + 1 < s.len() && s[i + 1] == '=' ==> scan_unit(s, i).0 == i + 2 && scan_unit(s, i).1
            == SpecUnit::Tok(crate::model::plain_tok(s, i, i + 2, paired_tag(s[i]))),
        !(i + 1 < s.len() && s[i + 1] == '=') ==> scan_unit(s, i).0 == i + 1 && scan_unit(s, i).1
            == SpecUnit::Tok(crate::model::plain_tok(s, i, i + 1, bare_tag(s[i]))),
{
}

/// Law: maximal munch over the whole alphanumeric run, before any keyword
/// lookup.  A unit opened by a letter or underscore is one single token whose
/// lexeme is the entire run; only the complete lexeme is held against the
/// reserved-word table, so a word that merely begins with a reserved spelling
/// stays one generic word token.
pub proof fn lemma_word_maximal_munch(s: Seq<char>, i: int)
    requires
        0 <= i < s.len(),
        is_alpha(s[i]),
    ensures
        ({
            let e = run_end(s, i + 1, alnum_pred());
            let w = s.subrange(i, e);
            &&& scan_unit(s, i).0 == e
            &&& forall|j: int| i <= j < e ==> is_alnum(s[j])
            &&& e == s.len() || !is_alnum(s[e])
            &&& scan_unit(s, i).1 matches SpecUnit::Tok(t) && t.lexeme == w && t.tag == (
            match keyword_of(w) {
                Some(k) => k,
                None => TokenType::Word,
            }) && (keyword_of(w) is None ==> t.value == Some(
                crate::value::SpecValue::Word(w),
            ))
        }),
{
    lemma_run_end(s, i + 1, alnum_pred());
    assert(forall|j: int| i + 1 <= j < run_end(s, i + 1, alnum_pred()) ==> is_alnum(s[j]));
}

/// Law: every token reports the 1-based line of its own first character —
/// for a string literal, the line of its opening quote, however many lines
/// the literal spans.
pub proof fn lemma_token_line(s: Seq<char>, i: int)
    requires
        0 <= i < s.len(),
    ensures
        scan_unit(s, i).1 matches SpecUnit::Tok(t) ==> t.line == line_at(s, i),
{
}

/// The line of a position counts the newline-delimited lines: it is one more
/// than the number of newline characters strictly before it.
pub proof fn lemma_line_at_counts_newlines(s: Seq<char>, i: int)
    requires
        0 <= i <= s.len(),
    ensures
        line_at(s, i) == 1 + s.subrange(0, i).filter(|c: char| c == '\n').len(),
    decreases i,
{
    reveal(Seq::filter);
    let pred = |c: char| c == '\n';
    if i == 0 {
        assert(s.subrange(0, 0).filter(pred) =~= Seq::<char>::empty());
    } else {
        lemma_line_at_counts_newlines(s, i - 1);
        let w = s.subrange(0, i);
        assert(w.drop_last() =~= s.subrange(0, i - 1));
        assert(w.filter(pred) == if pred(w.last()) {
            w.drop_last().filter(pred).push(w.last())
        } else {
            w.drop_last().filter(pred)
        });
    }
}

/// The source text consumed from position `i` on, unit window by unit
/// window: token lexemes together with the discarded whitespace, comment and
/// error windows.
pub open spec fn texts_from(s: Seq<char>, i: int) -> Seq<char>
    decreases s.len() - i,
{
    if !(0 <= i < s.len()) {
        Seq::empty()
    } else {
        let e = scan_unit(s, i).0;
        if i < e <= s.len() {
            s.subrange(i, e) + texts_from(s, e)
        } else {
            s.subrange(i, s.len() as int)
        }
    }
}

/// Law (round trip, first half): the unit windows cover the source exactly —
/// concatenated in order, with nothing missing and nothing doubled, they
/// rebuild the input.
pub proof fn lemma_windows_cover(s: Seq<char>, i: int)
    requires
        0 <= i <= s.len(),
    ensures
        texts_from(s, i) == s.subrange(i, s.len() as int),
    decreases s.len() - i,
{
    if i < s.len() {
        lemma_scan_unit_bounds(s, i);
        let e = scan_unit(s, i).0;
        lemma_windows_cover(s, e);
        assert(s.subrange(i, e) + s.subrange(e, s.len() as int) =~= s.subrange(
            i,
            s.len() as int,
        ));
    } else {
        assert(texts_from(s, i) =~= s.subrange(i, s.len() as int));
    }
}

/// Law (round trip, second half): a token's lexeme is exactly its unit's
/// window, so on an input whose units all produce tokens, concatenating the
/// returned lexemes rebuilds the source; comment, whitespace and error
/// windows are the only text not carried by a token, and the end-marker adds
/// nothing.
pub proof fn lemma_token_text(s: Seq<char>, i: int)
    requires
        0 <= i < s.len(),
    ensures
        scan_unit(s, i).1 matches SpecUnit::Tok(t) ==> t.lexeme == s.subrange(
            i,
            scan_unit(s, i).0,
        ),
{
}

/// Law: the whole scan rebuilds the whole source from position 0.
pub proof fn lemma_round_trip(s: Seq<char>)
    ensures
        texts_from(s, 0) == s,
{
    lemma_windows_cover(s, 0);
    assert(s.subrange(0, s.len() as int) =~= s);
}

} // verus!
