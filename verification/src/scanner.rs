use crate::cutter::Cutter;
use crate::diag::Diagnostic;
use crate::diag::ErrKind;
use crate::diag::SpecDiag;
use crate::keywords;
use crate::model::alnum_pred;
use crate::model::ch_is_alnum;
use crate::model::ch_is_alpha;
use crate::model::ch_is_digit;
use crate::model::ch_is_space;
use crate::model::digit_pred;
use crate::model::eof_tok;
use crate::model::is_alnum;
use crate::model::is_digit;
use crate::model::lemma_run_end;
use crate::model::lemma_scan_unit_bounds;
use crate::model::lemma_units_from_step;
use crate::model::line_at;
use crate::model::maybe_equal_tok;
use crate::model::not_newline_pred;
use crate::model::not_quote_pred;
use crate::model::number_tok;
use crate::model::scan_unit;
use crate::model::slash_unit;
use crate::model::spec_diags;
use crate::model::spec_tokens;
use crate::model::string_unit;
use crate::model::unit_diags;
use crate::model::unit_toks;
use crate::model::units_from;
use crate::model::word_tok;
use crate::model::SpecUnit;
use crate::token::view_value;
use crate::token::SpecToken;
use crate::token::Token;
use crate::token_type::TokenType;
use crate::value::Value;
use vstd::prelude::*;

verus! {

/// The models of a sequence of tokens.
pub open spec fn tok_views(ts: Seq<Token>) -> Seq<SpecToken> {
    ts.map_values(|t: Token| t@)
}

/// The models of a sequence of diagnostics.
pub open spec fn diag_views(ds: Seq<Diagnostic>) -> Seq<SpecDiag> {
    ds.map_values(|d: Diagnostic| d@)
}

proof fn lemma_tok_views_push(ts: Seq<Token>, t: Token)
    ensures
        tok_views(ts.push(t)) == tok_views(ts).push(t@),
{
    assert(tok_views(ts.push(t)) =~= tok_views(ts).push(t@));
}

proof fn lemma_diag_views_push(ds: Seq<Diagnostic>, d: Diagnostic)
    ensures
        diag_views(ds.push(d)) == diag_views(ds).push(d@),
{
    assert(diag_views(ds.push(d)) =~= diag_views(ds).push(d@));
}

/// Scans a complete source string.  On a clean input the full token
/// sequence, ending in the end-marker, is returned; if any lexical error
/// occurred, the partial token list is discarded and all diagnostics are
/// returned instead, in the order they arose.
pub fn scan(input: &str) -> (r: Result<Vec<Token>, Vec<Diagnostic>>)
    requires
        input@.len() < usize::MAX as nat,
    ensures
        match r {
            Ok(tokens) => spec_diags(input@).len() == 0 && tok_views(tokens@) == spec_tokens(
                input@,
            ),
            Err(failures) => spec_diags(input@).len() > 0 && diag_views(failures@) == spec_diags(
                input@,
            ),
        },
{
    let mut scanner = Scanner::new(input);
    scanner.scan();
    proof {
        assert(Seq::<SpecToken>::empty() + unit_toks(units_from(input@, 0)) + seq![
            eof_tok(input@),
        ] =~= spec_tokens(input@));
        assert(Seq::<SpecDiag>::empty() + unit_diags(units_from(input@, 0)) =~= spec_diags(
            input@,
        ));
    }
    if scanner.error {
        Err(scanner.diags)
    } else {
        Ok(scanner.output)
    }
}

/// Drives a `Cutter` over the whole input, dispatching on each character to
/// the matching recognition rule and accumulating tokens and diagnostics.
pub struct Scanner {
    output: Vec<Token>,
    error: bool,
    diags: Vec<Diagnostic>,
    cutter: Cutter,
}

impl Scanner {
    /// The source being scanned.
    pub closed spec fn src(self) -> Seq<char> {
        self.cutter.src()
    }

    /// Offset of the next unconsumed character.
    pub closed spec fn pos(self) -> int {
        self.cutter.pos()
    }

    /// Models of the tokens accumulated so far.
    pub closed spec fn toks(self) -> Seq<SpecToken> {
        tok_views(self.output@)
    }

    /// Models of the diagnostics reported so far.
    pub closed spec fn errs(self) -> Seq<SpecDiag> {
        diag_views(self.diags@)
    }

    /// Whether a lexical error has been reported: set once, never cleared.
    pub closed spec fn failed(self) -> bool {
        self.error
    }

    /// Between lexical units: the cursor is well-formed, its lexeme window is
    /// closed, and the error flag agrees with the diagnostics.
    pub closed spec fn inv(self) -> bool {
        &&& self.cutter.wf()
        &&& self.cutter.lo() == self.cutter.pos()
        &&& self.error == (self.errs().len() > 0)
    }

    pub fn new(input: &str) -> (sc: Scanner)
        requires
            input@.len() < usize::MAX as nat,
        ensures
            sc.inv(),
            sc.src() == input@,
            sc.pos() == 0,
            sc.toks() == Seq::<SpecToken>::empty(),
            sc.errs() == Seq::<SpecDiag>::empty(),
            !sc.failed(),
    {
        let sc = Scanner {
            output: Vec::new(),
            error: false,
            diags: Vec::new(),
            cutter: Cutter::new(input),
        };
        proof {
            assert(sc.toks() =~= Seq::<SpecToken>::empty());
            assert(sc.errs() =~= Seq::<SpecDiag>::empty());
        }
        sc
    }

    /// Scans every remaining lexical unit, then appends the end-marker.
    pub fn scan(&mut self)
        requires
            old(self).inv(),
        ensures
            final(self).inv(),
            final(self).src() == old(self).src(),
            final(self).pos() == old(self).src().len(),
            final(self).toks() == old(self).toks() + unit_toks(
                units_from(old(self).src(), old(self).pos()),
            ) + seq![eof_tok(old(self).src())],
            final(self).errs() == old(self).errs() + unit_diags(
                units_from(old(self).src(), old(self).pos()),
            ),
            final(self).failed() == (old(self).failed() || unit_diags(
                units_from(old(self).src(), old(self).pos()),
            ).len() > 0),
    {
        let ghost s0 = self.src();
        let ghost p0 = self.pos();
        let ghost t0 = self.toks();
        let ghost d0 = self.errs();
        let ghost e0 = self.error;
        while !self.cutter.eof()
            invariant
                self.inv(),
                self.src() == s0,
                p0 <= self.pos() <= s0.len(),
                t0 + unit_toks(units_from(s0, p0)) == self.toks() + unit_toks(
                    units_from(s0, self.pos()),
                ),
                d0 + unit_diags(units_from(s0, p0)) == self.errs() + unit_diags(
                    units_from(s0, self.pos()),
                ),
                d0.len() <= self.errs().len(),
                self.error == (e0 || self.errs().len() > d0.len()),
            decreases s0.len() - self.pos(),
        {
            let ghost p = self.pos();
            let ghost toksb = self.toks();
            let ghost errsb = self.errs();
            self.scan_token();
            proof {
                lemma_units_from_step(s0, p);
                lemma_scan_unit_bounds(s0, p);
                let e = scan_unit(s0, p).0;
                match scan_unit(s0, p).1 {
                    SpecUnit::Tok(t) => {
                        assert(toksb + (seq![t] + unit_toks(units_from(s0, e))) =~= toksb.push(t)
                            + unit_toks(units_from(s0, e)));
                        assert(errsb + (Seq::<SpecDiag>::empty() + unit_diags(units_from(s0, e)))
                            =~= errsb + unit_diags(units_from(s0, e)));
                    },
                    SpecUnit::Skip => {
                        assert(toksb + (Seq::<SpecToken>::empty() + unit_toks(units_from(s0, e)))
                            =~= toksb + unit_toks(units_from(s0, e)));
                        assert(errsb + (Seq::<SpecDiag>::empty() + unit_diags(units_from(s0, e)))
                            =~= errsb + unit_diags(units_from(s0, e)));
                    },
                    SpecUnit::Fault(d) => {
                        assert(toksb + (Seq::<SpecToken>::empty() + unit_toks(units_from(s0, e)))
                            =~= toksb + unit_toks(units_from(s0, e)));
                        assert(errsb + (seq![d] + unit_diags(units_from(s0, e))) =~= errsb.push(d)
                            + unit_diags(units_from(s0, e)));
                    },
                }
            }
        }
        proof {
            assert(unit_toks(units_from(s0, self.pos())) =~= Seq::<SpecToken>::empty());
            assert(unit_diags(units_from(s0, self.pos())) =~= Seq::<SpecDiag>::empty());
            assert(self.toks() + Seq::<SpecToken>::empty() =~= self.toks());
            assert(self.errs() + Seq::<SpecDiag>::empty() =~= self.errs());
        }
        let line = self.cutter.line;
        self.add_token(TokenType::Eof, None, line);
        proof {
            assert(self.src().subrange(self.pos(), self.pos()) =~= Seq::<char>::empty());
            assert(t0 + unit_toks(units_from(s0, p0)) + seq![eof_tok(s0)] =~= (t0 + unit_toks(
                units_from(s0, p0),
            )).push(eof_tok(s0)));
        }
    }

    /// Scans one lexical unit: consumes exactly its characters and appends
    /// its token or diagnostic, if it produces one.
    fn scan_token(&mut self)
        requires
            old(self).inv(),
            old(self).pos() < old(self).src().len(),
        ensures
            final(self).inv(),
            final(self).src() == old(self).src(),
            final(self).pos() == scan_unit(old(self).src(), old(self).pos()).0,
            match scan_unit(old(self).src(), old(self).pos()).1 {
                SpecUnit::Tok(t) => final(self).toks() == old(self).toks().push(t) && final(self).errs() == old(self).errs() && final(self).error == old(self).error,
                SpecUnit::Skip => final(self).toks() == old(self).toks() && final(self).errs()
                    == old(self).errs() && final(self).error == old(self).error,
                SpecUnit::Fault(d) => final(self).toks() == old(self).toks() && final(self).errs()
                    == old(self).errs().push(d) && final(self).error,
            },
    {
        let ghost s0 = self.src();
        let ghost i0 = self.pos();
        let line = self.cutter.line;
        let c = self.cutter.next().unwrap();
        if c == '(' {
            self.add_token(TokenType::LeftParen, None, line);
        } else if c == ')' {
            self.add_token(TokenType::RightParen, None, line);
        } else if c == '{' {
            self.add_token(TokenType::LeftBrace, None, line);
        } else if c == '}' {
            self.add_token(TokenType::RightBrace, None, line);
        } else if c == ',' {
            self.add_token(TokenType::Comma, None, line);
        } else if c == '.' {
            self.add_token(TokenType::Dot, None, line);
        } else if c == '-' {
            self.add_token(TokenType::Minus, None, line);
        } else if c == '+' {
            self.add_token(TokenType::Plus, None, line);
        } else if c == ';' {
            self.add_token(TokenType::Semicolon, None, line);
        } else if c == '*' {
            self.add_token(TokenType::Star, None, line);
        } else if c == '!' {
            self.add_maybe_equal(TokenType::Bang, TokenType::BangEqual, line);
        } else if c == '<' {
            self.add_maybe_equal(TokenType::Less, TokenType::LessEqual, line);
        } else if c == '=' {
            self.add_maybe_equal(TokenType::Equal, TokenType::EqualEqual, line);
        } else if c == '>' {
            self.add_maybe_equal(TokenType::Greater, TokenType::GreaterEqual, line);
        } else if c == '"' {
            self.string(line);
        } else if c == '/' {
            self.slash(line);
        } else if ch_is_space(c) {
            let _ = self.cutter.cut();
        } else if ch_is_alpha(c) {
            self.word(line);
        } else if ch_is_digit(c) {
            self.number(line);
        } else {
            self.report(ErrKind::UnexpectedChar(c), line);
            let _ = self.cutter.cut();
        }
    }

    /// The one- or two-character operator rule: consume a following `=` when
    /// there is one, and emit the corresponding category.
    fn add_maybe_equal(&mut self, operator: TokenType, operator_equal: TokenType, line: usize)
        requires
            old(self).cutter.wf(),
            old(self).cutter.lo() + 1 == old(self).cutter.pos(),
            line as int == line_at(old(self).cutter.src(), old(self).cutter.lo()),
        ensures
            final(self).cutter.wf(),
            final(self).cutter.src() == old(self).cutter.src(),
            final(self).cutter.lo() == final(self).cutter.pos(),
            final(self).errs() == old(self).errs(),
            final(self).error == old(self).error,
            final(self).cutter.pos() == maybe_equal_tok(
                old(self).cutter.src(),
                old(self).cutter.lo(),
                operator,
                operator_equal,
            ).0,
            final(self).toks() == old(self).toks().push(
                maybe_equal_tok(
                    old(self).cutter.src(),
                    old(self).cutter.lo(),
                    operator,
                    operator_equal,
                ).1,
            ),
    {
        let hit = self.cutter.next_eq('=');
        let tag = if hit {
            operator_equal
        } else {
            operator
        };
        self.add_token(tag, None, line);
    }

    /// Closes the lexeme window and appends a token made of it.
    fn add_token(&mut self, tag: TokenType, value: Option<Value>, line: usize)
        requires
            old(self).cutter.wf(),
        ensures
            final(self).cutter.wf(),
            final(self).cutter.src() == old(self).cutter.src(),
            final(self).cutter.pos() == old(self).cutter.pos(),
            final(self).cutter.lo() == final(self).cutter.pos(),
            final(self).cutter.line == old(self).cutter.line,
            final(self).toks() == old(self).toks().push(
                (SpecToken {
                    tag,
                    lexeme: old(self).cutter.src().subrange(
                        old(self).cutter.lo(),
                        old(self).cutter.pos(),
                    ),
                    value: view_value(value),
                    line: line as int,
                }),
            ),
            final(self).errs() == old(self).errs(),
            final(self).error == old(self).error,
    {
        let lexeme = self.cutter.cut();
        let token = Token::new(tag, lexeme, value, line);
        proof {
            lemma_tok_views_push(self.output@, token);
        }
        self.output.push(token);
    }

    /// The identifier rule: take the whole alphanumeric run, then consult the
    /// reserved-word table.
    fn word(&mut self, line: usize)
        requires
            old(self).cutter.wf(),
            old(self).cutter.lo() + 1 == old(self).cutter.pos(),
            line as int == line_at(old(self).cutter.src(), old(self).cutter.lo()),
        ensures
            final(self).cutter.wf(),
            final(self).cutter.src() == old(self).cutter.src(),
            final(self).cutter.lo() == final(self).cutter.pos(),
            final(self).errs() == old(self).errs(),
            final(self).error == old(self).error,
            final(self).cutter.pos() == word_tok(
                old(self).cutter.src(),
                old(self).cutter.lo(),
            ).0,
            final(self).toks() == old(self).toks().push(
                word_tok(old(self).cutter.src(), old(self).cutter.lo()).1,
            ),
    {
        let f = |c: char| -> (b: bool)
            ensures
                b == is_alnum(c),
            { ch_is_alnum(c) };
        self.cutter.next_while(f, Ghost(alnum_pred()));
        let lexeme = self.cutter.copy();
        match keywords::get(&lexeme) {
            Some(keyword) => self.add_token(keyword, None, line),
            None => self.add_token(TokenType::Word, Some(Value::Word(lexeme)), line),
        }
    }

    /// The number rule: the integer digit run, then a fractional part only
    /// when the dot is followed by another digit.
    fn number(&mut self, line: usize)
        requires
            old(self).cutter.wf(),
            old(self).cutter.lo() + 1 == old(self).cutter.pos(),
            line as int == line_at(old(self).cutter.src(), old(self).cutter.lo()),
        ensures
            final(self).cutter.wf(),
            final(self).cutter.src() == old(self).cutter.src(),
            final(self).cutter.lo() == final(self).cutter.pos(),
            final(self).errs() == old(self).errs(),
            final(self).error == old(self).error,
            final(self).cutter.pos() == number_tok(
                old(self).cutter.src(),
                old(self).cutter.lo(),
            ).0,
            final(self).toks() == old(self).toks().push(
                number_tok(old(self).cutter.src(), old(self).cutter.lo()).1,
            ),
    {
        let f = |c: char| -> (b: bool)
            ensures
                b == is_digit(c),
            { ch_is_digit(c) };
        self.cutter.next_while(f, Ghost(digit_pred()));
        let c1 = self.cutter.peek();
        let c2 = self.cutter.peek_next();
        let frac = match (c1, c2) {
            (Some(d), Some(a)) => d == '.' && ch_is_digit(a),
            _ => false,
        };
        if frac {
            let _ = self.cutter.next();
            let g = |c: char| -> (b: bool)
                ensures
                    b == is_digit(c),
                { ch_is_digit(c) };
            self.cutter.next_while(g, Ghost(digit_pred()));
        }
        let lexeme = self.cutter.copy();
        self.add_token(TokenType::Number, Some(Value::Number(lexeme)), line);
    }

    /// The string rule: everything up to the closing quote; reaching end of
    /// input first reports the unterminated-string error and produces no
    /// token.
    fn string(&mut self, line: usize)
        requires
            old(self).cutter.wf(),
            old(self).cutter.lo() + 1 == old(self).cutter.pos(),
            line as int == line_at(old(self).cutter.src(), old(self).cutter.lo()),
        ensures
            final(self).cutter.wf(),
            final(self).cutter.src() == old(self).cutter.src(),
            final(self).cutter.lo() == final(self).cutter.pos(),
            final(self).cutter.pos() == string_unit(
                old(self).cutter.src(),
                old(self).cutter.lo(),
            ).0,
            match string_unit(old(self).cutter.src(), old(self).cutter.lo()).1 {
                SpecUnit::Tok(t) => final(self).toks() == old(self).toks().push(t) && final(self).errs() == old(self).errs() && final(self).error == old(self).error,
                SpecUnit::Skip => false,
                SpecUnit::Fault(d) => final(self).toks() == old(self).toks() && final(self).errs()
                    == old(self).errs().push(d) && final(self).error,
            },
    {
        let ghost s0 = self.cutter.src();
        let ghost i0 = self.cutter.lo();
        let f = |c: char| -> (b: bool)
            ensures
                b == (c != '"'),
            { c != '"' };
        self.cutter.next_while(f, Ghost(not_quote_pred()));
        proof {
            lemma_run_end(s0, i0 + 1, not_quote_pred());
        }
        if self.cutter.eof() {
            let l = self.cutter.line;
            self.report(ErrKind::UnterminatedString, l);
            let _ = self.cutter.cut();
            return ;
        }
        let _ = self.cutter.next();
        let full = self.cutter.copy();
        let content = subvec(&full, 1, full.len() - 1);
        proof {
            let body = crate::model::run_end(s0, i0 + 1, not_quote_pred());
            assert(full@.subrange(1, full@.len() - 1) =~= s0.subrange(i0 + 1, body));
        }
        self.add_token(TokenType::Str, Some(Value::Str(content)), line);
    }

    /// The slash rule: a second slash opens a line comment, discarded up to
    /// the newline; otherwise the division operator is emitted.
    fn slash(&mut self, line: usize)
        requires
            old(self).cutter.wf(),
            old(self).cutter.lo() + 1 == old(self).cutter.pos(),
            line as int == line_at(old(self).cutter.src(), old(self).cutter.lo()),
        ensures
            final(self).cutter.wf(),
            final(self).cutter.src() == old(self).cutter.src(),
            final(self).cutter.lo() == final(self).cutter.pos(),
            final(self).errs() == old(self).errs(),
            final(self).error == old(self).error,
            final(self).cutter.pos() == slash_unit(
                old(self).cutter.src(),
                old(self).cutter.lo(),
            ).0,
            match slash_unit(old(self).cutter.src(), old(self).cutter.lo()).1 {
                SpecUnit::Tok(t) => final(self).toks() == old(self).toks().push(t),
                SpecUnit::Skip => final(self).toks() == old(self).toks(),
                SpecUnit::Fault(d) => false,
            },
    {
        if self.cutter.next_eq('/') {
            let f = |c: char| -> (b: bool)
                ensures
                    b == (c != '\n'),
                { c != '\n' };
            self.cutter.next_while(f, Ghost(not_newline_pred()));
            let _ = self.cutter.cut();
        } else {
            self.add_token(TokenType::Slash, None, line);
        }
    }

    /// Records a diagnostic and raises the error flag.
    fn report(&mut self, kind: ErrKind, line: usize)
        ensures
            final(self).cutter == old(self).cutter,
            final(self).toks() == old(self).toks(),
            final(self).errs() == old(self).errs().push((SpecDiag { line: line as int, kind })),
            final(self).error,
    {
        let d = Diagnostic { line, kind };
        proof {
            lemma_diag_views_push(self.diags@, d);
        }
        self.diags.push(d);
        self.error = true;
    }
}

/// The sub-window `v[from .. to]` as a fresh vector.
fn subvec(v: &Vec<char>, from: usize, to: usize) -> (r: Vec<char>)
    requires
        from <= to <= v@.len(),
    ensures
        r@ == v@.subrange(from as int, to as int),
{
    let mut r: Vec<char> = Vec::new();
    let mut i: usize = from;
    while i < to
        invariant
            from <= i <= to,
            to <= v@.len(),
            r@ == v@.subrange(from as int, i as int),
        decreases to - i,
    {
        r.push(v[i]);
        proof {
            assert(r@ =~= v@.subrange(from as int, i + 1 as int));
        }
        i += 1;
    }
    r
}

} // verus!
