use crate::model::lemma_line_at_bounds;
use crate::model::line_at;
use crate::model::run_end;
use vstd::prelude::*;
use vstd::string::StrSliceExecFns;

verus! {

/// Character cursor over the source: the character sequence, a two-offset
/// lexeme window (`lo .. pos`), and a running 1-based line counter.
///
/// Inspecting (`peek`, `copy`) never moves the cursor; consuming (`next` and
/// its derivatives) moves `pos` forward one character at a time, counting
/// newlines; `cut` closes the window by advancing `lo` to `pos`.
pub struct Cutter {
    pub input: Vec<char>,
    pub start: usize,
    pub current: usize,
    pub line: usize,
}

impl Cutter {
    /// The scanned character sequence.
    pub open spec fn src(self) -> Seq<char> {
        self.input@
    }

    /// Opening offset of the lexeme window.
    pub open spec fn lo(self) -> int {
        self.start as int
    }

    /// Offset of the next unconsumed character.
    pub open spec fn pos(self) -> int {
        self.current as int
    }

    /// Well-formedness: the window offsets are ordered and in range, and the
    /// line counter is exactly the line of the next unconsumed position.
    pub open spec fn wf(self) -> bool {
        &&& 0 <= self.lo() <= self.pos() <= self.src().len()
        &&& self.src().len() < usize::MAX as int
        &&& self.line as int == line_at(self.src(), self.pos())
    }

    pub fn new(input: &str) -> (c: Cutter)
        requires
            input@.len() < usize::MAX as nat,
        ensures
            c.wf(),
            c.src() == input@,
            c.lo() == 0,
            c.pos() == 0,
            c.line == 1,
    {
        let n = input.unicode_len();
        let mut v: Vec<char> = Vec::new();
        let mut i: usize = 0;
        while i < n
            invariant
                n as nat == input@.len(),
                i <= n,
                v@ == input@.subrange(0, i as int),
            decreases n - i,
        {
            v.push(input.get_char(i));
            proof {
                assert(v@ =~= input@.subrange(0, i + 1 as int));
            }
            i += 1;
        }
        proof {
            assert(v@ =~= input@);
        }
        Cutter { input: v, start: 0, current: 0, line: 1 }
    }

    /// The current lexeme window `src[lo .. pos]`, without moving anything.
    pub fn copy(&self) -> (r: Vec<char>)
        requires
            self.wf(),
        ensures
            r@ == self.src().subrange(self.lo(), self.pos()),
    {
        let mut r: Vec<char> = Vec::new();
        let mut i: usize = self.start;
        while i < self.current
            invariant
                self.start <= i <= self.current,
                self.current <= self.input.len(),
                r@ == self.input@.subrange(self.start as int, i as int),
            decreases self.current - i,
        {
            r.push(self.input[i]);
            proof {
                assert(r@ =~= self.input@.subrange(self.start as int, i + 1 as int));
            }
            i += 1;
        }
        r
    }

    /// The current lexeme window, and then closes it: `lo` catches up with
    /// `pos`, beginning the next window.
    pub fn cut(&mut self) -> (r: Vec<char>)
        requires
            old(self).wf(),
        ensures
            final(self).wf(),
            final(self).src() == old(self).src(),
            final(self).pos() == old(self).pos(),
            final(self).lo() == final(self).pos(),
            final(self).line == old(self).line,
            r@ == old(self).src().subrange(old(self).lo(), old(self).pos()),
    {
        let lexeme = self.copy();
        self.start = self.current;
        lexeme
    }

    /// The character at `pos`, without consuming it.
    pub fn peek(&self) -> (r: Option<char>)
        requires
            self.wf(),
        ensures
            r == (if self.pos() < self.src().len() {
                Some(self.src()[self.pos()])
            } else {
                None::<char>
            }),
    {
        if self.current < self.input.len() {
            Some(self.input[self.current])
        } else {
            None
        }
    }

    /// The character just after `pos`, without consuming anything: the second
    /// character of lookahead.
    pub fn peek_next(&self) -> (r: Option<char>)
        requires
            self.wf(),
        ensures
            r == (if self.pos() + 1 < self.src().len() {
                Some(self.src()[self.pos() + 1])
            } else {
                None::<char>
            }),
    {
        if self.current + 1 < self.input.len() {
            Some(self.input[self.current + 1])
        } else {
            None
        }
    }

    /// Consumes and returns the character at `pos`; counts a consumed newline
    /// on the line counter.  At end of input: `None`, and no effect.
    pub fn next(&mut self) -> (r: Option<char>)
        requires
            old(self).wf(),
        ensures
            final(self).wf(),
            final(self).src() == old(self).src(),
            final(self).lo() == old(self).lo(),
            old(self).pos() < old(self).src().len() ==> r == Some(
                old(self).src()[old(self).pos()],
            ) && final(self).pos() == old(self).pos() + 1,
            old(self).pos() >= old(self).src().len() ==> r == None::<char> && final(self).pos()
                == old(self).pos() && final(self).line == old(self).line,
    {
        let symbol = self.peek();
        if let Some(c) = symbol {
            if c == '\n' {
                proof {
                    lemma_line_at_bounds(self.src(), self.pos());
                }
                self.line = self.line + 1;
            }
            self.current = self.current + 1;
        }
        symbol
    }

    /// Consumes the next character exactly when `pred` accepts it; reports
    /// whether it did.  `p` is the meaning of `pred`.
    pub fn next_if<Pred: Fn(char) -> bool>(
        &mut self,
        pred: Pred,
        Ghost(p): Ghost<spec_fn(char) -> bool>,
    ) -> (r: bool)
        requires
            old(self).wf(),
            forall|c: char| #[trigger] call_requires(pred, (c,)),
            forall|c: char, b: bool| call_ensures(pred, (c,), b) ==> b == p(c),
        ensures
            final(self).wf(),
            final(self).src() == old(self).src(),
            final(self).lo() == old(self).lo(),
            r == (old(self).pos() < old(self).src().len() && p(
                old(self).src()[old(self).pos()],
            )),
            r ==> final(self).pos() == old(self).pos() + 1,
            !r ==> final(self).pos() == old(self).pos() && final(self).line == old(self).line,
    {
        let cond = match self.peek() {
            Some(c) => pred(c),
            None => false,
        };
        if cond {
            let _ = self.next();
        }
        cond
    }

    /// Consumes the next character exactly when it is `c`.
    pub fn next_eq(&mut self, c: char) -> (r: bool)
        requires
            old(self).wf(),
        ensures
            final(self).wf(),
            final(self).src() == old(self).src(),
            final(self).lo() == old(self).lo(),
            r == (old(self).pos() < old(self).src().len() && old(self).src()[old(self).pos()]
                == c),
            r ==> final(self).pos() == old(self).pos() + 1,
            !r ==> final(self).pos() == old(self).pos() && final(self).line == old(self).line,
    {
        let cond = match self.peek() {
            Some(x) => x == c,
            None => false,
        };
        if cond {
            let _ = self.next();
        }
        cond
    }

    /// Consumes the greedy run of characters accepted by `pred`: afterwards
    /// `pos` stands at the end of the run that began at the old `pos`.
    pub fn next_while<Pred: Fn(char) -> bool>(
        &mut self,
        pred: Pred,
        Ghost(p): Ghost<spec_fn(char) -> bool>,
    )
        requires
            old(self).wf(),
            forall|c: char| #[trigger] call_requires(pred, (c,)),
            forall|c: char, b: bool| call_ensures(pred, (c,), b) ==> b == p(c),
        ensures
            final(self).wf(),
            final(self).src() == old(self).src(),
            final(self).lo() == old(self).lo(),
            final(self).pos() == run_end(old(self).src(), old(self).pos(), p),
    {
        let ghost s0 = self.src();
        let ghost i0 = self.pos();
        let ghost l0 = self.lo();
        loop
            invariant
                self.wf(),
                self.src() == s0,
                self.lo() == l0,
                i0 <= self.pos() <= s0.len(),
                run_end(s0, self.pos(), p) == run_end(s0, i0, p),
                forall|c: char| #[trigger] call_requires(pred, (c,)),
                forall|c: char, b: bool| call_ensures(pred, (c,), b) ==> b == p(c),
            ensures
                self.wf(),
                self.src() == s0,
                self.lo() == l0,
                self.pos() == run_end(s0, i0, p),
            decreases s0.len() - self.pos(),
        {
            let cont = match self.peek() {
                Some(c) => pred(c),
                None => false,
            };
            if !cont {
                proof {
                    assert(run_end(s0, self.pos(), p) == self.pos());
                }
                break ;
            }
            let _ = self.next();
        }
    }

    /// Whether the whole input has been consumed.
    pub fn eof(&self) -> (r: bool)
        requires
            self.wf(),
        ensures
            r == (self.pos() == self.src().len()),
    {
        self.peek().is_none()
    }
}

} // verus!
