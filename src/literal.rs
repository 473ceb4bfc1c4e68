//! Exact matching of a fixed byte sequence.
use vstd::prelude::*;
use crate::parser::{same_behaviour, EndStep, ParseError, Parser, Step};
use vstd::string::StringSliceAdditionalSpecFns;

verus! {

/// Matches an exact byte sequence; its output is `()`.
pub struct LiteralParser {
    pub literal: Vec<u8>,
}

/// How many bytes of the literal have matched so far.
#[derive(Clone, Copy, Debug, PartialEq, Eq, Structural)]
pub struct LiteralState {
    pub matched: usize,
}

impl DeepView for LiteralState {
    type V = LiteralState;

    open spec fn deep_view(&self) -> LiteralState {
        *self
    }
}

impl LiteralParser {
    pub fn new(literal: &str) -> (r: LiteralParser)
        ensures
            r.literal@ == literal.spec_bytes(),
    {
        LiteralParser { literal: vstd::slice::slice_to_vec(literal.as_bytes()) }
    }
}

impl Parser for LiteralParser {
    type PartialState = LiteralState;
    type Output = ();

    open spec fn wf(&self) -> bool {
        true
    }

    open spec fn state_inv(&self, st: LiteralState) -> bool {
        st.matched <= self.literal@.len()
    }

    open spec fn spec_start(&self) -> LiteralState {
        LiteralState { matched: 0 }
    }

    open spec fn spec_feed(&self, st: LiteralState, b: u8) -> Result<Step<LiteralState, ()>, ParseError> {
        let m = st.matched as int;
        if m >= self.literal@.len() {
            Ok(Step::Done((), false))
        } else if b != self.literal@[m] {
            Err(ParseError::LiteralMismatch { expected: self.literal@[m], found: b })
        } else if m + 1 == self.literal@.len() {
            Ok(Step::Done((), true))
        } else {
            Ok(Step::Continue(LiteralState { matched: (m + 1) as usize }))
        }
    }

    open spec fn spec_end(&self, st: LiteralState) -> Result<EndStep<LiteralState, ()>, ParseError> {
        if st.matched >= self.literal@.len() {
            Ok(EndStep::Value(()))
        } else {
            Ok(EndStep::Pending(st))
        }
    }

    fn create_parser_state(&self) -> (r: LiteralState) {
        LiteralState { matched: 0 }
    }

    fn feed(&self, st: LiteralState, b: u8) -> (r: Result<Step<LiteralState, ()>, ParseError>) {
        let m = st.matched;
        if m >= self.literal.len() {
            Ok(Step::Done((), false))
        } else if b != self.literal[m] {
            Err(ParseError::LiteralMismatch { expected: self.literal[m], found: b })
        } else if m + 1 == self.literal.len() {
            Ok(Step::Done((), true))
        } else {
            Ok(Step::Continue(LiteralState { matched: m + 1 }))
        }
    }

    fn end(&self, st: LiteralState) -> (r: Result<EndStep<LiteralState, ()>, ParseError>) {
        if st.matched >= self.literal.len() {
            Ok(EndStep::Value(()))
        } else {
            Ok(EndStep::Pending(st))
        }
    }

    fn duplicate_state(&self, st: &LiteralState) -> (r: LiteralState) {
        *st
    }

    fn duplicate_output(&self, o: &()) -> (r: ()) {
        ()
    }
}

/// Literals of the same bytes behave alike.
pub proof fn lemma_literal_same(p: LiteralParser, q: LiteralParser)
    requires
        p.literal@ == q.literal@,
    ensures
        same_behaviour(p, q),
{
}

} // verus!
