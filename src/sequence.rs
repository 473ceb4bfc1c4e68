//! Two parsers one after the other.
use vstd::prelude::*;
use crate::parser::{end_view, same_behaviour, step_view, EndStep, ParseError, Parser, Step};

verus! {

/// Parses `first`, then `second` on the bytes that follow; the output is the
/// pair of their outputs. A byte that completes `first` without belonging to
/// it goes straight to `second`.
pub struct SequenceParser<A, B> {
    pub first: A,
    pub second: B,
}

/// Which of the two parsers is active; in the second phase, the first
/// parser's output.
#[derive(Clone, Debug, PartialEq, Eq)]
pub enum SequenceState<SA, OA, SB> {
    First(SA),
    Second(OA, SB),
}

impl<SA: DeepView, OA: DeepView, SB: DeepView> DeepView for SequenceState<SA, OA, SB> {
    type V = SequenceState<SA::V, OA::V, SB::V>;

    open spec fn deep_view(&self) -> Self::V {
        match self {
            SequenceState::First(a) => SequenceState::First(a.deep_view()),
            SequenceState::Second(o, b) => SequenceState::Second(o.deep_view(), b.deep_view()),
        }
    }
}

impl<A: Parser, B: Parser> SequenceParser<A, B> {
    pub fn new(first: A, second: B) -> (r: Self)
        ensures
            r.first == first,
            r.second == second,
    {
        SequenceParser { first, second }
    }

    /// `second` takes byte `b` from state `s`, after `first` produced `o`.
    pub open spec fn spec_feed_second(
        &self,
        o: <A::Output as DeepView>::V,
        s: <B::PartialState as DeepView>::V,
        b: u8,
    ) -> Result<Step<<<Self as Parser>::PartialState as DeepView>::V, <<Self as Parser>::Output as DeepView>::V>, ParseError> {
        match self.second.spec_feed(s, b) {
            Err(e) => Err(e),
            Ok(Step::Continue(s2)) => Ok(Step::Continue(SequenceState::Second(o, s2))),
            Ok(Step::Done(w, c)) => Ok(Step::Done((o, w), c)),
        }
    }

    pub open spec fn spec_end_second(
        &self,
        o: <A::Output as DeepView>::V,
        s: <B::PartialState as DeepView>::V,
    ) -> Result<EndStep<<<Self as Parser>::PartialState as DeepView>::V, <<Self as Parser>::Output as DeepView>::V>, ParseError> {
        match self.second.spec_end(s) {
            Err(e) => Err(e),
            Ok(EndStep::Pending(s2)) => Ok(EndStep::Pending(SequenceState::Second(o, s2))),
            Ok(EndStep::Value(w)) => Ok(EndStep::Value((o, w))),
        }
    }

    fn feed_second(&self, o: A::Output, s: B::PartialState, b: u8) -> (r: Result<
        Step<<Self as Parser>::PartialState, <Self as Parser>::Output>,
        ParseError,
    >)
        requires
            self.wf(),
            self.second.state_inv(s.deep_view()),
        ensures
            step_view(r) == self.spec_feed_second(o.deep_view(), s.deep_view(), b),
            r matches Ok(Step::Continue(st)) ==> self.state_inv(st.deep_view()),
    {
        match self.second.feed(s, b) {
            Err(e) => Err(e),
            Ok(Step::Continue(s2)) => Ok(Step::Continue(SequenceState::Second(o, s2))),
            Ok(Step::Done(w, c)) => Ok(Step::Done((o, w), c)),
        }
    }

    fn end_second(&self, o: A::Output, s: B::PartialState) -> (r: Result<
        EndStep<<Self as Parser>::PartialState, <Self as Parser>::Output>,
        ParseError,
    >)
        requires
            self.wf(),
            self.second.state_inv(s.deep_view()),
        ensures
            end_view(r) == self.spec_end_second(o.deep_view(), s.deep_view()),
            r matches Ok(EndStep::Pending(st)) ==> self.state_inv(st.deep_view()),
    {
        match self.second.end(s) {
            Err(e) => Err(e),
            Ok(EndStep::Pending(s2)) => Ok(EndStep::Pending(SequenceState::Second(o, s2))),
            Ok(EndStep::Value(w)) => Ok(EndStep::Value((o, w))),
        }
    }
}

impl<A: Parser, B: Parser> Parser for SequenceParser<A, B> {
    type PartialState = SequenceState<A::PartialState, A::Output, B::PartialState>;
    type Output = (A::Output, B::Output);

    open spec fn wf(&self) -> bool {
        self.first.wf() && self.second.wf()
    }

    open spec fn state_inv(&self, st: <Self::PartialState as DeepView>::V) -> bool {
        match st {
            SequenceState::First(a) => self.first.state_inv(a),
            SequenceState::Second(_, b) => self.second.state_inv(b),
        }
    }

    open spec fn spec_start(&self) -> <Self::PartialState as DeepView>::V {
        SequenceState::First(self.first.spec_start())
    }

    open spec fn spec_feed(&self, st: <Self::PartialState as DeepView>::V, b: u8) -> Result<
        Step<<Self::PartialState as DeepView>::V, <Self::Output as DeepView>::V>,
        ParseError,
    > {
        match st {
            SequenceState::First(a) => match self.first.spec_feed(a, b) {
                Err(e) => Err(e),
                Ok(Step::Continue(a2)) => Ok(Step::Continue(SequenceState::First(a2))),
                Ok(Step::Done(o, true)) => Ok(
                    Step::Continue(SequenceState::Second(o, self.second.spec_start())),
                ),
                Ok(Step::Done(o, false)) => self.spec_feed_second(o, self.second.spec_start(), b),
            },
            SequenceState::Second(o, s) => self.spec_feed_second(o, s, b),
        }
    }

    open spec fn spec_end(&self, st: <Self::PartialState as DeepView>::V) -> Result<
        EndStep<<Self::PartialState as DeepView>::V, <Self::Output as DeepView>::V>,
        ParseError,
    > {
        match st {
            SequenceState::First(a) => match self.first.spec_end(a) {
                Err(e) => Err(e),
                Ok(EndStep::Pending(a2)) => Ok(EndStep::Pending(SequenceState::First(a2))),
                Ok(EndStep::Value(o)) => self.spec_end_second(o, self.second.spec_start()),
            },
            SequenceState::Second(o, s) => self.spec_end_second(o, s),
        }
    }

    fn create_parser_state(&self) -> (r: Self::PartialState) {
        SequenceState::First(self.first.create_parser_state())
    }

    fn feed(&self, st: Self::PartialState, b: u8) -> (r: Result<
        Step<Self::PartialState, Self::Output>,
        ParseError,
    >) {
        match st {
            SequenceState::First(a) => match self.first.feed(a, b) {
                Err(e) => Err(e),
                Ok(Step::Continue(a2)) => Ok(Step::Continue(SequenceState::First(a2))),
                Ok(Step::Done(o, consumed)) => {
                    let s = self.second.create_parser_state();
                    if consumed {
                        Ok(Step::Continue(SequenceState::Second(o, s)))
                    } else {
                        self.feed_second(o, s, b)
                    }
                },
            },
            SequenceState::Second(o, s) => self.feed_second(o, s, b),
        }
    }

    fn end(&self, st: Self::PartialState) -> (r: Result<
        EndStep<Self::PartialState, Self::Output>,
        ParseError,
    >) {
        match st {
            SequenceState::First(a) => match self.first.end(a) {
                Err(e) => Err(e),
                Ok(EndStep::Pending(a2)) => Ok(EndStep::Pending(SequenceState::First(a2))),
                Ok(EndStep::Value(o)) => {
                    let s = self.second.create_parser_state();
                    self.end_second(o, s)
                },
            },
            SequenceState::Second(o, s) => self.end_second(o, s),
        }
    }

    fn duplicate_state(&self, st: &Self::PartialState) -> (r: Self::PartialState) {
        match st {
            SequenceState::First(a) => SequenceState::First(self.first.duplicate_state(a)),
            SequenceState::Second(o, s) => SequenceState::Second(
                self.first.duplicate_output(o),
                self.second.duplicate_state(s),
            ),
        }
    }

    fn duplicate_output(&self, o: &Self::Output) -> (r: Self::Output) {
        (self.first.duplicate_output(&o.0), self.second.duplicate_output(&o.1))
    }
}

/// Sequences of parsers that behave alike behave alike.
pub proof fn lemma_sequence_same<A: Parser, B: Parser>(p: SequenceParser<A, B>, q: SequenceParser<A, B>)
    requires
        same_behaviour(p.first, q.first),
        same_behaviour(p.second, q.second),
    ensures
        same_behaviour(p, q),
{
    assert forall|st: <<SequenceParser<A, B> as Parser>::PartialState as DeepView>::V, b: u8|
        #[trigger] p.spec_feed(st, b) == q.spec_feed(st, b) by {
        match st {
            SequenceState::First(a) => {
                assert(p.first.spec_feed(a, b) == q.first.spec_feed(a, b));
                assert(p.second.spec_feed(p.second.spec_start(), b) == q.second.spec_feed(q.second.spec_start(), b));
            },
            SequenceState::Second(o, s2) => {
                assert(p.second.spec_feed(s2, b) == q.second.spec_feed(s2, b));
            },
        }
    }
    assert forall|st: <<SequenceParser<A, B> as Parser>::PartialState as DeepView>::V|
        #[trigger] p.spec_end(st) == q.spec_end(st) by {
        match st {
            SequenceState::First(a) => {
                assert(p.first.spec_end(a) == q.first.spec_end(a));
                assert(p.second.spec_end(p.second.spec_start()) == q.second.spec_end(q.second.spec_start()));
            },
            SequenceState::Second(o, s2) => {
                assert(p.second.spec_end(s2) == q.second.spec_end(s2));
            },
        }
    }
    assert forall|st: <<SequenceParser<A, B> as Parser>::PartialState as DeepView>::V|
        #[trigger] p.state_inv(st) == q.state_inv(st) by {
        match st {
            SequenceState::First(a) => {
                assert(p.first.state_inv(a) == q.first.state_inv(a));
            },
            SequenceState::Second(o, s2) => {
                assert(p.second.state_inv(s2) == q.second.state_inv(s2));
            },
        }
    }
}

} // verus!
