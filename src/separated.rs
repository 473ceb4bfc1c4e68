//! Bounded repetition of one parser, with a separator between items.
use vstd::prelude::*;
use crate::parser::{
    duplicate_outputs, end_view, lemma_push_deep_view, same_behaviour, step_view, EndStep, ParseError,
    Parser, Step,
};

verus! {

/// Parses `inner` repeatedly, with `separator` between two items, and
/// outputs the items in order. The count of items stays within
/// `[min, max]`:
/// - once `max` items are in, no separator is tried;
/// - a separator that rejects its first byte ends the repetition, leaving
///   that byte to the caller, when `min` items are in, and is an error
///   otherwise;
/// - with no item yet and `min == 0`, an item that rejects its first byte
///   ends the repetition with no items;
/// - any other rejection of `inner` or `separator` is the repetition's own.
/// A separator that completes without consuming a byte is an error.
pub struct SeparatedParser<P, S> {
    pub inner: P,
    pub separator: S,
    pub min: usize,
    pub max: usize,
}

/// The active sub-parser; the flag is set while it has consumed nothing.
#[derive(Clone, Debug, PartialEq, Eq)]
pub enum SeparatedPhase<PS, SS> {
    Item(PS, bool),
    Separator(SS, bool),
}

/// The items parsed so far and the active phase.
#[derive(Clone, Debug, PartialEq, Eq)]
pub struct SeparatedState<PS, PO, SS> {
    pub items: Vec<PO>,
    pub phase: SeparatedPhase<PS, SS>,
}

/// The mathematical view of a `SeparatedState`.
pub struct SeparatedStateView<PS, PO, SS> {
    pub items: Seq<PO>,
    pub phase: SeparatedPhase<PS, SS>,
}

impl<PS: DeepView, SS: DeepView> DeepView for SeparatedPhase<PS, SS> {
    type V = SeparatedPhase<PS::V, SS::V>;

    open spec fn deep_view(&self) -> Self::V {
        match self {
            SeparatedPhase::Item(s, f) => SeparatedPhase::Item(s.deep_view(), *f),
            SeparatedPhase::Separator(s, f) => SeparatedPhase::Separator(s.deep_view(), *f),
        }
    }
}

impl<PS: DeepView, PO: DeepView, SS: DeepView> DeepView for SeparatedState<PS, PO, SS> {
    type V = SeparatedStateView<PS::V, PO::V, SS::V>;

    open spec fn deep_view(&self) -> Self::V {
        SeparatedStateView { items: self.items.deep_view(), phase: self.phase.deep_view() }
    }
}

pub type SepView<P, S> = SeparatedStateView<
    <<P as Parser>::PartialState as DeepView>::V,
    <<P as Parser>::Output as DeepView>::V,
    <<S as Parser>::PartialState as DeepView>::V,
>;

pub type SepStep<P, S> = Result<
    Step<SepView<P, S>, Seq<<<P as Parser>::Output as DeepView>::V>>,
    ParseError,
>;

pub type SepEnd<P, S> = Result<
    EndStep<SepView<P, S>, Seq<<<P as Parser>::Output as DeepView>::V>>,
    ParseError,
>;

impl<P: Parser, S: Parser> SeparatedParser<P, S> {
    pub fn new(inner: P, separator: S, min: usize, max: usize) -> (r: Self)
        ensures
            r.inner == inner,
            r.separator == separator,
            r.min == min,
            r.max == max,
    {
        SeparatedParser { inner, separator, min, max }
    }

    /// The separator takes byte `b` from state `ss`, after `items`.
    pub open spec fn spec_feed_separator(
        &self,
        items: Seq<<P::Output as DeepView>::V>,
        ss: <S::PartialState as DeepView>::V,
        fresh: bool,
        b: u8,
    ) -> SepStep<P, S> {
        match self.separator.spec_feed(ss, b) {
            Err(e) => if !fresh {
                Err(e)
            } else if items.len() >= self.min {
                Ok(Step::Done(items, false))
            } else {
                Err(ParseError::TooFewItems { min: self.min, found: items.len() as usize })
            },
            Ok(Step::Continue(ss2)) => Ok(
                Step::Continue(
                    SeparatedStateView { items, phase: SeparatedPhase::Separator(ss2, false) },
                ),
            ),
            Ok(Step::Done(_, true)) => Ok(
                Step::Continue(
                    SeparatedStateView {
                        items,
                        phase: SeparatedPhase::Item(self.inner.spec_start(), true),
                    },
                ),
            ),
            Ok(Step::Done(_, false)) => Err(ParseError::NoProgress),
        }
    }

    pub open spec fn spec_end_separator(
        &self,
        items: Seq<<P::Output as DeepView>::V>,
        ss: <S::PartialState as DeepView>::V,
        fresh: bool,
    ) -> SepEnd<P, S> {
        if fresh {
            if items.len() >= self.min {
                Ok(EndStep::Value(items))
            } else {
                Err(ParseError::TooFewItems { min: self.min, found: items.len() as usize })
            }
        } else {
            match self.separator.spec_end(ss) {
                Err(e) => Err(e),
                Ok(EndStep::Pending(ss2)) => Ok(
                    EndStep::Pending(
                        SeparatedStateView { items, phase: SeparatedPhase::Separator(ss2, false) },
                    ),
                ),
                Ok(EndStep::Value(_)) => Ok(
                    EndStep::Pending(
                        SeparatedStateView {
                            items,
                            phase: SeparatedPhase::Item(self.inner.spec_start(), true),
                        },
                    ),
                ),
            }
        }
    }
    fn feed_separator(&self, items: Vec<P::Output>, ss: S::PartialState, fresh: bool, b: u8) -> (r: Result<
        Step<<Self as Parser>::PartialState, <Self as Parser>::Output>,
        ParseError,
    >)
        requires
            self.wf(),
            self.separator.state_inv(ss.deep_view()),
            1 <= items.len() < self.max,
        ensures
            step_view(r) == self.spec_feed_separator(items.deep_view(), ss.deep_view(), fresh, b),
            r matches Ok(Step::Continue(st)) ==> self.state_inv(st.deep_view()),
    {
        match self.separator.feed(ss, b) {
            Err(e) => if !fresh {
                Err(e)
            } else if items.len() >= self.min {
                Ok(Step::Done(items, false))
            } else {
                Err(ParseError::TooFewItems { min: self.min, found: items.len() })
            },
            Ok(Step::Continue(ss2)) => Ok(
                Step::Continue(SeparatedState { items, phase: SeparatedPhase::Separator(ss2, false) }),
            ),
            Ok(Step::Done(_, consumed)) => if consumed {
                let ps = self.inner.create_parser_state();
                Ok(Step::Continue(SeparatedState { items, phase: SeparatedPhase::Item(ps, true) }))
            } else {
                Err(ParseError::NoProgress)
            },
        }
    }

    fn end_separator(&self, items: Vec<P::Output>, ss: S::PartialState, fresh: bool) -> (r: Result<
        EndStep<<Self as Parser>::PartialState, <Self as Parser>::Output>,
        ParseError,
    >)
        requires
            self.wf(),
            self.separator.state_inv(ss.deep_view()),
            1 <= items.len() < self.max,
        ensures
            end_view(r) == self.spec_end_separator(items.deep_view(), ss.deep_view(), fresh),
            r matches Ok(EndStep::Pending(st)) ==> self.state_inv(st.deep_view()),
    {
        if fresh {
            if items.len() >= self.min {
                Ok(EndStep::Value(items))
            } else {
                Err(ParseError::TooFewItems { min: self.min, found: items.len() })
            }
        } else {
            match self.separator.end(ss) {
                Err(e) => Err(e),
                Ok(EndStep::Pending(ss2)) => Ok(
                    EndStep::Pending(SeparatedState { items, phase: SeparatedPhase::Separator(ss2, false) }),
                ),
                Ok(EndStep::Value(_)) => {
                    let ps = self.inner.create_parser_state();
                    Ok(EndStep::Pending(SeparatedState { items, phase: SeparatedPhase::Item(ps, true) }))
                },
            }
        }
    }

}

impl<P: Parser, S: Parser> Parser for SeparatedParser<P, S> {
    type PartialState = SeparatedState<P::PartialState, P::Output, S::PartialState>;
    type Output = Vec<P::Output>;

    open spec fn wf(&self) -> bool {
        self.inner.wf() && self.separator.wf()
    }

    open spec fn state_inv(&self, st: SepView<P, S>) -> bool {
        &&& st.items.len() <= self.max
        &&& match st.phase {
            SeparatedPhase::Item(ps, _) => self.inner.state_inv(ps),
            SeparatedPhase::Separator(ss, _) => self.separator.state_inv(ss) && 1 <= st.items.len() < self.max,
        }
    }

    open spec fn spec_start(&self) -> SepView<P, S> {
        SeparatedStateView { items: Seq::empty(), phase: SeparatedPhase::Item(self.inner.spec_start(), true) }
    }

    open spec fn spec_feed(&self, st: SepView<P, S>, b: u8) -> SepStep<P, S> {
        match st.phase {
            SeparatedPhase::Item(ps, fresh) => if st.items.len() >= self.max {
                Ok(Step::Done(st.items, false))
            } else {
                match self.inner.spec_feed(ps, b) {
                    Err(e) => if fresh && st.items.len() == 0 && self.min == 0 {
                        Ok(Step::Done(st.items, false))
                    } else {
                        Err(e)
                    },
                    Ok(Step::Continue(ps2)) => Ok(
                        Step::Continue(
                            SeparatedStateView { items: st.items, phase: SeparatedPhase::Item(ps2, false) },
                        ),
                    ),
                    Ok(Step::Done(v, consumed)) => {
                        let items = st.items.push(v);
                        if items.len() >= self.max {
                            Ok(Step::Done(items, consumed))
                        } else if consumed {
                            Ok(
                                Step::Continue(
                                    SeparatedStateView {
                                        items,
                                        phase: SeparatedPhase::Separator(self.separator.spec_start(), true),
                                    },
                                ),
                            )
                        } else {
                            self.spec_feed_separator(items, self.separator.spec_start(), true, b)
                        }
                    },
                }
            },
            SeparatedPhase::Separator(ss, fresh) => self.spec_feed_separator(st.items, ss, fresh, b),
        }
    }

    open spec fn spec_end(&self, st: SepView<P, S>) -> SepEnd<P, S> {
        match st.phase {
            SeparatedPhase::Item(ps, fresh) => if st.items.len() >= self.max {
                Ok(EndStep::Value(st.items))
            } else {
                match self.inner.spec_end(ps) {
                    Err(e) => Err(e),
                    Ok(EndStep::Pending(ps2)) => Ok(
                        EndStep::Pending(
                            SeparatedStateView { items: st.items, phase: SeparatedPhase::Item(ps2, fresh) },
                        ),
                    ),
                    Ok(EndStep::Value(v)) => {
                        let items = st.items.push(v);
                        if items.len() >= self.max {
                            Ok(EndStep::Value(items))
                        } else {
                            self.spec_end_separator(items, self.separator.spec_start(), true)
                        }
                    },
                }
            },
            SeparatedPhase::Separator(ss, fresh) => self.spec_end_separator(st.items, ss, fresh),
        }
    }

    fn create_parser_state(&self) -> (r: Self::PartialState) {
        let ps = self.inner.create_parser_state();
        let r = SeparatedState { items: Vec::new(), phase: SeparatedPhase::Item(ps, true) };
        assert(r.items.deep_view() =~= Seq::<<P::Output as DeepView>::V>::empty());
        r
    }

    fn feed(&self, st: Self::PartialState, b: u8) -> (r: Result<
        Step<Self::PartialState, Self::Output>,
        ParseError,
    >) {
        let SeparatedState { items, phase } = st;
        let mut items = items;
        match phase {
            SeparatedPhase::Item(ps, fresh) => {
                if items.len() >= self.max {
                    return Ok(Step::Done(items, false));
                }
                match self.inner.feed(ps, b) {
                    Err(e) => if fresh && items.len() == 0 && self.min == 0 {
                        Ok(Step::Done(items, false))
                    } else {
                        Err(e)
                    },
                    Ok(Step::Continue(ps2)) => Ok(
                        Step::Continue(SeparatedState { items, phase: SeparatedPhase::Item(ps2, false) }),
                    ),
                    Ok(Step::Done(v, consumed)) => {
                        let ghost old_items = items;
                        let ghost gv = v;
                        items.push(v);
                        proof {
                            lemma_push_deep_view(old_items, items, gv);
                        }
                        if items.len() >= self.max {
                            Ok(Step::Done(items, consumed))
                        } else {
                            let ss = self.separator.create_parser_state();
                            if consumed {
                                Ok(
                                    Step::Continue(
                                        SeparatedState { items, phase: SeparatedPhase::Separator(ss, true) },
                                    ),
                                )
                            } else {
                                self.feed_separator(items, ss, true, b)
                            }
                        }
                    },
                }
            },
            SeparatedPhase::Separator(ss, fresh) => self.feed_separator(items, ss, fresh, b),
        }
    }

    fn end(&self, st: Self::PartialState) -> (r: Result<
        EndStep<Self::PartialState, Self::Output>,
        ParseError,
    >) {
        let SeparatedState { items, phase } = st;
        let mut items = items;
        match phase {
            SeparatedPhase::Item(ps, fresh) => {
                if items.len() >= self.max {
                    return Ok(EndStep::Value(items));
                }
                match self.inner.end(ps) {
                    Err(e) => Err(e),
                    Ok(EndStep::Pending(ps2)) => Ok(
                        EndStep::Pending(SeparatedState { items, phase: SeparatedPhase::Item(ps2, fresh) }),
                    ),
                    Ok(EndStep::Value(v)) => {
                        let ghost old_items = items;
                        let ghost gv = v;
                        items.push(v);
                        proof {
                            lemma_push_deep_view(old_items, items, gv);
                        }
                        if items.len() >= self.max {
                            Ok(EndStep::Value(items))
                        } else {
                            let ss = self.separator.create_parser_state();
                            self.end_separator(items, ss, true)
                        }
                    },
                }
            },
            SeparatedPhase::Separator(ss, fresh) => self.end_separator(items, ss, fresh),
        }
    }

    fn duplicate_state(&self, st: &Self::PartialState) -> (r: Self::PartialState) {
        let items = duplicate_outputs(&self.inner, &st.items);
        let phase = match &st.phase {
            SeparatedPhase::Item(ps, f) => SeparatedPhase::Item(self.inner.duplicate_state(ps), *f),
            SeparatedPhase::Separator(ss, f) => SeparatedPhase::Separator(
                self.separator.duplicate_state(ss),
                *f,
            ),
        };
        SeparatedState { items, phase }
    }

    fn duplicate_output(&self, o: &Self::Output) -> (r: Self::Output) {
        duplicate_outputs(&self.inner, o)
    }
}

/// The minimum count is enforced when the separator fails. Right after an
/// item, whether the separator is fed the byte after the item or the byte
/// that ended the item, a separator that rejects that byte ends the
/// repetition, leaving the byte unconsumed, if at least `min` items are in;
/// with fewer items it is an error that names the minimum and the count.
pub proof fn lemma_separator_minimum<P: Parser, S: Parser>(
    p: SeparatedParser<P, S>,
    st: SepView<P, S>,
    b: u8,
)
    requires
        p.separator.spec_feed(p.separator.spec_start(), b) is Err,
    ensures
        st.phase == SeparatedPhase::<<P::PartialState as DeepView>::V, <S::PartialState as DeepView>::V>::Separator(
            p.separator.spec_start(),
            true,
        ) ==> p.spec_feed(st, b) == if st.items.len() >= p.min {
            Ok(Step::Done(st.items, false))
        } else {
            SepStep::<P, S>::Err(ParseError::TooFewItems { min: p.min, found: st.items.len() as usize })
        },
        match st.phase {
            SeparatedPhase::Item(ps, _) => match p.inner.spec_feed(ps, b) {
                Ok(Step::Done(v, false)) => st.items.len() + 1 < p.max ==> p.spec_feed(st, b) == if st.items.len() + 1 >= p.min {
                    Ok(Step::Done(st.items.push(v), false))
                } else {
                    SepStep::<P, S>::Err(
                        ParseError::TooFewItems { min: p.min, found: (st.items.len() + 1) as usize },
                    )
                },
                _ => true,
            },
            _ => true,
        },
{
}

/// Repetitions of parsers that behave alike, with the same count range,
/// behave alike.
pub proof fn lemma_separated_same<P: Parser, S: Parser>(p: SeparatedParser<P, S>, q: SeparatedParser<P, S>)
    requires
        same_behaviour(p.inner, q.inner),
        same_behaviour(p.separator, q.separator),
        p.min == q.min,
        p.max == q.max,
    ensures
        same_behaviour(p, q),
{
    assert forall|st: SepView<P, S>, b: u8| #[trigger] p.spec_feed(st, b) == q.spec_feed(st, b) by {
        assert(p.separator.spec_feed(p.separator.spec_start(), b) == q.separator.spec_feed(q.separator.spec_start(), b));
        match st.phase {
            SeparatedPhase::Item(ps, _) => {
                assert(p.inner.spec_feed(ps, b) == q.inner.spec_feed(ps, b));
            },
            SeparatedPhase::Separator(ss, _) => {
                assert(p.separator.spec_feed(ss, b) == q.separator.spec_feed(ss, b));
            },
        }
    }
    assert forall|st: SepView<P, S>| #[trigger] p.spec_end(st) == q.spec_end(st) by {
        match st.phase {
            SeparatedPhase::Item(ps, _) => {
                assert(p.inner.spec_end(ps) == q.inner.spec_end(ps));
            },
            SeparatedPhase::Separator(ss, _) => {
                assert(p.separator.spec_end(ss) == q.separator.spec_end(ss));
            },
        }
    }
    assert forall|st: SepView<P, S>| #[trigger] p.state_inv(st) == q.state_inv(st) by {
        match st.phase {
            SeparatedPhase::Item(ps, _) => {
                assert(p.inner.state_inv(ps) == q.inner.state_inv(ps));
            },
            SeparatedPhase::Separator(ss, _) => {
                assert(p.separator.state_inv(ss) == q.separator.state_inv(ss));
            },
        }
    }
}

} // verus!
