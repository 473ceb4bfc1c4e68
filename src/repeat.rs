//! Bounded repetition of one parser, items back to back.
use vstd::prelude::*;
use crate::parser::{
    duplicate_outputs, end_view, lemma_push_deep_view, step_view, EndStep, ParseError, Parser, Step,
};

verus! {

/// Parses `inner` repeatedly, items back to back, and outputs them in
/// order. The count stays within `[min, max]`:
/// - once `max` items are in, no further item is tried;
/// - between two items, an item that rejects its first byte ends the
///   repetition, leaving that byte to the caller, when `min` items are in,
///   and is an error otherwise;
/// - a rejection inside an item is the repetition's own;
/// - an item that completes without consuming a byte is an error.
pub struct RepeatParser<P> {
    pub inner: P,
    pub min: usize,
    pub max: usize,
}

/// The items parsed so far, and the state of the item in progress, if one
/// has consumed bytes.
#[derive(Clone, Debug, PartialEq, Eq)]
pub struct RepeatState<PS, PO> {
    pub items: Vec<PO>,
    pub current: Option<PS>,
}

/// The mathematical view of a `RepeatState`.
pub struct RepeatStateView<PS, PO> {
    pub items: Seq<PO>,
    pub current: Option<PS>,
}

impl<PS: DeepView, PO: DeepView> DeepView for RepeatState<PS, PO> {
    type V = RepeatStateView<PS::V, PO::V>;

    open spec fn deep_view(&self) -> Self::V {
        RepeatStateView { items: self.items.deep_view(), current: self.current.deep_view() }
    }
}

pub type RepView<P> = RepeatStateView<
    <<P as Parser>::PartialState as DeepView>::V,
    <<P as Parser>::Output as DeepView>::V,
>;

pub type RepStep<P> = Result<Step<RepView<P>, Seq<<<P as Parser>::Output as DeepView>::V>>, ParseError>;

impl<P: Parser> RepeatParser<P> {
    pub fn new(inner: P, min: usize, max: usize) -> (r: Self)
        ensures
            r.inner == inner,
            r.min == min,
            r.max == max,
    {
        RepeatParser { inner, min, max }
    }

    /// After an item that consumed its last byte.
    pub open spec fn spec_after_item(&self, items: Seq<<P::Output as DeepView>::V>) -> RepStep<P> {
        if items.len() >= self.max {
            Ok(Step::Done(items, true))
        } else {
            Ok(Step::Continue(RepeatStateView { items, current: None }))
        }
    }

    /// Byte `b` starts a new item after `items`.
    pub open spec fn spec_feed_fresh(&self, items: Seq<<P::Output as DeepView>::V>, b: u8) -> RepStep<P> {
        if items.len() >= self.max {
            Ok(Step::Done(items, false))
        } else {
            match self.inner.spec_feed(self.inner.spec_start(), b) {
                Err(e) => if items.len() >= self.min {
                    Ok(Step::Done(items, false))
                } else {
                    Err(ParseError::TooFewItems { min: self.min, found: items.len() as usize })
                },
                Ok(Step::Continue(ps)) => Ok(Step::Continue(RepeatStateView { items, current: Some(ps) })),
                Ok(Step::Done(v, true)) => self.spec_after_item(items.push(v)),
                Ok(Step::Done(_, false)) => Err(ParseError::NoProgress),
            }
        }
    }

    fn after_item(&self, items: Vec<P::Output>) -> (r: Result<
        Step<<Self as Parser>::PartialState, <Self as Parser>::Output>,
        ParseError,
    >)
        requires
            self.wf(),
            items.len() <= self.max,
        ensures
            step_view(r) == self.spec_after_item(items.deep_view()),
            r matches Ok(Step::Continue(st)) ==> self.state_inv(st.deep_view()),
    {
        if items.len() >= self.max {
            Ok(Step::Done(items, true))
        } else {
            Ok(Step::Continue(RepeatState { items, current: None }))
        }
    }

    fn feed_fresh(&self, items: Vec<P::Output>, b: u8) -> (r: Result<
        Step<<Self as Parser>::PartialState, <Self as Parser>::Output>,
        ParseError,
    >)
        requires
            self.wf(),
            items.len() <= self.max,
        ensures
            step_view(r) == self.spec_feed_fresh(items.deep_view(), b),
            r matches Ok(Step::Continue(st)) ==> self.state_inv(st.deep_view()),
    {
        if items.len() >= self.max {
            return Ok(Step::Done(items, false));
        }
        let ps = self.inner.create_parser_state();
        let mut items = items;
        match self.inner.feed(ps, b) {
            Err(_) => if items.len() >= self.min {
                Ok(Step::Done(items, false))
            } else {
                Err(ParseError::TooFewItems { min: self.min, found: items.len() })
            },
            Ok(Step::Continue(ps2)) => Ok(Step::Continue(RepeatState { items, current: Some(ps2) })),
            Ok(Step::Done(v, consumed)) => if consumed {
                let ghost old_items = items;
                let ghost gv = v;
                items.push(v);
                proof {
                    lemma_push_deep_view(old_items, items, gv);
                }
                self.after_item(items)
            } else {
                Err(ParseError::NoProgress)
            },
        }
    }
}

impl<P: Parser> Parser for RepeatParser<P> {
    type PartialState = RepeatState<P::PartialState, P::Output>;
    type Output = Vec<P::Output>;

    open spec fn wf(&self) -> bool {
        self.inner.wf()
    }

    open spec fn state_inv(&self, st: RepView<P>) -> bool {
        &&& st.items.len() <= self.max
        &&& match st.current {
            Some(ps) => self.inner.state_inv(ps) && st.items.len() < self.max,
            None => true,
        }
    }

    open spec fn spec_start(&self) -> RepView<P> {
        RepeatStateView { items: Seq::empty(), current: None }
    }

    open spec fn spec_feed(&self, st: RepView<P>, b: u8) -> RepStep<P> {
        match st.current {
            None => self.spec_feed_fresh(st.items, b),
            Some(ps) => match self.inner.spec_feed(ps, b) {
                Err(e) => Err(e),
                Ok(Step::Continue(ps2)) => Ok(
                    Step::Continue(RepeatStateView { items: st.items, current: Some(ps2) }),
                ),
                Ok(Step::Done(v, true)) => self.spec_after_item(st.items.push(v)),
                Ok(Step::Done(v, false)) => self.spec_feed_fresh(st.items.push(v), b),
            },
        }
    }

    open spec fn spec_end(&self, st: RepView<P>) -> Result<
        EndStep<RepView<P>, Seq<<P::Output as DeepView>::V>>,
        ParseError,
    > {
        match st.current {
            None => if st.items.len() >= self.min {
                Ok(EndStep::Value(st.items))
            } else {
                Err(ParseError::TooFewItems { min: self.min, found: st.items.len() as usize })
            },
            Some(ps) => match self.inner.spec_end(ps) {
                Err(e) => Err(e),
                Ok(EndStep::Pending(ps2)) => Ok(
                    EndStep::Pending(RepeatStateView { items: st.items, current: Some(ps2) }),
                ),
                Ok(EndStep::Value(v)) => if st.items.len() + 1 >= self.min {
                    Ok(EndStep::Value(st.items.push(v)))
                } else {
                    Err(ParseError::TooFewItems { min: self.min, found: (st.items.len() + 1) as usize })
                },
            },
        }
    }

    fn create_parser_state(&self) -> (r: Self::PartialState) {
        let r = RepeatState { items: Vec::new(), current: None };
        assert(r.items.deep_view() =~= Seq::<<P::Output as DeepView>::V>::empty());
        r
    }

    fn feed(&self, st: Self::PartialState, b: u8) -> (r: Result<
        Step<Self::PartialState, Self::Output>,
        ParseError,
    >) {
        let RepeatState { items, current } = st;
        let mut items = items;
        match current {
            None => self.feed_fresh(items, b),
            Some(ps) => match self.inner.feed(ps, b) {
                Err(e) => Err(e),
                Ok(Step::Continue(ps2)) => Ok(Step::Continue(RepeatState { items, current: Some(ps2) })),
                Ok(Step::Done(v, consumed)) => {
                    let ghost old_items = items;
                    let ghost gv = v;
                    items.push(v);
                    proof {
                        lemma_push_deep_view(old_items, items, gv);
                    }
                    if consumed {
                        self.after_item(items)
                    } else {
                        self.feed_fresh(items, b)
                    }
                },
            },
        }
    }

    fn end(&self, st: Self::PartialState) -> (r: Result<
        EndStep<Self::PartialState, Self::Output>,
        ParseError,
    >) {
        let RepeatState { items, current } = st;
        let mut items = items;
        match current {
            None => if items.len() >= self.min {
                Ok(EndStep::Value(items))
            } else {
                Err(ParseError::TooFewItems { min: self.min, found: items.len() })
            },
            Some(ps) => match self.inner.end(ps) {
                Err(e) => Err(e),
                Ok(EndStep::Pending(ps2)) => Ok(EndStep::Pending(RepeatState { items, current: Some(ps2) })),
                Ok(EndStep::Value(v)) => {
                    let ghost old_items = items;
                    let ghost gv = v;
                    items.push(v);
                    proof {
                        lemma_push_deep_view(old_items, items, gv);
                    }
                    if items.len() >= self.min {
                        Ok(EndStep::Value(items))
                    } else {
                        Err(ParseError::TooFewItems { min: self.min, found: items.len() })
                    }
                },
            },
        }
    }

    fn duplicate_state(&self, st: &Self::PartialState) -> (r: Self::PartialState) {
        let items = duplicate_outputs(&self.inner, &st.items);
        let current = match &st.current {
            Some(ps) => Some(self.inner.duplicate_state(ps)),
            None => None,
        };
        RepeatState { items, current }
    }

    fn duplicate_output(&self, o: &Self::Output) -> (r: Self::Output) {
        duplicate_outputs(&self.inner, o)
    }
}

} // verus!
