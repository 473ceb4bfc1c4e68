//! The canonical parser of each supported type, and the list and array
//! parsers built from it.
use vstd::prelude::*;
use crate::integer::{BoundedInt, NumberParser};
use crate::literal::{lemma_literal_same, LiteralParser, LiteralState};
use crate::parser::{end_view, same_behaviour, step_view, EndStep, ParseError, Parser, Step};
use crate::separated::{lemma_separated_same, SeparatedParser, SeparatedPhase, SeparatedStateView};
use crate::sequence::{lemma_sequence_same, SequenceParser, SequenceState};
use crate::string::{StringParser, StringState};

verus! {

/// Data that can be parsed incrementally: each supported type names its
/// canonical parser and that parser's start state.
pub trait HasParser: Sized + DeepView {
    type Parser: Parser<Output = Self>;

    /// `p` is the canonical parser of this type.
    spec fn is_canonical(p: Self::Parser) -> bool;

    /// All canonical parsers of this type behave alike.
    proof fn lemma_canonical_same(p: Self::Parser, q: Self::Parser)
        requires
            Self::is_canonical(p),
            Self::is_canonical(q),
        ensures
            same_behaviour(p, q),
    ;

    fn new_parser() -> (r: Self::Parser)
        ensures
            Self::is_canonical(r),
            r.wf(),
    ;

    fn create_parser_state() -> (r: <Self::Parser as Parser>::PartialState)
        ensures
            forall|p: Self::Parser|
                #![trigger Self::is_canonical(p)]
                Self::is_canonical(p) ==> r.deep_view() == p.spec_start() && p.state_inv(r.deep_view()),
    ;
}

/// `[`, then items of `P` separated by `, `, then `]`.
pub type BracketedList<P> = SequenceParser<
    LiteralParser,
    SequenceParser<SeparatedParser<P, LiteralParser>, LiteralParser>,
>;

/// `p` is the bracketed list of `inner` items with between `min` and `max`
/// items.
pub open spec fn is_bracketed_list<P: Parser>(p: BracketedList<P>, inner: P, min: usize, max: usize) -> bool {
    &&& p.first.literal@ == seq![0x5bu8]
    &&& p.second.first.separator.literal@ == seq![0x2cu8, 0x20u8]
    &&& p.second.second.literal@ == seq![0x5du8]
    &&& p.second.first.inner == inner
    &&& p.second.first.min == min
    &&& p.second.first.max == max
}

fn bracketed_list<P: Parser>(inner: P, min: usize, max: usize) -> (r: BracketedList<P>)
    requires
        inner.wf(),
    ensures
        is_bracketed_list(r, inner, min, max),
        r.wf(),
{
    let open = LiteralParser { literal: vec![0x5bu8] };
    let comma = LiteralParser { literal: vec![0x2cu8, 0x20u8] };
    let close = LiteralParser { literal: vec![0x5du8] };
    assert(open.literal@ =~= seq![0x5bu8]);
    assert(comma.literal@ =~= seq![0x2cu8, 0x20u8]);
    assert(close.literal@ =~= seq![0x5du8]);
    SequenceParser::new(open, SequenceParser::new(SeparatedParser::new(inner, comma, min, max), close))
}

/// Bracketed lists of canonical items, with the same count range, behave
/// alike.
proof fn lemma_bracketed_same<T: HasParser>(
    p: BracketedList<T::Parser>,
    q: BracketedList<T::Parser>,
    min: usize,
    max: usize,
)
    requires
        is_bracketed_list(p, p.second.first.inner, min, max),
        is_bracketed_list(q, q.second.first.inner, min, max),
        T::is_canonical(p.second.first.inner),
        T::is_canonical(q.second.first.inner),
    ensures
        same_behaviour(p, q),
{
    T::lemma_canonical_same(p.second.first.inner, q.second.first.inner);
    lemma_literal_same(p.first, q.first);
    lemma_literal_same(p.second.first.separator, q.second.first.separator);
    lemma_literal_same(p.second.second, q.second.second);
    lemma_separated_same(p.second.first, q.second.first);
    lemma_sequence_same(p.second, q.second);
    lemma_sequence_same(p, q);
}

/// The start state of a bracketed list.
fn bracketed_list_state<P: HasParser>() -> (r: <BracketedList<P::Parser> as Parser>::PartialState)
    ensures
        forall|p: BracketedList<P::Parser>, inner: P::Parser, min: usize, max: usize|
            #![trigger is_bracketed_list(p, inner, min, max)]
            is_bracketed_list(p, inner, min, max) && P::is_canonical(inner) ==> r.deep_view()
                == p.spec_start() && p.state_inv(r.deep_view()),
{
    SequenceState::First(crate::literal::LiteralState { matched: 0 })
}

/// The list of items that a bracketed list's output holds.
pub open spec fn list_items<O>(o: ((), (Seq<O>, ()))) -> Seq<O> {
    o.1.0
}

/// A parser for a vector of `T`: `[`, any number of `T` separated by `, `,
/// then `]`.
pub struct VecParser<T: HasParser> {
    pub parser: BracketedList<T::Parser>,
}

impl<T: HasParser> VecParser<T> {
    /// The parser is the canonical list of `T`.
    pub open spec fn is_canonical(&self) -> bool {
        &&& is_bracketed_list(self.parser, self.parser.second.first.inner, 0, usize::MAX)
        &&& T::is_canonical(self.parser.second.first.inner)
    }

    pub fn new() -> (r: Self)
        ensures
            r.is_canonical(),
            r.wf(),
    {
        VecParser { parser: bracketed_list(T::new_parser(), 0, usize::MAX) }
    }
}

impl<T: HasParser> Default for VecParser<T> {
    fn default() -> (r: Self)
        ensures
            r.is_canonical(),
            r.wf(),
    {
        Self::new()
    }
}

impl<T: HasParser> Parser for VecParser<T> {
    type PartialState = <BracketedList<T::Parser> as Parser>::PartialState;
    type Output = Vec<T>;

    open spec fn wf(&self) -> bool {
        self.parser.wf()
    }

    open spec fn state_inv(&self, st: <Self::PartialState as DeepView>::V) -> bool {
        self.parser.state_inv(st)
    }

    open spec fn spec_start(&self) -> <Self::PartialState as DeepView>::V {
        self.parser.spec_start()
    }

    open spec fn spec_feed(&self, st: <Self::PartialState as DeepView>::V, b: u8) -> Result<
        Step<<Self::PartialState as DeepView>::V, Seq<T::V>>,
        ParseError,
    > {
        match self.parser.spec_feed(st, b) {
            Err(e) => Err(e),
            Ok(Step::Continue(s)) => Ok(Step::Continue(s)),
            Ok(Step::Done(o, c)) => Ok(Step::Done(list_items(o), c)),
        }
    }

    open spec fn spec_end(&self, st: <Self::PartialState as DeepView>::V) -> Result<
        EndStep<<Self::PartialState as DeepView>::V, Seq<T::V>>,
        ParseError,
    > {
        match self.parser.spec_end(st) {
            Err(e) => Err(e),
            Ok(EndStep::Pending(s)) => Ok(EndStep::Pending(s)),
            Ok(EndStep::Value(o)) => Ok(EndStep::Value(list_items(o))),
        }
    }

    fn create_parser_state(&self) -> (r: Self::PartialState) {
        self.parser.create_parser_state()
    }

    fn feed(&self, st: Self::PartialState, b: u8) -> (r: Result<
        Step<Self::PartialState, Self::Output>,
        ParseError,
    >) {
        match self.parser.feed(st, b) {
            Err(e) => Err(e),
            Ok(Step::Continue(s)) => Ok(Step::Continue(s)),
            Ok(Step::Done(o, c)) => {
                let (_, (items, _)) = o;
                Ok(Step::Done(items, c))
            },
        }
    }

    fn end(&self, st: Self::PartialState) -> (r: Result<
        EndStep<Self::PartialState, Self::Output>,
        ParseError,
    >) {
        match self.parser.end(st) {
            Err(e) => Err(e),
            Ok(EndStep::Pending(s)) => Ok(EndStep::Pending(s)),
            Ok(EndStep::Value(o)) => {
                let (_, (items, _)) = o;
                Ok(EndStep::Value(items))
            },
        }
    }

    fn duplicate_state(&self, st: &Self::PartialState) -> (r: Self::PartialState) {
        self.parser.duplicate_state(st)
    }

    fn duplicate_output(&self, o: &Self::Output) -> (r: Self::Output) {
        self.parser.second.first.duplicate_output(o)
    }
}

impl<T: HasParser> HasParser for Vec<T> {
    type Parser = VecParser<T>;

    open spec fn is_canonical(p: VecParser<T>) -> bool {
        p.is_canonical()
    }

    proof fn lemma_canonical_same(p: VecParser<T>, q: VecParser<T>) {
        lemma_bracketed_same::<T>(p.parser, q.parser, 0, usize::MAX);
        assert forall|st: <<VecParser<T> as Parser>::PartialState as DeepView>::V, b: u8|
            #[trigger] p.spec_feed(st, b) == q.spec_feed(st, b) by {
            assert(p.parser.spec_feed(st, b) == q.parser.spec_feed(st, b));
        }
        assert forall|st: <<VecParser<T> as Parser>::PartialState as DeepView>::V|
            #[trigger] p.spec_end(st) == q.spec_end(st) by {
            assert(p.parser.spec_end(st) == q.parser.spec_end(st));
        }
        assert forall|st: <<VecParser<T> as Parser>::PartialState as DeepView>::V|
            #[trigger] p.state_inv(st) == q.state_inv(st) by {
            assert(p.parser.state_inv(st) == q.parser.state_inv(st));
        }
    }

    fn new_parser() -> (r: VecParser<T>) {
        VecParser::new()
    }

    fn create_parser_state() -> (r: <VecParser<T> as Parser>::PartialState) {
        bracketed_list_state::<T>()
    }
}

/// Relies on `<[T; N] as TryFrom<Vec<T>>>::try_from`, which succeeds exactly
/// when the vector holds `N` items, and then moves them into the array in
/// order.
#[verifier::external_body]
fn vec_into_array<T, const N: usize>(v: Vec<T>) -> (r: Option<[T; N]>)
    ensures
        r is Some <==> v@.len() == N,
        r matches Some(a) ==> a@ == v@,
{
    <[T; N]>::try_from(v).ok()
}

/// A parser for an array of `N` items of `T`: `[`, exactly `N` items of `T`
/// separated by `, `, then `]`. A list that stops before its `N`-th item is
/// an arity error, which names the count reached.
pub struct ArrayParser<const N: usize, T: HasParser> {
    pub parser: BracketedList<T::Parser>,
}

impl<const N: usize, T: HasParser> ArrayParser<N, T> {
    /// The parser is the canonical array of `N` items of `T`.
    pub open spec fn is_canonical(&self) -> bool {
        &&& is_bracketed_list(self.parser, self.parser.second.first.inner, N, N)
        &&& T::is_canonical(self.parser.second.first.inner)
    }

    pub fn new() -> (r: Self)
        ensures
            r.is_canonical(),
            r.wf(),
    {
        ArrayParser { parser: bracketed_list(T::new_parser(), N, N) }
    }

    /// The array parser's result for a finished list of items.
    pub open spec fn spec_arity(items: Seq<T::V>) -> Result<Seq<T::V>, ParseError> {
        if items.len() == N {
            Ok(items)
        } else {
            Err(ParseError::ArityMismatch { expected: N, found: items.len() as usize })
        }
    }

    /// The list's own too-few-items error is the array's arity error.
    pub open spec fn spec_arity_error(e: ParseError) -> ParseError {
        match e {
            ParseError::TooFewItems { min, found } => if min == N {
                ParseError::ArityMismatch { expected: N, found }
            } else {
                e
            },
            _ => e,
        }
    }

    fn arity_error(e: ParseError) -> (r: ParseError)
        ensures
            r == Self::spec_arity_error(e),
    {
        match e {
            ParseError::TooFewItems { min, found } => if min == N {
                ParseError::ArityMismatch { expected: N, found }
            } else {
                e
            },
            _ => e,
        }
    }

    fn to_array(items: Vec<T>) -> (r: Result<[T; N], ParseError>)
        ensures
            match Self::spec_arity(items.deep_view()) {
                Ok(s) => r matches Ok(a) && a.deep_view() == s,
                Err(e) => r == Err::<[T; N], ParseError>(e),
            },
    {
        let n = items.len();
        let ghost v = items;
        match vec_into_array::<T, N>(items) {
            Some(a) => {
                assert(a.deep_view() =~= v.deep_view());
                Ok(a)
            },
            None => Err(ParseError::ArityMismatch { expected: N, found: n }),
        }
    }
}

impl<const N: usize, T: HasParser> Default for ArrayParser<N, T> {
    fn default() -> (r: Self)
        ensures
            r.is_canonical(),
            r.wf(),
    {
        Self::new()
    }
}

impl<const N: usize, T: HasParser> Parser for ArrayParser<N, T> {
    type PartialState = <BracketedList<T::Parser> as Parser>::PartialState;
    type Output = [T; N];

    open spec fn wf(&self) -> bool {
        self.parser.wf()
    }

    open spec fn state_inv(&self, st: <Self::PartialState as DeepView>::V) -> bool {
        self.parser.state_inv(st)
    }

    open spec fn spec_start(&self) -> <Self::PartialState as DeepView>::V {
        self.parser.spec_start()
    }

    open spec fn spec_feed(&self, st: <Self::PartialState as DeepView>::V, b: u8) -> Result<
        Step<<Self::PartialState as DeepView>::V, Seq<T::V>>,
        ParseError,
    > {
        match self.parser.spec_feed(st, b) {
            Err(e) => Err(Self::spec_arity_error(e)),
            Ok(Step::Continue(s)) => Ok(Step::Continue(s)),
            Ok(Step::Done(o, c)) => match Self::spec_arity(list_items(o)) {
                Ok(items) => Ok(Step::Done(items, c)),
                Err(e) => Err(e),
            },
        }
    }

    open spec fn spec_end(&self, st: <Self::PartialState as DeepView>::V) -> Result<
        EndStep<<Self::PartialState as DeepView>::V, Seq<T::V>>,
        ParseError,
    > {
        match self.parser.spec_end(st) {
            Err(e) => Err(Self::spec_arity_error(e)),
            Ok(EndStep::Pending(s)) => Ok(EndStep::Pending(s)),
            Ok(EndStep::Value(o)) => match Self::spec_arity(list_items(o)) {
                Ok(items) => Ok(EndStep::Value(items)),
                Err(e) => Err(e),
            },
        }
    }

    fn create_parser_state(&self) -> (r: Self::PartialState) {
        self.parser.create_parser_state()
    }

    fn feed(&self, st: Self::PartialState, b: u8) -> (r: Result<
        Step<Self::PartialState, Self::Output>,
        ParseError,
    >) {
        match self.parser.feed(st, b) {
            Err(e) => Err(Self::arity_error(e)),
            Ok(Step::Continue(s)) => Ok(Step::Continue(s)),
            Ok(Step::Done(o, c)) => {
                let (_, (items, _)) = o;
                match Self::to_array(items) {
                    Ok(a) => Ok(Step::Done(a, c)),
                    Err(e) => Err(e),
                }
            },
        }
    }

    fn end(&self, st: Self::PartialState) -> (r: Result<
        EndStep<Self::PartialState, Self::Output>,
        ParseError,
    >) {
        match self.parser.end(st) {
            Err(e) => Err(Self::arity_error(e)),
            Ok(EndStep::Pending(s)) => Ok(EndStep::Pending(s)),
            Ok(EndStep::Value(o)) => {
                let (_, (items, _)) = o;
                match Self::to_array(items) {
                    Ok(a) => Ok(EndStep::Value(a)),
                    Err(e) => Err(e),
                }
            },
        }
    }

    fn duplicate_state(&self, st: &Self::PartialState) -> (r: Self::PartialState) {
        self.parser.duplicate_state(st)
    }

    fn duplicate_output(&self, o: &Self::Output) -> (r: Self::Output) {
        let inner = &self.parser.second.first.inner;
        let mut v: Vec<T> = Vec::new();
        let mut i: usize = 0;
        while i < N
            invariant
                i <= N,
                o@.len() == N,
                v.deep_view() =~= o.deep_view().take(i as int),
            decreases N - i,
        {
            let x = inner.duplicate_output(&o[i]);
            let ghost old_v = v;
            v.push(x);
            assert(v.deep_view() =~= old_v.deep_view().push(x.deep_view()));
            i = i + 1;
            assert(v.deep_view() =~= o.deep_view().take(i as int));
        }
        assert(o.deep_view().take(N as int) =~= o.deep_view());
        let ghost gv = v;
        match vec_into_array::<T, N>(v) {
            Some(a) => {
                assert(a.deep_view() =~= gv.deep_view());
                a
            },
            None => vstd::pervasive::unreached(),
        }
    }
}

/// In an array the list's minimum is the arity. Right after an item, a byte
/// that cannot start the separator `, ` is an arity error naming the count
/// reached, when fewer than `N` items are in.
pub proof fn lemma_array_minimum<const N: usize, T: HasParser>(
    p: ArrayParser<N, T>,
    items: Seq<T::V>,
    b: u8,
)
    requires
        p.is_canonical(),
        items.len() < N,
        b != 0x2c,
    ensures
        p.spec_feed(
            SequenceState::Second(
                (),
                SequenceState::First(
                    SeparatedStateView {
                        items,
                        phase: SeparatedPhase::Separator(LiteralState { matched: 0 }, true),
                    },
                ),
            ),
            b,
        ) == Err::<Step<<<ArrayParser<N, T> as Parser>::PartialState as DeepView>::V, Seq<T::V>>, ParseError>(
            ParseError::ArityMismatch { expected: N, found: items.len() as usize },
        ),
{
    assert(p.parser.second.first.separator.literal@[0] == 0x2c);
}

/// The same holds of the byte that ends an item without belonging to it:
/// when it cannot start the separator `, ` and the item was not the `N`-th,
/// the array fails with an arity error naming the count reached.
pub proof fn lemma_array_minimum_after_item<const N: usize, T: HasParser>(
    p: ArrayParser<N, T>,
    items: Seq<T::V>,
    ps: <<T::Parser as Parser>::PartialState as DeepView>::V,
    fresh: bool,
    b: u8,
)
    requires
        p.is_canonical(),
        items.len() + 1 < N,
        b != 0x2c,
        p.parser.second.first.inner.spec_feed(ps, b) matches Ok(Step::Done(_, false)),
    ensures
        p.spec_feed(
            SequenceState::Second(
                (),
                SequenceState::First(SeparatedStateView { items, phase: SeparatedPhase::Item(ps, fresh) }),
            ),
            b,
        ) == Err::<Step<<<ArrayParser<N, T> as Parser>::PartialState as DeepView>::V, Seq<T::V>>, ParseError>(
            ParseError::ArityMismatch { expected: N, found: (items.len() + 1) as usize },
        ),
{
    assert(p.parser.second.first.separator.literal@[0] == 0x2c);
}

impl<const N: usize, T: HasParser> HasParser for [T; N] {
    type Parser = ArrayParser<N, T>;

    open spec fn is_canonical(p: ArrayParser<N, T>) -> bool {
        p.is_canonical()
    }

    proof fn lemma_canonical_same(p: ArrayParser<N, T>, q: ArrayParser<N, T>) {
        lemma_bracketed_same::<T>(p.parser, q.parser, N, N);
        assert forall|st: <<ArrayParser<N, T> as Parser>::PartialState as DeepView>::V, b: u8|
            #[trigger] p.spec_feed(st, b) == q.spec_feed(st, b) by {
            assert(p.parser.spec_feed(st, b) == q.parser.spec_feed(st, b));
        }
        assert forall|st: <<ArrayParser<N, T> as Parser>::PartialState as DeepView>::V|
            #[trigger] p.spec_end(st) == q.spec_end(st) by {
            assert(p.parser.spec_end(st) == q.parser.spec_end(st));
        }
        assert forall|st: <<ArrayParser<N, T> as Parser>::PartialState as DeepView>::V|
            #[trigger] p.state_inv(st) == q.state_inv(st) by {
            assert(p.parser.state_inv(st) == q.parser.state_inv(st));
        }
    }

    fn new_parser() -> (r: ArrayParser<N, T>) {
        ArrayParser::new()
    }

    fn create_parser_state() -> (r: <ArrayParser<N, T> as Parser>::PartialState) {
        bracketed_list_state::<T>()
    }
}

impl HasParser for u8 {
    type Parser = NumberParser<u8>;

    open spec fn is_canonical(p: NumberParser<u8>) -> bool {
        p.wf()
    }

    proof fn lemma_canonical_same(p: NumberParser<u8>, q: NumberParser<u8>) {
        assert(p.parser == q.parser);
    }

    fn new_parser() -> (r: NumberParser<u8>) {
        NumberParser::new()
    }

    fn create_parser_state() -> (r: crate::integer::IntegerState) {
        crate::integer::IntegerState { negative: false, has_digit: false, magnitude: 0 }
    }
}

impl HasParser for u64 {
    type Parser = NumberParser<u64>;

    open spec fn is_canonical(p: NumberParser<u64>) -> bool {
        p.wf()
    }

    proof fn lemma_canonical_same(p: NumberParser<u64>, q: NumberParser<u64>) {
        assert(p.parser == q.parser);
    }

    fn new_parser() -> (r: NumberParser<u64>) {
        NumberParser::new()
    }

    fn create_parser_state() -> (r: crate::integer::IntegerState) {
        crate::integer::IntegerState { negative: false, has_digit: false, magnitude: 0 }
    }
}

impl HasParser for u128 {
    type Parser = NumberParser<u128>;

    open spec fn is_canonical(p: NumberParser<u128>) -> bool {
        p.wf()
    }

    proof fn lemma_canonical_same(p: NumberParser<u128>, q: NumberParser<u128>) {
        assert(p.parser == q.parser);
    }

    fn new_parser() -> (r: NumberParser<u128>) {
        NumberParser::new()
    }

    fn create_parser_state() -> (r: crate::integer::IntegerState) {
        crate::integer::IntegerState { negative: false, has_digit: false, magnitude: 0 }
    }
}

impl HasParser for i128 {
    type Parser = NumberParser<i128>;

    open spec fn is_canonical(p: NumberParser<i128>) -> bool {
        p.wf()
    }

    proof fn lemma_canonical_same(p: NumberParser<i128>, q: NumberParser<i128>) {
        assert(p.parser == q.parser);
    }

    fn new_parser() -> (r: NumberParser<i128>) {
        NumberParser::new()
    }

    fn create_parser_state() -> (r: crate::integer::IntegerState) {
        crate::integer::IntegerState { negative: false, has_digit: false, magnitude: 0 }
    }
}

impl HasParser for u16 {
    type Parser = NumberParser<u16>;

    open spec fn is_canonical(p: NumberParser<u16>) -> bool {
        p.wf()
    }

    proof fn lemma_canonical_same(p: NumberParser<u16>, q: NumberParser<u16>) {
        assert(p.parser == q.parser);
    }

    fn new_parser() -> (r: NumberParser<u16>) {
        NumberParser::new()
    }

    fn create_parser_state() -> (r: crate::integer::IntegerState) {
        crate::integer::IntegerState { negative: false, has_digit: false, magnitude: 0 }
    }
}

impl HasParser for u32 {
    type Parser = NumberParser<u32>;

    open spec fn is_canonical(p: NumberParser<u32>) -> bool {
        p.wf()
    }

    proof fn lemma_canonical_same(p: NumberParser<u32>, q: NumberParser<u32>) {
        assert(p.parser == q.parser);
    }

    fn new_parser() -> (r: NumberParser<u32>) {
        NumberParser::new()
    }

    fn create_parser_state() -> (r: crate::integer::IntegerState) {
        crate::integer::IntegerState { negative: false, has_digit: false, magnitude: 0 }
    }
}

impl HasParser for i8 {
    type Parser = NumberParser<i8>;

    open spec fn is_canonical(p: NumberParser<i8>) -> bool {
        p.wf()
    }

    proof fn lemma_canonical_same(p: NumberParser<i8>, q: NumberParser<i8>) {
        assert(p.parser == q.parser);
    }

    fn new_parser() -> (r: NumberParser<i8>) {
        NumberParser::new()
    }

    fn create_parser_state() -> (r: crate::integer::IntegerState) {
        crate::integer::IntegerState { negative: false, has_digit: false, magnitude: 0 }
    }
}

impl HasParser for i16 {
    type Parser = NumberParser<i16>;

    open spec fn is_canonical(p: NumberParser<i16>) -> bool {
        p.wf()
    }

    proof fn lemma_canonical_same(p: NumberParser<i16>, q: NumberParser<i16>) {
        assert(p.parser == q.parser);
    }

    fn new_parser() -> (r: NumberParser<i16>) {
        NumberParser::new()
    }

    fn create_parser_state() -> (r: crate::integer::IntegerState) {
        crate::integer::IntegerState { negative: false, has_digit: false, magnitude: 0 }
    }
}

impl HasParser for i32 {
    type Parser = NumberParser<i32>;

    open spec fn is_canonical(p: NumberParser<i32>) -> bool {
        p.wf()
    }

    proof fn lemma_canonical_same(p: NumberParser<i32>, q: NumberParser<i32>) {
        assert(p.parser == q.parser);
    }

    fn new_parser() -> (r: NumberParser<i32>) {
        NumberParser::new()
    }

    fn create_parser_state() -> (r: crate::integer::IntegerState) {
        crate::integer::IntegerState { negative: false, has_digit: false, magnitude: 0 }
    }
}

impl HasParser for i64 {
    type Parser = NumberParser<i64>;

    open spec fn is_canonical(p: NumberParser<i64>) -> bool {
        p.wf()
    }

    proof fn lemma_canonical_same(p: NumberParser<i64>, q: NumberParser<i64>) {
        assert(p.parser == q.parser);
    }

    fn new_parser() -> (r: NumberParser<i64>) {
        NumberParser::new()
    }

    fn create_parser_state() -> (r: crate::integer::IntegerState) {
        crate::integer::IntegerState { negative: false, has_digit: false, magnitude: 0 }
    }
}

impl HasParser for String {
    type Parser = StringParser;

    open spec fn is_canonical(p: StringParser) -> bool {
        p.min_len == 0 && p.max_len == usize::MAX
    }

    proof fn lemma_canonical_same(p: StringParser, q: StringParser) {
        assert(p == q);
    }

    fn new_parser() -> (r: StringParser) {
        StringParser::new(0, usize::MAX)
    }

    fn create_parser_state() -> (r: StringState) {
        StringState { text: String::new(), chars: 0, need: 0, code: 0, least: 0 }
    }
}

} // verus!
