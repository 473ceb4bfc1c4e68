//! The parse-result vocabulary, the `Parser` abstraction and the chunk driver.
use vstd::prelude::*;

verus! {

/// Why a parse step rejected its input.
#[derive(Clone, Copy, Debug, PartialEq, Eq, Structural)]
#[allow(inconsistent_fields)]
pub enum ParseError {
    /// A literal expected one byte and saw another.
    LiteralMismatch { expected: u8, found: u8 },
    /// A byte that cannot extend any value of the parser.
    UnexpectedByte { found: u8 },
    /// A numeral outside the configured range.
    OutOfRange,
    /// A repetition stopped before reaching its minimum count.
    TooFewItems { min: usize, found: usize },
    /// A run of text ended before reaching its minimum length.
    TextTooShort { min: usize, found: usize },
    /// A fixed-size aggregate received a different number of elements.
    ArityMismatch { expected: usize, found: usize },
    /// A separator, or a repeated item, completed without consuming any byte.
    NoProgress,
}

/// What one byte does to a partial state.
#[derive(Clone, Debug, PartialEq, Eq)]
pub enum Step<S, O> {
    /// The byte was consumed and the parse goes on.
    Continue(S),
    /// The value is complete; the flag tells whether the byte was part of it.
    Done(O, bool),
}

/// What the end-of-input signal does to a partial state.
#[derive(Clone, Debug, PartialEq, Eq)]
pub enum EndStep<S, O> {
    /// Nothing can be decided yet; more bytes may follow.
    Pending(S),
    /// The value is complete.
    Value(O),
}

/// The outcome of one successful call of `parse`.
#[derive(Clone, Debug, PartialEq, Eq)]
pub enum ParseResult<S, O> {
    /// The chunk is a valid prefix; the state resumes the parse.
    Incomplete(S),
    /// A complete value, and the bytes of the chunk that follow it.
    Finished(O, Vec<u8>),
}

/// The mathematical outcome of feeding a chunk to a state.
pub enum Outcome<S, O> {
    Incomplete(S),
    Finished(O, Seq<u8>),
    Failed(ParseError),
}

/// A parser: an immutable blueprint that moves partial states forward byte
/// by byte. Its behaviour is given by `spec_feed` (one byte) and `spec_end`
/// (the empty chunk, which signals the end of input), on the deep views of
/// its states and outputs.
pub trait Parser: Sized {
    type PartialState: DeepView;
    type Output: DeepView;

    /// The parser's configuration is usable.
    spec fn wf(&self) -> bool;

    /// The states this parser can produce.
    spec fn state_inv(&self, st: <Self::PartialState as DeepView>::V) -> bool;

    spec fn spec_start(&self) -> <Self::PartialState as DeepView>::V;

    spec fn spec_feed(&self, st: <Self::PartialState as DeepView>::V, b: u8) -> Result<
        Step<<Self::PartialState as DeepView>::V, <Self::Output as DeepView>::V>,
        ParseError,
    >;

    spec fn spec_end(&self, st: <Self::PartialState as DeepView>::V) -> Result<
        EndStep<<Self::PartialState as DeepView>::V, <Self::Output as DeepView>::V>,
        ParseError,
    >;

    /// A fresh state, before any byte.
    fn create_parser_state(&self) -> (r: Self::PartialState)
        requires
            self.wf(),
        ensures
            r.deep_view() == self.spec_start(),
            self.state_inv(r.deep_view()),
    ;

    /// Feeds one byte.
    fn feed(&self, st: Self::PartialState, b: u8) -> (r: Result<
        Step<Self::PartialState, Self::Output>,
        ParseError,
    >)
        requires
            self.wf(),
            self.state_inv(st.deep_view()),
        ensures
            step_view(r) == self.spec_feed(st.deep_view(), b),
            r matches Ok(Step::Continue(s)) ==> self.state_inv(s.deep_view()),
    ;

    /// Signals the end of input.
    fn end(&self, st: Self::PartialState) -> (r: Result<
        EndStep<Self::PartialState, Self::Output>,
        ParseError,
    >)
        requires
            self.wf(),
            self.state_inv(st.deep_view()),
        ensures
            end_view(r) == self.spec_end(st.deep_view()),
            r matches Ok(EndStep::Pending(s)) ==> self.state_inv(s.deep_view()),
    ;

    /// An independent copy of a state.
    fn duplicate_state(&self, st: &Self::PartialState) -> (r: Self::PartialState)
        ensures
            r.deep_view() == st.deep_view(),
    ;

    /// An independent copy of an output.
    fn duplicate_output(&self, o: &Self::Output) -> (r: Self::Output)
        ensures
            r.deep_view() == o.deep_view(),
    ;
}

pub open spec fn step_view<S: DeepView, O: DeepView>(r: Result<Step<S, O>, ParseError>) -> Result<
    Step<S::V, O::V>,
    ParseError,
> {
    match r {
        Ok(Step::Continue(s)) => Ok(Step::Continue(s.deep_view())),
        Ok(Step::Done(o, c)) => Ok(Step::Done(o.deep_view(), c)),
        Err(e) => Err(e),
    }
}

pub open spec fn end_view<S: DeepView, O: DeepView>(r: Result<EndStep<S, O>, ParseError>) -> Result<
    EndStep<S::V, O::V>,
    ParseError,
> {
    match r {
        Ok(EndStep::Pending(s)) => Ok(EndStep::Pending(s.deep_view())),
        Ok(EndStep::Value(o)) => Ok(EndStep::Value(o.deep_view())),
        Err(e) => Err(e),
    }
}

pub open spec fn outcome_of<S: DeepView, O: DeepView>(
    r: Result<ParseResult<S, O>, ParseError>,
) -> Outcome<S::V, O::V> {
    match r {
        Ok(ParseResult::Incomplete(s)) => Outcome::Incomplete(s.deep_view()),
        Ok(ParseResult::Finished(o, rest)) => Outcome::Finished(o.deep_view(), rest@),
        Err(e) => Outcome::Failed(e),
    }
}

/// Feeds the bytes of a non-empty chunk one by one, stopping at the first
/// completion or rejection.
pub open spec fn run<P: Parser>(
    p: P,
    st: <P::PartialState as DeepView>::V,
    input: Seq<u8>,
) -> Outcome<<P::PartialState as DeepView>::V, <P::Output as DeepView>::V>
    decreases input.len(),
{
    if input.len() == 0 {
        Outcome::Incomplete(st)
    } else {
        match p.spec_feed(st, input[0]) {
            Err(e) => Outcome::Failed(e),
            Ok(Step::Continue(s)) => run(p, s, input.drop_first()),
            Ok(Step::Done(o, consumed)) => Outcome::Finished(
                o,
                if consumed {
                    input.drop_first()
                } else {
                    input
                },
            ),
        }
    }
}

/// One call of `parse`: an empty chunk signals the end of input, any other
/// chunk is run byte by byte.
pub open spec fn spec_parse<P: Parser>(
    p: P,
    st: <P::PartialState as DeepView>::V,
    input: Seq<u8>,
) -> Outcome<<P::PartialState as DeepView>::V, <P::Output as DeepView>::V> {
    if input.len() == 0 {
        match p.spec_end(st) {
            Err(e) => Outcome::Failed(e),
            Ok(EndStep::Pending(s)) => Outcome::Incomplete(s),
            Ok(EndStep::Value(o)) => Outcome::Finished(o, Seq::empty()),
        }
    } else {
        run(p, st, input)
    }
}

proof fn lemma_run_split<P: Parser>(
    p: P,
    st: <P::PartialState as DeepView>::V,
    s: Seq<u8>,
    i: int,
)
    requires
        0 <= i <= s.len(),
    ensures
        match run(p, st, s.take(i)) {
            Outcome::Incomplete(st2) => run(p, st2, s.skip(i)) == run(p, st, s),
            Outcome::Finished(o, rest) => run(p, st, s) == Outcome::<
                <P::PartialState as DeepView>::V,
                <P::Output as DeepView>::V,
            >::Finished(o, rest + s.skip(i)),
            Outcome::Failed(e) => run(p, st, s) == Outcome::<
                <P::PartialState as DeepView>::V,
                <P::Output as DeepView>::V,
            >::Failed(e),
        },
    decreases i,
{
    if i == 0 {
        assert(s.take(0).len() == 0);
        assert(s.skip(0) =~= s);
    } else {
        let pre = s.take(i);
        assert(pre[0] == s[0]);
        match p.spec_feed(st, s[0]) {
            Err(e) => {},
            Ok(Step::Continue(s1)) => {
                assert(pre.drop_first() =~= s.drop_first().take(i - 1));
                assert(s.drop_first().skip(i - 1) =~= s.skip(i));
                lemma_run_split(p, s1, s.drop_first(), i - 1);
            },
            Ok(Step::Done(o, consumed)) => {
                if consumed {
                    assert(pre.drop_first() + s.skip(i) =~= s.drop_first());
                } else {
                    assert(pre + s.skip(i) =~= s);
                }
            },
        }
    }
}

/// Chunk boundaries do not matter. Feeding `s[..i]` and then, from the
/// state it leaves, `s[i..]` gives what feeding `s` in one call gives; a
/// completion inside `s[..i]` is the same completion in `s`, with `s[i..]`
/// appended to its rest, and a rejection inside `s[..i]` is the same
/// rejection. (The split points are inside `s`: an empty chunk is the
/// end-of-input signal, not a split.)
pub proof fn lemma_prefix_consistency<P: Parser>(
    p: P,
    st: <P::PartialState as DeepView>::V,
    s: Seq<u8>,
    i: int,
)
    requires
        0 < i < s.len(),
    ensures
        match spec_parse(p, st, s.take(i)) {
            Outcome::Incomplete(st2) => spec_parse(p, st2, s.skip(i)) == spec_parse(p, st, s),
            Outcome::Finished(o, rest) => spec_parse(p, st, s) == Outcome::<
                <P::PartialState as DeepView>::V,
                <P::Output as DeepView>::V,
            >::Finished(o, rest + s.skip(i)),
            Outcome::Failed(e) => spec_parse(p, st, s) == Outcome::<
                <P::PartialState as DeepView>::V,
                <P::Output as DeepView>::V,
            >::Failed(e),
        },
{
    lemma_run_split(p, st, s, i);
}

/// A completion never invents bytes: what it leaves unconsumed is a suffix
/// of the chunk it was given.
pub proof fn lemma_rest_is_suffix<P: Parser>(
    p: P,
    st: <P::PartialState as DeepView>::V,
    s: Seq<u8>,
)
    ensures
        spec_parse(p, st, s) matches Outcome::Finished(_, rest) ==> rest.len() <= s.len() && rest
            == s.skip(s.len() - rest.len()),
    decreases s.len(),
{
    if s.len() > 0 {
        assert(s.skip(0) =~= s);
        assert(s.skip(1) =~= s.drop_first());
        match p.spec_feed(st, s[0]) {
            Ok(Step::Continue(s1)) => {
                lemma_rest_is_suffix(p, s1, s.drop_first());
                if s.len() > 1 {
                    if let Outcome::Finished(_, rest) = spec_parse(p, s1, s.drop_first()) {
                        assert(s.drop_first().skip(s.len() - 1 - rest.len()) =~= s.skip(s.len() - rest.len()));
                    }
                }
            },
            _ => {},
        }
    }
}

/// `p` and `q` behave alike: same configuration validity, same states,
/// same start, and the same step on every byte and at the end of input.
pub open spec fn same_behaviour<P: Parser>(p: P, q: P) -> bool {
    &&& p.wf() == q.wf()
    &&& p.spec_start() == q.spec_start()
    &&& forall|st: <P::PartialState as DeepView>::V| #[trigger]
        p.state_inv(st) == q.state_inv(st)
    &&& forall|st: <P::PartialState as DeepView>::V, b: u8| #[trigger]
        p.spec_feed(st, b) == q.spec_feed(st, b)
    &&& forall|st: <P::PartialState as DeepView>::V| #[trigger]
        p.spec_end(st) == q.spec_end(st)
}

/// Parsers that behave alike give the same outcome on every state and chunk.
pub proof fn lemma_same_behaviour_parse<P: Parser>(
    p: P,
    q: P,
    st: <P::PartialState as DeepView>::V,
    input: Seq<u8>,
)
    requires
        same_behaviour(p, q),
    ensures
        spec_parse(p, st, input) == spec_parse(q, st, input),
    decreases input.len(),
{
    if input.len() > 0 {
        lemma_same_behaviour_run(p, q, st, input);
    }
}

proof fn lemma_same_behaviour_run<P: Parser>(
    p: P,
    q: P,
    st: <P::PartialState as DeepView>::V,
    input: Seq<u8>,
)
    requires
        same_behaviour(p, q),
    ensures
        run(p, st, input) == run(q, st, input),
    decreases input.len(),
{
    if input.len() > 0 {
        assert(p.spec_feed(st, input[0]) == q.spec_feed(st, input[0]));
        if let Ok(Step::Continue(s1)) = p.spec_feed(st, input[0]) {
            lemma_same_behaviour_run(p, q, s1, input.drop_first());
        }
    }
}

/// Parses one chunk from a state. The state is read, never changed: the
/// result is a function of the parser, the state and the chunk alone.
pub fn parse<P: Parser>(p: &P, state: &P::PartialState, input: &[u8]) -> (r: Result<
    ParseResult<P::PartialState, P::Output>,
    ParseError,
>)
    requires
        p.wf(),
        p.state_inv(state.deep_view()),
    ensures
        outcome_of(r) == spec_parse(*p, state.deep_view(), input@),
        r matches Ok(ParseResult::Incomplete(s)) ==> p.state_inv(s.deep_view()),
{
    let mut st = p.duplicate_state(state);
    if input.len() == 0 {
        return match p.end(st) {
            Err(e) => Err(e),
            Ok(EndStep::Pending(s)) => Ok(ParseResult::Incomplete(s)),
            Ok(EndStep::Value(o)) => Ok(ParseResult::Finished(o, Vec::new())),
        };
    }
    let mut i: usize = 0;
    assert(input@.skip(0) =~= input@);
    while i < input.len()
        invariant
            p.wf(),
            i <= input.len(),
            p.state_inv(st.deep_view()),
            run(*p, st.deep_view(), input@.skip(i as int)) == run(*p, state.deep_view(), input@),
        decreases input.len() - i,
    {
        let b = input[i];
        assert(input@.skip(i as int)[0] == b);
        assert(input@.skip(i as int).drop_first() =~= input@.skip(i + 1));
        match p.feed(st, b) {
            Err(e) => {
                return Err(e);
            },
            Ok(Step::Continue(s)) => {
                st = s;
                i = i + 1;
            },
            Ok(Step::Done(o, consumed)) => {
                let start: usize = if consumed {
                    i + 1
                } else {
                    i
                };
                let rest = copy_from(input, start);
                return Ok(ParseResult::Finished(o, rest));
            },
        }
    }
    assert(input@.skip(i as int).len() == 0);
    Ok(ParseResult::Incomplete(st))
}

/// The bytes of `input` from index `start` on.
fn copy_from(input: &[u8], start: usize) -> (r: Vec<u8>)
    requires
        start <= input.len(),
    ensures
        r@ == input@.skip(start as int),
{
    let mut r: Vec<u8> = Vec::new();
    let mut j: usize = start;
    while j < input.len()
        invariant
            start <= j <= input.len(),
            r@ == input@.subrange(start as int, j as int),
        decreases input.len() - j,
    {
        r.push(input[j]);
        j = j + 1;
        assert(r@ =~= input@.subrange(start as int, j as int));
    }
    assert(r@ =~= input@.skip(start as int));
    r
}

/// Pushing onto a vector pushes the deep view of the item onto its deep view.
pub proof fn lemma_push_deep_view<T: DeepView>(v1: Vec<T>, v2: Vec<T>, x: T)
    requires
        v2@ == v1@.push(x),
    ensures
        v2.deep_view() == v1.deep_view().push(x.deep_view()),
{
    assert(v2.deep_view() =~= v1.deep_view().push(x.deep_view()));
}

/// Independent copies of a list of outputs of `p`.
pub fn duplicate_outputs<P: Parser>(p: &P, items: &Vec<P::Output>) -> (r: Vec<P::Output>)
    ensures
        r.deep_view() == items.deep_view(),
{
    let mut r: Vec<P::Output> = Vec::new();
    let mut i: usize = 0;
    while i < items.len()
        invariant
            i <= items.len(),
            r.deep_view() =~= items.deep_view().take(i as int),
        decreases items.len() - i,
    {
        let o = p.duplicate_output(&items[i]);
        let ghost old_r = r;
        let ghost go = o;
        r.push(o);
        proof {
            lemma_push_deep_view(old_r, r, go);
        }
        i = i + 1;
        assert(r.deep_view() =~= items.deep_view().take(i as int));
    }
    assert(items.deep_view().take(i as int) =~= items.deep_view());
    r
}

} // verus!
