//! Bounded-range integer numerals, and typed adapters that narrow the value.
use vstd::prelude::*;
use crate::parser::{EndStep, ParseError, Parser, Step};

verus! {

/// Parses a decimal numeral in the inclusive range `[min, max]`; the bounds
/// reach every value of the 8- to 128-bit integer types. A leading `-` is
/// accepted only when `min < 0`. The numeral completes greedily, with the
/// digit that leaves no room for another one in range; otherwise at the
/// first byte that is not a digit, which it leaves unconsumed, or at the
/// end-of-input signal. A digit that takes the numeral past the bound it
/// grows towards (`max` for a positive numeral, `min` for a negative one) is
/// rejected at once, so a numeral that can no longer be valid fails fast.
#[derive(Clone, Copy, Debug)]
pub struct IntegerParser {
    pub min: i128,
    pub max: u128,
}

/// The sign and magnitude of the digits read so far.
#[derive(Clone, Copy, Debug, PartialEq, Eq, Structural)]
pub struct IntegerState {
    pub negative: bool,
    pub has_digit: bool,
    pub magnitude: u128,
}

impl DeepView for IntegerState {
    type V = IntegerState;

    open spec fn deep_view(&self) -> IntegerState {
        *self
    }
}

/// A parsed numeral, as sign and magnitude.
#[derive(Clone, Copy, Debug, PartialEq, Eq, Structural)]
pub struct Numeral {
    pub negative: bool,
    pub magnitude: u128,
}

impl DeepView for Numeral {
    type V = Numeral;

    open spec fn deep_view(&self) -> Numeral {
        *self
    }
}

impl Numeral {
    pub open spec fn value(self) -> int {
        if self.negative {
            -(self.magnitude as int)
        } else {
            self.magnitude as int
        }
    }
}

pub open spec fn is_digit(b: u8) -> bool {
    0x30 <= b <= 0x39
}

/// `m * 10 + d`, or `None` when that leaves `u128`.
fn append_digit(m: u128, d: u128) -> (r: Option<u128>)
    ensures
        r matches Some(x) ==> x == m * 10 + d,
        r is None ==> m * 10 + d > u128::MAX,
{
    match m.checked_mul(10) {
        None => None,
        Some(x) => x.checked_add(d),
    }
}

impl IntegerParser {
    pub fn new(min: i128, max: u128) -> (r: IntegerParser)
        ensures
            r.min == min,
            r.max == max,
    {
        IntegerParser { min, max }
    }

    /// The largest magnitude allowed with the given sign.
    pub open spec fn bound(&self, negative: bool) -> int {
        if negative {
            -self.min
        } else {
            self.max as int
        }
    }

    pub open spec fn in_range(&self, v: int) -> bool {
        self.min <= v <= self.max
    }

    pub open spec fn signed(negative: bool, m: int) -> int {
        if negative {
            -m
        } else {
            m
        }
    }

    fn exec_bound(&self, negative: bool) -> (r: u128)
        requires
            negative ==> self.min < 0,
        ensures
            r == self.bound(negative),
    {
        if negative {
            ((-(self.min + 1)) as u128) + 1
        } else {
            self.max
        }
    }

    /// Whether a positive magnitude `m` reaches `min` (a negative one always
    /// does, and no magnitude past its bound is tested).
    fn reaches_min(&self, negative: bool, m: u128) -> (r: bool)
        ensures
            negative ==> (r == (Self::signed(negative, m as int) <= self.max)),
            !negative ==> (r == (self.min <= m as int)),
    {
        if negative {
            true
        } else {
            self.min <= 0 || m >= self.min as u128
        }
    }
}

impl Parser for IntegerParser {
    type PartialState = IntegerState;
    type Output = Numeral;

    open spec fn wf(&self) -> bool {
        true
    }

    open spec fn state_inv(&self, st: IntegerState) -> bool {
        &&& !st.has_digit ==> st.magnitude == 0
        &&& st.negative ==> self.min < 0
        &&& st.magnitude <= self.bound(st.negative)
    }

    open spec fn spec_start(&self) -> IntegerState {
        IntegerState { negative: false, has_digit: false, magnitude: 0 }
    }

    open spec fn spec_feed(&self, st: IntegerState, b: u8) -> Result<Step<IntegerState, Numeral>, ParseError> {
        if b == 0x2d && !st.has_digit && !st.negative && self.min < 0 {
            Ok(Step::Continue(IntegerState { negative: true, ..st }))
        } else if is_digit(b) {
            let m = st.magnitude * 10 + (b - 0x30);
            if m > self.bound(st.negative) {
                Err(ParseError::OutOfRange)
            } else if m * 10 > self.bound(st.negative) {
                if self.in_range(Self::signed(st.negative, m)) {
                    Ok(Step::Done(Numeral { negative: st.negative, magnitude: m as u128 }, true))
                } else {
                    Err(ParseError::OutOfRange)
                }
            } else {
                Ok(Step::Continue(IntegerState { negative: st.negative, has_digit: true, magnitude: m as u128 }))
            }
        } else if st.has_digit {
            if self.in_range(Self::signed(st.negative, st.magnitude as int)) {
                Ok(Step::Done(Numeral { negative: st.negative, magnitude: st.magnitude }, false))
            } else {
                Err(ParseError::OutOfRange)
            }
        } else {
            Err(ParseError::UnexpectedByte { found: b })
        }
    }

    open spec fn spec_end(&self, st: IntegerState) -> Result<EndStep<IntegerState, Numeral>, ParseError> {
        if !st.has_digit {
            Ok(EndStep::Pending(st))
        } else if self.in_range(Self::signed(st.negative, st.magnitude as int)) {
            Ok(EndStep::Value(Numeral { negative: st.negative, magnitude: st.magnitude }))
        } else {
            Err(ParseError::OutOfRange)
        }
    }

    fn create_parser_state(&self) -> (r: IntegerState) {
        IntegerState { negative: false, has_digit: false, magnitude: 0 }
    }

    fn feed(&self, st: IntegerState, b: u8) -> (r: Result<Step<IntegerState, Numeral>, ParseError>) {
        if b == 0x2d && !st.has_digit && !st.negative && self.min < 0 {
            Ok(Step::Continue(IntegerState { negative: true, has_digit: st.has_digit, magnitude: st.magnitude }))
        } else if 0x30 <= b && b <= 0x39 {
            let bound = self.exec_bound(st.negative);
            let m = match append_digit(st.magnitude, (b - 0x30) as u128) {
                None => {
                    return Err(ParseError::OutOfRange);
                },
                Some(m) => m,
            };
            let full = match m.checked_mul(10) {
                None => true,
                Some(x) => x > bound,
            };
            if m > bound {
                Err(ParseError::OutOfRange)
            } else if full {
                if self.reaches_min(st.negative, m) {
                    Ok(Step::Done(Numeral { negative: st.negative, magnitude: m }, true))
                } else {
                    Err(ParseError::OutOfRange)
                }
            } else {
                Ok(Step::Continue(IntegerState { negative: st.negative, has_digit: true, magnitude: m }))
            }
        } else if st.has_digit {
            if self.reaches_min(st.negative, st.magnitude) {
                Ok(Step::Done(Numeral { negative: st.negative, magnitude: st.magnitude }, false))
            } else {
                Err(ParseError::OutOfRange)
            }
        } else {
            Err(ParseError::UnexpectedByte { found: b })
        }
    }

    fn end(&self, st: IntegerState) -> (r: Result<EndStep<IntegerState, Numeral>, ParseError>) {
        if !st.has_digit {
            Ok(EndStep::Pending(st))
        } else if self.reaches_min(st.negative, st.magnitude) {
            Ok(EndStep::Value(Numeral { negative: st.negative, magnitude: st.magnitude }))
        } else {
            Err(ParseError::OutOfRange)
        }
    }

    fn duplicate_state(&self, st: &IntegerState) -> (r: IntegerState) {
        *st
    }

    fn duplicate_output(&self, o: &Numeral) -> (r: Numeral) {
        *o
    }
}

/// A native integer type that a numeral can be narrowed into.
pub trait BoundedInt: Sized + DeepView<V = Self> {
    spec fn lo() -> int;

    spec fn hi() -> int;

    /// The value `v`, for `lo() <= v <= hi()`.
    spec fn spec_from(v: int) -> Self;

    fn lo_i128() -> (r: i128)
        ensures
            r == Self::lo(),
            r <= 0,
    ;

    fn hi_u128() -> (r: u128)
        ensures
            r == Self::hi(),
    ;

    fn duplicate(&self) -> (r: Self)
        ensures
            r == *self,
    ;

    /// Checked narrowing.
    fn narrow(n: Numeral) -> (r: Option<Self>)
        ensures
            Self::lo() <= n.value() <= Self::hi() ==> r == Some(Self::spec_from(n.value())),
            !(Self::lo() <= n.value() <= Self::hi()) ==> r is None,
    ;
}

/// The numeral parser bounded by `T`'s own range, whose output is a `T`.
pub struct NumberParser<T> {
    pub parser: IntegerParser,
    pub marker: core::marker::PhantomData<T>,
}

impl<T: BoundedInt> NumberParser<T> {
    pub fn new() -> (r: Self)
        ensures
            r.wf(),
            r.parser.min == T::lo(),
            r.parser.max == T::hi(),
    {
        NumberParser { parser: IntegerParser::new(T::lo_i128(), T::hi_u128()), marker: core::marker::PhantomData }
    }
}

impl<T: BoundedInt> Parser for NumberParser<T> {
    type PartialState = IntegerState;
    type Output = T;

    open spec fn wf(&self) -> bool {
        self.parser.min == T::lo() && self.parser.max == T::hi()
    }

    open spec fn state_inv(&self, st: IntegerState) -> bool {
        self.parser.state_inv(st)
    }

    open spec fn spec_start(&self) -> IntegerState {
        self.parser.spec_start()
    }

    open spec fn spec_feed(&self, st: IntegerState, b: u8) -> Result<Step<IntegerState, T>, ParseError> {
        match self.parser.spec_feed(st, b) {
            Ok(Step::Continue(s)) => Ok(Step::Continue(s)),
            Ok(Step::Done(v, c)) => if T::lo() <= v.value() <= T::hi() {
                Ok(Step::Done(T::spec_from(v.value()).deep_view(), c))
            } else {
                Err(ParseError::OutOfRange)
            },
            Err(e) => Err(e),
        }
    }

    open spec fn spec_end(&self, st: IntegerState) -> Result<EndStep<IntegerState, T>, ParseError> {
        match self.parser.spec_end(st) {
            Ok(EndStep::Pending(s)) => Ok(EndStep::Pending(s)),
            Ok(EndStep::Value(v)) => if T::lo() <= v.value() <= T::hi() {
                Ok(EndStep::Value(T::spec_from(v.value()).deep_view()))
            } else {
                Err(ParseError::OutOfRange)
            },
            Err(e) => Err(e),
        }
    }

    fn create_parser_state(&self) -> (r: IntegerState) {
        self.parser.create_parser_state()
    }

    fn feed(&self, st: IntegerState, b: u8) -> (r: Result<Step<IntegerState, T>, ParseError>) {
        match self.parser.feed(st, b) {
            Ok(Step::Continue(s)) => Ok(Step::Continue(s)),
            Ok(Step::Done(v, c)) => match T::narrow(v) {
                Some(t) => Ok(Step::Done(t, c)),
                None => Err(ParseError::OutOfRange),
            },
            Err(e) => Err(e),
        }
    }

    fn end(&self, st: IntegerState) -> (r: Result<EndStep<IntegerState, T>, ParseError>) {
        match self.parser.end(st) {
            Ok(EndStep::Pending(s)) => Ok(EndStep::Pending(s)),
            Ok(EndStep::Value(v)) => match T::narrow(v) {
                Some(t) => Ok(EndStep::Value(t)),
                None => Err(ParseError::OutOfRange),
            },
            Err(e) => Err(e),
        }
    }

    fn duplicate_state(&self, st: &IntegerState) -> (r: IntegerState) {
        *st
    }

    fn duplicate_output(&self, o: &T) -> (r: T) {
        o.duplicate()
    }
}

impl BoundedInt for u8 {
    open spec fn lo() -> int {
        u8::MIN as int
    }

    open spec fn hi() -> int {
        u8::MAX as int
    }

    open spec fn spec_from(v: int) -> u8 {
        v as u8
    }

    fn lo_i128() -> (r: i128) {
        0
    }

    fn hi_u128() -> (r: u128) {
        u8::MAX as u128
    }

    fn duplicate(&self) -> (r: u8) {
        *self
    }

    fn narrow(n: Numeral) -> (r: Option<u8>) {
        if n.negative {
            if n.magnitude == 0 {
                Some(0)
            } else {
                None
            }
        } else if n.magnitude <= u8::MAX as u128 {
            Some(n.magnitude as u8)
        } else {
            None
        }
    }
}

impl BoundedInt for u16 {
    open spec fn lo() -> int {
        u16::MIN as int
    }

    open spec fn hi() -> int {
        u16::MAX as int
    }

    open spec fn spec_from(v: int) -> u16 {
        v as u16
    }

    fn lo_i128() -> (r: i128) {
        0
    }

    fn hi_u128() -> (r: u128) {
        u16::MAX as u128
    }

    fn duplicate(&self) -> (r: u16) {
        *self
    }

    fn narrow(n: Numeral) -> (r: Option<u16>) {
        if n.negative {
            if n.magnitude == 0 {
                Some(0)
            } else {
                None
            }
        } else if n.magnitude <= u16::MAX as u128 {
            Some(n.magnitude as u16)
        } else {
            None
        }
    }
}

impl BoundedInt for u32 {
    open spec fn lo() -> int {
        u32::MIN as int
    }

    open spec fn hi() -> int {
        u32::MAX as int
    }

    open spec fn spec_from(v: int) -> u32 {
        v as u32
    }

    fn lo_i128() -> (r: i128) {
        0
    }

    fn hi_u128() -> (r: u128) {
        u32::MAX as u128
    }

    fn duplicate(&self) -> (r: u32) {
        *self
    }

    fn narrow(n: Numeral) -> (r: Option<u32>) {
        if n.negative {
            if n.magnitude == 0 {
                Some(0)
            } else {
                None
            }
        } else if n.magnitude <= u32::MAX as u128 {
            Some(n.magnitude as u32)
        } else {
            None
        }
    }
}

impl BoundedInt for u64 {
    open spec fn lo() -> int {
        u64::MIN as int
    }

    open spec fn hi() -> int {
        u64::MAX as int
    }

    open spec fn spec_from(v: int) -> u64 {
        v as u64
    }

    fn lo_i128() -> (r: i128) {
        0
    }

    fn hi_u128() -> (r: u128) {
        u64::MAX as u128
    }

    fn duplicate(&self) -> (r: u64) {
        *self
    }

    fn narrow(n: Numeral) -> (r: Option<u64>) {
        if n.negative {
            if n.magnitude == 0 {
                Some(0)
            } else {
                None
            }
        } else if n.magnitude <= u64::MAX as u128 {
            Some(n.magnitude as u64)
        } else {
            None
        }
    }
}

impl BoundedInt for u128 {
    open spec fn lo() -> int {
        u128::MIN as int
    }

    open spec fn hi() -> int {
        u128::MAX as int
    }

    open spec fn spec_from(v: int) -> u128 {
        v as u128
    }

    fn lo_i128() -> (r: i128) {
        0
    }

    fn hi_u128() -> (r: u128) {
        u128::MAX as u128
    }

    fn duplicate(&self) -> (r: u128) {
        *self
    }

    fn narrow(n: Numeral) -> (r: Option<u128>) {
        if n.negative {
            if n.magnitude == 0 {
                Some(0)
            } else {
                None
            }
        } else if n.magnitude <= u128::MAX as u128 {
            Some(n.magnitude as u128)
        } else {
            None
        }
    }
}

impl BoundedInt for i8 {
    open spec fn lo() -> int {
        i8::MIN as int
    }

    open spec fn hi() -> int {
        i8::MAX as int
    }

    open spec fn spec_from(v: int) -> i8 {
        v as i8
    }

    fn lo_i128() -> (r: i128) {
        i8::MIN as i128
    }

    fn hi_u128() -> (r: u128) {
        i8::MAX as u128
    }

    fn duplicate(&self) -> (r: i8) {
        *self
    }

    fn narrow(n: Numeral) -> (r: Option<i8>) {
        if n.negative {
            if n.magnitude <= (i8::MAX as u128) + 1 {
                Some((-(n.magnitude as i128)) as i8)
            } else {
                None
            }
        } else if n.magnitude <= i8::MAX as u128 {
            Some(n.magnitude as i8)
        } else {
            None
        }
    }
}

impl BoundedInt for i16 {
    open spec fn lo() -> int {
        i16::MIN as int
    }

    open spec fn hi() -> int {
        i16::MAX as int
    }

    open spec fn spec_from(v: int) -> i16 {
        v as i16
    }

    fn lo_i128() -> (r: i128) {
        i16::MIN as i128
    }

    fn hi_u128() -> (r: u128) {
        i16::MAX as u128
    }

    fn duplicate(&self) -> (r: i16) {
        *self
    }

    fn narrow(n: Numeral) -> (r: Option<i16>) {
        if n.negative {
            if n.magnitude <= (i16::MAX as u128) + 1 {
                Some((-(n.magnitude as i128)) as i16)
            } else {
                None
            }
        } else if n.magnitude <= i16::MAX as u128 {
            Some(n.magnitude as i16)
        } else {
            None
        }
    }
}

impl BoundedInt for i32 {
    open spec fn lo() -> int {
        i32::MIN as int
    }

    open spec fn hi() -> int {
        i32::MAX as int
    }

    open spec fn spec_from(v: int) -> i32 {
        v as i32
    }

    fn lo_i128() -> (r: i128) {
        i32::MIN as i128
    }

    fn hi_u128() -> (r: u128) {
        i32::MAX as u128
    }

    fn duplicate(&self) -> (r: i32) {
        *self
    }

    fn narrow(n: Numeral) -> (r: Option<i32>) {
        if n.negative {
            if n.magnitude <= (i32::MAX as u128) + 1 {
                Some((-(n.magnitude as i128)) as i32)
            } else {
                None
            }
        } else if n.magnitude <= i32::MAX as u128 {
            Some(n.magnitude as i32)
        } else {
            None
        }
    }
}

impl BoundedInt for i64 {
    open spec fn lo() -> int {
        i64::MIN as int
    }

    open spec fn hi() -> int {
        i64::MAX as int
    }

    open spec fn spec_from(v: int) -> i64 {
        v as i64
    }

    fn lo_i128() -> (r: i128) {
        i64::MIN as i128
    }

    fn hi_u128() -> (r: u128) {
        i64::MAX as u128
    }

    fn duplicate(&self) -> (r: i64) {
        *self
    }

    fn narrow(n: Numeral) -> (r: Option<i64>) {
        if n.negative {
            if n.magnitude <= (i64::MAX as u128) + 1 {
                Some((-(n.magnitude as i128)) as i64)
            } else {
                None
            }
        } else if n.magnitude <= i64::MAX as u128 {
            Some(n.magnitude as i64)
        } else {
            None
        }
    }
}

impl BoundedInt for i128 {
    open spec fn lo() -> int {
        i128::MIN as int
    }

    open spec fn hi() -> int {
        i128::MAX as int
    }

    open spec fn spec_from(v: int) -> i128 {
        v as i128
    }

    fn lo_i128() -> (r: i128) {
        i128::MIN as i128
    }

    fn hi_u128() -> (r: u128) {
        i128::MAX as u128
    }

    fn duplicate(&self) -> (r: i128) {
        *self
    }

    fn narrow(n: Numeral) -> (r: Option<i128>) {
        if n.negative {
            if n.magnitude <= i128::MAX as u128 {
                Some(-(n.magnitude as i128))
            } else if n.magnitude == i128::MAX as u128 + 1 {
                Some(i128::MIN)
            } else {
                None
            }
        } else if n.magnitude <= i128::MAX as u128 {
            Some(n.magnitude as i128)
        } else {
            None
        }
    }
}

pub type U8Parser = NumberParser<u8>;

pub type U16Parser = NumberParser<u16>;

pub type U32Parser = NumberParser<u32>;

pub type U64Parser = NumberParser<u64>;

pub type U128Parser = NumberParser<u128>;

pub type I8Parser = NumberParser<i8>;

pub type I16Parser = NumberParser<i16>;

pub type I32Parser = NumberParser<i32>;

pub type I64Parser = NumberParser<i64>;

pub type I128Parser = NumberParser<i128>;

} // verus!
