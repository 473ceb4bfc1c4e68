//! An incremental, resumable parser-combinator engine.
//!
//! Parsers consume a byte stream in chunks of any size. At each chunk
//! boundary a parse step reports a finished typed value with the unconsumed
//! rest of the chunk, a resumable partial state, or a rejection. States are
//! plain values, and `parse` only reads the state it is given: many
//! continuations can be tried from one point, each on its own copy.
use vstd::prelude::*;

pub mod parser;
pub mod literal;
pub mod integer;
pub mod sequence;
pub mod separated;
pub mod repeat;
pub mod string;
pub mod has_parser;

pub use parser::{parse, EndStep, Outcome, ParseError, ParseResult, Parser, Step};
pub use literal::{LiteralParser, LiteralState};
pub use integer::{
    BoundedInt, I128Parser, I16Parser, I32Parser, I64Parser, I8Parser, IntegerParser, IntegerState,
    NumberParser, Numeral, U128Parser, U16Parser, U32Parser, U64Parser, U8Parser,
};
pub use repeat::{RepeatParser, RepeatState, RepeatStateView};
pub use sequence::{SequenceParser, SequenceState};
pub use separated::{SeparatedParser, SeparatedPhase, SeparatedState, SeparatedStateView};
pub use string::{StringParser, StringState, StringStateView};
pub use has_parser::{ArrayParser, BracketedList, HasParser, VecParser};
