//! Runs of text, decoded from UTF-8 and bounded in length.
use vstd::prelude::*;
use crate::parser::{step_view, EndStep, ParseError, Parser, Step};

verus! {

/// Parses a run of characters, decoded from UTF-8, whose length in
/// characters lies in `[min_len, max_len]`. Every character that is not a
/// control character (U+0000 to U+001F, U+007F to U+009F) is accepted. The
/// run completes:
/// - right after its `max_len`-th character;
/// - at a one-byte control character, which it leaves unconsumed;
/// - at the end-of-input signal.
/// Ending with fewer than `min_len` characters is an error. Bytes that are
/// not well-formed UTF-8, and multi-byte control characters (whose first
/// bytes are consumed before they are known), are rejected.
#[derive(Clone, Copy, Debug)]
pub struct StringParser {
    pub min_len: usize,
    pub max_len: usize,
}

/// The text so far, its length in characters, and the character being
/// decoded: how many continuation bytes it still needs, the bits read so
/// far, and its least valid code point.
#[derive(Clone, Debug, PartialEq, Eq)]
pub struct StringState {
    pub text: String,
    pub chars: usize,
    pub need: u8,
    pub code: u32,
    pub least: u32,
}

/// The mathematical view of a `StringState`.
pub struct StringStateView {
    pub text: Seq<char>,
    pub chars: usize,
    pub need: u8,
    pub code: u32,
    pub least: u32,
}

impl DeepView for StringState {
    type V = StringStateView;

    open spec fn deep_view(&self) -> StringStateView {
        StringStateView { text: self.text@, chars: self.chars, need: self.need, code: self.code, least: self.least }
    }
}

/// A Unicode scalar value: a code point that is not a surrogate.
pub open spec fn is_scalar(v: int) -> bool {
    0 <= v <= 0x10FFFF && !(0xD800 <= v <= 0xDFFF)
}

/// The character with code point `v`.
pub open spec fn char_of(v: u32) -> char {
    choose|c: char| #[trigger] (c as u32) == v
}

/// Not a control character.
pub open spec fn is_accepted(c: char) -> bool {
    !((c as u32) < 0x20 || (0x7F <= (c as u32) && (c as u32) <= 0x9F))
}

/// Relies on `char::from_u32`: `Some` exactly for Unicode scalar values,
/// holding the character with that code point.
#[verifier::external_body]
fn char_from_u32(v: u32) -> (r: Option<char>)
    ensures
        r is Some <==> is_scalar(v as int),
        r matches Some(c) ==> c as u32 == v,
{
    char::from_u32(v)
}

/// Relies on `String::push`: appends one character.
#[verifier::external_body]
fn push_char(s: &mut String, c: char)
    ensures
        final(s)@ == old(s)@.push(c),
{
    s.push(c)
}

proof fn lemma_char_of(c: char)
    ensures
        char_of(c as u32) == c,
{
    let d = char_of(c as u32);
    assert(exists|x: char| #[trigger] (x as u32) == c as u32);
    assert(d as u32 == c as u32);
}

impl StringParser {
    pub fn new(min_len: usize, max_len: usize) -> (r: StringParser)
        ensures
            r.min_len == min_len,
            r.max_len == max_len,
    {
        StringParser { min_len, max_len }
    }

    pub open spec fn fresh(text: Seq<char>) -> StringStateView {
        StringStateView { text, chars: text.len() as usize, need: 0, code: 0, least: 0 }
    }

    /// Character `c` has been decoded after `text`; `single` tells whether
    /// it is one byte long, namely the byte just fed.
    pub open spec fn spec_complete(&self, text: Seq<char>, c: char, single: bool, b: u8) -> Result<
        Step<StringStateView, Seq<char>>,
        ParseError,
    > {
        if is_accepted(c) {
            let t = text.push(c);
            if t.len() >= self.max_len {
                Ok(Step::Done(t, true))
            } else {
                Ok(Step::Continue(Self::fresh(t)))
            }
        } else if !single {
            Err(ParseError::UnexpectedByte { found: b })
        } else if text.len() >= self.min_len {
            Ok(Step::Done(text, false))
        } else {
            Err(ParseError::TextTooShort { min: self.min_len, found: text.len() as usize })
        }
    }

    fn complete(&self, text: String, chars: usize, c: char, single: bool, b: u8) -> (r: Result<
        Step<StringState, String>,
        ParseError,
    >)
        requires
            chars == text@.len(),
            chars < self.max_len,
        ensures
            step_view(r) == self.spec_complete(text@, c, single, b),
            r matches Ok(Step::Continue(s)) ==> self.state_inv(s.deep_view()),
    {
        let v = c as u32;
        let accepted = !(v < 0x20 || (0x7F <= v && v <= 0x9F));
        if accepted {
            let mut t = text;
            push_char(&mut t, c);
            let n = chars + 1;
            if n >= self.max_len {
                Ok(Step::Done(t, true))
            } else {
                Ok(Step::Continue(StringState { text: t, chars: n, need: 0, code: 0, least: 0 }))
            }
        } else if !single {
            Err(ParseError::UnexpectedByte { found: b })
        } else if chars >= self.min_len {
            Ok(Step::Done(text, false))
        } else {
            Err(ParseError::TextTooShort { min: self.min_len, found: chars })
        }
    }
}

impl Parser for StringParser {
    type PartialState = StringState;
    type Output = String;

    open spec fn wf(&self) -> bool {
        true
    }

    open spec fn state_inv(&self, st: StringStateView) -> bool {
        &&& st.chars == st.text.len()
        &&& st.text.len() <= self.max_len
        &&& st.need <= 3
        &&& st.need > 0 ==> st.text.len() < self.max_len && st.code < 0x10000
        &&& st.need >= 2 ==> st.code < 320
        &&& st.need == 3 ==> st.code <= 4
    }

    open spec fn spec_start(&self) -> StringStateView {
        Self::fresh(Seq::empty())
    }

    open spec fn spec_feed(&self, st: StringStateView, b: u8) -> Result<Step<StringStateView, Seq<char>>, ParseError> {
        if st.need == 0 {
            if st.text.len() >= self.max_len {
                Ok(Step::Done(st.text, false))
            } else if b < 0x80 {
                self.spec_complete(st.text, char_of(b as u32), true, b)
            } else if 0xC2 <= b <= 0xDF {
                Ok(Step::Continue(StringStateView { text: st.text, chars: st.chars, need: 1, code: (b - 0xC0) as u32, least: 0x80 }))
            } else if 0xE0 <= b <= 0xEF {
                Ok(Step::Continue(StringStateView { text: st.text, chars: st.chars, need: 2, code: (b - 0xE0) as u32, least: 0x800 }))
            } else if 0xF0 <= b <= 0xF4 {
                Ok(Step::Continue(StringStateView { text: st.text, chars: st.chars, need: 3, code: (b - 0xF0) as u32, least: 0x10000 }))
            } else {
                Err(ParseError::UnexpectedByte { found: b })
            }
        } else if !(0x80 <= b <= 0xBF) {
            Err(ParseError::UnexpectedByte { found: b })
        } else {
            let code = (st.code * 64 + (b - 0x80)) as u32;
            if st.need > 1 {
                Ok(Step::Continue(StringStateView { text: st.text, chars: st.chars, need: (st.need - 1) as u8, code, least: st.least }))
            } else if code < st.least || !is_scalar(code as int) {
                Err(ParseError::UnexpectedByte { found: b })
            } else {
                self.spec_complete(st.text, char_of(code), false, b)
            }
        }
    }

    open spec fn spec_end(&self, st: StringStateView) -> Result<EndStep<StringStateView, Seq<char>>, ParseError> {
        if st.need > 0 {
            Ok(EndStep::Pending(st))
        } else if st.text.len() >= self.min_len {
            Ok(EndStep::Value(st.text))
        } else {
            Err(ParseError::TextTooShort { min: self.min_len, found: st.text.len() as usize })
        }
    }

    fn create_parser_state(&self) -> (r: StringState) {
        StringState { text: String::new(), chars: 0, need: 0, code: 0, least: 0 }
    }

    fn feed(&self, st: StringState, b: u8) -> (r: Result<Step<StringState, String>, ParseError>) {
        let StringState { text, chars, need, code, least } = st;
        if need == 0 {
            if chars >= self.max_len {
                Ok(Step::Done(text, false))
            } else if b < 0x80 {
                let c = b as char;
                proof {
                    lemma_char_of(c);
                }
                self.complete(text, chars, c, true, b)
            } else if 0xC2 <= b && b <= 0xDF {
                Ok(Step::Continue(StringState { text, chars, need: 1, code: (b - 0xC0) as u32, least: 0x80 }))
            } else if 0xE0 <= b && b <= 0xEF {
                Ok(Step::Continue(StringState { text, chars, need: 2, code: (b - 0xE0) as u32, least: 0x800 }))
            } else if 0xF0 <= b && b <= 0xF4 {
                Ok(Step::Continue(StringState { text, chars, need: 3, code: (b - 0xF0) as u32, least: 0x10000 }))
            } else {
                Err(ParseError::UnexpectedByte { found: b })
            }
        } else if !(0x80 <= b && b <= 0xBF) {
            Err(ParseError::UnexpectedByte { found: b })
        } else {
            let code = code * 64 + (b - 0x80) as u32;
            if need > 1 {
                Ok(Step::Continue(StringState { text, chars, need: need - 1, code, least }))
            } else if code < least {
                Err(ParseError::UnexpectedByte { found: b })
            } else {
                match char_from_u32(code) {
                    None => Err(ParseError::UnexpectedByte { found: b }),
                    Some(c) => {
                        proof {
                            lemma_char_of(c);
                        }
                        self.complete(text, chars, c, false, b)
                    },
                }
            }
        }
    }

    fn end(&self, st: StringState) -> (r: Result<EndStep<StringState, String>, ParseError>) {
        if st.need > 0 {
            Ok(EndStep::Pending(st))
        } else if st.chars >= self.min_len {
            Ok(EndStep::Value(st.text))
        } else {
            Err(ParseError::TextTooShort { min: self.min_len, found: st.chars })
        }
    }

    fn duplicate_state(&self, st: &StringState) -> (r: StringState) {
        StringState { text: st.text.clone(), chars: st.chars, need: st.need, code: st.code, least: st.least }
    }

    fn duplicate_output(&self, o: &String) -> (r: String) {
        o.clone()
    }
}

} // verus!
