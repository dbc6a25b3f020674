//! How deep a document nests, read off its bytes without decoding it.
//!
//! The scan follows the document's strings and comments, so that only the
//! `[`, `{` and `.` that stand between them count: a flat table of quoted
//! values has none, whatever its keys, values and comments hold.

use vstd::prelude::*;

verus! {

/// How deep a document may at most nest to be decoded: its openers and the
/// key dots of one line, taken together.
pub const MAX_DEPTH: usize = 256;

/// Where in a document a byte stands.
#[derive(Clone, Copy, Debug)]
pub enum Place {
    /// Between strings and comments.
    Plain,
    /// In a comment, up to the end of the line.
    Comment,
    /// Behind one quote: a string has begun.
    One,
    /// Behind two quotes: an empty string, or the start of a long one.
    Two,
    /// In a string of one line.
    Short,
    /// Behind a backslash in a string of one line.
    ShortEscape,
    /// In a long string.
    Long,
    /// In a long string, behind one quote.
    LongOne,
    /// In a long string, behind two quotes.
    LongTwo,
    /// Behind a backslash in a long string.
    LongEscape,
    /// Behind the three quotes that shut a long string; a fourth still
    /// belongs to it.
    Shut,
    /// Behind a fourth quote; a fifth still belongs to the string.
    ShutOne,
}

/// The state of the scan: the place, and the quote of the string at hand.
#[derive(Clone, Copy, Debug)]
pub struct Lexing {
    pub place: Place,
    pub quote: u8,
}

/// The state behind a byte that is read between strings and comments.
pub open spec fn after_plain(byte: u8) -> Lexing {
    if byte == 0x23u8 {
        Lexing { place: Place::Comment, quote: 0u8 }
    } else if byte == 0x22u8 || byte == 0x27u8 {
        Lexing { place: Place::One, quote: byte }
    } else {
        Lexing { place: Place::Plain, quote: 0u8 }
    }
}

/// The state behind a byte in a string of one line. A line's end leaves the
/// string; only a string in double quotes has escapes.
pub open spec fn after_short(quote: u8, byte: u8) -> Lexing {
    if byte == quote || byte == 0x0au8 {
        Lexing { place: Place::Plain, quote: 0u8 }
    } else if byte == 0x5cu8 && quote == 0x22u8 {
        Lexing { place: Place::ShortEscape, quote }
    } else {
        Lexing { place: Place::Short, quote }
    }
}

/// The state behind a byte in a long string that is no quote.
pub open spec fn after_long(quote: u8, byte: u8) -> Lexing {
    if byte == 0x5cu8 && quote == 0x22u8 {
        Lexing { place: Place::LongEscape, quote }
    } else {
        Lexing { place: Place::Long, quote }
    }
}

/// The state behind one more byte.
pub open spec fn after(state: Lexing, byte: u8) -> Lexing {
    let quote = state.quote;
    match state.place {
        Place::Plain => after_plain(byte),
        Place::Comment => if byte == 0x0au8 {
            Lexing { place: Place::Plain, quote: 0u8 }
        } else {
            state
        },
        Place::One => if byte == quote {
            Lexing { place: Place::Two, quote }
        } else {
            after_short(quote, byte)
        },
        Place::Two => if byte == quote {
            Lexing { place: Place::Long, quote }
        } else {
            after_plain(byte)
        },
        Place::Short => after_short(quote, byte),
        Place::ShortEscape => Lexing { place: Place::Short, quote },
        Place::Long => if byte == quote {
            Lexing { place: Place::LongOne, quote }
        } else {
            after_long(quote, byte)
        },
        Place::LongOne => if byte == quote {
            Lexing { place: Place::LongTwo, quote }
        } else {
            after_long(quote, byte)
        },
        Place::LongTwo => if byte == quote {
            Lexing { place: Place::Shut, quote }
        } else {
            after_long(quote, byte)
        },
        Place::LongEscape => Lexing { place: Place::Long, quote },
        Place::Shut => if byte == quote {
            Lexing { place: Place::ShutOne, quote }
        } else {
            after_plain(byte)
        },
        Place::ShutOne => if byte == quote {
            Lexing { place: Place::Plain, quote: 0u8 }
        } else {
            after_plain(byte)
        },
    }
}

/// Whether a byte in this state stands between strings and comments.
pub open spec fn read_plainly(state: Lexing, byte: u8) -> bool {
    match state.place {
        Place::Plain => true,
        Place::Two | Place::Shut | Place::ShutOne => byte != state.quote,
        _ => false,
    }
}

/// The state behind all of `bytes`.
pub open spec fn lexing(bytes: Seq<u8>) -> Lexing
    decreases bytes.len(),
{
    if bytes.len() == 0 {
        Lexing { place: Place::Plain, quote: 0u8 }
    } else {
        after(lexing(bytes.drop_last()), bytes.last())
    }
}

/// Whether the last byte of `bytes` is `byte` and stands between strings
/// and comments.
pub open spec fn ends_in_plain(bytes: Seq<u8>, byte: u8) -> bool
    recommends
        bytes.len() > 0,
{
    bytes.last() == byte && read_plainly(lexing(bytes.drop_last()), byte)
}

/// The number of `[` and `{` in `bytes` that stand between strings and
/// comments: those that can open an array or a table.
pub open spec fn openers(bytes: Seq<u8>) -> nat
    decreases bytes.len(),
{
    if bytes.len() == 0 {
        0
    } else if ends_in_plain(bytes, 0x5bu8) || ends_in_plain(bytes, 0x7bu8) {
        openers(bytes.drop_last()) + 1
    } else {
        openers(bytes.drop_last())
    }
}

/// The number of dots between strings and comments in the last line of
/// `bytes`, a line ending with the byte 10.
pub open spec fn trailing_dots(bytes: Seq<u8>) -> nat
    decreases bytes.len(),
{
    if bytes.len() == 0 || bytes.last() == 0x0au8 {
        0
    } else if ends_in_plain(bytes, 0x2eu8) {
        trailing_dots(bytes.drop_last()) + 1
    } else {
        trailing_dots(bytes.drop_last())
    }
}

/// The number of such dots in the line of `bytes` that has most of them.
pub open spec fn line_dots(bytes: Seq<u8>) -> nat
    decreases bytes.len(),
{
    if bytes.len() == 0 {
        0
    } else if trailing_dots(bytes) > line_dots(bytes.drop_last()) {
        trailing_dots(bytes)
    } else {
        line_dots(bytes.drop_last())
    }
}

/// A document that nests no deeper than `MAX_DEPTH`. A value nests one
/// level for each opener before it at most, and a key, which stands in one
/// line, one level for each of its dots.
pub open spec fn shallow(text: Seq<char>) -> bool {
    openers(vstd::utf8::encode_utf8(text)) + line_dots(vstd::utf8::encode_utf8(text))
        <= MAX_DEPTH
}

fn step_plain(byte: u8) -> (r: Lexing)
    ensures
        r == after_plain(byte),
{
    if byte == 0x23u8 {
        Lexing { place: Place::Comment, quote: 0u8 }
    } else if byte == 0x22u8 || byte == 0x27u8 {
        Lexing { place: Place::One, quote: byte }
    } else {
        Lexing { place: Place::Plain, quote: 0u8 }
    }
}

fn step_short(quote: u8, byte: u8) -> (r: Lexing)
    ensures
        r == after_short(quote, byte),
{
    if byte == quote || byte == 0x0au8 {
        Lexing { place: Place::Plain, quote: 0u8 }
    } else if byte == 0x5cu8 && quote == 0x22u8 {
        Lexing { place: Place::ShortEscape, quote }
    } else {
        Lexing { place: Place::Short, quote }
    }
}

fn step_long(quote: u8, byte: u8) -> (r: Lexing)
    ensures
        r == after_long(quote, byte),
{
    if byte == 0x5cu8 && quote == 0x22u8 {
        Lexing { place: Place::LongEscape, quote }
    } else {
        Lexing { place: Place::Long, quote }
    }
}

/// Reads one byte in a state: the state behind it, and whether the byte
/// stands between strings and comments.
pub fn step(state: Lexing, byte: u8) -> (r: (Lexing, bool))
    ensures
        r.0 == after(state, byte),
        r.1 == read_plainly(state, byte),
{
    let quote = state.quote;
    match state.place {
        Place::Plain => (step_plain(byte), true),
        Place::Comment => if byte == 0x0au8 {
            (Lexing { place: Place::Plain, quote: 0u8 }, false)
        } else {
            (state, false)
        },
        Place::One => if byte == quote {
            (Lexing { place: Place::Two, quote }, false)
        } else {
            (step_short(quote, byte), false)
        },
        Place::Two => if byte == quote {
            (Lexing { place: Place::Long, quote }, false)
        } else {
            (step_plain(byte), true)
        },
        Place::Short => (step_short(quote, byte), false),
        Place::ShortEscape => (Lexing { place: Place::Short, quote }, false),
        Place::Long => if byte == quote {
            (Lexing { place: Place::LongOne, quote }, false)
        } else {
            (step_long(quote, byte), false)
        },
        Place::LongOne => if byte == quote {
            (Lexing { place: Place::LongTwo, quote }, false)
        } else {
            (step_long(quote, byte), false)
        },
        Place::LongTwo => if byte == quote {
            (Lexing { place: Place::Shut, quote }, false)
        } else {
            (step_long(quote, byte), false)
        },
        Place::LongEscape => (Lexing { place: Place::Long, quote }, false),
        Place::Shut => if byte == quote {
            (Lexing { place: Place::ShutOne, quote }, false)
        } else {
            (step_plain(byte), true)
        },
        Place::ShutOne => if byte == quote {
            (Lexing { place: Place::Plain, quote: 0u8 }, false)
        } else {
            (step_plain(byte), true)
        },
    }
}

/// Whether `text` is a shallow document.
pub fn is_shallow(text: &str) -> (r: bool)
    ensures
        r == shallow(text@),
{
    let bytes = text.as_bytes();
    let mut state = Lexing { place: Place::Plain, quote: 0u8 };
    let mut opened: usize = 0;
    let mut run: usize = 0;
    let mut widest: usize = 0;
    let mut i: usize = 0;
    proof {
        assert(bytes@.take(0).len() == 0);
    }
    while i < bytes.len()
        invariant
            i <= bytes.len(),
            state == lexing(bytes@.take(i as int)),
            opened == openers(bytes@.take(i as int)),
            run == trailing_dots(bytes@.take(i as int)),
            widest == line_dots(bytes@.take(i as int)),
            opened <= i,
            run <= i,
            widest <= i,
        decreases bytes.len() - i,
    {
        proof {
            assert(bytes@.take(i + 1).drop_last() =~= bytes@.take(i as int));
            assert(bytes@.take(i + 1).last() == bytes@[i as int]);
        }
        let byte: u8 = bytes[i];
        let (next, plain) = step(state, byte);
        if plain && (byte == 0x5bu8 || byte == 0x7bu8) {
            opened += 1;
        }
        if byte == 0x0au8 {
            run = 0;
        } else if plain && byte == 0x2eu8 {
            run += 1;
        }
        if run > widest {
            widest = run;
        }
        state = next;
        i += 1;
    }
    proof {
        assert(bytes@.take(i as int) =~= bytes@);
    }
    opened <= MAX_DEPTH && widest <= MAX_DEPTH - opened
}

} // verus!
