//! What decoding means, stated on the stream as a whole: what each symbol
//! contributes to the output depends on the symbol before it, on the symbol
//! itself and on the symbol after it, and on nothing else.

use vstd::prelude::*;
use crate::args::Delimiters;
use crate::transcoder::{
    ends_row, followed_by, is_content, separates, token_if, ParserState, ASCII_CR, ASCII_LF,
    RSV_NULL_VALUE, RSV_ROW_TERMINATOR, RSV_VALUE_TERMINATOR,
};

verus! {

/// The symbols of a source: its bytes in order, without the carriage returns.
pub open spec fn symbols(input: Seq<u8>) -> Seq<u8>
    decreases input.len(),
{
    if input.len() == 0 {
        Seq::empty()
    } else if input.last() == ASCII_CR {
        symbols(input.drop_last())
    } else {
        symbols(input.drop_last()).push(input.last())
    }
}

/// Whether a row opens at a symbol that `prev` precedes: at the first symbol
/// of the stream and after each symbol that ends a row.
pub open spec fn opens_row(prev: Option<u8>) -> bool {
    match prev {
        None => true,
        Some(p) => ends_row(p),
    }
}

/// Whether a value begins at `cur`: at the first symbol of a row and after a
/// value terminator, unless `cur` ends the row.
pub open spec fn begins_value(prev: Option<u8>, cur: u8) -> bool {
    !ends_row(cur) && (opens_row(prev) || followed_by(prev, RSV_VALUE_TERMINATOR))
}

/// Whether the opening delimiter stands before `cur`: where a value begins
/// that is not null.
pub open spec fn opens_field(prev: Option<u8>, cur: u8) -> bool {
    begins_value(prev, cur) && cur != RSV_NULL_VALUE
}

/// Whether the closing delimiter stands at `cur`: where a value opens and a
/// value terminator, a null marker or a row terminator follows; after a
/// content byte that a value terminator, a row terminator or a line feed
/// follows; and at the second of two value terminators.
pub open spec fn closes_field(prev: Option<u8>, cur: u8, next: Option<u8>) -> bool {
    ||| opens_field(prev, cur) && (followed_by(next, RSV_VALUE_TERMINATOR) || followed_by(
        next,
        RSV_NULL_VALUE,
    ) || followed_by(next, RSV_ROW_TERMINATOR))
    ||| is_content(cur) && (followed_by(next, RSV_VALUE_TERMINATOR) || followed_by(
        next,
        RSV_ROW_TERMINATOR,
    ) || followed_by(next, ASCII_LF))
    ||| followed_by(prev, RSV_VALUE_TERMINATOR) && cur == RSV_VALUE_TERMINATOR
}

/// What the symbol `cur` contributes to the output, between `prev` and `next`
/// (`None` where the stream starts or ends): in this order and each only where
/// it applies, the start of a row, the opening delimiter, the content byte
/// itself, the closing delimiter, the separator, the null text, and the end of
/// a row with its line feed.
pub open spec fn emit(d: Delimiters, prev: Option<u8>, cur: u8, next: Option<u8>) -> Seq<u8> {
    token_if(opens_row(prev), d.line_starting) + token_if(opens_field(prev, cur), d.field_opening) + token_if(
        is_content(cur),
        seq![cur],
    ) + token_if(closes_field(prev, cur, next), d.field_closing) + token_if(
        separates(cur, next),
        d.field_separator,
    ) + token_if(cur == RSV_NULL_VALUE, d.null_value) + token_if(
        ends_row(cur),
        d.line_ending.push(ASCII_LF),
    )
}

/// The symbol before position `i` of `s`.
pub open spec fn before(s: Seq<u8>, i: int) -> Option<u8> {
    if 0 < i <= s.len() {
        Some(s[i - 1])
    } else {
        None
    }
}

/// The symbol after position `i` of `s`.
pub open spec fn after(s: Seq<u8>, i: int) -> Option<u8> {
    if 0 <= i + 1 < s.len() {
        Some(s[i + 1])
    } else {
        None
    }
}

/// What the symbol at position `i` of `s` contributes.
pub open spec fn emit_at(d: Delimiters, s: Seq<u8>, i: int) -> Seq<u8> {
    emit(d, before(s, i), s[i], after(s, i))
}

/// What the first `n` symbols of `s` contribute, one after the other.
pub open spec fn render(d: Delimiters, s: Seq<u8>, n: nat) -> Seq<u8>
    decreases n,
{
    if n == 0 {
        Seq::empty()
    } else {
        render(d, s, (n - 1) as nat) + emit_at(d, s, n - 1)
    }
}

/// The decoded form of a source: what its symbols contribute, in order.
pub open spec fn transcode(d: Delimiters, input: Seq<u8>) -> Seq<u8> {
    render(d, symbols(input), symbols(input).len())
}

/// The state in which the symbol at position `i` of `s` is acted on, when the
/// stream started in the initial state.
pub open spec fn state_at(s: Seq<u8>, i: int) -> ParserState {
    ParserState {
        line_begin: opens_row(before(s, i)),
        value_begin: followed_by(before(s, i), RSV_VALUE_TERMINATOR) && !ends_row(s[i]),
        value_end: followed_by(before(s, i), RSV_VALUE_TERMINATOR) && s[i] == RSV_VALUE_TERMINATOR,
    }
}

} // verus!
