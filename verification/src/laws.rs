//! What holds of the decoder on every stream.

use vstd::prelude::*;
use crate::args::Delimiters;
use crate::model::{
    after, before, closes_field, emit, emit_at, opens_field, opens_row, render, state_at, symbols,
    transcode,
};
use crate::transcoder::{
    ends_row, is_content, separates, token_if, TranscoderView, ASCII_CR, ASCII_LF, RSV_NULL_VALUE,
    RSV_VALUE_TERMINATOR,
};

verus! {

/// Acting on a symbol in the state that the stream before it leads to writes
/// what the symbol contributes between its neighbours, and leads to the state
/// for the symbol after it.
pub proof fn lemma_step_is_emit(d: Delimiters, s: Seq<u8>, i: int)
    requires
        0 <= i < s.len(),
    ensures
        state_at(s, i).step_output(d, s[i], after(s, i)) == emit_at(d, s, i),
        i + 1 < s.len() ==> state_at(s, i).step_state(s[i], after(s, i)) == state_at(s, i + 1),
{
}

/// What the first `n` symbols contribute depends on those symbols and on the
/// one after them alone.
pub proof fn lemma_render_prefix(d: Delimiters, s: Seq<u8>, t: Seq<u8>, n: nat)
    requires
        n < s.len(),
        n < t.len(),
        forall|i: int| 0 <= i <= n ==> s[i] == t[i],
    ensures
        render(d, s, n) == render(d, t, n),
    decreases n,
{
    if n > 0 {
        lemma_render_prefix(d, s, t, (n - 1) as nat);
        assert(before(s, n - 1) == before(t, n - 1));
        assert(after(s, n - 1) == after(t, n - 1));
        assert(emit_at(d, s, n - 1) == emit_at(d, t, n - 1));
    }
}

/// Where a transcoder that has taken nothing is fed a source, it holds the
/// last symbol back, stands in the state for that symbol, and has written what
/// the symbols before it contribute.
pub proof fn lemma_fresh_feed(v: TranscoderView, input: Seq<u8>)
    requires
        v.is_fresh(),
    ensures
        v.feed(input).delimiters == v.delimiters,
        v.feed(input).file_name == v.file_name,
        symbols(input).len() == 0 ==> v.feed(input).is_fresh() && v.feed_output(input)
            == Seq::<u8>::empty(),
        symbols(input).len() > 0 ==> {
            let s = symbols(input);
            &&& v.feed(input).current == Some(s.last())
            &&& v.feed(input).state == state_at(s, s.len() - 1)
            &&& v.feed_output(input) == render(v.delimiters, s, (s.len() - 1) as nat)
        },
    decreases input.len(),
{
    if input.len() > 0 {
        let init = input.drop_last();
        let b = input.last();
        lemma_fresh_feed(v, init);
        let s0 = symbols(init);
        let s = symbols(input);
        let w = v.feed(init);
        if b == ASCII_CR {
            assert(v.feed_output(input) =~= v.feed_output(init));
        } else if s0.len() == 0 {
            assert(v.feed_output(input) =~= Seq::<u8>::empty());
        } else {
            let k = s0.len() - 1;
            lemma_render_prefix(v.delimiters, s, s0, k as nat);
            lemma_step_is_emit(v.delimiters, s, k);
            assert(before(s, k) == before(s0, k));
            assert(state_at(s, k) == state_at(s0, k));
        }
    }
}

/// A transcoder that has taken nothing, fed a source and then ended, has
/// written the decoded form of that source.
pub proof fn lemma_fresh_run_is_transcode(v: TranscoderView, input: Seq<u8>)
    requires
        v.is_fresh(),
    ensures
        v.feed_output(input) + v.feed(input).finish_output() == transcode(v.delimiters, input),
{
    lemma_fresh_feed(v, input);
    let s = symbols(input);
    if s.len() > 0 {
        lemma_step_is_emit(v.delimiters, s, s.len() - 1);
    } else {
        assert(v.feed_output(input) + v.feed(input).finish_output() =~= Seq::<u8>::empty());
    }
}

/// Whether `byte` occurs nowhere in `s`.
pub open spec fn free_of(s: Seq<u8>, byte: u8) -> bool {
    forall|i: int| 0 <= i < s.len() ==> s[i] != byte
}

/// Whether every byte of `s` is content and none is a carriage return: `s`
/// holds no reserved byte.
pub open spec fn plain(s: Seq<u8>) -> bool {
    forall|i: int| 0 <= i < s.len() ==> is_content(#[trigger] s[i]) && s[i] != ASCII_CR
}

/// The symbols of two pieces of a source, one after the other, are the
/// symbols of the whole.
pub proof fn lemma_symbols_concat(a: Seq<u8>, b: Seq<u8>)
    ensures
        symbols(a + b) == symbols(a) + symbols(b),
    decreases b.len(),
{
    if b.len() == 0 {
        assert(a + b =~= a);
        assert(symbols(a) + symbols(b) =~= symbols(a));
    } else {
        assert((a + b).drop_last() =~= a + b.drop_last());
        lemma_symbols_concat(a, b.drop_last());
        assert(symbols(a + b) =~= symbols(a) + symbols(b));
    }
}

/// No symbol is a carriage return.
pub proof fn lemma_symbols_free_of_carriage_return(input: Seq<u8>)
    ensures
        free_of(symbols(input), ASCII_CR),
    decreases input.len(),
{
    if input.len() > 0 {
        lemma_symbols_free_of_carriage_return(input.drop_last());
    }
}

/// A source without carriage returns is its own sequence of symbols.
pub proof fn lemma_symbols_identity(input: Seq<u8>)
    requires
        free_of(input, ASCII_CR),
    ensures
        symbols(input) == input,
    decreases input.len(),
{
    if input.len() > 0 {
        lemma_symbols_identity(input.drop_last());
        assert(symbols(input) =~= input);
    } else {
        assert(symbols(input) =~= input);
    }
}

/// A source without symbols decodes to nothing: the empty source, and one
/// that holds carriage returns alone.
pub proof fn lemma_empty_source(d: Delimiters, input: Seq<u8>)
    requires
        symbols(input).len() == 0,
    ensures
        transcode(d, input) == Seq::<u8>::empty(),
        transcode(d, Seq::<u8>::empty()) == Seq::<u8>::empty(),
{
}

/// A carriage return changes nothing, wherever in the source it stands: the
/// source decodes as it does without it.
pub proof fn lemma_carriage_return_ignored(d: Delimiters, head: Seq<u8>, tail: Seq<u8>)
    ensures
        transcode(d, head + seq![ASCII_CR] + tail) == transcode(d, head + tail),
{
    let cr = seq![ASCII_CR];
    lemma_symbols_concat(head + cr, tail);
    lemma_symbols_concat(head, cr);
    lemma_symbols_concat(head, tail);
    assert(cr.last() == ASCII_CR);
    assert(symbols(cr.drop_last()) =~= Seq::<u8>::empty());
    assert(symbols(cr) =~= Seq::<u8>::empty());
    assert(symbols(head) + symbols(cr) =~= symbols(head));
}

/// Whatever the source holds, it decodes as its symbols do.
pub proof fn lemma_decodes_as_symbols(d: Delimiters, input: Seq<u8>)
    ensures
        transcode(d, input) == transcode(d, symbols(input)),
{
    lemma_symbols_free_of_carriage_return(input);
    lemma_symbols_identity(symbols(input));
}

/// What a symbol contributes holds no carriage return, unless a delimiter
/// holds one.
pub proof fn lemma_emit_free_of_carriage_return(
    d: Delimiters,
    prev: Option<u8>,
    cur: u8,
    next: Option<u8>,
)
    requires
        cur != ASCII_CR,
        free_of(d.null_value, ASCII_CR),
        free_of(d.field_separator, ASCII_CR),
        free_of(d.field_opening, ASCII_CR),
        free_of(d.field_closing, ASCII_CR),
        free_of(d.line_starting, ASCII_CR),
        free_of(d.line_ending, ASCII_CR),
    ensures
        free_of(emit(d, prev, cur, next), ASCII_CR),
{
}

/// No carriage return reaches the output, unless a delimiter holds one.
pub proof fn lemma_output_free_of_carriage_return(d: Delimiters, input: Seq<u8>)
    requires
        free_of(d.null_value, ASCII_CR),
        free_of(d.field_separator, ASCII_CR),
        free_of(d.field_opening, ASCII_CR),
        free_of(d.field_closing, ASCII_CR),
        free_of(d.line_starting, ASCII_CR),
        free_of(d.line_ending, ASCII_CR),
    ensures
        free_of(transcode(d, input), ASCII_CR),
{
    lemma_symbols_free_of_carriage_return(input);
    lemma_render_free_of_carriage_return(d, symbols(input), symbols(input).len());
}

proof fn lemma_render_free_of_carriage_return(d: Delimiters, s: Seq<u8>, n: nat)
    requires
        n <= s.len(),
        free_of(s, ASCII_CR),
        free_of(d.null_value, ASCII_CR),
        free_of(d.field_separator, ASCII_CR),
        free_of(d.field_opening, ASCII_CR),
        free_of(d.field_closing, ASCII_CR),
        free_of(d.line_starting, ASCII_CR),
        free_of(d.line_ending, ASCII_CR),
    ensures
        free_of(render(d, s, n), ASCII_CR),
    decreases n,
{
    if n > 0 {
        lemma_render_free_of_carriage_return(d, s, (n - 1) as nat);
        lemma_emit_free_of_carriage_return(d, before(s, n - 1), s[n - 1], after(s, n - 1));
    }
}

/// A null marker contributes the null text and no bracket, whatever stands
/// before and after it; at the start of a row the row's opening comes first.
/// A value terminator after it contributes at most the separator.
pub proof fn lemma_null_value_is_bare(d: Delimiters, prev: Option<u8>, next: Option<u8>)
    ensures
        emit(d, prev, RSV_NULL_VALUE, next) == token_if(opens_row(prev), d.line_starting)
            + d.null_value,
        emit(d, Some(RSV_NULL_VALUE), RSV_VALUE_TERMINATOR, next) == token_if(
            separates(RSV_VALUE_TERMINATOR, next),
            d.field_separator,
        ),
{
    assert(emit(d, prev, RSV_NULL_VALUE, next) =~= token_if(opens_row(prev), d.line_starting)
        + d.null_value);
    assert(emit(d, Some(RSV_NULL_VALUE), RSV_VALUE_TERMINATOR, next) =~= token_if(
        separates(RSV_VALUE_TERMINATOR, next),
        d.field_separator,
    ));
}

/// Of two value terminators in a row, the first contributes the separator
/// last, and the second contributes an empty value: the opening delimiter, at
/// once the closing one, and then the separator unless the row ends.
pub proof fn lemma_empty_value(d: Delimiters, prev: Option<u8>, next: Option<u8>)
    ensures
        emit(d, prev, RSV_VALUE_TERMINATOR, Some(RSV_VALUE_TERMINATOR)) == token_if(
            opens_row(prev),
            d.line_starting,
        ) + token_if(opens_field(prev, RSV_VALUE_TERMINATOR), d.field_opening) + token_if(
            closes_field(prev, RSV_VALUE_TERMINATOR, Some(RSV_VALUE_TERMINATOR)),
            d.field_closing,
        ) + d.field_separator,
        emit(d, Some(RSV_VALUE_TERMINATOR), RSV_VALUE_TERMINATOR, next) == d.field_opening
            + d.field_closing + token_if(separates(RSV_VALUE_TERMINATOR, next), d.field_separator),
{
    assert(emit(d, prev, RSV_VALUE_TERMINATOR, Some(RSV_VALUE_TERMINATOR)) =~= token_if(
        opens_row(prev),
        d.line_starting,
    ) + token_if(opens_field(prev, RSV_VALUE_TERMINATOR), d.field_opening) + token_if(
        closes_field(prev, RSV_VALUE_TERMINATOR, Some(RSV_VALUE_TERMINATOR)),
        d.field_closing,
    ) + d.field_separator);
    assert(emit(d, Some(RSV_VALUE_TERMINATOR), RSV_VALUE_TERMINATOR, next) =~= d.field_opening
        + d.field_closing + token_if(separates(RSV_VALUE_TERMINATOR, next), d.field_separator));
}

/// A value terminator at the start of a row, with another after it, is an
/// empty value that is the first of its row: no separator stands before it.
pub proof fn lemma_empty_first_value(d: Delimiters, prev: Option<u8>)
    requires
        opens_row(prev),
    ensures
        emit(d, prev, RSV_VALUE_TERMINATOR, Some(RSV_VALUE_TERMINATOR)) == d.line_starting
            + d.field_opening + d.field_closing + d.field_separator,
{
    assert(emit(d, prev, RSV_VALUE_TERMINATOR, Some(RSV_VALUE_TERMINATOR)) =~= d.line_starting
        + d.field_opening + d.field_closing + d.field_separator);
}

/// While a stream holds content alone, it has contributed the start of a row,
/// the opening delimiter and the content as it stands.
proof fn lemma_content_run(d: Delimiters, s: Seq<u8>, k: nat)
    requires
        0 < k < s.len(),
        forall|i: int| 0 <= i <= k ==> is_content(#[trigger] s[i]),
    ensures
        render(d, s, k) == d.line_starting + d.field_opening + s.take(k as int),
    decreases k,
{
    if k == 1 {
        assert(render(d, s, 0) =~= Seq::<u8>::empty());
        assert(is_content(s[0]) && is_content(s[1]));
        assert(emit_at(d, s, 0) =~= d.line_starting + d.field_opening + seq![s[0]]);
        assert(render(d, s, 1) =~= d.line_starting + d.field_opening + s.take(1));
    } else {
        lemma_content_run(d, s, (k - 1) as nat);
        assert(is_content(s[k - 2]) && is_content(s[k - 1]) && is_content(s[k as int]));
        assert(emit_at(d, s, k - 1) =~= seq![s[k - 1]]);
        assert(render(d, s, k) =~= d.line_starting + d.field_opening + s.take(k as int));
    }
}

/// A source that holds no reserved byte and then ends its row decodes to one
/// row with one value: the start of a row, the opening delimiter, the bytes
/// as they stand, the closing delimiter, the end of a row and a line feed.
pub proof fn lemma_plain_row(d: Delimiters, body: Seq<u8>, end: u8)
    requires
        body.len() > 0,
        plain(body),
        ends_row(end),
    ensures
        transcode(d, body.push(end)) == d.line_starting + d.field_opening + body + d.field_closing
            + d.line_ending.push(ASCII_LF),
{
    let s = body.push(end);
    let n = body.len();
    assert(free_of(s, ASCII_CR)) by {
        assert forall|i: int| 0 <= i < s.len() implies s[i] != ASCII_CR by {
            if i < n {
                assert(s[i] == body[i]);
            }
        }
    }
    lemma_symbols_identity(s);
    assert forall|i: int| 0 <= i < n implies is_content(#[trigger] s[i]) by {
        assert(s[i] == body[i]);
    }
    assert(s[n as int] == end);
    assert(emit_at(d, s, n as int) =~= d.line_ending.push(ASCII_LF));
    if n == 1 {
        assert(render(d, s, 0) =~= Seq::<u8>::empty());
        assert(is_content(s[0]));
        assert(emit_at(d, s, 0) =~= d.line_starting + d.field_opening + seq![s[0]]
            + d.field_closing);
        assert(render(d, s, 1) =~= d.line_starting + d.field_opening + body + d.field_closing);
    } else {
        lemma_content_run(d, s, (n - 1) as nat);
        assert(is_content(s[n - 2]) && is_content(s[n - 1]));
        assert(emit_at(d, s, n - 1) =~= seq![s[n - 1]] + d.field_closing);
        assert(s.take(n - 1) + seq![s[n - 1]] =~= body);
        assert(render(d, s, n) =~= d.line_starting + d.field_opening + body + d.field_closing);
    }
    assert(render(d, s, (n + 1) as nat) == render(d, s, n) + emit_at(d, s, n as int));
}

/// A source that holds no reserved byte and ends there is left open: the
/// start of a row, the opening delimiter and the bytes as they stand are
/// written, and neither the value nor the row is closed.
pub proof fn lemma_plain_source_left_open(d: Delimiters, body: Seq<u8>)
    requires
        body.len() > 0,
        plain(body),
    ensures
        transcode(d, body) == d.line_starting + d.field_opening + body,
{
    let s = body;
    let n = body.len();
    lemma_symbols_identity(s);
    if n == 1 {
        assert(render(d, s, 0) =~= Seq::<u8>::empty());
        assert(is_content(s[0]));
        assert(emit_at(d, s, 0) =~= d.line_starting + d.field_opening + seq![s[0]]);
        assert(render(d, s, 1) =~= d.line_starting + d.field_opening + body);
    } else {
        lemma_content_run(d, s, (n - 1) as nat);
        assert(is_content(s[n - 2]) && is_content(s[n - 1]));
        assert(emit_at(d, s, n - 1) =~= seq![s[n - 1]]);
        assert(s.take(n - 1) + seq![s[n - 1]] =~= body);
        assert(render(d, s, n) =~= d.line_starting + d.field_opening + body);
    }
}

} // verus!
