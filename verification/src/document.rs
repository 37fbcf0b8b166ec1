//! Rows of values, their encoding as RSV, and the text that the decoder gives
//! for them.

use vstd::prelude::*;
use crate::args::Delimiters;
use crate::laws::{free_of, lemma_symbols_identity, plain};
use crate::model::{emit, opens_row, render, transcode};
use crate::transcoder::{
    ends_row, followed_by, is_content, separates, token_if, ASCII_CR, ASCII_LF, RSV_NULL_VALUE,
    RSV_ROW_TERMINATOR, RSV_VALUE_TERMINATOR,
};

verus! {

/// A value of a row: null, or bytes of which none is reserved.
pub enum Value {
    Null,
    Text(Seq<u8>),
}

impl Value {
    /// Whether the value can be encoded: its bytes hold no reserved byte.
    pub open spec fn valid(self) -> bool {
        match self {
            Value::Null => true,
            Value::Text(content) => plain(content),
        }
    }

    /// Whether the value is the empty text.
    pub open spec fn is_empty_text(self) -> bool {
        match self {
            Value::Null => false,
            Value::Text(content) => content.len() == 0,
        }
    }

    /// Whether the value is a text of at least one byte.
    pub open spec fn has_content(self) -> bool {
        match self {
            Value::Null => false,
            Value::Text(content) => content.len() > 0,
        }
    }

    /// The value in RSV: the null marker or the bytes, then a value
    /// terminator.
    pub open spec fn encoded(self) -> Seq<u8> {
        match self {
            Value::Null => seq![RSV_NULL_VALUE, RSV_VALUE_TERMINATOR],
            Value::Text(content) => content.push(RSV_VALUE_TERMINATOR),
        }
    }

    /// The value as text: the null text, or the bytes between the opening and
    /// the closing delimiter.
    pub open spec fn shown(self, d: Delimiters) -> Seq<u8> {
        match self {
            Value::Null => d.null_value,
            Value::Text(content) => d.field_opening + content + d.field_closing,
        }
    }
}

/// Whether every value of the row can be encoded.
pub open spec fn valid_row(row: Seq<Value>) -> bool {
    forall|i: int| 0 <= i < row.len() ==> (#[trigger] row[i]).valid()
}

/// Whether the row's first value, where it is the empty text, is closed by
/// the decoder. The decoder closes an empty value that opens a row only where
/// `next` follows it, and `next` is a value terminator, a null marker or a row
/// terminator; in a row this means that the second value does not have
/// content.
pub open spec fn first_value_closes(row: Seq<Value>, next: Option<u8>) -> bool {
    row.len() > 0 && row[0].is_empty_text() ==> if row.len() >= 2 {
        !row[1].has_content()
    } else {
        followed_by(next, RSV_VALUE_TERMINATOR) || followed_by(next, RSV_NULL_VALUE)
            || followed_by(next, RSV_ROW_TERMINATOR)
    }
}

/// Whether the decoder renders the row in full: every value can be encoded,
/// and the row does not open with an empty text that a value with content
/// follows.
pub open spec fn regular_row(row: Seq<Value>) -> bool {
    valid_row(row) && first_value_closes(row, Some(RSV_ROW_TERMINATOR))
}

/// Whether the decoder renders every row in full.
pub open spec fn regular_rows(rows: Seq<Seq<Value>>) -> bool {
    forall|i: int| 0 <= i < rows.len() ==> regular_row(#[trigger] rows[i])
}

/// The values in RSV, one after the other.
pub open spec fn encode_values(row: Seq<Value>) -> Seq<u8>
    decreases row.len(),
{
    if row.len() == 0 {
        Seq::empty()
    } else {
        encode_values(row.drop_last()) + row.last().encoded()
    }
}

/// The row in RSV: its values, then a row terminator.
pub open spec fn encode_row(row: Seq<Value>) -> Seq<u8> {
    encode_values(row).push(RSV_ROW_TERMINATOR)
}

/// The rows in RSV, one after the other.
pub open spec fn encode_rows(rows: Seq<Seq<Value>>) -> Seq<u8>
    decreases rows.len(),
{
    if rows.len() == 0 {
        Seq::empty()
    } else {
        encode_rows(rows.drop_last()) + encode_row(rows.last())
    }
}

/// The values as text, with the separator between each two.
pub open spec fn show_values(d: Delimiters, row: Seq<Value>) -> Seq<u8>
    decreases row.len(),
{
    if row.len() == 0 {
        Seq::empty()
    } else if row.len() == 1 {
        row[0].shown(d)
    } else {
        show_values(d, row.drop_last()) + d.field_separator + row.last().shown(d)
    }
}

/// The row as text: the start of a row, the values, the end of a row and a
/// line feed.
pub open spec fn show_row(d: Delimiters, row: Seq<Value>) -> Seq<u8> {
    d.line_starting + show_values(d, row) + d.line_ending.push(ASCII_LF)
}

/// The rows as text, one after the other.
pub open spec fn show_rows(d: Delimiters, rows: Seq<Seq<Value>>) -> Seq<u8>
    decreases rows.len(),
{
    if rows.len() == 0 {
        Seq::empty()
    } else {
        show_rows(d, rows.drop_last()) + show_row(d, rows.last())
    }
}

/// What the symbols of `s` contribute where `prev` stands before the first of
/// them and `next` after the last.
pub open spec fn emit_block(d: Delimiters, prev: Option<u8>, s: Seq<u8>, next: Option<u8>) -> Seq<
    u8,
>
    decreases s.len(),
{
    if s.len() == 0 {
        Seq::empty()
    } else {
        emit_block(d, prev, s.drop_last(), Some(s.last())) + emit(
            d,
            if s.len() == 1 {
                prev
            } else {
                Some(s[s.len() - 2])
            },
            s.last(),
            next,
        )
    }
}

proof fn lemma_block_single(d: Delimiters, prev: Option<u8>, byte: u8, next: Option<u8>)
    ensures
        emit_block(d, prev, seq![byte], next) == emit(d, prev, byte, next),
{
    let s = seq![byte];
    assert(s.drop_last().len() == 0);
    assert(emit_block(d, prev, s.drop_last(), Some(s.last())) =~= Seq::<u8>::empty());
    assert(emit_block(d, prev, s, next) =~= emit(d, prev, byte, next));
}

/// What two blocks contribute, one after the other, is what each contributes
/// beside the other.
pub proof fn lemma_block_concat(
    d: Delimiters,
    prev: Option<u8>,
    a: Seq<u8>,
    b: Seq<u8>,
    next: Option<u8>,
)
    requires
        a.len() > 0,
        b.len() > 0,
    ensures
        emit_block(d, prev, a + b, next) == emit_block(d, prev, a, Some(b[0])) + emit_block(
            d,
            Some(a.last()),
            b,
            next,
        ),
    decreases b.len(),
{
    let s = a + b;
    if b.len() == 1 {
        assert(s.drop_last() =~= a);
        assert(b.drop_last().len() == 0);
        assert(emit_block(d, Some(a.last()), b.drop_last(), Some(b.last())) =~= Seq::<u8>::empty());
        assert(s[s.len() - 2] == a.last());
        assert(emit_block(d, prev, s, next) =~= emit_block(d, prev, a, Some(b[0])) + emit_block(
            d,
            Some(a.last()),
            b,
            next,
        ));
    } else {
        assert(s.drop_last() =~= a + b.drop_last());
        lemma_block_concat(d, prev, a, b.drop_last(), Some(b.last()));
        assert(s[s.len() - 2] == b[b.len() - 2]);
        assert(s.last() == b.last());
        assert(b.drop_last()[0] == b[0]);
        assert(emit_block(d, prev, s, next) =~= emit_block(d, prev, a, Some(b[0])) + emit_block(
            d,
            Some(a.last()),
            b,
            next,
        ));
    }
}

/// What the first `n` symbols of a stream contribute is what they contribute
/// as a block at the start of the stream.
proof fn lemma_render_is_block(d: Delimiters, s: Seq<u8>, n: nat)
    requires
        n <= s.len(),
    ensures
        render(d, s, n) == emit_block(
            d,
            None,
            s.take(n as int),
            if n < s.len() {
                Some(s[n as int])
            } else {
                None
            },
        ),
    decreases n,
{
    if n > 0 {
        lemma_render_is_block(d, s, (n - 1) as nat);
        assert(s.take(n as int).drop_last() =~= s.take(n - 1));
        assert(s.take(n as int).last() == s[n - 1]);
        if n >= 2 {
            assert(s.take(n as int)[n - 2] == s[n - 2]);
        }
    }
}

/// Content that opens a value and goes on: the start of a row where one
/// starts, the opening delimiter, and the bytes.
proof fn lemma_content_open(d: Delimiters, prev: Option<u8>, c: Seq<u8>, x: u8)
    requires
        c.len() > 0,
        plain(c),
        is_content(x),
        opens_row(prev) || followed_by(prev, RSV_VALUE_TERMINATOR),
    ensures
        emit_block(d, prev, c, Some(x)) == token_if(opens_row(prev), d.line_starting)
            + d.field_opening + c,
    decreases c.len(),
{
    if c.len() == 1 {
        assert(is_content(c[0]));
        assert(c =~= seq![c[0]]);
        lemma_block_single(d, prev, c[0], Some(x));
        assert(emit(d, prev, c[0], Some(x)) =~= token_if(opens_row(prev), d.line_starting)
            + d.field_opening + c);
    } else {
        let init = c.drop_last();
        assert(plain(init)) by {
            assert forall|i: int| 0 <= i < init.len() implies is_content(#[trigger] init[i])
                && init[i] != ASCII_CR by {
                assert(init[i] == c[i]);
            }
        }
        assert(is_content(c.last()));
        assert(is_content(c[c.len() - 2]));
        lemma_content_open(d, prev, init, c.last());
        assert(emit(d, Some(c[c.len() - 2]), c.last(), Some(x)) =~= seq![c.last()]);
        assert(init + seq![c.last()] =~= c);
        assert(emit_block(d, prev, c, Some(x)) =~= token_if(opens_row(prev), d.line_starting)
            + d.field_opening + c);
    }
}

/// Content that is a whole value: the start of a row where one starts, and
/// the bytes between the opening and the closing delimiter.
proof fn lemma_content_closed(d: Delimiters, prev: Option<u8>, c: Seq<u8>)
    requires
        c.len() > 0,
        plain(c),
        opens_row(prev) || followed_by(prev, RSV_VALUE_TERMINATOR),
    ensures
        emit_block(d, prev, c, Some(RSV_VALUE_TERMINATOR)) == token_if(
            opens_row(prev),
            d.line_starting,
        ) + d.field_opening + c + d.field_closing,
{
    let next = Some(RSV_VALUE_TERMINATOR);
    if c.len() == 1 {
        assert(is_content(c[0]));
        assert(c =~= seq![c[0]]);
        lemma_block_single(d, prev, c[0], next);
        assert(emit(d, prev, c[0], next) =~= token_if(opens_row(prev), d.line_starting)
            + d.field_opening + c + d.field_closing);
    } else {
        let init = c.drop_last();
        assert(plain(init)) by {
            assert forall|i: int| 0 <= i < init.len() implies is_content(#[trigger] init[i])
                && init[i] != ASCII_CR by {
                assert(init[i] == c[i]);
            }
        }
        assert(is_content(c.last()));
        assert(is_content(c[c.len() - 2]));
        lemma_content_open(d, prev, init, c.last());
        assert(emit(d, Some(c[c.len() - 2]), c.last(), next) =~= seq![c.last()]
            + d.field_closing);
        assert(init + seq![c.last()] =~= c);
        assert(emit_block(d, prev, c, next) =~= token_if(opens_row(prev), d.line_starting)
            + d.field_opening + c + d.field_closing);
    }
}

/// An encoded value, where a value is due, contributes the start of a row
/// where one starts, the value as text, and the separator unless the row ends
/// after it. An empty text is closed only after a value terminator or before
/// a value terminator, a null marker or a row terminator.
pub proof fn lemma_value_shown(d: Delimiters, prev: Option<u8>, v: Value, next: Option<u8>)
    requires
        v.valid(),
        opens_row(prev) || followed_by(prev, RSV_VALUE_TERMINATOR),
        v.is_empty_text() ==> followed_by(prev, RSV_VALUE_TERMINATOR) || followed_by(
            next,
            RSV_VALUE_TERMINATOR,
        ) || followed_by(next, RSV_NULL_VALUE) || followed_by(next, RSV_ROW_TERMINATOR),
    ensures
        emit_block(d, prev, v.encoded(), next) == token_if(opens_row(prev), d.line_starting)
            + v.shown(d) + token_if(separates(RSV_VALUE_TERMINATOR, next), d.field_separator),
{
    let end = RSV_VALUE_TERMINATOR;
    let tail = token_if(separates(end, next), d.field_separator);
    let head = token_if(opens_row(prev), d.line_starting);
    match v {
        Value::Null => {
            let a = seq![RSV_NULL_VALUE];
            let b = seq![end];
            assert(v.encoded() =~= a + b);
            lemma_block_concat(d, prev, a, b, next);
            lemma_block_single(d, prev, RSV_NULL_VALUE, Some(end));
            lemma_block_single(d, Some(RSV_NULL_VALUE), end, next);
            assert(emit(d, prev, RSV_NULL_VALUE, Some(end)) =~= head + d.null_value);
            assert(emit(d, Some(RSV_NULL_VALUE), end, next) =~= tail);
            assert(emit_block(d, prev, v.encoded(), next) =~= head + v.shown(d) + tail);
        },
        Value::Text(c) => {
            if c.len() == 0 {
                assert(v.encoded() =~= seq![end]);
                lemma_block_single(d, prev, end, next);
                assert(emit(d, prev, end, next) =~= head + (d.field_opening + c + d.field_closing)
                    + tail);
            } else {
                let b = seq![end];
                assert(v.encoded() =~= c + b);
                lemma_block_concat(d, prev, c, b, next);
                lemma_content_closed(d, prev, c);
                lemma_block_single(d, Some(c.last()), end, next);
                assert(is_content(c.last()));
                assert(emit(d, Some(c.last()), end, next) =~= tail);
                assert(emit_block(d, prev, v.encoded(), next) =~= head + v.shown(d) + tail);
            }
        },
    }
}

/// The first byte of an encoded value is content, a null marker or a value
/// terminator, and its last byte is a value terminator.
proof fn lemma_encoded_ends(v: Value)
    requires
        v.valid(),
    ensures
        v.encoded().len() > 0,
        v.encoded().last() == RSV_VALUE_TERMINATOR,
        !ends_row(v.encoded()[0]),
        v.has_content() ==> is_content(v.encoded()[0]),
        v.is_empty_text() ==> v.encoded()[0] == RSV_VALUE_TERMINATOR,
        v == Value::Null ==> v.encoded()[0] == RSV_NULL_VALUE,
        free_of(v.encoded(), ASCII_CR),
{
    match v {
        Value::Null => {},
        Value::Text(c) => {
            if c.len() > 0 {
                assert(is_content(c[0]));
                assert(v.encoded()[0] == c[0]);
            }
            assert forall|i: int| 0 <= i < v.encoded().len() implies v.encoded()[i]
                != ASCII_CR by {
                if i < c.len() {
                    assert(is_content(c[i]) && c[i] != ASCII_CR);
                }
            }
        },
    }
}

proof fn lemma_encode_values_ends(row: Seq<Value>)
    requires
        row.len() > 0,
        valid_row(row),
    ensures
        encode_values(row).len() > 0,
        encode_values(row).last() == RSV_VALUE_TERMINATOR,
        encode_values(row)[0] == row[0].encoded()[0],
        free_of(encode_values(row), ASCII_CR),
    decreases row.len(),
{
    lemma_encoded_ends(row.last());
    if row.len() > 1 {
        let init = row.drop_last();
        assert(valid_row(init)) by {
            assert forall|i: int| 0 <= i < init.len() implies (#[trigger] init[i]).valid() by {
                assert(init[i] == row[i]);
            }
        }
        lemma_encode_values_ends(init);
        assert(init[0] == row[0]);
    } else {
        assert(encode_values(row.drop_last()) =~= Seq::<u8>::empty());
        assert(encode_values(row) =~= row[0].encoded());
    }
}

/// The encoded values of a row, from the start of the row on, contribute the
/// start of a row, the values as text with the separator between them, and
/// one more separator unless the row ends after them.
pub proof fn lemma_values_shown(d: Delimiters, prev: Option<u8>, row: Seq<Value>, next: Option<u8>)
    requires
        row.len() > 0,
        valid_row(row),
        first_value_closes(row, next),
        opens_row(prev),
    ensures
        emit_block(d, prev, encode_values(row), next) == d.line_starting + show_values(d, row)
            + token_if(separates(RSV_VALUE_TERMINATOR, next), d.field_separator),
    decreases row.len(),
{
    let tail = token_if(separates(RSV_VALUE_TERMINATOR, next), d.field_separator);
    let last = row.last();
    lemma_encoded_ends(last);
    if row.len() == 1 {
        assert(encode_values(row.drop_last()) =~= Seq::<u8>::empty());
        assert(encode_values(row) =~= last.encoded());
        lemma_value_shown(d, prev, last, next);
    } else {
        let init = row.drop_last();
        assert(valid_row(init)) by {
            assert forall|i: int| 0 <= i < init.len() implies (#[trigger] init[i]).valid() by {
                assert(init[i] == row[i]);
            }
        }
        lemma_encode_values_ends(init);
        let first = last.encoded()[0];
        assert(init[0] == row[0]);
        if init.len() >= 2 {
            assert(init[1] == row[1]);
        } else {
            assert(row[1] == last);
        }
        assert(first_value_closes(init, Some(first)));
        lemma_values_shown(d, prev, init, Some(first));
        lemma_block_concat(d, prev, encode_values(init), last.encoded(), next);
        lemma_value_shown(d, Some(RSV_VALUE_TERMINATOR), last, next);
        assert(separates(RSV_VALUE_TERMINATOR, Some(first)));
        assert(emit_block(d, prev, encode_values(row), next) =~= d.line_starting + show_values(
            d,
            row,
        ) + tail);
    }
}

/// An encoded row, where a row starts, contributes the row as text, whatever
/// follows it.
pub proof fn lemma_row_shown(d: Delimiters, prev: Option<u8>, row: Seq<Value>, next: Option<u8>)
    requires
        regular_row(row),
        opens_row(prev),
    ensures
        emit_block(d, prev, encode_row(row), next) == show_row(d, row),
{
    let end = RSV_ROW_TERMINATOR;
    if row.len() == 0 {
        assert(encode_row(row) =~= seq![end]);
        lemma_block_single(d, prev, end, next);
        assert(emit(d, prev, end, next) =~= show_row(d, row));
    } else {
        lemma_encode_values_ends(row);
        assert(encode_row(row) =~= encode_values(row) + seq![end]);
        lemma_block_concat(d, prev, encode_values(row), seq![end], next);
        lemma_values_shown(d, prev, row, Some(end));
        lemma_block_single(d, Some(RSV_VALUE_TERMINATOR), end, next);
        assert(emit(d, Some(RSV_VALUE_TERMINATOR), end, next) =~= d.line_ending.push(ASCII_LF));
        assert(emit_block(d, prev, encode_row(row), next) =~= show_row(d, row));
    }
}

proof fn lemma_encode_rows_ends(rows: Seq<Seq<Value>>)
    requires
        regular_rows(rows),
    ensures
        free_of(encode_rows(rows), ASCII_CR),
        rows.len() > 0 ==> encode_rows(rows).len() > 0 && encode_rows(rows).last()
            == RSV_ROW_TERMINATOR,
    decreases rows.len(),
{
    if rows.len() > 0 {
        let init = rows.drop_last();
        assert(regular_rows(init)) by {
            assert forall|i: int| 0 <= i < init.len() implies regular_row(#[trigger] init[i]) by {
                assert(init[i] == rows[i]);
            }
        }
        lemma_encode_rows_ends(init);
        assert(regular_row(rows.last()));
        if rows.last().len() > 0 {
            lemma_encode_values_ends(rows.last());
        }
    }
}

/// Encoded rows, at the start of a stream, contribute the rows as text,
/// whatever follows them.
pub proof fn lemma_rows_shown(d: Delimiters, rows: Seq<Seq<Value>>, next: Option<u8>)
    requires
        regular_rows(rows),
    ensures
        emit_block(d, None, encode_rows(rows), next) == show_rows(d, rows),
    decreases rows.len(),
{
    if rows.len() == 0 {
    } else if rows.len() == 1 {
        assert(regular_row(rows.last()));
        assert(encode_rows(rows.drop_last()) =~= Seq::<u8>::empty());
        assert(encode_rows(rows) =~= encode_row(rows.last()));
        assert(show_rows(d, rows.drop_last()) =~= Seq::<u8>::empty());
        lemma_row_shown(d, None, rows.last(), next);
        assert(show_rows(d, rows) =~= show_row(d, rows.last()));
    } else {
        let init = rows.drop_last();
        let last = rows.last();
        assert(regular_rows(init)) by {
            assert forall|i: int| 0 <= i < init.len() implies regular_row(#[trigger] init[i]) by {
                assert(init[i] == rows[i]);
            }
        }
        assert(regular_row(last));
        lemma_encode_rows_ends(init);
        let first = encode_row(last)[0];
        lemma_rows_shown(d, init, Some(first));
        lemma_block_concat(d, None, encode_rows(init), encode_row(last), next);
        lemma_row_shown(d, Some(RSV_ROW_TERMINATOR), last, next);
    }
}

/// The decoded form of encoded rows is the rows as text: for each row the
/// start of a row, its values with the separator between each two, each value
/// the null text or its bytes between the opening and the closing delimiter,
/// then the end of a row and a line feed. This holds of rows whose values hold
/// no reserved byte, but for a row that opens with an empty text before a
/// value with content: there the empty text is opened and never closed.
pub proof fn lemma_decodes_rows(d: Delimiters, rows: Seq<Seq<Value>>)
    requires
        regular_rows(rows),
    ensures
        transcode(d, encode_rows(rows)) == show_rows(d, rows),
{
    let s = encode_rows(rows);
    lemma_encode_rows_ends(rows);
    lemma_symbols_identity(s);
    lemma_render_is_block(d, s, s.len());
    assert(s.take(s.len() as int) =~= s);
    lemma_rows_shown(d, rows, None);
}

} // verus!
