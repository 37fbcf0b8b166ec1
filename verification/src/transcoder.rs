//! The decoder itself: the roles of the bytes, the state that is kept from one
//! symbol to the next, and the transcoder that is fed a source byte by byte.

use vstd::prelude::*;
use crate::args::{bytes_of, Args, Delimiters};
use crate::error::RsvError;
use crate::model::transcode;
use crate::laws::lemma_fresh_run_is_transcode;

verus! {

/// Ends a value.
pub const RSV_VALUE_TERMINATOR: u8 = 0xFF;

/// Stands for a value that is null.
pub const RSV_NULL_VALUE: u8 = 0xFE;

/// Ends a row.
pub const RSV_ROW_TERMINATOR: u8 = 0xFD;

/// Ends a row too.
pub const ASCII_LF: u8 = 0x0A;

/// Dropped from the stream wherever it stands.
pub const ASCII_CR: u8 = 0x0D;

/// What a symbol of the stream means to the decoder.
#[derive(Clone, Copy, Debug, PartialEq, Eq, Structural)]
pub enum Role {
    ValueTerminator,
    NullMarker,
    RowTerminator,
    LineFeed,
    Content,
}

/// The role of each byte. A carriage return has none of its own: the transcoder
/// drops it before any symbol is classified.
pub open spec fn role_of(byte: u8) -> Role {
    if byte == RSV_VALUE_TERMINATOR {
        Role::ValueTerminator
    } else if byte == RSV_NULL_VALUE {
        Role::NullMarker
    } else if byte == RSV_ROW_TERMINATOR {
        Role::RowTerminator
    } else if byte == ASCII_LF {
        Role::LineFeed
    } else {
        Role::Content
    }
}

/// Whether the symbol ends a row: the row terminator and the line feed do.
pub open spec fn ends_row(byte: u8) -> bool {
    byte == RSV_ROW_TERMINATOR || byte == ASCII_LF
}

/// Whether the symbol is a byte of a value's content.
pub open spec fn is_content(byte: u8) -> bool {
    role_of(byte) == Role::Content
}

/// Whether the symbol that follows is `byte`; at the end of the stream none
/// follows.
pub open spec fn followed_by(next: Option<u8>, byte: u8) -> bool {
    next == Some(byte)
}

/// Whether a separator follows the symbol: it does after a value terminator,
/// unless the row ends right there.
pub open spec fn separates(byte: u8, next: Option<u8>) -> bool {
    byte == RSV_VALUE_TERMINATOR && !followed_by(next, RSV_ROW_TERMINATOR) && !followed_by(
        next,
        ASCII_LF,
    )
}

/// `token` where `cond` holds, nothing where it does not.
pub open spec fn token_if(cond: bool, token: Seq<u8>) -> Seq<u8> {
    if cond {
        token
    } else {
        Seq::empty()
    }
}

/// Classifies a symbol.
pub fn classify(byte: u8) -> (role: Role)
    ensures
        role == role_of(byte),
{
    if byte == RSV_VALUE_TERMINATOR {
        Role::ValueTerminator
    } else if byte == RSV_NULL_VALUE {
        Role::NullMarker
    } else if byte == RSV_ROW_TERMINATOR {
        Role::RowTerminator
    } else if byte == ASCII_LF {
        Role::LineFeed
    } else {
        Role::Content
    }
}

fn lookahead_is(next: Option<u8>, byte: u8) -> (hit: bool)
    ensures
        hit == followed_by(next, byte),
{
    match next {
        Some(b) => b == byte,
        None => false,
    }
}

/// Appends `bytes` to the sink.
pub fn process_write_bytes(writer: &mut Vec<u8>, bytes: &[u8])
    ensures
        final(writer)@ == old(writer)@ + bytes@,
{
    writer.extend_from_slice(bytes);
    assert(writer@ =~= old(writer)@ + bytes@);
}

/// Appends `bytes` to the sink where `cond` holds.
fn write_if(writer: &mut Vec<u8>, cond: bool, bytes: &[u8])
    ensures
        final(writer)@ == old(writer)@ + token_if(cond, bytes@),
{
    if cond {
        process_write_bytes(writer, bytes);
    } else {
        assert(writer@ =~= old(writer)@ + token_if(cond, bytes@));
    }
}

/// Appends `byte` to the sink where `cond` holds.
fn push_if(writer: &mut Vec<u8>, cond: bool, byte: u8)
    ensures
        final(writer)@ == old(writer)@ + token_if(cond, seq![byte]),
{
    if cond {
        writer.push(byte);
    }
    assert(writer@ =~= old(writer)@ + token_if(cond, seq![byte]));
}

/// What the decoder keeps from one symbol to the next.
#[derive(Clone, Copy, Debug, PartialEq, Eq, Structural)]
pub struct ParserState {
    /// The next symbol is the first of a row.
    pub line_begin: bool,
    /// A separator was written, so a value begins at the next symbol.
    pub value_begin: bool,
    /// An empty value stands between two value terminators, and its closing
    /// delimiter is still owed.
    pub value_end: bool,
}

impl ParserState {
    /// The state in which a stream starts: at the first symbol of a row.
    pub open spec fn initial() -> ParserState {
        ParserState { line_begin: true, value_begin: false, value_end: false }
    }

    /// Whether a value begins at `byte`: at the first symbol of a row unless
    /// that symbol ends the row, and after a separator.
    pub open spec fn begins_value(self, byte: u8) -> bool {
        self.value_begin || (self.line_begin && !ends_row(byte))
    }

    /// Whether the opening delimiter is written before `byte`: where a value
    /// begins that is not null.
    pub open spec fn opens_field(self, byte: u8) -> bool {
        self.begins_value(byte) && byte != RSV_NULL_VALUE
    }

    /// Whether the closing delimiter is written at `byte`: where it is owed
    /// from before, where a value opens with nothing to come, and after the
    /// last byte of a value's content.
    pub open spec fn closes_field(self, byte: u8, next: Option<u8>) -> bool {
        ||| self.value_end
        ||| self.opens_field(byte) && (followed_by(next, RSV_VALUE_TERMINATOR) || followed_by(
            next,
            RSV_NULL_VALUE,
        ) || followed_by(next, RSV_ROW_TERMINATOR))
        ||| is_content(byte) && (followed_by(next, RSV_VALUE_TERMINATOR) || followed_by(
            next,
            RSV_ROW_TERMINATOR,
        ) || followed_by(next, ASCII_LF))
    }

    /// What is written when `byte` is acted on in this state, `next` being the
    /// symbol after it, or `None` at the end of the stream.
    pub open spec fn step_output(self, d: Delimiters, byte: u8, next: Option<u8>) -> Seq<u8> {
        token_if(self.line_begin, d.line_starting) + token_if(self.opens_field(byte), d.field_opening)
            + token_if(is_content(byte), seq![byte]) + token_if(
            self.closes_field(byte, next),
            d.field_closing,
        ) + token_if(separates(byte, next), d.field_separator) + token_if(
            byte == RSV_NULL_VALUE,
            d.null_value,
        ) + token_if(ends_row(byte), d.line_ending.push(ASCII_LF))
    }

    /// The state after `byte` has been acted on.
    pub open spec fn step_state(self, byte: u8, next: Option<u8>) -> ParserState {
        ParserState {
            line_begin: ends_row(byte),
            value_begin: separates(byte, next),
            value_end: byte == RSV_VALUE_TERMINATOR && followed_by(next, RSV_VALUE_TERMINATOR),
        }
    }

    /// Acts on the symbol `byte`, with `next` the symbol after it or `None` at
    /// the end of the stream: writes to the sink what the symbol calls for and
    /// moves to the state for the next symbol.
    pub fn process_char(&mut self, args: &Args, writer: &mut Vec<u8>, byte: u8, next: Option<u8>)
        ensures
            *final(self) == old(self).step_state(byte, next),
            final(writer)@ == old(writer)@ + old(self).step_output(
                args.delimiters(),
                byte,
                next,
            ),
    {
        let role = classify(byte);
        let content = matches!(role, Role::Content);
        let null = matches!(role, Role::NullMarker);
        let value_ends = matches!(role, Role::ValueTerminator);
        let row_ends = matches!(role, Role::RowTerminator | Role::LineFeed);
        let next_value_end = lookahead_is(next, RSV_VALUE_TERMINATOR);
        let next_null = lookahead_is(next, RSV_NULL_VALUE);
        let next_row_end = lookahead_is(next, RSV_ROW_TERMINATOR);
        let next_line_feed = lookahead_is(next, ASCII_LF);
        let ghost d = args.delimiters();
        let ghost w0 = writer@;

        // A row opens, and with it a value, unless the row ends at once.
        let row_opens = self.line_begin;
        let value_begins = self.value_begin || (row_opens && !row_ends);
        write_if(writer, row_opens, bytes_of(&args.line_starting));
        // A value opens. Where nothing of it is to come, it closes at once.
        let opens = value_begins && !null;
        write_if(writer, opens, bytes_of(&args.field_opening));
        // A byte of content. Where it is the last of its value, the value closes.
        push_if(writer, content, byte);
        let closes = self.value_end || (opens && (next_value_end || next_null || next_row_end))
            || (content && (next_value_end || next_row_end || next_line_feed));
        write_if(writer, closes, bytes_of(&args.field_closing));
        // After a value terminator comes a separator, unless the row ends.
        let separator = value_ends && !next_row_end && !next_line_feed;
        write_if(writer, separator, bytes_of(&args.field_separator));
        // A null value is written bare.
        write_if(writer, null, bytes_of(&args.null_value));
        // The row closes.
        write_if(writer, row_ends, bytes_of(&args.line_ending));
        push_if(writer, row_ends, ASCII_LF);

        self.line_begin = row_ends;
        self.value_begin = separator;
        self.value_end = value_ends && next_value_end;
        assert(writer@ =~= w0 + old(self).step_output(d, byte, next));
    }
}

impl Default for ParserState {
    fn default() -> (state: ParserState)
        ensures
            state == ParserState::initial(),
    {
        ParserState { line_begin: true, value_begin: false, value_end: false }
    }
}

/// A transcoder as contracts see it.
pub struct TranscoderView {
    /// The state in which the held symbol will be acted on.
    pub state: ParserState,
    /// The symbol that was taken from the source and not yet acted on, because
    /// the symbol after it is not known yet.
    pub current: Option<u8>,
    pub delimiters: Delimiters,
    pub file_name: Seq<char>,
}

impl TranscoderView {
    /// Whether nothing of a source has been taken yet.
    pub open spec fn is_fresh(self) -> bool {
        self.state == ParserState::initial() && self.current.is_none()
    }

    /// The transcoder after the source gave `byte`. A carriage return changes
    /// nothing. Any other byte becomes the held symbol, and the symbol held
    /// before it is acted on.
    pub open spec fn push(self, byte: u8) -> TranscoderView {
        if byte == ASCII_CR {
            self
        } else {
            match self.current {
                None => TranscoderView { current: Some(byte), ..self },
                Some(held) => TranscoderView {
                    state: self.state.step_state(held, Some(byte)),
                    current: Some(byte),
                    ..self
                },
            }
        }
    }

    /// What is written when the source gives `byte`.
    pub open spec fn push_output(self, byte: u8) -> Seq<u8> {
        if byte == ASCII_CR {
            Seq::empty()
        } else {
            match self.current {
                None => Seq::empty(),
                Some(held) => self.state.step_output(self.delimiters, held, Some(byte)),
            }
        }
    }

    /// The transcoder after the source has ended: the held symbol, if there is
    /// one, is acted on with nothing after it.
    pub open spec fn finish(self) -> TranscoderView {
        match self.current {
            None => self,
            Some(held) => TranscoderView {
                state: self.state.step_state(held, None),
                current: None,
                ..self
            },
        }
    }

    /// What is written when the source ends.
    pub open spec fn finish_output(self) -> Seq<u8> {
        match self.current {
            None => Seq::empty(),
            Some(held) => self.state.step_output(self.delimiters, held, None),
        }
    }

    /// The transcoder after the source gave the bytes of `input` in turn.
    pub open spec fn feed(self, input: Seq<u8>) -> TranscoderView
        decreases input.len(),
    {
        if input.len() == 0 {
            self
        } else {
            self.feed(input.drop_last()).push(input.last())
        }
    }

    /// What is written while the source gives the bytes of `input` in turn.
    pub open spec fn feed_output(self, input: Seq<u8>) -> Seq<u8>
        decreases input.len(),
    {
        if input.len() == 0 {
            Seq::empty()
        } else {
            self.feed_output(input.drop_last()) + self.feed(input.drop_last()).push_output(
                input.last(),
            )
        }
    }
}

/// Decodes one source. It is made for that source and fed its bytes in order;
/// what it writes goes to a sink that it shares with the transcoders of the
/// sources before and after.
#[derive(Clone, Debug)]
pub struct RsvTranscoder {
    parser_state: ParserState,
    current: Option<u8>,
    args: Args,
    file_name: String,
}

impl View for RsvTranscoder {
    type V = TranscoderView;

    closed spec fn view(&self) -> TranscoderView {
        TranscoderView {
            state: self.parser_state,
            current: self.current,
            delimiters: self.args.delimiters(),
            file_name: self.file_name@,
        }
    }
}

impl RsvTranscoder {
    /// A transcoder for the source called `file_name`, with nothing taken yet.
    pub fn new(args: Args, file_name: String) -> (transcoder: RsvTranscoder)
        ensures
            transcoder@.is_fresh(),
            transcoder@.delimiters == args.delimiters(),
            transcoder@.file_name == file_name@,
    {
        RsvTranscoder { parser_state: ParserState::default(), current: None, args, file_name }
    }

    /// The failure to report when the source could not be read.
    pub fn read_failed(&self, source: std::io::Error) -> (error: RsvError)
        ensures
            error.kind == crate::error::RsvErrorKind::Read,
            error.file_name@ == self@.file_name,
            error.source == source,
    {
        RsvError::read(self.file_name.clone(), source)
    }

    /// The failure to report when the sink could not be written.
    pub fn write_failed(&self, source: std::io::Error) -> (error: RsvError)
        ensures
            error.kind == crate::error::RsvErrorKind::Write,
            error.file_name@ == self@.file_name,
            error.source == source,
    {
        RsvError::write(self.file_name.clone(), source)
    }

    /// Takes the next byte of the source. A carriage return is dropped. Any
    /// other byte is held back until the symbol after it is known, and the
    /// symbol held before it is acted on.
    pub fn push(&mut self, byte: u8, writer: &mut Vec<u8>)
        ensures
            final(self)@ == old(self)@.push(byte),
            final(writer)@ == old(writer)@ + old(self)@.push_output(byte),
    {
        if byte != ASCII_CR {
            match self.current {
                Some(held) => {
                    self.parser_state.process_char(&self.args, writer, held, Some(byte));
                },
                None => {
                    assert(writer@ =~= old(writer)@ + old(self)@.push_output(byte));
                },
            }
            self.current = Some(byte);
        } else {
            assert(writer@ =~= old(writer)@ + old(self)@.push_output(byte));
        }
    }

    /// Ends the source: the held symbol, if there is one, is acted on with
    /// nothing after it. Of a source without symbols nothing is written.
    pub fn finish(&mut self, writer: &mut Vec<u8>)
        ensures
            final(self)@ == old(self)@.finish(),
            final(writer)@ == old(writer)@ + old(self)@.finish_output(),
    {
        match self.current {
            Some(held) => {
                self.parser_state.process_char(&self.args, writer, held, None);
                self.current = None;
            },
            None => {
                assert(writer@ =~= old(writer)@ + old(self)@.finish_output());
            },
        }
    }

    /// Decodes a whole source that is held in memory: takes the bytes of
    /// `input` in order, then ends the source. A transcoder that had taken
    /// nothing before appends to the sink the decoded form of `input`.
    pub fn process(&mut self, input: &[u8], writer: &mut Vec<u8>)
        ensures
            final(self)@ == old(self)@.feed(input@).finish(),
            final(writer)@ == old(writer)@ + old(self)@.feed_output(input@) + old(self)@.feed(
                input@,
            ).finish_output(),
            old(self)@.is_fresh() ==> final(writer)@ == old(writer)@ + transcode(
                old(self)@.delimiters,
                input@,
            ),
            final(self)@.delimiters == old(self)@.delimiters,
            final(self)@.file_name == old(self)@.file_name,
    {
        let mut i: usize = 0;
        while i < input.len()
            invariant
                i <= input.len(),
                self@ == old(self)@.feed(input@.take(i as int)),
                self@.delimiters == old(self)@.delimiters,
                self@.file_name == old(self)@.file_name,
                writer@ == old(writer)@ + old(self)@.feed_output(input@.take(i as int)),
            decreases input.len() - i,
        {
            proof {
                assert(input@.take(i + 1).drop_last() =~= input@.take(i as int));
            }
            self.push(input[i], writer);
            i += 1;
            assert(writer@ =~= old(writer)@ + old(self)@.feed_output(input@.take(i as int)));
        }
        assert(input@.take(i as int) =~= input@);
        self.finish(writer);
        proof {
            if old(self)@.is_fresh() {
                lemma_fresh_run_is_transcode(old(self)@, input@);
            }
            assert(writer@ =~= old(writer)@ + old(self)@.feed_output(input@) + old(self)@.feed(
                input@,
            ).finish_output());
        }
    }
}

} // verus!
