//! The settings of one run: the six delimiters and the list of sources.

use vstd::prelude::*;
use vstd::string::*;
use vstd::utf8::encode_utf8;

verus! {

/// The six delimiters as the byte strings that reach the output.
pub struct Delimiters {
    pub null_value: Seq<u8>,
    pub field_separator: Seq<u8>,
    pub field_opening: Seq<u8>,
    pub field_closing: Seq<u8>,
    pub line_starting: Seq<u8>,
    pub line_ending: Seq<u8>,
}

/// The bytes that stand for a text in the output: the text in UTF-8.
#[verifier::opaque]
pub open spec fn text_bytes(text: Seq<char>) -> Seq<u8> {
    encode_utf8(text)
}

/// The bytes of a delimiter, as they are written.
pub fn bytes_of(text: &String) -> (bytes: &[u8])
    ensures
        bytes@ == text_bytes(text@),
{
    proof {
        reveal(text_bytes);
    }
    text.as_str().as_bytes()
}

/// What the caller chose: the text of each delimiter, and the sources to
/// decode, in order. An empty list of sources stands for the standard input.
#[derive(Clone, Debug)]
pub struct Args {
    pub null_value: String,
    pub field_separator: String,
    pub field_opening: String,
    pub field_closing: String,
    pub line_starting: String,
    pub line_ending: String,
    pub files: Vec<String>,
}

impl Args {
    /// The delimiters as bytes: each text as it is written, with nothing added.
    pub open spec fn delimiters(&self) -> Delimiters {
        Delimiters {
            null_value: text_bytes(self.null_value@),
            field_separator: text_bytes(self.field_separator@),
            field_opening: text_bytes(self.field_opening@),
            field_closing: text_bytes(self.field_closing@),
            line_starting: text_bytes(self.line_starting@),
            line_ending: text_bytes(self.line_ending@),
        }
    }
}

impl Default for Args {
    /// `null`, `|`, `<`, `>`, `[`, `]`, and no source.
    fn default() -> (args: Args)
        ensures
            args.null_value@ == "null"@,
            args.field_separator@ == "|"@,
            args.field_opening@ == "<"@,
            args.field_closing@ == ">"@,
            args.line_starting@ == "["@,
            args.line_ending@ == "]"@,
            args.files@.len() == 0,
    {
        Args {
            null_value: "null".to_owned(),
            field_separator: "|".to_owned(),
            field_opening: "<".to_owned(),
            field_closing: ">".to_owned(),
            line_starting: "[".to_owned(),
            line_ending: "]".to_owned(),
            files: Vec::new(),
        }
    }
}

} // verus!
