use rsv_transcoder::args::Args;
use rsv_transcoder::transcoder::RsvTranscoder;

fn decode_with(args: Args, input: &[u8]) -> Vec<u8> {
    let mut transcoder = RsvTranscoder::new(args, String::from("memory"));
    let mut out = Vec::new();
    transcoder.process(input, &mut out);
    out
}

fn decode(input: &[u8]) -> Vec<u8> {
    decode_with(Args::default(), input)
}

fn quoted() -> Args {
    Args {
        null_value: String::from("NULL"),
        field_separator: String::from(","),
        field_opening: String::from("\""),
        field_closing: String::from("\""),
        line_starting: String::new(),
        line_ending: String::new(),
        files: Vec::new(),
    }
}

#[test]
fn two_values_and_a_row_terminator() {
    assert_eq!(decode(&[b'A', 0xFF, b'B', 0xFD]), b"[<A>|<B>]\n".to_vec());
}

#[test]
fn two_terminated_values_and_a_row_terminator() {
    assert_eq!(decode(&[b'A', 0xFF, b'B', 0xFF, 0xFD]), b"[<A>|<B>]\n".to_vec());
}

#[test]
fn single_null_value() {
    assert_eq!(decode(&[0xFE, 0xFF, 0xFD]), b"[null]\n".to_vec());
}

#[test]
fn plain_bytes_in_a_terminated_row() {
    assert_eq!(decode(b"hello\xFD"), b"[<hello>]\n".to_vec());
    assert_eq!(decode(b"hello\n"), b"[<hello>]\n".to_vec());
    assert_eq!(decode(b"h\xFD"), b"[<h>]\n".to_vec());
}

#[test]
fn plain_bytes_with_a_zero_byte() {
    assert_eq!(decode(&[b'a', 0x00, b'b', 0xFD]), vec![b'[', b'<', b'a', 0x00, b'b', b'>', b']', b'\n']);
}

#[test]
fn plain_bytes_without_a_terminator_stay_open() {
    assert_eq!(decode(b"hello"), b"[<hello".to_vec());
    assert_eq!(decode(b"h"), b"[<h".to_vec());
}

#[test]
fn unterminated_row_after_a_value_terminator() {
    assert_eq!(decode(&[b'A', 0xFF, b'B']), b"[<A>|<B".to_vec());
    assert_eq!(decode(&[b'A', 0xFF]), b"[<A>|".to_vec());
    assert_eq!(decode(&[0xFE]), b"[null".to_vec());
}

#[test]
fn empty_input_gives_no_output() {
    assert_eq!(decode(&[]), Vec::<u8>::new());
}

#[test]
fn carriage_returns_alone_give_no_output() {
    assert_eq!(decode(b"\r\r\r"), Vec::<u8>::new());
}

#[test]
fn carriage_returns_are_dropped() {
    let input = [b'A', b'\r', 0xFF, b'\r', b'B', b'\r', b'\n'];
    assert_eq!(decode(&input), b"[<A>|<B>]\n".to_vec());
    assert_eq!(decode(&input), decode(&[b'A', 0xFF, b'B', b'\n']));
    assert!(!decode(&input).contains(&b'\r'));
}

#[test]
fn carriage_return_inside_content_and_at_both_ends() {
    assert_eq!(decode(b"\rab\rcd\xFD\r"), b"[<abcd>]\n".to_vec());
}

#[test]
fn null_between_values() {
    let input = [b'A', 0xFF, 0xFE, 0xFF, b'B', 0xFF, 0xFD];
    assert_eq!(decode(&input), b"[<A>|null|<B>]\n".to_vec());
}

#[test]
fn null_first_and_last() {
    assert_eq!(decode(&[0xFE, 0xFF, b'x', 0xFF, 0xFE, 0xFF, 0xFD]), b"[null|<x>|null]\n".to_vec());
}

#[test]
fn empty_value_between_values() {
    let input = [b'A', 0xFF, 0xFF, b'B', 0xFF, 0xFD];
    assert_eq!(decode(&input), b"[<A>|<>|<B>]\n".to_vec());
}

#[test]
fn empty_value_at_the_end_of_a_row() {
    assert_eq!(decode(&[b'A', 0xFF, 0xFF, 0xFD]), b"[<A>|<>]\n".to_vec());
}

#[test]
fn empty_values_alone() {
    assert_eq!(decode(&[0xFF, 0xFD]), b"[<>]\n".to_vec());
    assert_eq!(decode(&[0xFF, 0xFF, 0xFD]), b"[<>|<>]\n".to_vec());
    assert_eq!(decode(&[0xFF, 0xFF, 0xFF, 0xFD]), b"[<>|<>|<>]\n".to_vec());
}

#[test]
fn null_next_to_an_empty_value() {
    assert_eq!(decode(&[0xFE, 0xFF, 0xFF, 0xFD]), b"[null|<>]\n".to_vec());
    assert_eq!(decode(&[0xFF, 0xFE, 0xFF, 0xFD]), b"[<>|null]\n".to_vec());
}

#[test]
fn empty_rows() {
    assert_eq!(decode(&[0xFD]), b"[]\n".to_vec());
    assert_eq!(decode(&[0xFD, 0xFD]), b"[]\n[]\n".to_vec());
    assert_eq!(decode(b"\n"), b"[]\n".to_vec());
    assert_eq!(decode(&[b'\n', 0xFD]), b"[]\n[]\n".to_vec());
}

#[test]
fn several_rows() {
    let input = [b'a', 0xFF, b'b', 0xFF, 0xFD, 0xFD, 0xFE, 0xFF, b'c', b'd', 0xFF, 0xFD];
    assert_eq!(decode(&input), b"[<a>|<b>]\n[]\n[null|<cd>]\n".to_vec());
}

#[test]
fn line_feed_ends_a_row() {
    assert_eq!(decode(b"A\nB\n"), b"[<A>]\n[<B>]\n".to_vec());
    assert_eq!(decode(&[b'A', 0xFF, b'B', 0xFF, b'\n']), b"[<A>|<B>]\n".to_vec());
}

#[test]
fn value_terminator_before_a_line_feed_at_the_start_of_a_row() {
    assert_eq!(decode(&[0xFF, b'\n']), b"[<]\n".to_vec());
}

#[test]
fn chosen_delimiters_are_written_as_they_are() {
    let input = [b'A', 0xFF, 0xFE, 0xFF, 0xFF, 0xFD, b'B', 0xFF, 0xFD];
    assert_eq!(decode_with(quoted(), &input), b"\"A\",NULL,\"\"\n\"B\"\n".to_vec());
}

#[test]
fn delimiters_outside_ascii_are_written_in_utf8() {
    let mut args = Args::default();
    args.field_separator = String::from("\u{2192}");
    args.null_value = String::from("\u{e9}");
    let input = [b'A', 0xFF, 0xFE, 0xFF, 0xFD];
    let expected = vec![b'[', b'<', b'A', b'>', 0xE2, 0x86, 0x92, 0xC3, 0xA9, b']', b'\n'];
    assert_eq!(decode_with(args, &input), expected);
}

#[test]
fn delimiters_may_hold_reserved_bytes_of_the_input() {
    let mut args = Args::default();
    args.line_ending = String::from("\r");
    assert_eq!(decode_with(args, b"A\r\n"), b"[<A>\r\n".to_vec());
}

#[test]
fn two_sources_share_one_sink() {
    let args = Args::default();
    let mut out = Vec::new();
    let mut first = RsvTranscoder::new(args.clone(), String::from("first"));
    first.process(&[b'A', 0xFF, 0xFD], &mut out);
    let mut second = RsvTranscoder::new(args.clone(), String::from("second"));
    second.process(&[0xFE, 0xFF, b'B', 0xFF, 0xFD], &mut out);
    assert_eq!(out, b"[<A>]\n[null|<B>]\n".to_vec());
}

#[test]
fn second_source_starts_a_row_of_its_own() {
    let args = Args::default();
    let mut out = Vec::new();
    let mut first = RsvTranscoder::new(args.clone(), String::from("first"));
    first.process(&[b'A', 0xFF], &mut out);
    let mut second = RsvTranscoder::new(args, String::from("second"));
    second.process(&[b'B', 0xFD], &mut out);
    assert_eq!(out, b"[<A>|[<B>]\n".to_vec());
}

#[test]
fn process_appends_to_what_the_sink_holds() {
    let mut out = b"kept".to_vec();
    let mut transcoder = RsvTranscoder::new(Args::default(), String::from("memory"));
    transcoder.process(&[b'A', 0xFD], &mut out);
    assert_eq!(out, b"kept[<A>]\n".to_vec());
}

#[test]
fn push_holds_one_symbol_back() {
    let mut transcoder = RsvTranscoder::new(Args::default(), String::from("memory"));
    let mut out = Vec::new();
    transcoder.push(b'A', &mut out);
    assert_eq!(out, Vec::<u8>::new());
    transcoder.push(b'\r', &mut out);
    assert_eq!(out, Vec::<u8>::new());
    transcoder.push(0xFF, &mut out);
    assert_eq!(out, b"[<A>".to_vec());
    transcoder.push(b'B', &mut out);
    assert_eq!(out, b"[<A>|".to_vec());
    transcoder.push(0xFD, &mut out);
    assert_eq!(out, b"[<A>|<B>".to_vec());
    transcoder.finish(&mut out);
    assert_eq!(out, b"[<A>|<B>]\n".to_vec());
}

#[test]
fn finish_of_a_fresh_transcoder_writes_nothing() {
    let mut transcoder = RsvTranscoder::new(Args::default(), String::from("memory"));
    let mut out = Vec::new();
    transcoder.finish(&mut out);
    assert_eq!(out, Vec::<u8>::new());
}

#[test]
fn finish_acts_once() {
    let mut transcoder = RsvTranscoder::new(Args::default(), String::from("memory"));
    let mut out = Vec::new();
    transcoder.push(0xFD, &mut out);
    transcoder.finish(&mut out);
    transcoder.finish(&mut out);
    assert_eq!(out, b"[]\n".to_vec());
}

#[test]
fn byte_by_byte_is_the_same_as_at_once() {
    let input = [
        b'a', b'\r', 0xFF, 0xFF, 0xFE, 0xFF, b'\n', 0xFD, b'x', b'y', 0xFF, 0xFE, 0xFF, 0xFD, b'z',
    ];
    let mut transcoder = RsvTranscoder::new(quoted(), String::from("memory"));
    let mut out = Vec::new();
    for byte in input {
        transcoder.push(byte, &mut out);
    }
    transcoder.finish(&mut out);
    assert_eq!(out, decode_with(quoted(), &input));
    assert_eq!(out, b"\"a\",\"\",NULL\n\n\"xy\",NULL\n\"z".to_vec());
}

#[test]
fn empty_text_before_null_at_the_start_of_a_row() {
    assert_eq!(decode(&[0xFF, 0xFE, 0xFF, 0xFF, 0xFD]), b"[<>|null|<>]\n".to_vec());
}

#[test]
fn empty_text_before_content_at_the_start_of_a_row_stays_open() {
    assert_eq!(decode(&[0xFF, b'A', 0xFF, 0xFD]), b"[<|<A>]\n".to_vec());
}

#[test]
fn empty_text_before_content_later_in_a_row_is_closed() {
    assert_eq!(decode(&[0xFE, 0xFF, 0xFF, b'A', 0xFF, 0xFD]), b"[null|<>|<A>]\n".to_vec());
}

#[test]
fn rows_of_texts_and_nulls() {
    let input = [
        b'H', b'e', b'l', b'l', b'o', 0xFF, 0xF0, 0x9F, 0x8C, 0x8E, 0xFF, 0xFD, 0xFE, 0xFF, 0xFF,
        0xFD, 0xFD, b'x', 0xFF, 0xFD,
    ];
    let mut expected = b"[<Hello>|<".to_vec();
    expected.extend_from_slice(&[0xF0, 0x9F, 0x8C, 0x8E]);
    expected.extend_from_slice(b">]\n[null|<>]\n[]\n[<x>]\n");
    assert_eq!(decode(&input), expected);
}
