use rsv_transcoder::args::Args;
use rsv_transcoder::error::{RsvError, RsvErrorKind};
use rsv_transcoder::transcoder::RsvTranscoder;
use std::io::{Error, ErrorKind};

fn cause(text: &str) -> Error {
    Error::new(ErrorKind::Other, String::from(text))
}

#[test]
fn read_error_keeps_name_and_cause() {
    let error = RsvError::read(String::from("a.rsv"), cause("cut short"));
    assert_eq!(error.kind, RsvErrorKind::Read);
    assert_eq!(error.file_name, "a.rsv");
    assert_eq!(error.source.to_string(), "cut short");
    assert_eq!(error.source.kind(), ErrorKind::Other);
}

#[test]
fn write_error_keeps_name_and_cause() {
    let error = RsvError::write(String::from("b.rsv"), Error::from(ErrorKind::BrokenPipe));
    assert_eq!(error.kind, RsvErrorKind::Write);
    assert_eq!(error.file_name, "b.rsv");
    assert_eq!(error.source.kind(), ErrorKind::BrokenPipe);
}

#[test]
fn open_error_keeps_name_and_cause() {
    let error = RsvError::open(String::from("c.rsv"), Error::from(ErrorKind::NotFound));
    assert_eq!(error.kind, RsvErrorKind::Open);
    assert_eq!(error.file_name, "c.rsv");
    assert_eq!(error.source.kind(), ErrorKind::NotFound);
}

#[test]
fn each_kind_has_its_exit_status() {
    assert_eq!(RsvErrorKind::Read.report(), 1);
    assert_eq!(RsvErrorKind::Write.report(), 2);
    assert_eq!(RsvErrorKind::Open.report(), 3);
}

#[test]
fn an_error_reports_the_status_of_its_kind() {
    assert_eq!(RsvError::read(String::from("x"), cause("r")).report(), 1);
    assert_eq!(RsvError::write(String::from("x"), cause("w")).report(), 2);
    assert_eq!(RsvError::open(String::from("x"), cause("o")).report(), 3);
}

#[test]
fn transcoder_names_its_source_in_a_read_failure() {
    let transcoder = RsvTranscoder::new(Args::default(), String::from("data.rsv"));
    let error = transcoder.read_failed(cause("gone"));
    assert_eq!(error.kind, RsvErrorKind::Read);
    assert_eq!(error.file_name, "data.rsv");
    assert_eq!(error.source.to_string(), "gone");
}

#[test]
fn transcoder_names_its_source_in_a_write_failure() {
    let transcoder = RsvTranscoder::new(Args::default(), String::from("stdin"));
    let error = transcoder.write_failed(cause("full"));
    assert_eq!(error.kind, RsvErrorKind::Write);
    assert_eq!(error.file_name, "stdin");
    assert_eq!(error.source.to_string(), "full");
}

#[test]
fn exit_statuses_differ_and_none_is_success() {
    let kinds = [RsvErrorKind::Read, RsvErrorKind::Write, RsvErrorKind::Open];
    for (i, a) in kinds.iter().enumerate() {
        assert_ne!(a.report(), 0);
        for (j, b) in kinds.iter().enumerate() {
            assert_eq!(a.report() == b.report(), i == j);
        }
    }
}
