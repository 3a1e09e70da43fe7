use vimscript_core::protocol::{
    header, parse_header, read_content, read_message, Header, HeaderReader, ProtocolError, Step,
};

fn lines(text: &[&str]) -> Vec<String> {
    text.iter().map(|s| s.to_string()).collect()
}

#[test]
fn reads_a_message() {
    let headers = lines(&["Content-Length: 2\r\n", "\r\n"]);
    assert_eq!(
        read_message(&headers, b"{}".to_vec()),
        Ok("{}".to_string())
    );
}

#[test]
fn header_names_count_without_regard_to_case() {
    assert_eq!(
        parse_header("CONTENT-LENGTH: 17\r\n"),
        Ok(Header::ContentLength(17))
    );
    assert_eq!(
        parse_header("content-length: 17\r\n"),
        Ok(Header::ContentLength(17))
    );
    assert_eq!(parse_header("Content-Type: utf-8\r\n"), Ok(Header::ContentType));
    assert_eq!(parse_header("Content-Type: utf8\r\n"), Ok(Header::ContentType));
}

#[test]
fn header_values_count_without_the_white_space_around_them() {
    assert_eq!(
        parse_header("Content-Length: 5\t\r\n"),
        Ok(Header::ContentLength(5))
    );
    assert_eq!(
        parse_header("Content-Length: +5\r\n"),
        Ok(Header::ContentLength(5))
    );
}

#[test]
fn unknown_headers_are_passed_over() {
    assert_eq!(parse_header("X-Other: 1\r\n"), Ok(Header::Other));
    let headers = lines(&["X-Other: 1\r\n", "Content-Length: 1\r\n", "\r\n"]);
    assert_eq!(read_message(&headers, b"1".to_vec()), Ok("1".to_string()));
}

#[test]
fn the_end_of_the_section_is_an_empty_line() {
    assert_eq!(parse_header("\r\n"), Ok(Header::End));
}

#[test]
fn end_of_input_within_the_headers_is_an_error() {
    assert_eq!(parse_header(""), Err(ProtocolError::UnexpectedEof));
    let headers = lines(&["Content-Length: 2\r\n"]);
    assert_eq!(
        read_message(&headers, b"{}".to_vec()),
        Err(ProtocolError::UnexpectedEof)
    );
    assert_eq!(
        ProtocolError::UnexpectedEof.message(),
        "EOF encountered in the middle of reading LSP headers"
    );
}

#[test]
fn a_header_holds_exactly_one_space() {
    assert_eq!(
        parse_header("Content-Length:2\r\n"),
        Err(ProtocolError::Malformed("Content-Length:2\r\n".to_string()))
    );
    assert_eq!(
        parse_header("Content-Length: 2 3\r\n"),
        Err(ProtocolError::Malformed("Content-Length: 2 3\r\n".to_string()))
    );
    assert_eq!(
        ProtocolError::Malformed("a\r\n".to_string()).message(),
        "Header 'a\r\n' is malformed"
    );
}

#[test]
fn the_content_length_is_a_number() {
    assert_eq!(
        parse_header("Content-Length: two\r\n"),
        Err(ProtocolError::BadSize)
    );
    assert_eq!(
        parse_header("Content-Length: -2\r\n"),
        Err(ProtocolError::BadSize)
    );
    assert_eq!(ProtocolError::BadSize.message(), "Couldn't read size");
}

#[test]
fn the_content_type_is_utf8() {
    assert_eq!(
        parse_header("Content-Type: latin1\r\n"),
        Err(ProtocolError::BadContentType("latin1".to_string()))
    );
    assert_eq!(
        ProtocolError::BadContentType("latin1".to_string()).message(),
        "Content type 'latin1' is invalid"
    );
}

#[test]
fn a_message_names_its_content_length() {
    let headers = lines(&["Content-Type: utf8\r\n", "\r\n"]);
    assert_eq!(
        read_message(&headers, Vec::new()),
        Err(ProtocolError::MissingLength)
    );
    assert_eq!(
        ProtocolError::MissingLength.message(),
        "Message is missing 'content-length' header"
    );
}

#[test]
fn the_content_is_well_formed_and_as_long_as_announced() {
    assert_eq!(read_content(2, vec![0xc3, 0xa9]), Ok("é".to_string()));
    assert_eq!(
        read_content(2, vec![0xc3, 0x28]),
        Err(ProtocolError::BadContent)
    );
    assert_eq!(read_content(3, b"{}".to_vec()), Err(ProtocolError::BadContent));
}

#[test]
fn the_last_content_length_counts() {
    let mut reader = HeaderReader::new();
    assert_eq!(reader.line("Content-Length: 1\r\n"), Ok(Step::Line));
    assert_eq!(reader.line("Content-Length: 7\r\n"), Ok(Step::Line));
    assert_eq!(reader.line("\r\n"), Ok(Step::Content(7)));
}

#[test]
fn a_header_is_told_by_its_name_and_value() {
    assert_eq!(
        header("content-length:", "2".to_string(), Some(2)),
        Ok(Header::ContentLength(2))
    );
    assert_eq!(
        header("content-length:", "x".to_string(), None),
        Err(ProtocolError::BadSize)
    );
    assert_eq!(
        header("content-type:", "utf-8".to_string(), None),
        Ok(Header::ContentType)
    );
    assert_eq!(
        header("content-type:", "7".to_string(), Some(7)),
        Err(ProtocolError::BadContentType("7".to_string()))
    );
    assert_eq!(
        header("Content-Length:", "2".to_string(), Some(2)),
        Ok(Header::Other)
    );
    assert_eq!(header("", "".to_string(), None), Ok(Header::Other));
}

#[test]
fn the_content_length_is_an_optional_plus_and_decimal_digits() {
    assert_eq!(
        parse_header("Content-Length: 2\r\n"),
        Ok(Header::ContentLength(2))
    );
    assert_eq!(
        parse_header("Content-Length: 007\r\n"),
        Ok(Header::ContentLength(7))
    );
    assert_eq!(
        parse_header("Content-Length: +0\r\n"),
        Ok(Header::ContentLength(0))
    );
    assert_eq!(
        parse_header(&format!("Content-Length: {}\r\n", usize::MAX)),
        Ok(Header::ContentLength(usize::MAX))
    );
    for bad in [
        "+",
        "-0",
        "1_0",
        "1a",
        "0x10",
        "１",
        "1.0",
        "99999999999999999999999999",
    ] {
        assert_eq!(
            parse_header(&format!("Content-Length: {}\r\n", bad)),
            Err(ProtocolError::BadSize),
            "{}",
            bad
        );
    }
}
