use file_sharing::files::FileHandler;
use file_sharing::header::{
    from_network_order, to_network_order, HeaderError, HeaderReader, HeaderStep, TransmitRequest,
};

fn next(reader: HeaderReader, bytes: &[u8]) -> HeaderReader {
    match reader.read(bytes) {
        Ok(HeaderStep::More(reader)) => reader,
        Ok(HeaderStep::Done { .. }) => panic!("the header is not complete"),
        Err(error) => panic!("unexpected {:?}", error),
    }
}

fn done(reader: HeaderReader, bytes: &[u8]) -> (TransmitRequest, String) {
    match reader.read(bytes) {
        Ok(HeaderStep::Done { request, file_name }) => (request, file_name),
        Ok(HeaderStep::More(_)) => panic!("the header is complete"),
        Err(error) => panic!("unexpected {:?}", error),
    }
}

fn refused(reader: HeaderReader, bytes: &[u8]) -> HeaderError {
    match reader.read(bytes) {
        Err(error) => error,
        Ok(_) => panic!("the header is to be refused"),
    }
}

/// Reads all that a stream delivers, at most `most` bytes at a time.
fn read_all(mut bytes: &[u8], most: usize) -> Result<(TransmitRequest, String), HeaderError> {
    let mut reader = HeaderReader::new();
    loop {
        let size = most.min(reader.buffer_size() as usize).min(bytes.len());
        match reader.read(&bytes[..size])? {
            HeaderStep::More(next) => reader = next,
            HeaderStep::Done { request, file_name } => {
                assert_eq!(size, bytes.len());
                return Ok((request, file_name));
            }
        }
        bytes = &bytes[size..];
    }
}

fn read_back(request: TransmitRequest, name: &str) -> (TransmitRequest, String) {
    let bytes = FileHandler::write_header(request, name);
    let reader = HeaderReader::new();
    assert_eq!(reader.buffer_size(), 1);
    let reader = next(reader, &bytes[..1]);
    assert_eq!(reader.buffer_size(), 4);
    let reader = next(reader, &bytes[1..5]);
    assert_eq!(reader.buffer_size() as usize, bytes.len() - 5);
    done(reader, &bytes[5..])
}

#[test]
fn header_for_contents() {
    assert_eq!(
        FileHandler::write_header(TransmitRequest::FileContents, "a.txt"),
        b"\x00\x00\x00\x00\x05a.txt"
    );
}

#[test]
fn header_for_digest() {
    assert_eq!(
        FileHandler::write_header(TransmitRequest::FileDigest, "a.txt"),
        b"\x01\x00\x00\x00\x05a.txt"
    );
}

#[test]
fn header_counts_bytes_and_not_characters() {
    assert_eq!(
        FileHandler::write_header(TransmitRequest::FileContents, "é"),
        [0, 0, 0, 0, 2, 0xc3, 0xa9]
    );
}

#[test]
fn header_of_an_empty_name() {
    assert_eq!(
        FileHandler::write_header(TransmitRequest::FileContents, ""),
        [0, 0, 0, 0, 0]
    );
}

#[test]
fn headers_are_read_back() {
    for name in ["a.txt", "with space", "é", "日本語.txt", "\u{0}"] {
        for request in [TransmitRequest::FileContents, TransmitRequest::FileDigest] {
            assert_eq!(read_back(request, name), (request, name.to_string()));
        }
    }
    let long = "x".repeat(0x1_0203);
    assert_eq!(
        read_back(TransmitRequest::FileDigest, &long),
        (TransmitRequest::FileDigest, long.clone())
    );
}

#[test]
fn network_order_values() {
    assert_eq!(to_network_order(0x0102_0304), [1, 2, 3, 4]);
    assert_eq!(to_network_order(u32::MAX), [255, 255, 255, 255]);
    assert_eq!(from_network_order(&[1, 2, 3, 4]), 0x0102_0304);
    assert_eq!(from_network_order(&[0xff, 0, 0, 0x10]), 0xff00_0010);
    for n in [0, 1, 255, 256, 65_535, 65_536, 0x0fff_ffff, u32::MAX] {
        assert_eq!(to_network_order(n), n.to_be_bytes());
        assert_eq!(from_network_order(&to_network_order(n)), n);
    }
}

#[test]
fn no_request_byte() {
    let error = refused(HeaderReader::new(), &[]);
    assert!(matches!(error, HeaderError::NoRequest));
    assert_eq!(error.message(), "No bytes read from stream");
}

#[test]
fn unknown_request_byte() {
    for byte in [2, 48, 255] {
        let error = refused(HeaderReader::new(), &[byte]);
        assert!(matches!(error, HeaderError::UnknownRequest));
        assert_eq!(error.message(), "Invalid transmit request");
    }
}

#[test]
fn no_name_length() {
    let reader = next(HeaderReader::new(), &[0]);
    let error = refused(reader, &[]);
    assert!(matches!(error, HeaderError::NoNameLength));
    assert_eq!(error.message(), "Did not read file name length from stream");
}

#[test]
fn no_name() {
    let reader = next(next(HeaderReader::new(), &[1]), &[0, 0, 0, 3]);
    let error = refused(reader, &[]);
    assert!(matches!(error, HeaderError::NoName));
    assert_eq!(error.message(), "Did not read file name from stream");
}

#[test]
fn an_empty_name_is_refused() {
    let reader = next(HeaderReader::new(), &[0]);
    assert!(matches!(refused(reader, &[0, 0, 0, 0]), HeaderError::NoName));
}

#[test]
fn a_name_that_is_not_utf8() {
    let reader = next(next(HeaderReader::new(), &[0]), &[0, 0, 0, 2]);
    let error = refused(reader, &[0xff, 0xfe]);
    assert!(matches!(error, HeaderError::NameNotUtf8(_)));
    let expected = String::from_utf8(vec![0xff, 0xfe]).unwrap_err().to_string();
    assert_eq!(error.message(), expected);
}

#[test]
fn headers_are_read_back_in_pieces() {
    for most in [1, 2, 3, 4, 100] {
        for name in ["a", "a.txt", "日本語.txt"] {
            let bytes = FileHandler::write_header(TransmitRequest::FileDigest, name);
            match read_all(&bytes, most) {
                Ok(read) => assert_eq!(read, (TransmitRequest::FileDigest, name.to_string())),
                Err(error) => panic!("unexpected {:?}", error),
            }
        }
    }
}

#[test]
fn the_length_may_come_in_two_reads() {
    let reader = next(next(HeaderReader::new(), &[0]), &[0, 0]);
    assert_eq!(reader.buffer_size(), 2);
    let reader = next(reader, &[0, 1]);
    assert_eq!(reader.buffer_size(), 1);
    assert_eq!(done(reader, b"x"), (TransmitRequest::FileContents, "x".to_string()));
}

#[test]
fn a_name_that_is_cut_off_is_refused() {
    let bytes = [0, 0, 0, 0, 5, 0x61, 0x62];
    for most in [1, 2, 100] {
        assert!(matches!(read_all(&bytes, most), Err(HeaderError::NoName)));
    }
}

#[test]
fn headers_that_are_cut_off_are_refused() {
    let bytes = FileHandler::write_header(TransmitRequest::FileContents, "abc");
    for most in [1, 3, 100] {
        assert!(matches!(read_all(&bytes[..0], most), Err(HeaderError::NoRequest)));
        for end in 1..5 {
            assert!(matches!(read_all(&bytes[..end], most), Err(HeaderError::NoNameLength)));
        }
        for end in 5..8 {
            assert!(matches!(read_all(&bytes[..end], most), Err(HeaderError::NoName)));
        }
    }
}
