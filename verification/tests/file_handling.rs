use file_sharing::files::{
    DigestError, DigestReader, DigestStep, DirectoryEntry, FileHandler, Response, SendStep,
    Transfer, TransferStep, BUFFER_SIZE, DIGEST_SIZE,
};
use file_sharing::header::TransmitRequest;
use std::path::PathBuf;

fn handler() -> FileHandler {
    FileHandler::new(PathBuf::from("/srv/shared"))
}

fn entry(name: Option<&str>, is_file: Option<bool>) -> DirectoryEntry {
    DirectoryEntry { file_name: name.map(str::to_string), is_file }
}

fn names(list: &[&str]) -> Vec<String> {
    list.iter().map(|name| name.to_string()).collect()
}

fn passed(transfer: Transfer, piece: &[u8]) -> Transfer {
    assert!(transfer.has_room(piece.len()));
    match transfer.read(piece) {
        TransferStep::PassOn(next) => next,
        TransferStep::End(_) => panic!("the transfer ended"),
    }
}

fn ended(transfer: Transfer) -> String {
    match transfer.read(&[]) {
        TransferStep::End(digest) => digest,
        TransferStep::PassOn(_) => panic!("the transfer went on"),
    }
}

/// Sends a file with these contents.
fn send(handler: &mut FileHandler, name: &str, contents: &[u8]) {
    let mut sending = handler.send_file(name.to_string(), true).unwrap();
    for piece in contents.chunks(2) {
        assert!(sending.has_room(piece.len()));
        sending = match handler.send_piece(sending, piece) {
            SendStep::PassOn(next) => next,
            SendStep::End => panic!("the file is not sent yet"),
        };
    }
    assert!(matches!(handler.send_piece(sending, &[]), SendStep::End));
}

const DIGEST_OF_ABC: &[u8] = b"ba7816bf8f01cfea414140de5dae2223b00361a396177a9cb410ff61f20015ad";
const DIGEST_OF_NOTHING: &[u8] =
    b"e3b0c44298fc1c149afbf4c8996fb92427ae41e4649b934ca495991b7852b855";

#[test]
fn sizes() {
    assert_eq!(BUFFER_SIZE, 1024);
    assert_eq!(DIGEST_SIZE, 64);
}

#[test]
fn the_served_directory() {
    assert_eq!(handler().get_served_dir(), PathBuf::from("/srv/shared"));
}

#[test]
fn only_files_are_listed() {
    let entries = vec![
        entry(Some("b"), Some(true)),
        entry(Some("directory"), Some(false)),
        entry(Some("unreadable"), None),
        entry(None, Some(true)),
        entry(Some("a"), Some(true)),
    ];
    assert_eq!(handler().list_files::<&str>(&entries, None), Ok(names(&["b", "a"])));
}

#[test]
fn nothing_is_listed_of_an_empty_directory() {
    assert_eq!(handler().list_files::<&str>(&vec![], None), Ok(vec![]));
}

#[test]
fn listing_fails_if_the_directory_could_not_be_read() {
    let entries = vec![entry(Some("a"), Some(true))];
    assert_eq!(handler().list_files(&entries, Some("gone")), Err("gone"));
}

#[test]
fn existence() {
    let all = names(&["a", "directory"]);
    assert_eq!(handler().file_exists::<&str>(&all, None, "a"), Ok(true));
    assert_eq!(handler().file_exists::<&str>(&all, None, "directory"), Ok(true));
    assert_eq!(handler().file_exists::<&str>(&all, None, "A"), Ok(false));
    assert_eq!(handler().file_exists::<&str>(&all, None, ""), Ok(false));
    assert_eq!(handler().file_exists::<&str>(&vec![], None, "a"), Ok(false));
}

#[test]
fn a_failure_does_not_matter_once_the_name_was_seen() {
    let some = names(&["a"]);
    assert_eq!(handler().file_exists(&some, Some("gone"), "a"), Ok(true));
    assert_eq!(handler().file_exists(&some, Some("gone"), "b"), Err("gone"));
}

#[test]
fn listed_files_exist() {
    let entries = vec![
        entry(Some("a"), Some(true)),
        entry(Some("d"), Some(false)),
        entry(Some("b"), Some(true)),
    ];
    let all = names(&["a", "d", "b"]);
    for name in handler().list_files::<&str>(&entries, None).unwrap() {
        assert_eq!(handler().file_exists::<&str>(&all, None, &name), Ok(true));
    }
}

#[test]
fn a_transfer_gives_the_digest_of_what_passed() {
    let transfer = passed(passed(Transfer::new(), b"ab"), b"c");
    assert_eq!(
        ended(transfer),
        "ba7816bf8f01cfea414140de5dae2223b00361a396177a9cb410ff61f20015ad"
    );
}

#[test]
fn a_transfer_has_room_for_no_more_than_a_digest_covers() {
    assert!(Transfer::new().has_room((1 << 61) - 1));
    assert!(!Transfer::new().has_room(1 << 61));
    assert!(!passed(Transfer::new(), b"x").has_room((1 << 61) - 1));
    assert!(!passed(Transfer::new(), b"x").has_room(usize::MAX));
}

#[test]
fn a_file_that_cannot_be_opened_is_not_sent() {
    assert!(handler().send_file("a".to_string(), false).is_none());
    assert!(handler().send_file("a".to_string(), true).is_some());
}

#[test]
fn a_file_is_sent_to_its_end_before_it_has_a_digest() {
    let mut handler = handler();
    let sending = handler.send_file("a".to_string(), true).unwrap();
    assert!(matches!(handler.send_piece(sending, b"abc"), SendStep::PassOn(_)));
    assert_eq!(handler.send_digest("a"), b"");
}

#[test]
fn a_digest_lasts_until_removal() {
    let mut handler = handler();
    assert_eq!(handler.send_digest("a"), b"");
    send(&mut handler, "a", b"");
    send(&mut handler, "b", b"abc");
    assert_eq!(handler.send_digest("a"), DIGEST_OF_NOTHING);
    send(&mut handler, "a", b"abc");
    assert_eq!(handler.send_digest("a"), DIGEST_OF_ABC);
    assert_eq!(handler.remove_file::<&str>("a", Ok(())), Ok(()));
    assert_eq!(handler.send_digest("a"), b"");
    assert_eq!(handler.send_digest("b"), DIGEST_OF_ABC);
}

#[test]
fn a_failed_removal_forgets_nothing() {
    let mut handler = handler();
    send(&mut handler, "a", b"abc");
    assert_eq!(handler.remove_file("a", Err("denied")), Err("denied"));
    assert_eq!(handler.send_digest("a"), DIGEST_OF_ABC);
}

#[test]
fn responses_to_headers() {
    let mut handler = handler();
    send(&mut handler, "a", b"abc");
    match handler.send_response(TransmitRequest::FileContents, "a".to_string()) {
        Response::File(name) => assert_eq!(name, "a"),
        other => panic!("unexpected {:?}", other),
    }
    match handler.send_response(TransmitRequest::FileDigest, "a".to_string()) {
        Response::Bytes(bytes) => assert_eq!(bytes, DIGEST_OF_ABC),
        other => panic!("unexpected {:?}", other),
    }
    match handler.send_response(TransmitRequest::FileDigest, "b".to_string()) {
        Response::Bytes(bytes) => assert_eq!(bytes, b""),
        other => panic!("unexpected {:?}", other),
    }
}

#[test]
fn headers_of_what_is_retrieved() {
    assert_eq!(handler().retrieve_file_from_peer("f").0, b"\x00\x00\x00\x00\x01f");
    assert_eq!(handler().retrieve_digest_from_peer("f").0, b"\x01\x00\x00\x00\x01f");
}

#[test]
fn a_digest_comes_in_pieces() {
    let (_, reader) = handler().retrieve_digest_from_peer("f");
    assert_eq!(reader.bytes_to_go(), 64);
    let reader = match reader.read(&[b'a'; 63]) {
        DigestStep::More(reader) => reader,
        _ => panic!("the digest is not complete"),
    };
    assert_eq!(reader.bytes_to_go(), 1);
    match reader.read(b"b") {
        DigestStep::Done(digest) => assert_eq!(digest, "a".repeat(63) + "b"),
        _ => panic!("the digest is complete"),
    }
}

#[test]
fn a_digest_that_stops_early() {
    let reader = match DigestReader::new().read(b"abc") {
        DigestStep::More(reader) => reader,
        _ => panic!("the digest is not complete"),
    };
    match reader.read(&[]) {
        DigestStep::Failed(error) => {
            assert!(matches!(error, DigestError::NotRead));
            assert_eq!(error.message(), "Did not read file digest from stream");
        }
        _ => panic!("the digest has ended"),
    }
}

#[test]
fn a_digest_that_is_not_utf8() {
    match DigestReader::new().read(&[0xff; 64]) {
        DigestStep::Failed(error) => {
            assert!(matches!(error, DigestError::NotUtf8(_)));
            let expected = String::from_utf8(vec![0xff; 64]).unwrap_err().to_string();
            assert_eq!(error.message(), expected);
        }
        _ => panic!("the digest is not text"),
    }
}
