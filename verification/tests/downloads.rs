use file_sharing::download::{
    ContentsDownload, ContentsRetrieved, ContentsStep, DigestDownload, DigestDownloadStep, Verdict,
};
use file_sharing::files::{DigestError, FileHandler, Response, SendStep};
use file_sharing::header::TransmitRequest;
use std::path::PathBuf;

fn handler() -> FileHandler {
    FileHandler::new(PathBuf::from("."))
}

/// Sends contents in the given pieces, and remembers their digest.
fn send(sender: &mut FileHandler, name: &str, pieces: &[&[u8]]) {
    let mut sending = sender.send_file(name.to_string(), true).unwrap();
    for piece in pieces {
        sending = match sender.send_piece(sending, piece) {
            SendStep::PassOn(next) => next,
            SendStep::End => panic!("the file is not sent yet"),
        };
    }
    assert!(matches!(sender.send_piece(sending, &[]), SendStep::End));
}

fn retrieve(name: &str, pieces: &[&[u8]]) -> ContentsRetrieved {
    let (header, mut download) = ContentsDownload::begin(&handler(), name.to_string());
    assert_eq!(header, FileHandler::write_header(TransmitRequest::FileContents, name));
    for piece in pieces {
        assert!(download.has_room(piece.len()));
        download = match download.read(piece) {
            ContentsStep::Save(next) => next,
            ContentsStep::Complete(_) => panic!("the contents are not complete"),
        };
    }
    match download.read(&[]) {
        ContentsStep::Complete(retrieved) => retrieved,
        ContentsStep::Save(_) => panic!("the contents are complete"),
    }
}

fn ask(retrieved: ContentsRetrieved, name: &str) -> DigestDownload {
    let (header, download) = retrieved.ask_for_digest(&handler());
    assert_eq!(header, FileHandler::write_header(TransmitRequest::FileDigest, name));
    assert_eq!(download.bytes_to_go(), 64);
    download
}

fn judged(mut download: DigestDownload, digest: &[u8], size: usize) -> (String, Verdict) {
    for piece in digest.chunks(size) {
        download = match download.read(piece) {
            DigestDownloadStep::More(next) => next,
            DigestDownloadStep::Judged { file_name, verdict } => return (file_name, verdict),
            DigestDownloadStep::Failed { error, .. } => panic!("unexpected {:?}", error),
        };
    }
    panic!("the digest is not complete");
}

fn digest_sent(sender: &FileHandler, name: &str) -> Vec<u8> {
    match sender.send_response(TransmitRequest::FileDigest, name.to_string()) {
        Response::Bytes(bytes) => bytes,
        other => panic!("unexpected {:?}", other),
    }
}

#[test]
fn contents_that_come_as_they_were_sent_are_intact() {
    let mut sender = handler();
    send(&mut sender, "f", &[b"hello ", b"world"]);
    let digest = digest_sent(&sender, "f");
    for size in [1, 5, 63, 64] {
        let download = ask(retrieve("f", &[b"he", b"llo world"]), "f");
        assert_eq!(judged(download, &digest, size), ("f".to_string(), Verdict::Intact));
    }
}

#[test]
fn an_empty_file_is_intact() {
    let mut sender = handler();
    send(&mut sender, "empty", &[]);
    let download = ask(retrieve("empty", &[]), "empty");
    let digest = digest_sent(&sender, "empty");
    assert_eq!(judged(download, &digest, 64).1, Verdict::Intact);
}

#[test]
fn contents_that_came_otherwise_are_corrupt() {
    let mut sender = handler();
    send(&mut sender, "f", &[b"hello world"]);
    let digest = digest_sent(&sender, "f");
    let download = ask(retrieve("f", &[b"hello w0rld"]), "f");
    assert_eq!(judged(download, &digest, 64), ("f".to_string(), Verdict::Corrupt));
}

#[test]
fn a_digest_in_capitals_is_another() {
    let mut sender = handler();
    send(&mut sender, "f", &[b"hello world"]);
    let digest = digest_sent(&sender, "f").to_ascii_uppercase();
    let download = ask(retrieve("f", &[b"hello world"]), "f");
    assert_eq!(judged(download, &digest, 64).1, Verdict::Corrupt);
}

#[test]
fn a_file_that_was_never_sent_has_no_digest() {
    assert_eq!(digest_sent(&handler(), "f"), b"");
    let download = ask(retrieve("f", &[b"x"]), "f");
    match download.read(&[]) {
        DigestDownloadStep::Failed { file_name, error } => {
            assert_eq!(file_name, "f");
            assert!(matches!(error, DigestError::NotRead));
        }
        _ => panic!("there is no digest"),
    }
}

#[test]
fn a_digest_that_is_cut_off_names_the_file_to_remove() {
    let mut sender = handler();
    send(&mut sender, "f", &[b"x"]);
    let digest = digest_sent(&sender, "f");
    let download = match ask(retrieve("f", &[b"x"]), "f").read(&digest[..63]) {
        DigestDownloadStep::More(next) => next,
        _ => panic!("the digest is not complete"),
    };
    match download.read(&[]) {
        DigestDownloadStep::Failed { file_name, error } => {
            assert_eq!(file_name, "f");
            assert!(matches!(error, DigestError::NotRead));
        }
        _ => panic!("there is no digest"),
    }
}

#[test]
fn a_download_whose_digest_is_not_text() {
    let download = ask(retrieve("f", &[b"x"]), "f");
    match download.read(&[0x80; 64]) {
        DigestDownloadStep::Failed { file_name, error } => {
            assert_eq!(file_name, "f");
            assert!(matches!(error, DigestError::NotUtf8(_)));
        }
        _ => panic!("there is no digest"),
    }
}

#[test]
fn a_download_counts_the_bytes_of_the_digest() {
    let download = ask(retrieve("f", &[b"x"]), "f");
    let download = match download.read(&[b'0'; 10]) {
        DigestDownloadStep::More(next) => next,
        _ => panic!("the digest is not complete"),
    };
    assert_eq!(download.bytes_to_go(), 54);
}

#[test]
fn verdicts() {
    assert_eq!(Verdict::of("ab", "ab"), Verdict::Intact);
    assert_eq!(Verdict::of("ab", "ac"), Verdict::Corrupt);
    assert_eq!(Verdict::of("ab", "a"), Verdict::Corrupt);
    assert_eq!(Verdict::of("", ""), Verdict::Intact);
}
