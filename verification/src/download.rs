//! The download of a file: its contents are retrieved first and its digest
//! after that, each on a stream of its own, and the file is kept only if the
//! digest is that of the contents that came. If it is another, or if none comes,
//! the file is removed.

use crate::digest;
use crate::files;
use crate::files::{DigestError, DigestReader, DigestStep, FileHandler, Transfer, TransferStep};
use crate::header;
use crate::header::TransmitRequest;
use crate::text;
use vstd::prelude::*;

verus! {

/// Whether a downloaded file is what its peer sent.
#[derive(Clone, Copy, Debug, PartialEq, Eq, Structural)]
pub enum Verdict {
    /// It is, and stays in the served directory.
    Intact,
    /// It is not, and has to be removed from the served directory.
    Corrupt,
}

/// The verdict on contents with one digest when the peer gave the other.
pub open spec fn verdict(retrieved: Seq<char>, transmitted: Seq<char>) -> Verdict {
    if retrieved == transmitted {
        Verdict::Intact
    } else {
        Verdict::Corrupt
    }
}

/// A download whose contents are coming.
pub struct ContentsDownload {
    file_name: String,
    transfer: Transfer,
}

/// What to do with the piece of contents that was just read.
pub enum ContentsStep {
    /// Append it to the file, and read another.
    Save(ContentsDownload),
    /// There was none: the contents are complete. Close the stream, and open
    /// another for the digest.
    Complete(ContentsRetrieved),
}

/// A download whose contents have come.
pub struct ContentsRetrieved {
    file_name: String,
    retrieved: String,
}

/// A download whose digest is coming.
pub struct DigestDownload {
    file_name: String,
    retrieved: String,
    reader: DigestReader,
}

/// What a read of the digest leads to.
pub enum DigestDownloadStep {
    /// Read on.
    More(DigestDownload),
    /// The digest has come. Close the stream, and act on the verdict.
    Judged { file_name: String, verdict: Verdict },
    /// There is no digest to be had. Remove the file from the served directory, and
    /// report with `CommandCore::abandon_download`.
    Failed { file_name: String, error: DigestError },
}

impl Verdict {
    /// Compares the digest of the contents with the one that the peer gave.
    pub fn of(retrieved: &str, transmitted: &str) -> (result: Verdict)
        ensures
            result == verdict(retrieved@, transmitted@),
    {
        if text::same_text(retrieved, transmitted) {
            Verdict::Intact
        } else {
            Verdict::Corrupt
        }
    }
}

impl ContentsDownload {
    /// The name of the file.
    pub closed spec fn file_name(&self) -> Seq<char> {
        self.file_name@
    }

    /// What has come of the contents.
    pub closed spec fn contents(&self) -> Seq<u8> {
        self.transfer@
    }

    /// Begins a download, on a stream that was opened for it: the header to send,
    /// and the download. The file is created, or emptied, in the served directory.
    pub fn begin(handler: &FileHandler, file_name: String) -> (start: (Vec<u8>, ContentsDownload))
        ensures
            start.0@ == header::header(TransmitRequest::FileContents, file_name@),
            start.1.file_name() == file_name@,
            start.1.contents() == Seq::<u8>::empty(),
    {
        let (bytes, transfer) = handler.retrieve_file_from_peer(file_name.as_str());
        (bytes, ContentsDownload { file_name, transfer })
    }

    /// Whether a piece of this length can still be taken.
    pub fn has_room(&self, length: usize) -> (room: bool)
        ensures
            room == (self.contents().len() + length <= digest::MAX_CONTENT),
    {
        self.transfer.has_room(length)
    }

    /// Takes the piece that one read of the stream delivered.
    pub fn read(self, piece: &[u8]) -> (step: ContentsStep)
        requires
            self.contents().len() + piece@.len() <= digest::MAX_CONTENT,
        ensures
            match step {
                ContentsStep::Save(next) => {
                    &&& piece@.len() > 0
                    &&& next.file_name() == self.file_name()
                    &&& next.contents() == self.contents() + piece@
                },
                ContentsStep::Complete(next) => {
                    &&& piece@.len() == 0
                    &&& next.file_name() == self.file_name()
                    &&& next.retrieved() == digest::digest_text(self.contents())
                },
            },
    {
        let ContentsDownload { file_name, transfer } = self;
        match transfer.read(piece) {
            TransferStep::PassOn(transfer) => ContentsStep::Save(
                ContentsDownload { file_name, transfer },
            ),
            TransferStep::End(retrieved) => ContentsStep::Complete(
                ContentsRetrieved { file_name, retrieved },
            ),
        }
    }
}

impl ContentsRetrieved {
    /// The name of the file.
    pub closed spec fn file_name(&self) -> Seq<char> {
        self.file_name@
    }

    /// The digest of the contents that came.
    pub closed spec fn retrieved(&self) -> Seq<char> {
        self.retrieved@
    }

    /// Goes on to the digest, on a second stream that was opened for it: the header
    /// to send, and the download.
    pub fn ask_for_digest(self, handler: &FileHandler) -> (start: (Vec<u8>, DigestDownload))
        ensures
            start.0@ == header::header(TransmitRequest::FileDigest, self.file_name()),
            start.1.file_name() == self.file_name(),
            start.1.retrieved() == self.retrieved(),
            start.1.received() == Seq::<u8>::empty(),
    {
        let ContentsRetrieved { file_name, retrieved } = self;
        let (bytes, reader) = handler.retrieve_digest_from_peer(file_name.as_str());
        (bytes, DigestDownload { file_name, retrieved, reader })
    }
}

impl DigestDownload {
    /// The name of the file.
    pub closed spec fn file_name(&self) -> Seq<char> {
        self.file_name@
    }

    /// The digest of the contents that came.
    pub closed spec fn retrieved(&self) -> Seq<char> {
        self.retrieved@
    }

    /// What has come of the digest that the peer gives.
    pub closed spec fn received(&self) -> Seq<u8> {
        self.reader@
    }

    /// The number of bytes of the digest that are still to come.
    pub fn bytes_to_go(&self) -> (count: usize)
        ensures
            count == files::DIGEST_SIZE - self.received().len(),
            count > 0,
    {
        self.reader.bytes_to_go()
    }

    /// Takes the bytes that one read of the stream delivered, no more than are to
    /// come.
    pub fn read(self, bytes: &[u8]) -> (step: DigestDownloadStep)
        requires
            self.received().len() + bytes@.len() <= files::DIGEST_SIZE,
        ensures
            match files::after_digest_read(self.received(), bytes@) {
                files::DigestOutcome::More(received) => step matches DigestDownloadStep::More(next)
                    && next.file_name() == self.file_name() && next.retrieved() == self.retrieved()
                    && next.received() == received,
                files::DigestOutcome::Done(transmitted) => step matches DigestDownloadStep::Judged {
                    file_name,
                    verdict: result,
                } && file_name@ == self.file_name() && result == verdict(
                    self.retrieved(),
                    transmitted,
                ),
                files::DigestOutcome::NotRead => step matches DigestDownloadStep::Failed {
                    file_name,
                    error,
                } && file_name@ == self.file_name() && error is NotRead,
                files::DigestOutcome::NotUtf8 => step matches DigestDownloadStep::Failed {
                    file_name,
                    error,
                } && file_name@ == self.file_name() && error is NotUtf8,
            },
    {
        let DigestDownload { file_name, retrieved, reader } = self;
        match reader.read(bytes) {
            DigestStep::More(reader) => DigestDownloadStep::More(
                DigestDownload { file_name, retrieved, reader },
            ),
            DigestStep::Done(transmitted) => {
                let verdict = Verdict::of(retrieved.as_str(), transmitted.as_str());
                DigestDownloadStep::Judged { file_name, verdict }
            },
            DigestStep::Failed(error) => DigestDownloadStep::Failed { file_name, error },
        }
    }
}

/// The digest of any contents is as long on a stream as a digest that is read.
pub proof fn lemma_digest_on_stream(contents: Seq<u8>)
    ensures
        vstd::utf8::encode_utf8(digest::digest_text(contents)).len() == files::DIGEST_SIZE,
        vstd::utf8::valid_utf8(vstd::utf8::encode_utf8(digest::digest_text(contents))),
        vstd::utf8::decode_utf8(vstd::utf8::encode_utf8(digest::digest_text(contents)))
            == digest::digest_text(contents),
{
    digest::lemma_hex_is_ascii(digest::sha256(contents)@);
    vstd::utf8::encode_utf8_valid_utf8(digest::digest_text(contents));
    vstd::utf8::encode_utf8_decode_utf8(digest::digest_text(contents));
}

/// What a peer sends as the digest of a file that it has sent is what the
/// downloading peer reads, in however many reads it comes. Contents that came as
/// they were sent are then found intact, and others are found corrupt, unless
/// the SHA-256 value of all of them is the same.
pub proof fn law_contents_are_judged_by_what_was_sent(
    sender: FileHandler,
    file_name: Seq<char>,
    sent: Seq<u8>,
    came: Seq<u8>,
    received: Seq<u8>,
    bytes: Seq<u8>,
)
    requires
        sender.digests().contains_key(file_name),
        sender.digests()[file_name] == digest::digest_text(sent),
        (received + bytes).is_prefix_of(sender.digest_bytes(file_name)),
        bytes.len() > 0,
    ensures
        received + bytes != sender.digest_bytes(file_name) ==> files::after_digest_read(
            received,
            bytes,
        ) == files::DigestOutcome::More(received + bytes),
        received + bytes == sender.digest_bytes(file_name) ==> (files::after_digest_read(
            received,
            bytes,
        ) matches files::DigestOutcome::Done(transmitted) && {
            &&& came == sent ==> verdict(digest::digest_text(came), transmitted) == Verdict::Intact
            &&& verdict(digest::digest_text(came), transmitted) == Verdict::Intact
                <==> digest::digest_text(came) == digest::digest_text(sent)
            &&& verdict(digest::digest_text(came), transmitted) == Verdict::Intact
                <==> digest::sha256(came) == digest::sha256(sent)
            &&& verdict(digest::digest_text(came), transmitted) == Verdict::Corrupt
                <==> digest::sha256(came) != digest::sha256(sent)
        }),
{
    lemma_digest_on_stream(sent);
    digest::law_equal_digests_mean_equal_sha256(came, sent);
    let all = received + bytes;
    let whole = sender.digest_bytes(file_name);
    if all.len() == whole.len() {
        assert(all =~= whole);
    }
}

/// A file is kept if and only if the digest that the peer gave has come whole and is
/// that of the contents that came. One whose digest is another, stops early or is not
/// text is not kept.
pub proof fn law_file_is_kept_if_digests_match(
    contents: Seq<u8>,
    received: Seq<u8>,
    bytes: Seq<u8>,
)
    requires
        bytes.len() > 0,
    ensures
        (files::after_digest_read(received, bytes) matches files::DigestOutcome::Done(transmitted)
            && verdict(digest::digest_text(contents), transmitted) == Verdict::Intact)
            <==> received + bytes == vstd::utf8::encode_utf8(digest::digest_text(contents)),
        files::after_digest_read(received, Seq::empty()) == files::DigestOutcome::NotRead,
{
    lemma_digest_on_stream(contents);
    if vstd::utf8::valid_utf8(received + bytes) {
        vstd::utf8::decode_utf8_encode_utf8(received + bytes);
    }
}

/// However contents are cut into pieces, they pass whole: when all pieces have
/// been read, what has come or been sent is the pieces one after another.
pub proof fn law_contents_pass_whole(contents: Seq<Seq<u8>>, pieces: Seq<Seq<u8>>)
    requires
        contents.len() == pieces.len() + 1,
        contents[0] == Seq::<u8>::empty(),
        forall|i: int|
            #![trigger pieces[i]]
            0 <= i < pieces.len() ==> contents[i + 1] == contents[i] + pieces[i],
    ensures
        contents.last() == pieces.flatten(),
    decreases pieces.len(),
{
    if pieces.len() == 0 {
        assert(contents.last() =~= pieces.flatten());
    } else {
        let rest = pieces.drop_last();
        let earlier = contents.drop_last();
        assert forall|i: int| #![trigger rest[i]] 0 <= i < rest.len() implies earlier[i + 1]
            == earlier[i] + rest[i] by {
            assert(rest[i] == pieces[i]);
        }
        law_contents_pass_whole(earlier, rest);
        assert(pieces[pieces.len() - 1] == pieces.last());
        pieces.lemma_flatten_and_flatten_alt_are_equivalent();
        rest.lemma_flatten_and_flatten_alt_are_equivalent();
    }
}

/// Contents are intact exactly if the digest that the peer gave is, character for
/// character, theirs.
pub proof fn law_verdict_compares_digests(retrieved: Seq<char>, transmitted: Seq<char>)
    ensures
        verdict(retrieved, transmitted) == Verdict::Intact <==> retrieved == transmitted,
        verdict(retrieved, transmitted) == Verdict::Corrupt <==> retrieved != transmitted,
{
}

} // verus!
