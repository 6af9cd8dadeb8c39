//! The files that a peer serves and retrieves. The [`FileHandler`] decides what
//! is listed, what is sent and what is kept; reading and writing files and
//! streams is left to its caller, who hands in what came of it.

use crate::digest;
use crate::digest::ContentHasher;
use crate::header;
use crate::header::TransmitRequest;
use crate::text;
use std::path::PathBuf;
use std::string::FromUtf8Error;
use vstd::hash_map::StringHashMap;
use vstd::prelude::*;

verus! {

/// The number of bytes that are read at a time from a file or a stream.
pub const BUFFER_SIZE: usize = 1024;

/// The number of bytes of a digest on a stream.
pub const DIGEST_SIZE: usize = 64;

/// An entry of the served directory.
#[derive(Debug)]
pub struct DirectoryEntry {
    /// The last component of its path, if it has one.
    pub file_name: Option<String>,
    /// Whether it is a file, unless that could not be found out.
    pub is_file: Option<bool>,
}

/// The names of the entries that are files, in the order of the entries.
pub open spec fn listed(entries: Seq<DirectoryEntry>) -> Seq<Seq<char>>
    decreases entries.len(),
{
    if entries.len() == 0 {
        Seq::empty()
    } else {
        let before = listed(entries.drop_last());
        match entries.last() {
            DirectoryEntry { file_name: Some(name), is_file: Some(true) } => before.push(name@),
            _ => before,
        }
    }
}

/// File contents on their way from one place to another, piece by piece. Its
/// view is what has passed so far.
pub struct Transfer {
    hasher: ContentHasher,
}

/// What to do with the piece of contents that was just read.
pub enum TransferStep {
    /// Pass it on, and read another.
    PassOn(Transfer),
    /// There was none: the contents are complete, and this is their digest.
    End(String),
}

impl View for Transfer {
    type V = Seq<u8>;

    closed spec fn view(&self) -> Seq<u8> {
        self.hasher@
    }
}

impl Transfer {
    /// Nothing has passed yet.
    pub fn new() -> (transfer: Transfer)
        ensures
            transfer@ == Seq::<u8>::empty(),
    {
        Transfer { hasher: ContentHasher::new() }
    }

    /// Whether a piece of this length can still pass: the digest covers no more
    /// than [`digest::MAX_CONTENT`] bytes.
    pub fn has_room(&self, length: usize) -> (room: bool)
        ensures
            room == (self@.len() + length <= digest::MAX_CONTENT),
    {
        self.hasher.len() as u128 + length as u128 <= digest::MAX_CONTENT as u128
    }

    /// Takes the piece that one read delivered. An empty one is the end.
    pub fn read(self, piece: &[u8]) -> (step: TransferStep)
        requires
            self@.len() + piece@.len() <= digest::MAX_CONTENT,
        ensures
            match step {
                TransferStep::PassOn(next) => piece@.len() > 0 && next@ == self@ + piece@,
                TransferStep::End(text) => piece@.len() == 0 && text@ == digest::digest_text(
                    self@,
                ),
            },
    {
        if piece.len() == 0 {
            TransferStep::End(self.hasher.finish())
        } else {
            TransferStep::PassOn(Transfer { hasher: self.hasher.update(piece) })
        }
    }
}

/// A file of the served directory that is being sent.
pub struct Sending {
    file_name: String,
    transfer: Transfer,
}

/// What to do with the piece of a file that was just read.
pub enum SendStep {
    /// Send it, and read another.
    PassOn(Sending),
    /// There was none: the file has been sent.
    End,
}

impl Sending {
    /// The name of the file.
    pub closed spec fn file_name(&self) -> Seq<char> {
        self.file_name@
    }

    /// What has been sent of its contents.
    pub closed spec fn contents(&self) -> Seq<u8> {
        self.transfer@
    }

    /// Whether a piece of this length can still be sent.
    pub fn has_room(&self, length: usize) -> (room: bool)
        ensures
            room == (self.contents().len() + length <= digest::MAX_CONTENT),
    {
        self.transfer.has_room(length)
    }
}

/// A digest that is being read from a stream. Its view is what has come so far.
pub struct DigestReader {
    received: Vec<u8>,
}

/// What a read of a digest stream leads to.
pub enum DigestStep {
    /// Read on.
    More(DigestReader),
    /// The digest is complete.
    Done(String),
    /// There is no digest to be had.
    Failed(DigestError),
}

/// Why a digest could not be read.
#[derive(Debug)]
pub enum DigestError {
    /// The stream ended too early.
    NotRead,
    /// What came is not UTF-8.
    NotUtf8(FromUtf8Error),
}

/// What a read leads to, in terms of values.
pub enum DigestOutcome {
    More(Seq<u8>),
    Done(Seq<char>),
    NotRead,
    NotUtf8,
}

/// The outcome that a step stands for.
pub open spec fn digest_outcome(step: DigestStep) -> DigestOutcome {
    match step {
        DigestStep::More(reader) => DigestOutcome::More(reader@),
        DigestStep::Done(digest) => DigestOutcome::Done(digest@),
        DigestStep::Failed(DigestError::NotRead) => DigestOutcome::NotRead,
        DigestStep::Failed(DigestError::NotUtf8(_)) => DigestOutcome::NotUtf8,
    }
}

/// What a read that delivered `bytes` leads to, after `received` came before.
pub open spec fn after_digest_read(received: Seq<u8>, bytes: Seq<u8>) -> DigestOutcome {
    let all = received + bytes;
    if bytes.len() == 0 {
        DigestOutcome::NotRead
    } else if all.len() < DIGEST_SIZE {
        DigestOutcome::More(all)
    } else if vstd::utf8::valid_utf8(all) {
        DigestOutcome::Done(vstd::utf8::decode_utf8(all))
    } else {
        DigestOutcome::NotUtf8
    }
}

impl View for DigestReader {
    type V = Seq<u8>;

    closed spec fn view(&self) -> Seq<u8> {
        self.received@
    }
}

impl DigestReader {
    #[verifier::type_invariant]
    spec fn is_incomplete(self) -> bool {
        self.received@.len() < DIGEST_SIZE
    }

    /// Nothing has come yet.
    pub fn new() -> (reader: DigestReader)
        ensures
            reader@ == Seq::<u8>::empty(),
    {
        DigestReader { received: Vec::new() }
    }

    /// The number of bytes that are still to come.
    pub fn bytes_to_go(&self) -> (count: usize)
        ensures
            count == DIGEST_SIZE - self@.len(),
            count > 0,
    {
        proof {
            use_type_invariant(self);
        }
        DIGEST_SIZE - self.received.len()
    }

    /// Takes the bytes that one read delivered, no more than are to come.
    pub fn read(self, bytes: &[u8]) -> (step: DigestStep)
        requires
            self@.len() + bytes@.len() <= DIGEST_SIZE,
        ensures
            digest_outcome(step) == after_digest_read(self@, bytes@),
    {
        if bytes.len() == 0 {
            return DigestStep::Failed(DigestError::NotRead);
        }
        let mut received = self.received;
        let ghost before = received@;
        received.extend_from_slice(bytes);
        assert(received@ =~= before + bytes@);
        if received.len() < DIGEST_SIZE {
            DigestStep::More(DigestReader { received })
        } else {
            match String::from_utf8(received) {
                Ok(digest) => DigestStep::Done(digest),
                Err(error) => DigestStep::Failed(DigestError::NotUtf8(error)),
            }
        }
    }
}

impl DigestError {
    /// The message for the user.
    pub fn message(&self) -> (text: String)
        ensures
            match *self {
                DigestError::NotRead => text@ == "Did not read file digest from stream"@,
                DigestError::NotUtf8(error) => vstd::string::to_string_from_display_ensures(
                    &error,
                    text,
                ),
            },
    {
        match self {
            DigestError::NotRead => "Did not read file digest from stream".to_owned(),
            DigestError::NotUtf8(error) => error.to_string(),
        }
    }
}

/// What to send in answer to a header.
#[derive(Debug)]
pub enum Response {
    /// The contents of this file of the served directory, if it can be opened.
    File(String),
    /// These bytes.
    Bytes(Vec<u8>),
}

/// Decides what a peer lists, sends and keeps of its served directory.
pub struct FileHandler {
    served_dir: PathBuf,
    digests: StringHashMap<String>,
}

impl FileHandler {
    /// The directory from which files are served and into which they are saved.
    pub closed spec fn served_dir(&self) -> PathBuf {
        self.served_dir
    }

    /// The digests of the files that were sent, by file name.
    pub closed spec fn digests(&self) -> Map<Seq<char>, Seq<char>> {
        self.digests@.map_values(|digest: String| digest@)
    }

    /// What is sent to a peer that asks for the digest of a file: nothing, unless
    /// the file has been sent before.
    pub open spec fn digest_bytes(&self, file_name: Seq<char>) -> Seq<u8> {
        if self.digests().contains_key(file_name) {
            vstd::utf8::encode_utf8(self.digests()[file_name])
        } else {
            Seq::empty()
        }
    }

    /// A handler for a directory, which knows no digests yet.
    pub fn new(served_dir: PathBuf) -> (handler: FileHandler)
        ensures
            handler.served_dir() == served_dir,
            handler.digests() == Map::<Seq<char>, Seq<char>>::empty(),
    {
        let handler = FileHandler { served_dir, digests: StringHashMap::new() };
        assert(handler.digests() =~= Map::empty());
        handler
    }

    /// The served directory.
    pub fn get_served_dir(&self) -> (served_dir: PathBuf)
        ensures
            served_dir == self.served_dir(),
    {
        self.served_dir.clone()
    }

    /// The names of the files among the entries of the served directory. If the
    /// reading of the directory failed, so does this.
    pub fn list_files<E>(&self, entries: &Vec<DirectoryEntry>, failure: Option<E>) -> (list: Result<
        Vec<String>,
        E,
    >)
        ensures
            match failure {
                Some(error) => list == Err::<Vec<String>, E>(error),
                None => list matches Ok(names) && text::texts(names@) == listed(entries@),
            },
    {
        if let Some(error) = failure {
            return Err(error);
        }
        let mut names: Vec<String> = Vec::new();
        let mut i: usize = 0;
        assert(entries@.take(0) =~= Seq::empty());
        assert(text::texts(names@) =~= Seq::empty());
        while i < entries.len()
            invariant
                i <= entries@.len(),
                text::texts(names@) == listed(entries@.take(i as int)),
            decreases entries@.len() - i,
        {
            assert(entries@.take(i + 1).drop_last() =~= entries@.take(i as int));
            if let Some(is_file) = entries[i].is_file {
                if is_file {
                    if let Some(name) = &entries[i].file_name {
                        let ghost before = text::texts(names@);
                        names.push(name.clone());
                        assert(text::texts(names@) =~= before.push(name@));
                    }
                }
            }
            i = i + 1;
        }
        assert(entries@.take(i as int) =~= entries@);
        Ok(names)
    }

    /// Whether there is an entry of this name in the served directory. `names` are
    /// those of the entries that were read, and `failure` is what then kept the
    /// rest from being read, if anything did: a failure does not matter once the
    /// name has been seen.
    pub fn file_exists<E>(
        &self,
        names: &Vec<String>,
        failure: Option<E>,
        file_name: &str,
    ) -> (exists: Result<bool, E>)
        ensures
            exists == if text::texts(names@).contains(file_name@) {
                Ok::<bool, E>(true)
            } else {
                match failure {
                    Some(error) => Err::<bool, E>(error),
                    None => Ok::<bool, E>(false),
                }
            },
    {
        let mut i: usize = 0;
        while i < names.len()
            invariant
                i <= names@.len(),
                forall|k: int| 0 <= k < i ==> text::texts(names@)[k] != file_name@,
            decreases names@.len() - i,
        {
            if text::same_text(names[i].as_str(), file_name) {
                assert(text::texts(names@)[i as int] == file_name@);
                return Ok(true);
            }
            i = i + 1;
        }
        match failure {
            Some(error) => Err(error),
            None => Ok(false),
        }
    }

    /// The bytes that open a stream on which a file is asked for.
    pub fn write_header(request: TransmitRequest, file_name: &str) -> (bytes: Vec<u8>)
        ensures
            bytes@ == header::header(request, file_name@),
    {
        let mut bytes: Vec<u8> = Vec::new();
        match request {
            TransmitRequest::FileContents => bytes.push(0),
            TransmitRequest::FileDigest => bytes.push(1),
        }
        let name = file_name.as_bytes();
        let length: u32 = (name.len() as u64 % 0x1_0000_0000) as u32;
        let encoded = header::to_network_order(length);
        bytes.extend_from_slice(encoded.as_slice());
        bytes.extend_from_slice(name);
        assert(bytes@ =~= header::header(request, file_name@));
        bytes
    }

    /// Begins to retrieve a file: the header to send, and the transfer of the
    /// contents that will come back, each piece of which is for the file of that
    /// name in the served directory.
    pub fn retrieve_file_from_peer(&self, file_name: &str) -> (start: (Vec<u8>, Transfer))
        ensures
            start.0@ == header::header(TransmitRequest::FileContents, file_name@),
            start.1@ == Seq::<u8>::empty(),
    {
        (Self::write_header(TransmitRequest::FileContents, file_name), Transfer::new())
    }

    /// Begins to retrieve the digest of a file: the header to send, and the reader
    /// of the digest that will come back.
    pub fn retrieve_digest_from_peer(&self, file_name: &str) -> (start: (Vec<u8>, DigestReader))
        ensures
            start.0@ == header::header(TransmitRequest::FileDigest, file_name@),
            start.1@ == Seq::<u8>::empty(),
    {
        (Self::write_header(TransmitRequest::FileDigest, file_name), DigestReader::new())
    }

    /// Begins to send a file: if it could be opened, its contents are sent, and
    /// otherwise nothing is.
    pub fn send_file(&self, file_name: String, opened: bool) -> (sending: Option<Sending>)
        ensures
            match sending {
                Some(sending) => opened && sending.file_name() == file_name@ && sending.contents()
                    == Seq::<u8>::empty(),
                None => !opened,
            },
    {
        if opened {
            Some(Sending { file_name, transfer: Transfer::new() })
        } else {
            None
        }
    }

    /// Goes on to send a file, with the piece that one read of it delivered. An empty
    /// one is the end, at which the digest of the contents that were sent is
    /// remembered under the name of the file.
    pub fn send_piece(&mut self, sending: Sending, piece: &[u8]) -> (step: SendStep)
        requires
            sending.contents().len() + piece@.len() <= digest::MAX_CONTENT,
        ensures
            final(self).served_dir() == old(self).served_dir(),
            match step {
                SendStep::PassOn(next) => {
                    &&& piece@.len() > 0
                    &&& next.file_name() == sending.file_name()
                    &&& next.contents() == sending.contents() + piece@
                    &&& final(self).digests() == old(self).digests()
                },
                SendStep::End => {
                    &&& piece@.len() == 0
                    &&& final(self).digests() == old(self).digests().insert(
                        sending.file_name(),
                        digest::digest_text(sending.contents()),
                    )
                },
            },
    {
        let Sending { file_name, transfer } = sending;
        match transfer.read(piece) {
            TransferStep::PassOn(transfer) => SendStep::PassOn(Sending { file_name, transfer }),
            TransferStep::End(text) => {
                self.digests.insert(file_name, text);
                assert(self.digests() =~= old(self).digests().insert(file_name@, text@));
                SendStep::End
            },
        }
    }

    /// The bytes to send to a peer that asks for the digest of a file.
    pub fn send_digest(&self, file_name: &str) -> (bytes: Vec<u8>)
        ensures
            bytes@ == self.digest_bytes(file_name@),
    {
        let mut bytes: Vec<u8> = Vec::new();
        if let Some(digest) = self.digests.get(file_name) {
            bytes.extend_from_slice(digest.as_str().as_bytes());
            assert(bytes@ =~= vstd::utf8::encode_utf8(digest@));
        }
        bytes
    }

    /// What to send in answer to a header.
    pub fn send_response(&self, request: TransmitRequest, file_name: String) -> (response: Response)
        ensures
            match request {
                TransmitRequest::FileContents => response == Response::File(file_name),
                TransmitRequest::FileDigest => response matches Response::Bytes(bytes) && bytes@
                    == self.digest_bytes(file_name@),
            },
    {
        match request {
            TransmitRequest::FileContents => Response::File(file_name),
            TransmitRequest::FileDigest => Response::Bytes(self.send_digest(file_name.as_str())),
        }
    }

    /// Forgets a file, given what came of its removal from the served directory:
    /// if that failed, so does this, and nothing is forgotten.
    pub fn remove_file<E>(&mut self, file_name: &str, removal: Result<(), E>) -> (result: Result<
        (),
        E,
    >)
        ensures
            result == removal,
            final(self).served_dir() == old(self).served_dir(),
            final(self).digests() == if removal is Ok {
                old(self).digests().remove(file_name@)
            } else {
                old(self).digests()
            },
    {
        match removal {
            Ok(done) => {
                self.digests.remove(file_name);
                assert(self.digests() =~= old(self).digests().remove(file_name@));
                Ok(done)
            },
            Err(error) => Err(error),
        }
    }
}

/// The digest of what was sent of a file can be had until the file is removed, and
/// the digests of other files are none of its concern.
pub proof fn law_digest_lasts_until_removal(
    before: FileHandler,
    sent: FileHandler,
    removed: FileHandler,
    file_name: Seq<char>,
    contents: Seq<u8>,
    other: Seq<char>,
)
    requires
        sent.digests() == before.digests().insert(file_name, digest::digest_text(contents)),
        removed.digests() == sent.digests().remove(file_name),
        other != file_name,
    ensures
        sent.digest_bytes(file_name) == vstd::utf8::encode_utf8(digest::digest_text(contents)),
        removed.digest_bytes(file_name) == Seq::<u8>::empty(),
        sent.digest_bytes(other) == before.digest_bytes(other),
        removed.digest_bytes(other) == before.digest_bytes(other),
{
}

/// A file that is listed exists: the name is among those of all entries.
pub proof fn law_listed_files_exist(
    entries: Seq<DirectoryEntry>,
    names: Seq<Seq<char>>,
    file_name: Seq<char>,
)
    requires
        forall|i: int|
            0 <= i < entries.len() ==> ((#[trigger] entries[i]).file_name matches Some(name)
                ==> names.contains(name@)),
        listed(entries).contains(file_name),
    ensures
        names.contains(file_name),
    decreases entries.len(),
{
    if entries.len() > 0 {
        let rest = entries.drop_last();
        let last = entries[entries.len() - 1];
        assert forall|i: int| 0 <= i < rest.len() implies ((#[trigger] rest[i]).file_name matches Some(
            name,
        ) ==> names.contains(name@)) by {
            assert(rest[i] == entries[i]);
        }
        if listed(rest).contains(file_name) {
            law_listed_files_exist(rest, names, file_name);
        } else {
            let k = choose|k: int|
                0 <= k < listed(entries).len() && listed(entries)[k] == file_name;
            assert(k == listed(rest).len()) by {
                if k < listed(rest).len() {
                    assert(listed(rest)[k] == file_name);
                }
            }
        }
    }
}

/// Every file with a name is listed, once for each entry and in the order of the
/// entries, and nothing else is.
pub proof fn law_listing_is_complete(entries: Seq<DirectoryEntry>)
    ensures
        listed(entries) == entries.filter(
            |entry: DirectoryEntry| entry.is_file == Some(true) && entry.file_name is Some,
        ).map_values(|entry: DirectoryEntry| entry.file_name->0@),
        forall|i: int|
            #![trigger entries[i]]
            0 <= i < entries.len() && entries[i].is_file == Some(true) ==> (
            entries[i].file_name matches Some(name) ==> listed(entries).contains(name@)),
    decreases entries.len(),
{
    let keep = |entry: DirectoryEntry| entry.is_file == Some(true) && entry.file_name is Some;
    let name_of = |entry: DirectoryEntry| entry.file_name->0@;
    reveal(Seq::filter);
    if entries.len() == 0 {
        assert(listed(entries) =~= entries.filter(keep).map_values(name_of));
    } else {
        let rest = entries.drop_last();
        let last = entries.last();
        law_listing_is_complete(rest);
        assert(listed(entries) =~= entries.filter(keep).map_values(name_of));
        let before = listed(rest);
        let all = listed(entries);
        assert forall|i: int|
            #![trigger entries[i]]
            0 <= i < entries.len() && entries[i].is_file == Some(true) implies (
        entries[i].file_name matches Some(name) ==> all.contains(name@)) by {
            if let Some(name) = entries[i].file_name {
                if i < rest.len() {
                    assert(rest[i] == entries[i]);
                    let k = choose|k: int| 0 <= k < before.len() && before[k] == name@;
                    assert(all[k] == name@);
                } else {
                    assert(all[before.len() as int] == name@);
                }
            }
        }
    }
}

/// What a directory has in two parts is listed in two parts.
pub proof fn law_listing_of_parts(front: Seq<DirectoryEntry>, back: Seq<DirectoryEntry>)
    ensures
        listed(front + back) == listed(front) + listed(back),
    decreases back.len(),
{
    if back.len() == 0 {
        assert(front + back =~= front);
        assert(listed(front) + listed(back) =~= listed(front));
    } else {
        law_listing_of_parts(front, back.drop_last());
        assert((front + back).drop_last() =~= front + back.drop_last());
        assert((front + back).last() == back.last());
        assert(listed(front + back) =~= listed(front) + listed(back));
    }
}

/// A digest is complete with its 64th byte, and is then the text of all that came.
/// Before that more is awaited, with nothing lost of what came, and a read that delivers
/// nothing is the end of it.
pub proof fn law_digest_reads_add_up(received: Seq<u8>, bytes: Seq<u8>)
    ensures
        bytes.len() == 0 ==> after_digest_read(received, bytes) == DigestOutcome::NotRead,
        bytes.len() > 0 && received.len() + bytes.len() < 64 ==> after_digest_read(received, bytes)
            == DigestOutcome::More(received + bytes),
        bytes.len() > 0 && received.len() + bytes.len() == 64 ==> {
            &&& after_digest_read(received, bytes) == DigestOutcome::NotUtf8
                <==> !vstd::utf8::valid_utf8(received + bytes)
            &&& vstd::utf8::valid_utf8(received + bytes) ==> (after_digest_read(
                received,
                bytes,
            ) matches DigestOutcome::Done(digest) && vstd::utf8::encode_utf8(digest) == received
                + bytes)
        },
{
    if vstd::utf8::valid_utf8(received + bytes) {
        vstd::utf8::decode_utf8_encode_utf8(received + bytes);
    }
}

/// Steps are told apart: each stands for one outcome, with what it holds.
pub proof fn law_digest_steps(reader: DigestReader, digest: String, error: FromUtf8Error)
    ensures
        digest_outcome(DigestStep::More(reader)) == DigestOutcome::More(reader@),
        digest_outcome(DigestStep::Done(digest)) == DigestOutcome::Done(digest@),
        digest_outcome(DigestStep::Failed(DigestError::NotRead)) == DigestOutcome::NotRead,
        digest_outcome(DigestStep::Failed(DigestError::NotUtf8(error))) == DigestOutcome::NotUtf8,
{
}

} // verus!
