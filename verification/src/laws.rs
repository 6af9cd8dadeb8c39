//! What calls of the library's functions promise, alone and one after another: what
//! was sent is what is judged, what was typed is what is asked for, and what a peer
//! has is what another is told.

use crate::address_book;
use crate::address_book::{AddressBook, NoRoute};
use crate::command_core::{
    CommandAction, CommandCore, CommandCoreBehavior, CoreAction, CoreInput, DialAnswer, DialError,
    SwarmAction, SwarmEvent,
};
use crate::digest;
use crate::digest::ContentHasher;
use crate::download;
use crate::download::{
    ContentsDownload, ContentsRetrieved, ContentsStep, DigestDownload, DigestDownloadStep, Verdict,
};
use crate::files;
use crate::files::{
    DigestError, DigestReader, DigestStep, DirectoryEntry, FileHandler, Response, SendStep, Sending,
    Transfer, TransferStep,
};
use crate::header;
use crate::header::{HeaderError, HeaderReader, HeaderStep, TransmitRequest};
use crate::messages::{
    Channels, FileRequest, FileRequestCommand, FileResponse, FileResponseCommand, QueryResult,
    ReplCommand,
};
use crate::peer;
use crate::peer::{Address, PeerId};
use crate::peer_map::PeerMap;
use crate::repl;
use crate::repl::{Awaiting, Next, Repl, ReplInput, ReplStep, Reply};
use crate::startup;
use crate::startup::{LogLevel, Mode};
use crate::text;
use std::path::PathBuf;
use vstd::prelude::*;

verus! {

// Digests.

/// Content is hashed piece by piece, and its digest shows the SHA-256 value of all the
/// pieces together, each byte as two lower-case hexadecimal digits.
pub proof fn law_digest_is_that_of_all_pieces(
    hasher: ContentHasher,
    piece: &[u8],
    longer: ContentHasher,
    digest: String,
)
    requires
        call_ensures(ContentHasher::update, (hasher, piece), longer),
        call_ensures(ContentHasher::finish, (longer,), digest),
    ensures
        longer@ == hasher@ + piece@,
        digest@.len() == 64,
        forall|i: int|
            #![trigger digest::sha256(hasher@ + piece@)@[i]]
            0 <= i < 32 ==> digest@[2 * i] == "0123456789abcdef"@[digest::sha256(
                hasher@ + piece@,
            )@[i] as int / 16] && digest@[2 * i + 1] == "0123456789abcdef"@[digest::sha256(
                hasher@ + piece@,
            )@[i] as int % 16],
{
    digest::law_digest_shows_sha256(hasher@ + piece@);
}

/// Bytes are shown as they are: equal texts are of equal bytes.
pub proof fn law_hexadecimal_is_unambiguous(a: &[u8], b: &[u8], shown_a: String, shown_b: String)
    requires
        call_ensures(digest::to_hex, (a,), shown_a),
        call_ensures(digest::to_hex, (b,), shown_b),
    ensures
        shown_a@.len() == 2 * a@.len(),
        shown_a@ == shown_b@ <==> a@ == b@,
{
    digest::law_hex_is_unambiguous(a@, b@);
}

// Headers.

/// A header that one peer writes is read by another, if it has all come with this read:
/// the request and the whole name are what they were written for.
pub proof fn law_written_header_is_read(
    request: TransmitRequest,
    file_name: &str,
    bytes: Vec<u8>,
    reader: HeaderReader,
    last: &[u8],
    step: Result<HeaderStep, HeaderError>,
)
    requires
        call_ensures(FileHandler::write_header, (request, file_name), bytes),
        call_ensures(HeaderReader::read, (reader, last), step),
        last@.len() > 0,
        1 <= vstd::utf8::encode_utf8(file_name@).len() < 0x1_0000_0000,
    ensures
        reader@ + last@ == bytes@ ==> (step matches Ok(
            HeaderStep::Done { request: read, file_name: name },
        ) && read == request && name@ == file_name@),
        (reader@ + last@).is_prefix_of(bytes@) && reader@ + last@ != bytes@ ==> (step matches Ok(
            HeaderStep::More(next),
        ) && next@ == reader@ + last@),
{
    let all = reader@ + last@;
    header::law_headers_mean_what_they_were_written_for(all, request, file_name@);
    if all == bytes@ {
        assert(bytes@.is_prefix_of(all));
    } else if all.is_prefix_of(bytes@) {
        header::lemma_part_of_header(request, file_name@, all);
    }
}

/// A stream that ends within a header is an error, and it says what is missing.
pub proof fn law_cut_off_stream_is_an_error(
    reader: HeaderReader,
    nothing: &[u8],
    step: Result<HeaderStep, HeaderError>,
)
    requires
        call_ensures(HeaderReader::read, (reader, nothing), step),
        nothing@.len() == 0,
    ensures
        reader@.len() == 0 ==> step == Err::<HeaderStep, HeaderError>(HeaderError::NoRequest),
        1 <= reader@.len() < 5 ==> step == Err::<HeaderStep, HeaderError>(
            HeaderError::NoNameLength,
        ),
        reader@.len() >= 5 ==> step == Err::<HeaderStep, HeaderError>(HeaderError::NoName),
{
}

// Files.

/// The list of files is complete: it has the names of the entries that are files, as
/// many as there are, in their order; and it fails exactly if the reading failed.
pub proof fn law_every_file_is_listed<E>(
    handler: &FileHandler,
    entries: &Vec<DirectoryEntry>,
    failure: Option<E>,
    list: Result<Vec<String>, E>,
)
    requires
        call_ensures(FileHandler::list_files::<E>, (handler, entries, failure), list),
    ensures
        failure matches Some(error) ==> list == Err::<Vec<String>, E>(error),
        failure is None ==> (list matches Ok(names) && {
            let named = entries@.filter(
                |entry: DirectoryEntry| entry.is_file == Some(true) && entry.file_name is Some,
            );
            &&& names@.len() == named.len()
            &&& forall|i: int|
                0 <= i < named.len() ==> (#[trigger] names@[i])@ == named[i].file_name->0@
        }),
{
    files::law_listing_is_complete(entries@);
    if let Ok(names) = list {
        let named = entries@.filter(
            |entry: DirectoryEntry| entry.is_file == Some(true) && entry.file_name is Some,
        );
        if failure is None {
            assert(text::texts(names@).len() == named.len());
            assert forall|i: int| 0 <= i < named.len() implies (#[trigger] names@[i])@
                == named[i].file_name->0@ by {
                assert(text::texts(names@)[i] == names@[i]@);
            }
        }
    }
}

/// A file exists exactly if its name is among those of the entries. A failure to read
/// the entries is reported exactly if the name was not seen before it.
pub proof fn law_existence_is_being_among_the_entries<E>(
    handler: &FileHandler,
    names: &Vec<String>,
    failure: Option<E>,
    file_name: &str,
    found: Result<bool, E>,
)
    requires
        call_ensures(FileHandler::file_exists::<E>, (handler, names, failure, file_name), found),
    ensures
        ({
            let seen = exists|i: int| 0 <= i < names@.len() && (#[trigger] names@[i])@ == file_name@;
            &&& seen ==> found == Ok::<bool, E>(true)
            &&& !seen && failure is None ==> found == Ok::<bool, E>(false)
            &&& !seen ==> (failure matches Some(error) ==> found == Err::<bool, E>(error))
        }),
{
    lemma_among(names@, file_name@);
}

proof fn lemma_among(names: Seq<String>, file_name: Seq<char>)
    ensures
        text::texts(names).contains(file_name) <==> exists|i: int|
            0 <= i < names.len() && (#[trigger] names[i])@ == file_name,
{
    if text::texts(names).contains(file_name) {
        let i = choose|i: int|
            0 <= i < text::texts(names).len() && text::texts(names)[i] == file_name;
        assert(names[i]@ == file_name);
    }
    if exists|i: int| 0 <= i < names.len() && (#[trigger] names[i])@ == file_name {
        let i = choose|i: int| 0 <= i < names.len() && (#[trigger] names[i])@ == file_name;
        assert(text::texts(names)[i] == file_name);
    }
}

/// Whoever asks for the files, here or from another peer, is told the same: every file,
/// in the order of the entries.
pub proof fn law_files_are_told_as_they_are_listed<C: Channels, E>(
    core: &CommandCore<C>,
    handler: &FileHandler,
    entries: &Vec<DirectoryEntry>,
    failure: Option<E>,
    list: Result<Vec<String>, E>,
    local: Result<QueryResult, E>,
    response: Result<FileResponse, E>,
)
    requires
        call_ensures(FileHandler::list_files::<E>, (handler, entries, failure), list),
        call_ensures(CommandCore::<C>::local_files::<E>, (core, entries, failure), local),
        call_ensures(CommandCore::<C>::respond_with_files::<E>, (core, entries, failure), response),
    ensures
        list matches Ok(names) ==> {
            &&& local matches Ok(QueryResult::Files(told))
            &&& text::texts(told@) == text::texts(names@)
            &&& response matches Ok(FileResponse(FileResponseCommand::FileList(sent)))
            &&& text::texts(sent@) == text::texts(names@)
        },
        list matches Err(error) ==> local == Err::<QueryResult, E>(error) && response
            == Err::<FileResponse, E>(error),
{
}

/// What is responded about a file is whether it exists.
pub proof fn law_existence_is_responded<C: Channels, E>(
    core: &CommandCore<C>,
    handler: &FileHandler,
    names: &Vec<String>,
    failure: Option<E>,
    file_name: &str,
    found: Result<bool, E>,
    response: Result<FileResponse, E>,
)
    requires
        call_ensures(FileHandler::file_exists::<E>, (handler, names, failure, file_name), found),
        call_ensures(
            CommandCore::<C>::respond_with_existence::<E>,
            (core, names, failure, file_name),
            response,
        ),
    ensures
        found matches Ok(yes) ==> response == Ok::<FileResponse, E>(
            FileResponse(FileResponseCommand::FileExists(yes)),
        ),
        found matches Err(error) ==> response == Err::<FileResponse, E>(error),
{
}

/// A peer that asks for contents is sent the file that it named; one that asks for a
/// digest is sent the one that was remembered, or nothing.
pub proof fn law_headers_are_answered(
    handler: &FileHandler,
    request: TransmitRequest,
    file_name: String,
    response: Response,
)
    requires
        call_ensures(FileHandler::send_response, (handler, request, file_name), response),
    ensures
        request == TransmitRequest::FileContents ==> response == Response::File(file_name),
        request == TransmitRequest::FileDigest ==> (response matches Response::Bytes(bytes) && {
            let remembered = handler.digests().contains_key(file_name@);
            &&& remembered ==> bytes@ == vstd::utf8::encode_utf8(handler.digests()[file_name@])
            &&& !remembered ==> bytes@.len() == 0
        }),
{
}

/// Contents pass piece by piece, none of them lost, and end with the digest of them all.
pub proof fn law_transfers_lose_nothing(transfer: Transfer, piece: &[u8], step: TransferStep)
    requires
        call_ensures(Transfer::read, (transfer, piece), step),
    ensures
        piece@.len() > 0 ==> (step matches TransferStep::PassOn(next) && next@ == transfer@
            + piece@),
        piece@.len() == 0 ==> (step matches TransferStep::End(text) && text@
            == digest::digest_text(transfer@)),
{
}

/// The digest of a file that was sent is sent on request: it is that of all the contents
/// that were sent, whatever was remembered before.
pub proof fn law_digest_of_what_was_sent_is_sent(
    handler: &mut FileHandler,
    sending: Sending,
    nothing: &[u8],
    step: SendStep,
    after: &FileHandler,
    file_name: &str,
    bytes: Vec<u8>,
)
    requires
        call_ensures(FileHandler::send_piece, (handler, sending, nothing), step),
        nothing@.len() == 0,
        after.digests() == final(handler).digests(),
        call_ensures(FileHandler::send_digest, (after, file_name), bytes),
    ensures
        file_name@ == sending.file_name() ==> bytes@ == vstd::utf8::encode_utf8(
            digest::digest_text(sending.contents()),
        ),
        file_name@ != sending.file_name() ==> bytes@ == old(handler).digest_bytes(file_name@),
{
}

/// Pieces of a file are sent under its name, none of them lost, and nothing is
/// remembered before the end.
pub proof fn law_sending_loses_nothing(
    handler: &mut FileHandler,
    sending: Sending,
    piece: &[u8],
    step: SendStep,
)
    requires
        call_ensures(FileHandler::send_piece, (handler, sending, piece), step),
        piece@.len() > 0,
    ensures
        step matches SendStep::PassOn(next) && next.file_name() == sending.file_name()
            && next.contents() == sending.contents() + piece@,
        final(handler).digests() == old(handler).digests(),
{
}

/// A file that was removed has no digest, and one that was not keeps it.
pub proof fn law_removal_forgets(
    handler: &mut FileHandler,
    file_name: &str,
    removal: Result<(), u64>,
    result: Result<(), u64>,
    other: Seq<char>,
)
    requires
        call_ensures(FileHandler::remove_file::<u64>, (handler, file_name, removal), result),
    ensures
        result == removal,
        removal is Ok ==> final(handler).digest_bytes(file_name@).len() == 0,
        removal is Err ==> final(handler).digest_bytes(file_name@) == old(handler).digest_bytes(
            file_name@,
        ),
        other != file_name@ ==> final(handler).digest_bytes(other) == old(handler).digest_bytes(
            other,
        ),
{
}

/// A file is sent only if it could be opened, from its beginning and under its own name.
pub proof fn law_opened_files_are_sent(
    handler: &FileHandler,
    file_name: String,
    opened: bool,
    sending: Option<Sending>,
)
    requires
        call_ensures(FileHandler::send_file, (handler, file_name, opened), sending),
    ensures
        opened ==> (sending matches Some(begun) && begun.file_name() == file_name@
            && begun.contents().len() == 0),
        !opened ==> sending is None,
{
}

/// A file and its digest are asked for by its whole name.
pub proof fn law_files_are_asked_for_by_name(
    handler: &FileHandler,
    file_name: &str,
    contents: (Vec<u8>, Transfer),
    digest: (Vec<u8>, DigestReader),
)
    requires
        call_ensures(FileHandler::retrieve_file_from_peer, (handler, file_name), contents),
        call_ensures(FileHandler::retrieve_digest_from_peer, (handler, file_name), digest),
    ensures
        contents.0@[0] == 0 && digest.0@[0] == 1,
        contents.0@.skip(5) == vstd::utf8::encode_utf8(file_name@),
        digest.0@.skip(1) == contents.0@.skip(1),
        contents.1@.len() == 0 && digest.1@.len() == 0,
{
    header::law_header_layout(TransmitRequest::FileContents, file_name@);
    header::law_header_layout(TransmitRequest::FileDigest, file_name@);
    assert(digest.0@.skip(1) =~= contents.0@.skip(1));
}

/// A digest that is read is all that came, and it is complete with its 64th byte.
pub proof fn law_digests_are_read_whole(reader: DigestReader, bytes: &[u8], step: DigestStep)
    requires
        call_ensures(DigestReader::read, (reader, bytes), step),
    ensures
        bytes@.len() == 0 ==> step == DigestStep::Failed(DigestError::NotRead),
        bytes@.len() > 0 && reader@.len() + bytes@.len() < 64 ==> (step matches DigestStep::More(
            next,
        ) && next@ == reader@ + bytes@),
        bytes@.len() > 0 && reader@.len() + bytes@.len() == 64 ==> {
            &&& vstd::utf8::valid_utf8(reader@ + bytes@) ==> (step matches DigestStep::Done(digest)
                && vstd::utf8::encode_utf8(digest@) == reader@ + bytes@)
            &&& !vstd::utf8::valid_utf8(reader@ + bytes@) ==> (step matches DigestStep::Failed(
                error,
            ) && error is NotUtf8)
        },
{
    files::law_digest_reads_add_up(reader@, bytes@);
}

/// A peer serves, and saves into, the directory that it was given, and so does the
/// handler of the streams that other peers open.
pub proof fn law_the_directory_stays<C: Channels>(
    served_dir: PathBuf,
    core: CommandCore<C>,
    handler: FileHandler,
    given: PathBuf,
    own: PathBuf,
)
    requires
        call_ensures(CommandCore::<C>::new, (served_dir,), core),
        call_ensures(CommandCore::<C>::setup_inbound_stream_handling, (&core,), handler),
        call_ensures(FileHandler::get_served_dir, (&handler,), given),
        call_ensures(FileHandler::get_served_dir, (&core.files(),), own),
    ensures
        given == served_dir,
        own == served_dir,
        handler.digests() == Map::<Seq<char>, Seq<char>>::empty(),
{
}


// Downloads.

/// A download begins with the header of the file that is wanted, and saves every piece
/// that comes.
pub proof fn law_downloads_save_what_comes(
    handler: &FileHandler,
    file_name: String,
    start: (Vec<u8>, ContentsDownload),
    download: ContentsDownload,
    piece: &[u8],
    step: ContentsStep,
)
    requires
        call_ensures(ContentsDownload::begin, (handler, file_name), start),
        call_ensures(ContentsDownload::read, (download, piece), step),
        piece@.len() > 0,
    ensures
        start.0@[0] == 0,
        start.0@.skip(5) == vstd::utf8::encode_utf8(file_name@),
        start.1.file_name() == file_name@,
        start.1.contents().len() == 0,
        step matches ContentsStep::Save(next) && next.file_name() == download.file_name()
            && next.contents() == download.contents() + piece@,
{
    header::law_header_layout(TransmitRequest::FileContents, file_name@);
}

/// A download is judged by all the contents that came: from the end of the contents to
/// the last read of the digest, it is found intact exactly if what the peer gave is the
/// text of the SHA-256 value of those contents. Whatever comes of it, it is of the file
/// that was asked for.
pub proof fn law_downloads_are_judged_by_all_that_came(
    download: ContentsDownload,
    nothing: &[u8],
    retrieved: ContentsRetrieved,
    handler: &FileHandler,
    start: (Vec<u8>, DigestDownload),
    bytes: &[u8],
    step: DigestDownloadStep,
    sent: Seq<u8>,
)
    requires
        nothing@.len() == 0,
        call_ensures(
            ContentsDownload::read,
            (download, nothing),
            ContentsStep::Complete(retrieved),
        ),
        call_ensures(ContentsRetrieved::ask_for_digest, (retrieved, handler), start),
        call_ensures(DigestDownload::read, (start.1, bytes), step),
        bytes@.len() == 64,
    ensures
        start.0@[0] == 1,
        start.0@.skip(5) == vstd::utf8::encode_utf8(download.file_name()),
        step matches DigestDownloadStep::Judged { file_name, verdict } && verdict
            == Verdict::Intact <==> bytes@ == vstd::utf8::encode_utf8(
            digest::digest_text(download.contents()),
        ),
        step matches DigestDownloadStep::Judged { file_name, verdict } ==> file_name@
            == download.file_name(),
        step matches DigestDownloadStep::Failed { file_name, error } ==> file_name@
            == download.file_name() && !vstd::utf8::valid_utf8(bytes@),
        !(step is More),
        bytes@ == vstd::utf8::encode_utf8(digest::digest_text(sent)) ==> (
        step matches DigestDownloadStep::Judged { file_name, verdict } && (verdict
            == Verdict::Intact <==> digest::sha256(download.contents()) == digest::sha256(sent))
            && (verdict == Verdict::Corrupt <==> digest::sha256(download.contents())
            != digest::sha256(sent))),
{
    header::law_header_layout(TransmitRequest::FileDigest, download.file_name());
    let received = start.1.received();
    assert(received + bytes@ =~= bytes@);
    download::law_file_is_kept_if_digests_match(download.contents(), received, bytes@);
    download::lemma_digest_on_stream(sent);
    download::lemma_digest_on_stream(download.contents());
    digest::law_equal_digests_mean_equal_sha256(download.contents(), sent);
}

/// A file whose digest stops early is not judged. The download fails, and the file is
/// named, so that it is removed.
pub proof fn law_downloads_without_digest_fail(
    download: DigestDownload,
    nothing: &[u8],
    step: DigestDownloadStep,
)
    requires
        call_ensures(DigestDownload::read, (download, nothing), step),
        nothing@.len() == 0,
    ensures
        step matches DigestDownloadStep::Failed { file_name, error } && file_name@
            == download.file_name() && error == DigestError::NotRead,
{
}

/// A digest that comes in several reads is kept together, with the file that it is for
/// and the digest of what came of it.
pub proof fn law_downloads_wait_for_the_digest(
    download: DigestDownload,
    bytes: &[u8],
    step: DigestDownloadStep,
)
    requires
        call_ensures(DigestDownload::read, (download, bytes), step),
        bytes@.len() > 0,
        download.received().len() + bytes@.len() < 64,
    ensures
        step matches DigestDownloadStep::More(next) && next.received() == download.received()
            + bytes@ && next.retrieved() == download.retrieved() && next.file_name()
            == download.file_name(),
{
}

/// A download that is given up leaves nothing behind of its file once it is removed.
pub proof fn law_abandoned_downloads_are_forgotten<C: Channels>(
    core: &mut CommandCore<C>,
    file_name: &str,
    removal: Result<(), u64>,
    result: Result<(), u64>,
)
    requires
        call_ensures(
            CommandCore::<C>::abandon_download::<u64>,
            (core, file_name, removal),
            result,
        ),
    ensures
        result == removal,
        removal is Ok ==> final(core).files().digest_bytes(file_name@).len() == 0,
        final(core).addresses() == old(core).addresses(),
        final(core).requests() == old(core).requests(),
        final(core).dials() == old(core).dials(),
{
}


/// A download succeeds exactly if its file is intact. A corrupt file is forgotten once it
/// is removed, and if it could not be, that is the error.
pub proof fn law_only_intact_downloads_succeed<C: Channels>(
    core: &mut CommandCore<C>,
    file_name: &str,
    verdict: Verdict,
    removal: Result<(), u64>,
    success: Result<bool, u64>,
)
    requires
        call_ensures(
            CommandCore::<C>::finish_download::<u64>,
            (core, file_name, verdict, removal),
            success,
        ),
    ensures
        success == Ok::<bool, u64>(true) <==> verdict == Verdict::Intact,
        verdict == Verdict::Corrupt && removal is Ok ==> success == Ok::<bool, u64>(false)
            && final(core).files().digest_bytes(file_name@).len() == 0,
        verdict == Verdict::Corrupt ==> (removal matches Err(error) ==> success == Err::<bool, u64>(
            error,
        )),
        final(core).addresses() == old(core).addresses(),
        final(core).requests() == old(core).requests(),
        final(core).dials() == old(core).dials(),
{
}

// The command line.

/// A line that says `dial` and a peer id dials that peer, whichever it is.
pub proof fn law_typed_dial_dials<S>(repl: &Repl<S>, line: &str, id: Seq<char>, step: ReplStep)
    requires
        call_ensures(Repl::<S>::handle_stdin_input, (repl, line), step),
        text::words(line@).len() == 2,
        text::words(line@)[0] == "dial"@,
        peer::parsed_peer_id(text::words(line@)[1]) == Some(id),
    ensures
        step.output@.len() == 0,
        step.next matches Next::Ask { command: ReplCommand::Dial(peer, _), then } && peer@ == id
            && then is DialResult,
{
    repl::law_dial_line_dials(line@, id);
    assert(step@.output.len() == 0);
}

/// A line that says `list` lists the local files, and with a peer id those of that peer,
/// whichever it is.
pub proof fn law_typed_list_lists<S>(repl: &Repl<S>, line: &str, step: ReplStep)
    requires
        call_ensures(Repl::<S>::handle_stdin_input, (repl, line), step),
        text::words(line@)[0] == "list"@,
    ensures
        text::words(line@).len() == 1 ==> step.output@.len() == 0 && (
        step.next matches Next::Ask { command: ReplCommand::ListLocalFiles(_), then } && then
            is Files),
        text::words(line@).len() >= 2 ==> (peer::parsed_peer_id(text::words(line@)[1]) matches Some(
            id,
        ) ==> step.output@.len() == 0 && (step.next matches Next::Ask {
            command: ReplCommand::ListPeerFiles(peer, _),
            then,
        } && peer@ == id && then is Files)),
        text::words(line@).len() >= 2 && peer::parsed_peer_id(text::words(line@)[1]) is None ==> step.next is Prompt
            && step.output@.len() == 1 && step.output@[0]@ == "Invalid peer id: "@
            + text::words(line@)[1],
{
    let input = text::words(line@);
    repl::law_lines_are_taken_by_their_words(line@, line@);
    repl::law_list_lists(
        input,
        if input.len() >= 2 {
            peer::parsed_peer_id(input[1])
        } else {
            None
        },
    );
    assert(step@.output.len() == step.output@.len());
    if step.output@.len() == 1 {
        assert(step@.output[0] == step.output@[0]@);
    }
}

/// A line that says `get`, a peer id and a file name asks for the peers, to get from that
/// peer the file of the whole of that name.
pub proof fn law_typed_get_is_kept<S>(repl: &Repl<S>, line: &str, id: Seq<char>, step: ReplStep)
    requires
        call_ensures(Repl::<S>::handle_stdin_input, (repl, line), step),
        text::words(line@).len() == 3,
        text::words(line@)[0] == "get"@,
        peer::parsed_peer_id(text::words(line@)[1]) == Some(id),
    ensures
        step.output@.len() == 0,
        step.next matches Next::Ask { command: ReplCommand::GetPeerList(_), then } && (
        then matches Awaiting::PeersToGetFrom { peer, file_name } && peer@ == id && file_name@
            == text::words(line@)[2]),
{
    repl::law_lines_are_taken_by_their_words(line@, line@);
    repl::law_get_looks_for_the_peer(text::words(line@), Some(id));
    assert(step@.output.len() == 0);
}

/// A line ends the command line exactly if its first word is `quit` or `exit`, and the
/// core is then told to stop.
pub proof fn law_typed_quit_ends<S>(repl: &Repl<S>, line: &str, step: ReplStep)
    requires
        call_ensures(Repl::<S>::handle_stdin_input, (repl, line), step),
    ensures
        step.next is Quit <==> text::words(line@)[0] == "quit"@ || text::words(line@)[0]
            == "exit"@,
        step.next matches Next::Quit(command) ==> command is Shutdown,
{
    repl::law_only_quit_and_exit_end(line@);
    repl::law_lines_are_taken_by_their_words(line@, line@);
    let input = text::words(line@);
    repl::law_plain_commands(
        input,
        if input.len() >= 2 {
            peer::parsed_peer_id(input[1])
        } else {
            None
        },
    );
}

/// `get` goes on with the same peer and the same whole file name: a peer on the list is
/// asked whether it has the file, and only if it says yes is the file downloaded.
pub proof fn law_get_keeps_to_its_file<S, E>(
    repl: &Repl<S>,
    peer: PeerId,
    file_name: String,
    peers: Vec<PeerId>,
    result: QueryResult,
    found: Result<ReplStep, E>,
    told: Result<ReplStep, E>,
)
    requires
        call_ensures(
            Repl::<S>::resume::<E>,
            (repl, Awaiting::PeersToGetFrom { peer, file_name }, Reply::Peers(peers)),
            found,
        ),
        call_ensures(
            Repl::<S>::resume::<E>,
            (repl, Awaiting::Existence { peer, file_name }, Reply::Existence(Ok(result))),
            told,
        ),
    ensures
        (exists|i: int| 0 <= i < peers@.len() && (#[trigger] peers@[i])@ == peer@) ==> (
        found matches Ok(step) && (step.next matches Next::Ask {
            command: ReplCommand::DoesFileExist(asked, name, _),
            then: Awaiting::Existence { peer: kept, file_name: kept_name },
        } && asked@ == peer@ && name@ == file_name@ && kept@ == peer@ && kept_name@
            == file_name@)),
        (forall|i: int| 0 <= i < peers@.len() ==> (#[trigger] peers@[i])@ != peer@) ==> (
        found matches Ok(step) && step.next is Prompt && step.output@.len() == 1
            && step.output@[0]@ == "Peer not found"@),
        result == QueryResult::Boolean(true) ==> (told matches Ok(step) && (
        step.next matches Next::Ask {
            command: ReplCommand::GetFileFromPeer(asked, name, _),
            then,
        } && asked@ == peer@ && name@ == file_name@ && then is DownloadResult)),
        result == QueryResult::Boolean(false) ==> (told matches Ok(step) && step.next is Prompt
            && step.output@.len() == 1 && step.output@[0]@ == "File does not exist"@),
        result is Files ==> (told matches Ok(step) && step.next is Prompt && step.output@.len()
            == 0),
{
    let ids = peer::ids(peers@);
    if exists|i: int| 0 <= i < peers@.len() && (#[trigger] peers@[i])@ == peer@ {
        let i = choose|i: int| 0 <= i < peers@.len() && (#[trigger] peers@[i])@ == peer@;
        assert(ids[i] == peer@);
        assert(ids.contains(peer@));
    } else if ids.contains(peer@) {
        let i = choose|i: int| 0 <= i < ids.len() && ids[i] == peer@;
        assert(peers@[i]@ == peer@);
    }
    if let Ok(step) = found {
        assert(step@.output.len() == step.output@.len());
        if step.output@.len() == 1 {
            assert(step@.output[0] == step.output@[0]@);
        }
    }
    if let Ok(step) = told {
        assert(step@.output.len() == step.output@.len());
        if step.output@.len() == 1 {
            assert(step@.output[0] == step.output@[0]@);
        }
    }
}

/// The command line shows every peer and every file that it was told of, in their order.
pub proof fn law_lists_are_shown_whole<S, E>(
    repl: &Repl<S>,
    peers: Vec<PeerId>,
    files: Vec<String>,
    shown_peers: Result<ReplStep, E>,
    shown_files: Result<ReplStep, E>,
)
    requires
        call_ensures(
            Repl::<S>::resume::<E>,
            (repl, Awaiting::Peers, Reply::Peers(peers)),
            shown_peers,
        ),
        call_ensures(
            Repl::<S>::resume::<E>,
            (repl, Awaiting::Files, Reply::Files(Ok(QueryResult::Files(files)))),
            shown_files,
        ),
    ensures
        shown_peers matches Ok(step) && step.next is Prompt && step.output@.len() == peers@.len()
            && (forall|i: int|
            0 <= i < peers@.len() ==> (#[trigger] step.output@[i])@ == peers@[i]@),
        shown_files matches Ok(step) && step.next is Prompt && step.output@.len() == files@.len()
            && (forall|i: int|
            0 <= i < files@.len() ==> (#[trigger] step.output@[i])@ == files@[i]@),
{
    if let Ok(step) = shown_peers {
        assert(step@.output.len() == step.output@.len());
        assert forall|i: int| 0 <= i < peers@.len() implies (#[trigger] step.output@[i])@
            == peers@[i]@ by {
            assert(step@.output[i] == step.output@[i]@);
            assert(peer::ids(peers@)[i] == peers@[i]@);
        }
    }
    if let Ok(step) = shown_files {
        assert(step@.output.len() == step.output@.len());
        assert forall|i: int| 0 <= i < files@.len() implies (#[trigger] step.output@[i])@
            == files@[i]@ by {
            assert(step@.output[i] == step.output@[i]@);
            assert(text::texts(files@)[i] == files@[i]@);
        }
    }
}

/// The command line takes a line, or an answer, as the function for it does.
pub proof fn law_running_is_handling<S, E>(
    repl: &Repl<S>,
    line: String,
    then: Awaiting,
    reply: Reply<E>,
    step: Result<ReplStep, E>,
    handled: ReplStep,
    resumed: Result<ReplStep, E>,
    typed: &str,
)
    requires
        typed@ == line@,
        call_ensures(Repl::<S>::handle_stdin_input, (repl, typed), handled),
        call_ensures(Repl::<S>::resume::<E>, (repl, then, reply), resumed),
    ensures
        call_ensures(Repl::<S>::run::<E>, (repl, ReplInput::Line(line)), step) ==> (step matches Ok(
            taken,
        ) && taken@ == handled@),
        call_ensures(Repl::<S>::run::<E>, (repl, ReplInput::Answer(then, reply)), step) ==> {
            &&& step matches Ok(taken) ==> (resumed matches Ok(other) && taken@ == other@)
            &&& step matches Err(error) ==> resumed == Err::<ReplStep, E>(error)
        },
{
}

/// Of dials and downloads it is shown how they ended, and of this peer its id.
pub proof fn law_outcomes_are_shown<S, E>(
    repl: &Repl<S>,
    yes: bool,
    id: PeerId,
    dialed: Result<ReplStep, E>,
    downloaded: Result<ReplStep, E>,
    identity: Result<ReplStep, E>,
)
    requires
        call_ensures(
            Repl::<S>::resume::<E>,
            (repl, Awaiting::DialResult, Reply::Dialed(yes)),
            dialed,
        ),
        call_ensures(
            Repl::<S>::resume::<E>,
            (repl, Awaiting::DownloadResult, Reply::Downloaded(yes)),
            downloaded,
        ),
        call_ensures(
            Repl::<S>::resume::<E>,
            (repl, Awaiting::Identity, Reply::Identity(id)),
            identity,
        ),
    ensures
        dialed matches Ok(step) && step.next is Prompt && (yes ==> step.output@.len() == 0) && (!yes
            ==> step.output@.len() == 1 && step.output@[0]@ == "Dial failed"@),
        downloaded matches Ok(step) && step.next is Prompt && step.output@.len() == 1
            && step.output@[0]@ == if yes {
            "File downloaded successfully"@
        } else {
            "File download failed"@
        },
        identity matches Ok(step) && step.next is Prompt && step.output@.len() == 1
            && step.output@[0]@ == id@,
{
    if let Ok(step) = dialed {
        assert(step@.output.len() == step.output@.len());
        if !yes {
            assert(step@.output[0] == step.output@[0]@);
        }
    }
    if let Ok(step) = downloaded {
        assert(step@.output.len() == step.output@.len());
        assert(step@.output[0] == step.output@[0]@);
    }
    if let Ok(step) = identity {
        assert(step@.output.len() == step.output@.len());
        assert(step@.output[0] == step.output@[0]@);
    }
}

/// An error about the existence of a file ends the command line, and no other answer
/// does.
pub proof fn law_only_an_existence_error_is_handed_on<S, E>(
    repl: &Repl<S>,
    then: Awaiting,
    reply: Reply<E>,
    step: Result<ReplStep, E>,
    accepted: bool,
)
    requires
        call_ensures(Repl::<S>::resume::<E>, (repl, then, reply), step),
        call_ensures(Awaiting::accepts::<E>, (&then, &reply), accepted),
        accepted,
    ensures
        step matches Err(error) ==> reply == Reply::Existence(Err::<QueryResult, E>(error)),
        reply matches Reply::Existence(Err(error)) ==> step == Err::<ReplStep, E>(error),
{
}

/// The words of a line are found by trimming it and splitting it at its spaces.
pub proof fn law_lines_are_trimmed_and_split(line: &str, rest: &str, list: Vec<String>)
    requires
        call_ensures(text::trim, (line,), rest),
        call_ensures(text::split_at_spaces, (rest,), list),
    ensures
        list@.len() == text::words(line@).len(),
        forall|i: int| 0 <= i < list@.len() ==> (#[trigger] list@[i])@ == text::words(line@)[i],
        rest@.len() > 0 ==> !text::is_white_space(rest@.first()) && !text::is_white_space(
            rest@.last(),
        ),
{
    text::law_trimming_cuts_white_space_only(line@);
    assert(text::texts(list@).len() == list@.len());
    assert forall|i: int| 0 <= i < list@.len() implies (#[trigger] list@[i])@ == text::words(
        line@,
    )[i] by {
        assert(text::texts(list@)[i] == list@[i]@);
    }
}


// The command core.

/// The core passes on what a command holds: the peer, the whole file name and the
/// channel.
pub proof fn law_core_passes_on_commands<C: Channels>(
    core: &CommandCore<C>,
    peer: PeerId,
    file_name: String,
    query: C::Query,
    download: C::Download,
    listing: (CommandAction<C>, CommandCoreBehavior),
    asking: (CommandAction<C>, CommandCoreBehavior),
    getting: (CommandAction<C>, CommandCoreBehavior),
)
    requires
        call_ensures(
            CommandCore::<C>::handle_repl_command,
            (core, ReplCommand::ListPeerFiles(peer, query)),
            listing,
        ),
        call_ensures(
            CommandCore::<C>::handle_repl_command,
            (core, ReplCommand::DoesFileExist(peer, file_name, query)),
            asking,
        ),
        call_ensures(
            CommandCore::<C>::handle_repl_command,
            (core, ReplCommand::GetFileFromPeer(peer, file_name, download)),
            getting,
        ),
    ensures
        listing.0 == (CommandAction::<C>::SendRequest {
            peer,
            request: FileRequest(FileRequestCommand::ListFiles),
            reply: query,
        }),
        asking.0 == (CommandAction::<C>::SendRequest {
            peer,
            request: FileRequest(FileRequestCommand::FileExists(file_name)),
            reply: query,
        }),
        getting.0 == (CommandAction::<C>::Download { peer, file_name, reply: download }),
        listing.1 == CommandCoreBehavior::Continue,
        asking.1 == CommandCoreBehavior::Continue,
        getting.1 == CommandCoreBehavior::Continue,
{
}

/// A question for the peers, for this peer and for the local files is answered on the
/// channel of the command.
pub proof fn law_core_answers_on_the_channel_of_the_command<C: Channels>(
    core: &CommandCore<C>,
    peers: C::Peers,
    identity: C::Identity,
    query: C::Query,
    listing_peers: (CommandAction<C>, CommandCoreBehavior),
    identifying: (CommandAction<C>, CommandCoreBehavior),
    listing_files: (CommandAction<C>, CommandCoreBehavior),
)
    requires
        call_ensures(
            CommandCore::<C>::handle_repl_command,
            (core, ReplCommand::GetPeerList(peers)),
            listing_peers,
        ),
        call_ensures(
            CommandCore::<C>::handle_repl_command,
            (core, ReplCommand::GetMyPeerId(identity)),
            identifying,
        ),
        call_ensures(
            CommandCore::<C>::handle_repl_command,
            (core, ReplCommand::ListLocalFiles(query)),
            listing_files,
        ),
    ensures
        listing_peers == (CommandAction::<C>::AnswerPeers(peers), CommandCoreBehavior::Continue),
        identifying == (
            CommandAction::<C>::AnswerIdentity(identity),
            CommandCoreBehavior::Continue,
        ),
        listing_files == (
            CommandAction::<C>::AnswerLocalFiles(query),
            CommandCoreBehavior::Continue,
        ),
{
}


/// The core stops on a shutdown and on nothing else.
pub proof fn law_core_stops_on_shutdown_only<C: Channels>(
    core: &mut CommandCore<C>,
    input: CoreInput<C>,
    outcome: (CoreAction<C>, CommandCoreBehavior),
)
    requires
        call_ensures(CommandCore::<C>::run, (core, input), outcome),
    ensures
        outcome.1 == CommandCoreBehavior::Quit <==> input == CoreInput::<C>::Command(
            Some(ReplCommand::Shutdown),
        ),
        input matches CoreInput::Command(_) ==> *final(core) == *old(core),
{
}

/// The core does with a command what the function for commands does: it never acts
/// otherwise in its loop.
pub proof fn law_running_the_core_is_handling<C: Channels>(
    core: &mut CommandCore<C>,
    peer: PeerId,
    file_name: String,
    download: C::Download,
    outcome: (CoreAction<C>, CommandCoreBehavior),
)
    requires
        call_ensures(
            CommandCore::<C>::run,
            (core, CoreInput::Command(Some(ReplCommand::GetFileFromPeer(peer, file_name, download)))),
            outcome,
        ),
    ensures
        outcome.0 == CoreAction::<C>::Command(
            CommandAction::Download { peer, file_name, reply: download },
        ),
{
}

/// A dial goes to the first address of the peer, with the id of the peer added to it,
/// and a stream to the same address without it. A peer without an address is neither
/// dialed nor opened a stream to, and it is said why.
pub proof fn law_peers_are_reached_at_their_first_address<C: Channels>(
    core: &CommandCore<C>,
    peer: PeerId,
    reply: C::Dial,
    outcome: (CommandAction<C>, CommandCoreBehavior),
    route: Result<Address, NoRoute>,
)
    requires
        call_ensures(
            CommandCore::<C>::handle_repl_command,
            (core, ReplCommand::Dial(peer, reply)),
            outcome,
        ),
        call_ensures(CommandCore::<C>::open_new_stream, (core, &peer), route),
    ensures
        route matches Ok(first) ==> {
            &&& core.addresses().contains_key(peer@)
            &&& core.addresses()[peer@].len() > 0
            &&& first@ == core.addresses()[peer@][0]
            &&& outcome.0 matches CommandAction::Dial { address, peer: dialed, reply: pending }
            &&& address@ == peer::multiaddr_with_peer(first@, peer@)
            &&& dialed == peer
            &&& pending == reply
        },
        route == Err::<Address, NoRoute>(NoRoute::UnknownPeer) <==> !core.addresses().contains_key(
            peer@,
        ),
        route == Err::<Address, NoRoute>(NoRoute::NoAddress) <==> core.addresses().contains_key(
            peer@,
        ) && core.addresses()[peer@].len() == 0,
        route == Err::<Address, NoRoute>(NoRoute::UnknownPeer) ==> outcome.0
            == CommandAction::<C>::AnswerDial(
            DialAnswer { reply, result: Err(DialError::UnknownPeer) },
        ),
        route == Err::<Address, NoRoute>(NoRoute::NoAddress) ==> outcome.0
            == CommandAction::<C>::AnswerDial(
            DialAnswer { reply, result: Err(DialError::NoAddress) },
        ),
{
}

/// What another peer responds is the answer to whoever asked, unchanged, and the request
/// is then no longer outstanding, while all others are.
pub proof fn law_responses_reach_whoever_asked<C: Channels>(
    core: &mut CommandCore<C>,
    request_id: u64,
    response: FileResponse,
    action: SwarmAction<C>,
    other: u64,
)
    requires
        old(core).requests().contains_key(request_id),
        call_ensures(
            CommandCore::<C>::handle_swarm_event,
            (core, SwarmEvent::Response { request_id, response }),
            action,
        ),
    ensures
        action matches SwarmAction::AnswerQuery { reply, result } && reply
            == old(core).requests()[request_id] && (match response.0 {
            FileResponseCommand::FileList(files) => result == Ok::<QueryResult, C::Error>(
                QueryResult::Files(files),
            ),
            FileResponseCommand::FileExists(exists) => result == Ok::<QueryResult, C::Error>(
                QueryResult::Boolean(exists),
            ),
        }),
        !final(core).requests().contains_key(request_id),
        other != request_id ==> (final(core).requests().contains_key(other)
            <==> old(core).requests().contains_key(other)),
        final(core).dials() == old(core).dials(),
        final(core).addresses() == old(core).addresses(),
{
}

/// A request that failed is answered with the error, to whoever asked, and is then no
/// longer outstanding.
pub proof fn law_failures_reach_whoever_asked<C: Channels>(
    core: &mut CommandCore<C>,
    request_id: u64,
    error: C::Error,
    action: SwarmAction<C>,
)
    requires
        old(core).requests().contains_key(request_id),
        call_ensures(
            CommandCore::<C>::handle_swarm_event,
            (core, SwarmEvent::OutboundFailure { request_id, error }),
            action,
        ),
    ensures
        action == (SwarmAction::<C>::AnswerQuery {
            reply: old(core).requests()[request_id],
            result: Err(error),
        }),
        final(core).requests() == old(core).requests().remove(request_id),
        final(core).dials() == old(core).dials(),
        final(core).addresses() == old(core).addresses(),
{
}

/// A request of another peer is responded to on its channel, about what it asked for, and
/// changes nothing.
pub proof fn law_requests_are_responded_to<C: Channels>(
    core: &mut CommandCore<C>,
    request: FileRequest,
    channel: C::Response,
    action: SwarmAction<C>,
)
    requires
        call_ensures(
            CommandCore::<C>::handle_swarm_event,
            (core, SwarmEvent::Request { request, channel }),
            action,
        ),
    ensures
        match request.0 {
            FileRequestCommand::ListFiles => action == SwarmAction::<C>::RespondWithFiles(channel),
            FileRequestCommand::FileExists(file_name) => action == (SwarmAction::<
                C,
            >::RespondWithExistence { file_name, channel }),
        },
        final(core).requests() == old(core).requests(),
        final(core).dials() == old(core).dials(),
        final(core).addresses() == old(core).addresses(),
{
}

/// Discovered and expired addresses change what is known as the address book does, and
/// are passed on to the network, all of them that are of known peers.
pub proof fn law_sightings_are_noted_and_passed_on<C: Channels>(
    discovering: &mut CommandCore<C>,
    expiring: &mut CommandCore<C>,
    list: Vec<(PeerId, Address)>,
    added: SwarmAction<C>,
    removed: SwarmAction<C>,
)
    requires
        call_ensures(
            CommandCore::<C>::handle_swarm_event,
            (discovering, SwarmEvent::Discovered(list)),
            added,
        ),
        call_ensures(
            CommandCore::<C>::handle_swarm_event,
            (expiring, SwarmEvent::Expired(list)),
            removed,
        ),
    ensures
        added == SwarmAction::<C>::AddAddresses(list),
        final(discovering).addresses() == address_book::after_discovery(
            old(discovering).addresses(),
            address_book::sightings(list@),
        ),
        removed matches SwarmAction::RemoveAddresses(noted) && address_book::sightings(noted@)
            == address_book::sightings(list@).filter(
            |sighting: (Seq<char>, Seq<u8>)|
                old(expiring).addresses().contains_key(sighting.0),
        ),
        final(expiring).addresses() == address_book::after_expiry(
            old(expiring).addresses(),
            address_book::sightings(list@),
        ),
{
}

/// In its loop the core does with an event what the function for events does.
pub proof fn law_running_the_core_is_handling_events<C: Channels>(
    core: &mut CommandCore<C>,
    request_id: u64,
    response: FileResponse,
    outcome: (CoreAction<C>, CommandCoreBehavior),
)
    requires
        old(core).requests().contains_key(request_id),
        call_ensures(
            CommandCore::<C>::run,
            (core, CoreInput::Event(Some(SwarmEvent::Response { request_id, response }))),
            outcome,
        ),
    ensures
        outcome.0 matches CoreAction::Event(SwarmAction::AnswerQuery { reply, result }) && reply
            == old(core).requests()[request_id] && (match response.0 {
            FileResponseCommand::FileList(files) => result == Ok::<QueryResult, C::Error>(
                QueryResult::Files(files),
            ),
            FileResponseCommand::FileExists(exists) => result == Ok::<QueryResult, C::Error>(
                QueryResult::Boolean(exists),
            ),
        }),
        final(core).requests() == old(core).requests().remove(request_id),
{
}


/// A request that was sent is answered on its own channel, by its response.
pub proof fn law_sent_requests_are_answered<C: Channels>(
    sender: &mut CommandCore<C>,
    request_id: u64,
    kept: C::Query,
    core: &mut CommandCore<C>,
    exists: bool,
    action: SwarmAction<C>,
)
    requires
        call_ensures(CommandCore::<C>::request_sent, (sender, request_id, kept), ()),
        old(core).requests() == final(sender).requests(),
        call_ensures(
            CommandCore::<C>::handle_swarm_event,
            (
                core,
                SwarmEvent::Response {
                    request_id,
                    response: FileResponse(FileResponseCommand::FileExists(exists)),
                },
            ),
            action,
        ),
    ensures
        action == (SwarmAction::<C>::AnswerQuery {
            reply: kept,
            result: Ok(QueryResult::Boolean(exists)),
        }),
{
}

/// A dial that the network took on is answered on its own channel, when there is a
/// connection that this peer dialed; one that it refused is answered at once.
pub proof fn law_taken_dials_are_answered<C: Channels>(
    dialer: &mut CommandCore<C>,
    peer: PeerId,
    kept: C::Dial,
    result: Result<(), C::Error>,
    answer: Option<DialAnswer<C>>,
    core: &mut CommandCore<C>,
    action: SwarmAction<C>,
)
    requires
        call_ensures(CommandCore::<C>::dial_result, (dialer, peer, kept, result), answer),
        old(core).dials() == final(dialer).dials(),
        call_ensures(
            CommandCore::<C>::handle_swarm_event,
            (core, SwarmEvent::ConnectionEstablished { peer, is_dialer: true }),
            action,
        ),
    ensures
        result is Ok ==> answer is None && (action matches SwarmAction::AnswerDial(given)
            && given.reply == kept && given.result is Ok),
        result matches Err(error) ==> answer == Some(
            DialAnswer::<C> { reply: kept, result: Err(DialError::Network(error)) },
        ) && final(dialer).dials() == old(dialer).dials(),
        !final(core).dials().contains_key(peer@),
{
}

/// A dial whose peer could not be reached is answered with the error, on its own channel,
/// and a connection that the other side dialed answers none.
pub proof fn law_failed_dials_are_answered<C: Channels>(
    failing: &mut CommandCore<C>,
    dialed: &mut CommandCore<C>,
    peer: PeerId,
    error: C::Error,
    failure: SwarmAction<C>,
    nothing: SwarmAction<C>,
)
    requires
        call_ensures(
            CommandCore::<C>::handle_swarm_event,
            (failing, SwarmEvent::OutgoingConnectionError { peer: Some(peer), error }),
            failure,
        ),
        call_ensures(
            CommandCore::<C>::handle_swarm_event,
            (dialed, SwarmEvent::ConnectionEstablished { peer, is_dialer: false }),
            nothing,
        ),
    ensures
        old(failing).dials().contains_key(peer@) ==> failure == SwarmAction::<C>::AnswerDial(
            DialAnswer {
                reply: old(failing).dials()[peer@],
                result: Err(DialError::Network(error)),
            },
        ),
        !old(failing).dials().contains_key(peer@) ==> failure == SwarmAction::<C>::Nothing,
        !final(failing).dials().contains_key(peer@),
        nothing == SwarmAction::<C>::Nothing,
        final(dialed).dials() == old(dialed).dials(),
{
}


/// Each discovered peer is listed once, and no other peer is.
pub proof fn law_peers_are_listed_once<C: Channels>(
    discovered: &Vec<PeerId>,
    peers: Vec<PeerId>,
    id: Seq<char>,
)
    requires
        call_ensures(CommandCore::<C>::peer_list, (discovered,), peers),
    ensures
        forall|i: int, j: int|
            0 <= i < j < peers@.len() ==> (#[trigger] peers@[i])@ != (#[trigger] peers@[j])@,
        (exists|i: int| 0 <= i < peers@.len() && (#[trigger] peers@[i])@ == id) <==> (exists|i: int|
            0 <= i < discovered@.len() && (#[trigger] discovered@[i])@ == id),
{
    lemma_peer_among(peers@, id);
    lemma_peer_among(discovered@, id);
    assert forall|i: int, j: int| 0 <= i < j < peers@.len() implies (#[trigger] peers@[i])@ != (
    #[trigger] peers@[j])@ by {
        assert(peer::ids(peers@)[i] != peer::ids(peers@)[j]);
    }
}

proof fn lemma_peer_among(peers: Seq<PeerId>, id: Seq<char>)
    ensures
        peer::ids(peers).contains(id) <==> exists|i: int|
            0 <= i < peers.len() && (#[trigger] peers[i])@ == id,
{
    let ids = peer::ids(peers);
    if ids.contains(id) {
        let i = choose|i: int| 0 <= i < ids.len() && ids[i] == id;
        assert(peers[i]@ == id);
    }
    if exists|i: int| 0 <= i < peers.len() && (#[trigger] peers[i])@ == id {
        let i = choose|i: int| 0 <= i < peers.len() && (#[trigger] peers[i])@ == id;
        assert(ids[i] == id);
    }
}

// Addresses and peers.

/// A peer that was discovered is routed to: at the address that it had, if it had one,
/// and otherwise at the first address of the list.
pub proof fn law_discovered_peers_are_routed_to(
    book: &mut AddressBook,
    list: &Vec<(PeerId, Address)>,
    after: &AddressBook,
    peer: &PeerId,
    route: Result<&Address, NoRoute>,
    first: int,
)
    requires
        call_ensures(AddressBook::discover, (book, list), ()),
        after@ == final(book)@,
        call_ensures(AddressBook::route, (after, peer), route),
        0 <= first < list@.len(),
        list@[first].0@ == peer@,
        forall|i: int| 0 <= i < first ==> (#[trigger] list@[i]).0@ != peer@,
    ensures
        route is Ok,
        old(book)@.contains_key(peer@) && old(book)@[peer@].len() > 0 ==> (route matches Ok(address)
            && address@ == old(book)@[peer@][0]),
        !old(book)@.contains_key(peer@) || old(book)@[peer@].len() == 0 ==> (route matches Ok(
            address,
        ) && address@ == list@[first].1@),
{
    let all = address_book::sightings(list@);
    let front = all.take(first);
    let one = seq![all[first]];
    let back = all.skip(first + 1);
    let b0 = old(book)@;
    assert(all =~= front + one + back);
    address_book::law_discoveries_one_by_one(b0, front + one, back, peer@, list@[first].1@);
    address_book::law_discoveries_one_by_one(b0, front, one, peer@, list@[first].1@);
    let b1 = address_book::after_discovery(b0, front);
    assert forall|i: int| 0 <= i < front.len() implies (#[trigger] front[i]).0 != peer@ by {
        assert(list@[i].0@ != peer@);
    }
    lemma_others_discovered(b0, front, peer@);
    address_book::law_discoveries_one_by_one(b1, front, back, peer@, list@[first].1@);
    let b2 = address_book::after_discovery(b1, one);
    address_book::law_discovery_adds_behind(b2, back, peer@);
    let before = address_book::known(b2, peer@);
    let now = address_book::known(after@, peer@);
    assert(now[0] == before[0]);
}

proof fn lemma_others_discovered(
    book: address_book::KnownAddresses,
    list: Seq<(Seq<char>, Seq<u8>)>,
    id: Seq<char>,
)
    requires
        forall|i: int| 0 <= i < list.len() ==> (#[trigger] list[i]).0 != id,
    ensures
        address_book::after_discovery(book, list).contains_key(id) == book.contains_key(id),
        address_book::after_discovery(book, list)[id] == book[id],
    decreases list.len(),
{
    if list.len() > 0 {
        let rest = list.drop_last();
        assert forall|i: int| 0 <= i < rest.len() implies (#[trigger] rest[i]).0 != id by {
            assert(rest[i] == list[i]);
        }
        lemma_others_discovered(book, rest, id);
        assert(list[list.len() - 1].0 != id);
    }
}

/// A peer is never routed to an address that has expired, and a route that has not
/// expired stays.
pub proof fn law_expired_addresses_are_not_routed_to(
    book: &mut AddressBook,
    list: &Vec<(PeerId, Address)>,
    noted: Vec<(PeerId, Address)>,
    after: &AddressBook,
    peer: &PeerId,
    address: &Address,
    i: int,
)
    requires
        call_ensures(AddressBook::expire, (book, list), noted),
        after@ == final(book)@,
        call_ensures(AddressBook::route, (after, peer), Ok(address)),
        0 <= i < list@.len(),
    ensures
        !(list@[i].0@ == peer@ && list@[i].1@ == address@),
        address_book::known(old(book)@, peer@).contains(address@),
{
    let all = address_book::sightings(list@);
    address_book::law_expired_addresses_are_gone(old(book)@, all, peer@, address@);
    let now = address_book::known(after@, peer@);
    assert(now[0] == address@);
    assert(now.contains(address@));
    assert(all[i] == (list@[i].0@, list@[i].1@));
    if list@[i].0@ == peer@ && list@[i].1@ == address@ {
        assert(all.contains((peer@, address@)));
    }
}

/// A value that was set for a peer is the one that it has, until it is taken out.
pub proof fn law_values_are_kept_for_their_peer(
    map: &mut PeerMap<u64>,
    peer: PeerId,
    value: u64,
    before: Option<u64>,
    after: &PeerMap<u64>,
    other: &PeerId,
    found: Option<&u64>,
)
    requires
        call_ensures(PeerMap::<u64>::insert, (map, peer, value), before),
        after@ == final(map)@,
        call_ensures(PeerMap::<u64>::get, (after, other), found),
    ensures
        other@ == peer@ ==> (found matches Some(kept) && *kept == value),
        other@ != peer@ ==> {
            &&& found is Some <==> old(map)@.contains_key(other@)
            &&& found matches Some(kept) ==> *kept == old(map)@[other@]
        },
        before is Some <==> old(map)@.contains_key(peer@),
{
}

/// An address keeps its bytes, and is only ever extended by the peer that is expected
/// there.
pub proof fn law_addresses_keep_their_bytes(
    bytes: Vec<u8>,
    address: Address,
    shown: Vec<u8>,
    peer: &PeerId,
    extended: Address,
)
    requires
        call_ensures(Address::from_bytes, (bytes,), Some(address)),
        call_ensures(Address::to_bytes, (&address,), shown),
        call_ensures(Address::with_peer, (&address, peer), extended),
    ensures
        shown@ == bytes@,
        extended@ == peer::multiaddr_with_peer(bytes@, peer@),
        bytes@.is_prefix_of(extended@),
{
}


/// What is shown of a peer is read as the same peer, and two texts are of the same peer
/// exactly if they are read as the same.
pub proof fn law_shown_peers_are_read_back(
    typed: &str,
    id: PeerId,
    shown: String,
    again: &str,
    read: Option<PeerId>,
)
    requires
        call_ensures(PeerId::parse, (typed,), Some(id)),
        call_ensures(PeerId::to_text, (&id,), shown),
        again@ == shown@,
        call_ensures(PeerId::parse, (again,), read),
    ensures
        peer::parsed_peer_id(typed@) == Some(shown@),
        read matches Some(other) && other@ == id@,
{
}

/// A peer is on a list exactly if one of the list has its id.
pub proof fn law_peers_are_found(id: &PeerId, peers: &Vec<PeerId>, found: bool)
    requires
        call_ensures(peer::is_among, (id, peers), found),
    ensures
        found <==> exists|i: int| 0 <= i < peers@.len() && (#[trigger] peers@[i])@ == id@,
{
    lemma_peer_among(peers@, id@);
}

// The start of the program.

/// A server logs at least that it runs, and otherwise the level is the one asked for; a
/// server is a server whatever else was asked for.
pub proof fn law_options(server: bool, client: bool, asked: LogLevel, level: LogLevel, mode: Mode)
    requires
        call_ensures(startup::log_level, (server, asked), level),
        call_ensures(startup::mode, (server, client), mode),
    ensures
        level == asked || (server && asked == LogLevel::Off && level == LogLevel::Info),
        server ==> level != LogLevel::Off,
        mode == Mode::Server <==> server,
        mode == Mode::Client <==> client && !server,
{
}

} // verus!
