//! What peers say to each other, and what the parts of a peer say to each other.

use crate::peer::PeerId;
use crate::text;
use vstd::prelude::*;

verus! {

/// A question that one peer asks another.
#[derive(Debug, PartialEq, Eq)]
pub enum FileRequestCommand {
    /// Which files are there?
    ListFiles,
    /// Is there a file of this name?
    FileExists(String),
}

/// A request on the network.
#[derive(Debug, PartialEq, Eq)]
pub struct FileRequest(pub FileRequestCommand);

/// The answer to a question.
#[derive(Debug, PartialEq, Eq)]
pub enum FileResponseCommand {
    /// The names of the files, without the path that leads to them.
    FileList(Vec<String>),
    /// Whether there is such a file.
    FileExists(bool),
}

/// A response on the network.
#[derive(Debug, PartialEq, Eq)]
pub struct FileResponse(pub FileResponseCommand);

/// What the command core answers to a question about files.
#[derive(Debug)]
pub enum QueryResult {
    /// The names of files.
    Files(Vec<String>),
    /// Yes or no.
    Boolean(bool),
}

/// What a query result says.
pub enum QueryAnswer {
    Files(Seq<Seq<char>>),
    Boolean(bool),
}

impl View for QueryResult {
    type V = QueryAnswer;

    open spec fn view(&self) -> QueryAnswer {
        match *self {
            QueryResult::Files(files) => QueryAnswer::Files(text::texts(files@)),
            QueryResult::Boolean(yes) => QueryAnswer::Boolean(yes),
        }
    }
}

/// The ends of the channels on which answers are given. The library keeps each
/// until it is time for its answer, and hands it back together with the answer.
pub trait Channels {
    /// Takes whether a dial succeeded.
    type Dial;

    /// Takes a list of peers.
    type Peers;

    /// Takes the id of the local peer.
    type Identity;

    /// Takes the result of a query about files.
    type Query;

    /// Takes whether a file was downloaded.
    type Download;

    /// Takes the response to a request of another peer.
    type Response;

    /// Why something on the network failed.
    type Error;
}

/// No channels: commands that nobody waits on yet.
pub struct NoChannels;

impl Channels for NoChannels {
    type Dial = ();

    type Peers = ();

    type Identity = ();

    type Query = ();

    type Download = ();

    type Response = ();

    type Error = ();
}

/// What the command line can ask of the command core.
pub enum ReplCommand<C: Channels> {
    /// Connect to a peer.
    Dial(PeerId, C::Dial),
    /// List the peers.
    GetPeerList(C::Peers),
    /// Give the id of this peer.
    GetMyPeerId(C::Identity),
    /// List the local files. The answer is a [`QueryResult::Files`].
    ListLocalFiles(C::Query),
    /// List the files of a peer. The answer should be a [`QueryResult::Files`].
    ListPeerFiles(PeerId, C::Query),
    /// Is there a file of this name on that peer? The answer should be a
    /// [`QueryResult::Boolean`].
    DoesFileExist(PeerId, String, C::Query),
    /// Download the file of this name from that peer. The answer is whether that
    /// succeeded.
    GetFileFromPeer(PeerId, String, C::Download),
    /// Stop.
    Shutdown,
}

/// What a command asks, without the channel for its answer.
pub enum Question {
    Dial(Seq<char>),
    GetPeerList,
    GetMyPeerId,
    ListLocalFiles,
    ListPeerFiles(Seq<char>),
    DoesFileExist(Seq<char>, Seq<char>),
    GetFileFromPeer(Seq<char>, Seq<char>),
    Shutdown,
}

impl<C: Channels> View for ReplCommand<C> {
    type V = Question;

    open spec fn view(&self) -> Question {
        match *self {
            ReplCommand::Dial(peer, _) => Question::Dial(peer@),
            ReplCommand::GetPeerList(_) => Question::GetPeerList,
            ReplCommand::GetMyPeerId(_) => Question::GetMyPeerId,
            ReplCommand::ListLocalFiles(_) => Question::ListLocalFiles,
            ReplCommand::ListPeerFiles(peer, _) => Question::ListPeerFiles(peer@),
            ReplCommand::DoesFileExist(peer, file_name, _) => Question::DoesFileExist(
                peer@,
                file_name@,
            ),
            ReplCommand::GetFileFromPeer(peer, file_name, _) => Question::GetFileFromPeer(
                peer@,
                file_name@,
            ),
            ReplCommand::Shutdown => Question::Shutdown,
        }
    }
}

/// A command asks what it says, with all of its peer and all of its file name,
/// whatever channel it holds.
pub proof fn law_commands_ask_what_they_say<C: Channels>(
    peer: PeerId,
    file_name: String,
    dial: C::Dial,
    peers: C::Peers,
    identity: C::Identity,
    query: C::Query,
    download: C::Download,
)
    ensures
        ReplCommand::<C>::Dial(peer, dial)@ == Question::Dial(peer@),
        ReplCommand::<C>::GetPeerList(peers)@ == Question::GetPeerList,
        ReplCommand::<C>::GetMyPeerId(identity)@ == Question::GetMyPeerId,
        ReplCommand::<C>::ListLocalFiles(query)@ == Question::ListLocalFiles,
        ReplCommand::<C>::ListPeerFiles(peer, query)@ == Question::ListPeerFiles(peer@),
        ReplCommand::<C>::DoesFileExist(peer, file_name, query)@ == Question::DoesFileExist(
            peer@,
            file_name@,
        ),
        ReplCommand::<C>::GetFileFromPeer(peer, file_name, download)@ == Question::GetFileFromPeer(
            peer@,
            file_name@,
        ),
        ReplCommand::<C>::Shutdown@ == Question::Shutdown,
{
}

/// A query result says which files there are, all of them and in their order, or yes
/// or no.
pub proof fn law_query_results_say_what_they_hold(files: Vec<String>, yes: bool)
    ensures
        QueryResult::Files(files)@ matches QueryAnswer::Files(names) && names.len() == files@.len()
            && (forall|i: int| 0 <= i < names.len() ==> #[trigger] names[i] == files@[i]@),
        QueryResult::Boolean(yes)@ == QueryAnswer::Boolean(yes),
{
}

} // verus!
