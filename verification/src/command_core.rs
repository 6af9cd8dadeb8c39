//! The command core of a peer: what it does with the commands of its command
//! line and with what happens on the network. It knows at which addresses other
//! peers were discovered, which requests to other peers have no response yet, and
//! which dials have no outcome yet. It performs nothing itself: each command and
//! each event leads to an action.

use crate::address_book;
use crate::address_book::{AddressBook, KnownAddresses, NoRoute};
use crate::download::Verdict;
use crate::files;
use crate::files::{DirectoryEntry, FileHandler};
use crate::header;
use crate::header::TransmitRequest;
use crate::messages::{
    Channels, FileRequest, FileRequestCommand, FileResponse, FileResponseCommand, QueryAnswer,
    QueryResult, Question, ReplCommand,
};
use crate::peer;
use crate::peer::{Address, PeerId};
use crate::peer_map::PeerMap;
use crate::repl;
use crate::repl::Repl;
use crate::text;
use std::collections::HashMap;
use std::path::PathBuf;
use vstd::prelude::*;

verus! {

/// Whether to go on after an event has been handled.
#[derive(Debug, Clone, Copy, PartialEq, Eq, Structural)]
pub enum CommandCoreBehavior {
    /// Take the next event.
    Continue,
    /// Stop.
    Quit,
}

/// Why a dial came to nothing.
#[derive(Debug)]
pub enum DialError<E> {
    /// The peer was never discovered.
    UnknownPeer,
    /// All addresses of the peer have expired.
    NoAddress,
    /// The network refused.
    Network(E),
}

impl<E> DialError<E> {
    /// The message, if the error does not come from the network.
    pub fn message(&self) -> (shown: Option<String>)
        ensures
            match *self {
                DialError::UnknownPeer => shown matches Some(s) && s@
                    == "Peer was not in address map"@,
                DialError::NoAddress => shown matches Some(s) && s@
                    == "Peer did not have a valid address in map"@,
                DialError::Network(_) => shown is None,
            },
    {
        match self {
            DialError::UnknownPeer => Some("Peer was not in address map".to_owned()),
            DialError::NoAddress => Some("Peer did not have a valid address in map".to_owned()),
            DialError::Network(_) => None,
        }
    }
}

/// The answer to a dial.
pub struct DialAnswer<C: Channels> {
    pub reply: C::Dial,
    pub result: Result<(), DialError<C::Error>>,
}

/// What to do about a command.
#[allow(inconsistent_fields)]
pub enum CommandAction<C: Channels> {
    /// Dial the peer at the address, and report with [`CommandCore::dial_result`].
    Dial { address: Address, peer: PeerId, reply: C::Dial },
    /// Answer a dial that cannot be tried.
    AnswerDial(DialAnswer<C>),
    /// Answer with the peers of [`CommandCore::peer_list`].
    AnswerPeers(C::Peers),
    /// Answer with the files of the served directory.
    AnswerLocalFiles(C::Query),
    /// Send the request to the peer, and report with [`CommandCore::request_sent`].
    SendRequest { peer: PeerId, request: FileRequest, reply: C::Query },
    /// Download the file from the peer, and answer whether that succeeded.
    Download { peer: PeerId, file_name: String, reply: C::Download },
    /// Answer with the id of this peer.
    AnswerIdentity(C::Identity),
    /// Nothing.
    Nothing,
}

/// Something that happened on the network.
#[allow(inconsistent_fields)]
pub enum SwarmEvent<C: Channels> {
    /// Another peer sent a request, and waits on the channel.
    Request { request: FileRequest, channel: C::Response },
    /// The response to a request came.
    Response { request_id: u64, response: FileResponse },
    /// A request could not be sent, or had no response.
    OutboundFailure { request_id: u64, error: C::Error },
    /// Peers were discovered at these addresses.
    Discovered(Vec<(PeerId, Address)>),
    /// Peers are no longer at these addresses.
    Expired(Vec<(PeerId, Address)>),
    /// There is a connection to a peer, which either side may have dialed.
    ConnectionEstablished { peer: PeerId, is_dialer: bool },
    /// A connection could not be made to a peer, if it is known to which.
    OutgoingConnectionError { peer: Option<PeerId>, error: C::Error },
    /// Anything else.
    Other,
}

/// What to do about something that happened on the network.
pub enum SwarmAction<C: Channels> {
    /// Respond with the files of the served directory.
    RespondWithFiles(C::Response),
    /// Respond whether there is a file of this name in the served directory.
    RespondWithExistence { file_name: String, channel: C::Response },
    /// Answer a query.
    AnswerQuery { reply: C::Query, result: Result<QueryResult, C::Error> },
    /// Answer a dial.
    AnswerDial(DialAnswer<C>),
    /// Requests to these peers can be sent to these addresses.
    AddAddresses(Vec<(PeerId, Address)>),
    /// Requests to these peers can no longer be sent to these addresses.
    RemoveAddresses(Vec<(PeerId, Address)>),
    /// Nothing.
    Nothing,
}

/// What the command core takes from its two sources: a command, or something that
/// happened on the network. Either source may have run dry.
pub enum CoreInput<C: Channels> {
    Command(Option<ReplCommand<C>>),
    Event(Option<SwarmEvent<C>>),
}

/// What to do about an input.
pub enum CoreAction<C: Channels> {
    Command(CommandAction<C>),
    Event(SwarmAction<C>),
    Nothing,
}

/// The result of a query that a response of another peer gives.
pub open spec fn result_of(response: FileResponse) -> QueryResult {
    match response.0 {
        FileResponseCommand::FileList(files) => QueryResult::Files(files),
        FileResponseCommand::FileExists(exists) => QueryResult::Boolean(exists),
    }
}

/// The command core of a peer.
pub struct CommandCore<C: Channels> {
    file_handler: FileHandler,
    peer_address_map: AddressBook,
    outstanding_requests: HashMap<u64, C::Query>,
    outstanding_dial_events: PeerMap<C::Dial>,
}

impl<C: Channels> CommandCore<C> {
    /// What the peer serves and retrieves.
    pub closed spec fn files(&self) -> FileHandler {
        self.file_handler
    }

    /// The addresses at which other peers were discovered, the first to be
    /// discovered first.
    pub closed spec fn addresses(&self) -> KnownAddresses {
        self.peer_address_map@
    }

    /// The requests without a response, each with the channel for the answer.
    pub closed spec fn requests(&self) -> Map<u64, C::Query> {
        self.outstanding_requests@
    }

    /// The peers whose dial has no outcome yet, each with the channel for it.
    pub closed spec fn dials(&self) -> Map<Seq<char>, C::Dial> {
        self.outstanding_dial_events@
    }

    /// Whether this is a core that serves a directory and to which nothing has
    /// happened.
    pub open spec fn is_new(&self, served_dir: PathBuf) -> bool {
        &&& self.files().served_dir() == served_dir
        &&& self.files().digests() == Map::<Seq<char>, Seq<char>>::empty()
        &&& self.addresses() == KnownAddresses::empty()
        &&& self.requests() == Map::<u64, C::Query>::empty()
        &&& self.dials() == Map::<Seq<char>, C::Dial>::empty()
    }

    /// A core that serves a directory and knows of no other peer.
    pub fn new(served_dir: PathBuf) -> (core: CommandCore<C>)
        ensures
            core.is_new(served_dir),
    {
        broadcast use vstd::std_specs::hash::group_hash_axioms;

        CommandCore {
            file_handler: FileHandler::new(served_dir),
            peer_address_map: AddressBook::new(),
            outstanding_requests: HashMap::new(),
            outstanding_dial_events: PeerMap::new(),
        }
    }

    /// The handler for the streams that other peers open. It serves the same
    /// directory, and keeps the digests of what it sends to itself.
    pub fn setup_inbound_stream_handling(&self) -> (handler: FileHandler)
        ensures
            handler.served_dir() == self.files().served_dir(),
            handler.digests() == Map::<Seq<char>, Seq<char>>::empty(),
    {
        FileHandler::new(self.file_handler.get_served_dir())
    }

    /// The handler of the files that the peer lists and downloads.
    pub fn file_handler(&self) -> (handler: &FileHandler)
        ensures
            *handler == self.files(),
    {
        &self.file_handler
    }

    /// Ends a download whose file has been judged, given what came of the removal
    /// of the file if it was corrupt: whether the download succeeded. If a corrupt
    /// file could not be removed, this fails.
    pub fn finish_download<E>(
        &mut self,
        file_name: &str,
        verdict: Verdict,
        removal: Result<(), E>,
    ) -> (success: Result<bool, E>)
        ensures
            final(self).addresses() == old(self).addresses(),
            final(self).requests() == old(self).requests(),
            final(self).dials() == old(self).dials(),
            final(self).files().served_dir() == old(self).files().served_dir(),
            match (verdict, removal) {
                (Verdict::Intact, _) => {
                    &&& success == Ok::<bool, E>(true)
                    &&& final(self).files() == old(self).files()
                },
                (Verdict::Corrupt, Ok(_)) => {
                    &&& success == Ok::<bool, E>(false)
                    &&& final(self).files().digests() == old(self).files().digests().remove(
                        file_name@,
                    )
                },
                (Verdict::Corrupt, Err(error)) => {
                    &&& success == Err::<bool, E>(error)
                    &&& final(self).files().digests() == old(self).files().digests()
                },
            },
    {
        match verdict {
            Verdict::Intact => Ok(true),
            Verdict::Corrupt => match self.file_handler.remove_file(file_name, removal) {
                Ok(_) => Ok(false),
                Err(error) => Err(error),
            },
        }
    }

    /// Gives up a download whose file was not judged, given what came of the removal
    /// of the file: if that failed, so does this.
    pub fn abandon_download<E>(&mut self, file_name: &str, removal: Result<(), E>) -> (
        result: Result<(), E>)
        ensures
            result == removal,
            final(self).addresses() == old(self).addresses(),
            final(self).requests() == old(self).requests(),
            final(self).dials() == old(self).dials(),
            final(self).files().served_dir() == old(self).files().served_dir(),
            final(self).files().digests() == if removal is Ok {
                old(self).files().digests().remove(file_name@)
            } else {
                old(self).files().digests()
            },
    {
        self.file_handler.remove_file(file_name, removal)
    }

    /// Whether a request has no response yet.
    pub fn is_outstanding(&self, request_id: u64) -> (outstanding: bool)
        ensures
            outstanding == self.requests().contains_key(request_id),
    {
        broadcast use vstd::std_specs::hash::group_hash_axioms;

        self.outstanding_requests.contains_key(&request_id)
    }

    /// The address to dial before a stream to a peer is opened: the one that was
    /// discovered first.
    pub fn open_new_stream(&self, peer_id: &PeerId) -> (route: Result<Address, NoRoute>)
        ensures
            match route {
                Ok(address) => {
                    let known = address_book::known(self.addresses(), peer_id@);
                    known.len() > 0 && address@ == known[0]
                },
                Err(NoRoute::UnknownPeer) => !self.addresses().contains_key(peer_id@),
                Err(NoRoute::NoAddress) => self.addresses().contains_key(peer_id@)
                    && self.addresses()[peer_id@].len() == 0,
            },
    {
        match self.peer_address_map.route(peer_id) {
            Ok(address) => Ok(address.clone()),
            Err(reason) => Err(reason),
        }
    }

    /// The message about a stream that the peer did not open.
    pub fn stream_failure(peer_id: &PeerId, unsupported: bool, error: &str) -> (shown: String)
        ensures
            shown@ == if unsupported {
                "Peer "@ + peer_id@ + " does not support the file transfer protocol: "@ + error@
            } else {
                "Error opening stream to peer "@ + peer_id@ + ": "@ + error@
            },
    {
        let id = peer_id.to_text();
        if unsupported {
            let start = text::joined("Peer ", id.as_str());
            let middle = text::joined(
                start.as_str(),
                " does not support the file transfer protocol: ",
            );
            text::joined(middle.as_str(), error)
        } else {
            let start = text::joined("Error opening stream to peer ", id.as_str());
            let middle = text::joined(start.as_str(), ": ");
            text::joined(middle.as_str(), error)
        }
    }

    /// What to do about a command.
    pub open spec fn command_action(
        &self,
        command: ReplCommand<C>,
        action: CommandAction<C>,
    ) -> bool {
        match command {
            ReplCommand::Dial(peer, reply) => if !self.addresses().contains_key(peer@) {
                action == CommandAction::<C>::AnswerDial(
                    DialAnswer { reply, result: Err(DialError::UnknownPeer) },
                )
            } else if self.addresses()[peer@].len() == 0 {
                action == CommandAction::<C>::AnswerDial(
                    DialAnswer { reply, result: Err(DialError::NoAddress) },
                )
            } else {
                action matches CommandAction::Dial { address, peer: dialed, reply: pending }
                    && address@ == peer::multiaddr_with_peer(self.addresses()[peer@][0], peer@)
                    && dialed == peer && pending == reply
            },
            ReplCommand::GetPeerList(reply) => action == CommandAction::<C>::AnswerPeers(reply),
            ReplCommand::GetMyPeerId(reply) => action == CommandAction::<C>::AnswerIdentity(reply),
            ReplCommand::ListLocalFiles(reply) => action == CommandAction::<C>::AnswerLocalFiles(
                reply,
            ),
            ReplCommand::ListPeerFiles(peer, reply) => {
                let request = FileRequest(FileRequestCommand::ListFiles);
                action == CommandAction::<C>::SendRequest { peer, request, reply }
            },
            ReplCommand::DoesFileExist(peer, file_name, reply) => {
                let request = FileRequest(FileRequestCommand::FileExists(file_name));
                action == CommandAction::<C>::SendRequest { peer, request, reply }
            },
            ReplCommand::GetFileFromPeer(peer, file_name, reply) => action == CommandAction::<
                C,
            >::Download { peer, file_name, reply },
            ReplCommand::Shutdown => action == CommandAction::<C>::Nothing,
        }
    }

    /// Takes a command of the command line.
    pub fn handle_repl_command(&self, command: ReplCommand<C>) -> (outcome: (
        CommandAction<C>,
        CommandCoreBehavior,
    ))
        ensures
            self.command_action(command, outcome.0),
            outcome.1 == if command is Shutdown {
                CommandCoreBehavior::Quit
            } else {
                CommandCoreBehavior::Continue
            },
    {
        let action = match command {
            ReplCommand::Dial(peer, reply) => match self.peer_address_map.route(&peer) {
                Ok(address) => {
                    let address = address.with_peer(&peer);
                    CommandAction::Dial { address, peer, reply }
                },
                Err(NoRoute::NoAddress) => CommandAction::AnswerDial(
                    DialAnswer { reply, result: Err(DialError::NoAddress) },
                ),
                Err(NoRoute::UnknownPeer) => CommandAction::AnswerDial(
                    DialAnswer { reply, result: Err(DialError::UnknownPeer) },
                ),
            },
            ReplCommand::GetPeerList(reply) => CommandAction::AnswerPeers(reply),
            ReplCommand::GetMyPeerId(reply) => CommandAction::AnswerIdentity(reply),
            ReplCommand::ListLocalFiles(reply) => CommandAction::AnswerLocalFiles(reply),
            ReplCommand::ListPeerFiles(peer, reply) => {
                let request = FileRequest(FileRequestCommand::ListFiles);
                CommandAction::SendRequest { peer, request, reply }
            },
            ReplCommand::DoesFileExist(peer, file_name, reply) => {
                let request = FileRequest(FileRequestCommand::FileExists(file_name));
                CommandAction::SendRequest { peer, request, reply }
            },
            ReplCommand::GetFileFromPeer(peer, file_name, reply) => CommandAction::Download {
                peer,
                file_name,
                reply,
            },
            ReplCommand::Shutdown => {
                return (CommandAction::Nothing, CommandCoreBehavior::Quit);
            },
        };
        (action, CommandCoreBehavior::Continue)
    }

    /// Takes what came of a dial. If the network took it on, its outcome is still
    /// to come, and the answer waits for that.
    pub fn dial_result(
        &mut self,
        peer: PeerId,
        reply: C::Dial,
        result: Result<(), C::Error>,
    ) -> (answer: Option<DialAnswer<C>>)
        ensures
            final(self).files() == old(self).files(),
            final(self).addresses() == old(self).addresses(),
            final(self).requests() == old(self).requests(),
            match result {
                Ok(_) => {
                    &&& answer is None
                    &&& final(self).dials() == old(self).dials().insert(peer@, reply)
                },
                Err(error) => {
                    &&& answer == Some(
                        DialAnswer::<C> { reply, result: Err(DialError::Network(error)) },
                    )
                    &&& final(self).dials() == old(self).dials()
                },
            },
    {
        match result {
            Ok(_) => {
                self.outstanding_dial_events.insert(peer, reply);
                None
            },
            Err(error) => Some(DialAnswer { reply, result: Err(DialError::Network(error)) }),
        }
    }

    /// Takes the number under which a request was sent. Its answer waits for the
    /// response.
    pub fn request_sent(&mut self, request_id: u64, reply: C::Query)
        ensures
            final(self).files() == old(self).files(),
            final(self).addresses() == old(self).addresses(),
            final(self).requests() == old(self).requests().insert(request_id, reply),
            final(self).dials() == old(self).dials(),
    {
        broadcast use vstd::std_specs::hash::group_hash_axioms;

        self.outstanding_requests.insert(request_id, reply);
    }

    /// The peers among the discovered ones, each of them once: a peer that is
    /// reached over several interfaces is discovered several times.
    pub fn peer_list(discovered: &Vec<PeerId>) -> (peers: Vec<PeerId>)
        ensures
            peer::ids(peers@).no_duplicates(),
            forall|id: Seq<char>| #[trigger]
                peer::ids(peers@).contains(id) <==> peer::ids(discovered@).contains(id),
    {
        let ghost all = peer::ids(discovered@);
        let mut peers: Vec<PeerId> = Vec::new();
        let mut i: usize = 0;
        while i < discovered.len()
            invariant
                i <= discovered@.len(),
                all == peer::ids(discovered@),
                peer::ids(peers@).no_duplicates(),
                forall|k: int| 0 <= k < i ==> peer::ids(peers@).contains(#[trigger] all[k]),
                forall|k: int|
                    0 <= k < peers@.len() ==> all.contains(#[trigger] peer::ids(peers@)[k]),
            decreases discovered@.len() - i,
        {
            let ghost before = peer::ids(peers@);
            if !peer::is_among(&discovered[i], &peers) {
                peers.push(discovered[i].clone());
                let ghost after = peer::ids(peers@);
                assert(after =~= before.push(all[i as int]));
                assert(after[before.len() as int] == all[i as int]);
                assert forall|k: int| 0 <= k < i implies after.contains(#[trigger] all[k]) by {
                    let j = choose|j: int| 0 <= j < before.len() && before[j] == all[k];
                    assert(after[j] == all[k]);
                }
            }
            i = i + 1;
        }
        assert forall|id: Seq<char>| all.contains(id) implies #[trigger] peer::ids(
            peers@,
        ).contains(id) by {
            let k = choose|k: int| 0 <= k < all.len() && all[k] == id;
            assert(peer::ids(peers@).contains(all[k]));
        }
        assert forall|id: Seq<char>| #[trigger] peer::ids(peers@).contains(id) implies all.contains(
            id,
        ) by {
            let k = choose|k: int| 0 <= k < peers@.len() && peer::ids(peers@)[k] == id;
            assert(all.contains(peer::ids(peers@)[k]));
        }
        peers
    }

    /// Whether an event is one that can happen: responses come only to requests that
    /// have none yet, and so do failures.
    pub open spec fn can_happen(&self, event: SwarmEvent<C>) -> bool {
        match event {
            SwarmEvent::Response { request_id, .. } => self.requests().contains_key(request_id),
            SwarmEvent::OutboundFailure { request_id, .. } => self.requests().contains_key(
                request_id,
            ),
            _ => true,
        }
    }

    /// What to do about an event.
    pub open spec fn event_action(&self, event: SwarmEvent<C>, action: SwarmAction<C>) -> bool {
        match event {
            SwarmEvent::Request { request, channel } => match request.0 {
                FileRequestCommand::ListFiles => action == SwarmAction::<C>::RespondWithFiles(
                    channel,
                ),
                FileRequestCommand::FileExists(file_name) => action == SwarmAction::<
                    C,
                >::RespondWithExistence { file_name, channel },
            },
            SwarmEvent::Response { request_id, response } => action == SwarmAction::<
                C,
            >::AnswerQuery { reply: self.requests()[request_id], result: Ok(result_of(response)) },
            SwarmEvent::OutboundFailure { request_id, error } => action == SwarmAction::<
                C,
            >::AnswerQuery { reply: self.requests()[request_id], result: Err(error) },
            SwarmEvent::Discovered(list) => action == SwarmAction::<C>::AddAddresses(list),
            SwarmEvent::Expired(list) => action matches SwarmAction::RemoveAddresses(noted)
                && address_book::sightings(noted@) == address_book::of_known_peers(
                self.addresses(),
                address_book::sightings(list@),
            ),
            SwarmEvent::ConnectionEstablished { peer, is_dialer } => if is_dialer
                && self.dials().contains_key(peer@) {
                action matches SwarmAction::AnswerDial(answer) && answer.reply
                    == self.dials()[peer@] && answer.result is Ok
            } else {
                action == SwarmAction::<C>::Nothing
            },
            SwarmEvent::OutgoingConnectionError { peer: Some(peer), error } =>
            if self.dials().contains_key(peer@) {
                action == SwarmAction::<C>::AnswerDial(
                    DialAnswer {
                        reply: self.dials()[peer@],
                        result: Err(DialError::Network(error)),
                    },
                )
            } else {
                action == SwarmAction::<C>::Nothing
            },
            SwarmEvent::OutgoingConnectionError { peer: None, .. } => action == SwarmAction::<
                C,
            >::Nothing,
            SwarmEvent::Other => action == SwarmAction::<C>::Nothing,
        }
    }

    /// The addresses that are known after an event.
    pub open spec fn addresses_after(&self, event: SwarmEvent<C>) -> KnownAddresses {
        match event {
            SwarmEvent::Discovered(list) => address_book::after_discovery(
                self.addresses(),
                address_book::sightings(list@),
            ),
            SwarmEvent::Expired(list) => address_book::after_expiry(
                self.addresses(),
                address_book::sightings(list@),
            ),
            _ => self.addresses(),
        }
    }

    /// The requests that have no response after an event.
    pub open spec fn requests_after(&self, event: SwarmEvent<C>) -> Map<u64, C::Query> {
        match event {
            SwarmEvent::Response { request_id, .. } => self.requests().remove(request_id),
            SwarmEvent::OutboundFailure { request_id, .. } => self.requests().remove(request_id),
            _ => self.requests(),
        }
    }

    /// The dials that have no outcome after an event.
    pub open spec fn dials_after(&self, event: SwarmEvent<C>) -> Map<Seq<char>, C::Dial> {
        match event {
            SwarmEvent::ConnectionEstablished { peer, is_dialer: true } => self.dials().remove(
                peer@,
            ),
            SwarmEvent::OutgoingConnectionError { peer: Some(peer), .. } => self.dials().remove(
                peer@,
            ),
            _ => self.dials(),
        }
    }

    /// Takes something that happened on the network.
    pub fn handle_swarm_event(&mut self, event: SwarmEvent<C>) -> (action: SwarmAction<C>)
        requires
            old(self).can_happen(event),
        ensures
            old(self).event_action(event, action),
            final(self).files() == old(self).files(),
            final(self).addresses() == old(self).addresses_after(event),
            final(self).requests() == old(self).requests_after(event),
            final(self).dials() == old(self).dials_after(event),
    {
        broadcast use vstd::std_specs::hash::group_hash_axioms;

        match event {
            SwarmEvent::Request { request, channel } => match request.0 {
                FileRequestCommand::ListFiles => SwarmAction::RespondWithFiles(channel),
                FileRequestCommand::FileExists(file_name) => SwarmAction::RespondWithExistence {
                    file_name,
                    channel,
                },
            },
            SwarmEvent::Response { request_id, response } => {
                let result = match response.0 {
                    FileResponseCommand::FileList(files) => QueryResult::Files(files),
                    FileResponseCommand::FileExists(exists) => QueryResult::Boolean(exists),
                };
                match self.outstanding_requests.remove(&request_id) {
                    Some(reply) => SwarmAction::AnswerQuery { reply, result: Ok(result) },
                    None => SwarmAction::Nothing,
                }
            },
            SwarmEvent::OutboundFailure { request_id, error } => {
                match self.outstanding_requests.remove(&request_id) {
                    Some(reply) => SwarmAction::AnswerQuery { reply, result: Err(error) },
                    None => SwarmAction::Nothing,
                }
            },
            SwarmEvent::Discovered(list) => {
                self.peer_address_map.discover(&list);
                SwarmAction::AddAddresses(list)
            },
            SwarmEvent::Expired(list) => {
                let noted = self.peer_address_map.expire(&list);
                SwarmAction::RemoveAddresses(noted)
            },
            SwarmEvent::ConnectionEstablished { peer, is_dialer } => {
                if is_dialer {
                    match self.outstanding_dial_events.remove(&peer) {
                        Some(reply) => SwarmAction::AnswerDial(
                            DialAnswer { reply, result: Ok(()) },
                        ),
                        None => SwarmAction::Nothing,
                    }
                } else {
                    SwarmAction::Nothing
                }
            },
            SwarmEvent::OutgoingConnectionError { peer: Some(peer), error } => {
                match self.outstanding_dial_events.remove(&peer) {
                    Some(reply) => SwarmAction::AnswerDial(
                        DialAnswer { reply, result: Err(DialError::Network(error)) },
                    ),
                    None => SwarmAction::Nothing,
                }
            },
            SwarmEvent::OutgoingConnectionError { peer: None, .. } => SwarmAction::Nothing,
            SwarmEvent::Other => SwarmAction::Nothing,
        }
    }

    /// The answer to a query for the local files, from what was read of the served
    /// directory.
    pub fn local_files<E>(&self, entries: &Vec<DirectoryEntry>, failure: Option<E>) -> (
        result: Result<QueryResult, E>)
        ensures
            match failure {
                Some(error) => result == Err::<QueryResult, E>(error),
                None => result matches Ok(files) && files@ == QueryAnswer::Files(
                    files::listed(entries@),
                ),
            },
    {
        match self.file_handler.list_files(entries, failure) {
            Ok(names) => Ok(QueryResult::Files(names)),
            Err(error) => Err(error),
        }
    }

    /// The response to a request for the files, from what was read of the served
    /// directory.
    pub fn respond_with_files<E>(&self, entries: &Vec<DirectoryEntry>, failure: Option<E>) -> (
        response: Result<FileResponse, E>)
        ensures
            match failure {
                Some(error) => response == Err::<FileResponse, E>(error),
                None => response matches Ok(response) && result_of(response)@ == QueryAnswer::Files(
                    files::listed(entries@),
                ),
            },
    {
        match self.file_handler.list_files(entries, failure) {
            Ok(names) => Ok(FileResponse(FileResponseCommand::FileList(names))),
            Err(error) => Err(error),
        }
    }

    /// The response to a request whether a file exists, from what was read of the
    /// served directory.
    pub fn respond_with_existence<E>(
        &self,
        names: &Vec<String>,
        failure: Option<E>,
        file_name: &str,
    ) -> (response: Result<FileResponse, E>)
        ensures
            response == if text::texts(names@).contains(file_name@) {
                Ok::<FileResponse, E>(FileResponse(FileResponseCommand::FileExists(true)))
            } else {
                match failure {
                    Some(error) => Err::<FileResponse, E>(error),
                    None => Ok::<FileResponse, E>(
                        FileResponse(FileResponseCommand::FileExists(false)),
                    ),
                }
            },
    {
        match self.file_handler.file_exists(names, failure, file_name) {
            Ok(exists) => Ok(FileResponse(FileResponseCommand::FileExists(exists))),
            Err(error) => Err(error),
        }
    }

    /// Takes the next input from either source, and says whether to go on.
    pub fn run(&mut self, input: CoreInput<C>) -> (outcome: (
        CoreAction<C>,
        CommandCoreBehavior,
    ))
        requires
            input matches CoreInput::Event(Some(event)) ==> old(self).can_happen(event),
        ensures
            final(self).files() == old(self).files(),
            match input {
                CoreInput::Command(Some(command)) => {
                    &&& outcome.0 matches CoreAction::Command(action)
                    &&& old(self).command_action(command, action)
                    &&& *final(self) == *old(self)
                },
                CoreInput::Event(Some(event)) => {
                    &&& outcome.0 matches CoreAction::Event(action)
                    &&& old(self).event_action(event, action)
                    &&& final(self).addresses() == old(self).addresses_after(event)
                    &&& final(self).requests() == old(self).requests_after(event)
                    &&& final(self).dials() == old(self).dials_after(event)
                },
                _ => outcome.0 == CoreAction::<C>::Nothing && *final(self) == *old(self),
            },
            outcome.1 == CommandCoreBehavior::Quit <==> (input matches CoreInput::Command(
                Some(command),
            ) && command is Shutdown),
    {
        match input {
            CoreInput::Command(Some(command)) => {
                let (action, behavior) = self.handle_repl_command(command);
                (CoreAction::Command(action), behavior)
            },
            CoreInput::Event(Some(event)) => {
                let action = self.handle_swarm_event(event);
                (CoreAction::Event(action), CommandCoreBehavior::Continue)
            },
            _ => (CoreAction::Nothing, CommandCoreBehavior::Continue),
        }
    }
}

/// The parts of a client: a command line whose commands go to the given sender,
/// and a command core that serves the directory.
pub fn setup_client_system<S, C: Channels>(command_sender: S, served_dir: PathBuf) -> (system: (
    Repl<S>,
    CommandCore<C>,
))
    ensures
        system.0.command_sender == command_sender,
        system.1.is_new(served_dir),
{
    (Repl::new(command_sender), CommandCore::new(served_dir))
}

/// The part of a server: a command core that serves the directory.
pub fn setup_file_provider_system<C: Channels>(served_dir: PathBuf) -> (core: CommandCore<C>)
    ensures
        core.is_new(served_dir),
{
    CommandCore::new(served_dir)
}

/// A request is answered once: the response to it, or its failure, is the answer
/// on the channel that was kept for it, and after that it is as if the request had
/// never been made. Neither can come a second time.
pub proof fn law_request_is_answered_once<C: Channels>(
    before: CommandCore<C>,
    sent: CommandCore<C>,
    answered: CommandCore<C>,
    request_id: u64,
    reply: C::Query,
    response: FileResponse,
    error: C::Error,
    action: SwarmAction<C>,
)
    requires
        !before.requests().contains_key(request_id),
        sent.requests() == before.requests().insert(request_id, reply),
    ensures
        ({
            let response_came = SwarmEvent::<C>::Response { request_id, response };
            let failed = SwarmEvent::<C>::OutboundFailure { request_id, error };
            &&& sent.can_happen(response_came)
            &&& sent.can_happen(failed)
            &&& sent.event_action(response_came, action) ==> action
                == SwarmAction::<C>::AnswerQuery { reply, result: Ok(result_of(response)) }
            &&& sent.event_action(failed, action) ==> action
                == SwarmAction::<C>::AnswerQuery { reply, result: Err(error) }
            &&& sent.requests_after(response_came) == before.requests()
            &&& sent.requests_after(failed) == before.requests()
            &&& answered.requests() == before.requests() ==> !answered.can_happen(response_came)
                && !answered.can_happen(failed)
        }),
{
    assert(before.requests().insert(request_id, reply).remove(request_id) =~= before.requests());
}

/// A dial that the network took on is answered once, when there is a connection
/// or when there is none to be had.
pub proof fn law_dial_is_answered_once<C: Channels>(
    before: CommandCore<C>,
    dialing: CommandCore<C>,
    peer: PeerId,
    reply: C::Dial,
    error: C::Error,
    action: SwarmAction<C>,
)
    requires
        !before.dials().contains_key(peer@),
        dialing.dials() == before.dials().insert(peer@, reply),
    ensures
        ({
            let connected = SwarmEvent::<C>::ConnectionEstablished { peer, is_dialer: true };
            let failed = SwarmEvent::<C>::OutgoingConnectionError { peer: Some(peer), error };
            &&& dialing.event_action(connected, action) ==> (action matches SwarmAction::AnswerDial(
                answer,
            ) && answer.reply == reply && answer.result is Ok)
            &&& dialing.dials_after(connected) == before.dials()
            &&& dialing.event_action(failed, action) ==> action == SwarmAction::<C>::AnswerDial(
                DialAnswer { reply, result: Err(DialError::Network(error)) },
            )
            &&& dialing.dials_after(failed) == before.dials()
        }),
{
    assert(before.dials().insert(peer@, reply).remove(peer@) =~= before.dials());
}

/// `list <peer_id>` shows the files of that peer: the question becomes a request to
/// it, and what it responds, from the entries of its served directory, is shown.
pub proof fn law_list_shows_the_files_of_the_peer<C: Channels>(
    line: Seq<char>,
    peer: PeerId,
    asker: CommandCore<C>,
    reply: C::Query,
    action: CommandAction<C>,
    entries: Seq<DirectoryEntry>,
    response: FileResponse,
)
    requires
        text::words(line).len() >= 2,
        text::words(line)[0] == "list"@,
        peer::parsed_peer_id(text::words(line)[1]) == Some(peer@),
        asker.command_action(ReplCommand::ListPeerFiles(peer, reply), action),
        result_of(response)@ == QueryAnswer::Files(files::listed(entries)),
    ensures
        repl::on_input(line).output.len() == 0,
        repl::on_input(line).next == repl::Course::Ask(
            Question::ListPeerFiles(peer@),
            repl::Purpose::Files,
        ),
        action == (CommandAction::<C>::SendRequest {
            peer,
            request: FileRequest(FileRequestCommand::ListFiles),
            reply,
        }),
        repl::on_answer(repl::Purpose::Files, repl::Answer::Files(result_of(response)@)) == Some(
            repl::Move { output: files::listed(entries), next: repl::Course::Prompt },
        ),
{
    reveal_strlit("list");
    reveal_strlit("help");
    reveal_strlit("quit");
    reveal_strlit("exit");
    reveal_strlit("peers");
    reveal_strlit("dial");
    assert("list"@[0] == 'l');
}

/// What a peer responded arrives as it is: its files, all of them, or its yes or no.
pub proof fn law_responses_arrive_unchanged(files: Vec<String>, exists: bool)
    ensures
        result_of(FileResponse(FileResponseCommand::FileList(files))) == QueryResult::Files(files),
        result_of(FileResponse(FileResponseCommand::FileExists(exists))) == QueryResult::Boolean(
            exists,
        ),
{
}

/// Each command leads to one action, with the peer, the file name and the channel that
/// the command holds.
pub proof fn law_commands_lead_to_their_actions<C: Channels>(
    core: CommandCore<C>,
    peer: PeerId,
    file_name: String,
    dial: C::Dial,
    peers: C::Peers,
    identity: C::Identity,
    query: C::Query,
    download: C::Download,
    action: CommandAction<C>,
)
    ensures
        core.command_action(ReplCommand::GetPeerList(peers), action) <==> action
            == CommandAction::<C>::AnswerPeers(peers),
        core.command_action(ReplCommand::GetMyPeerId(identity), action) <==> action
            == CommandAction::<C>::AnswerIdentity(identity),
        core.command_action(ReplCommand::ListLocalFiles(query), action) <==> action
            == CommandAction::<C>::AnswerLocalFiles(query),
        core.command_action(ReplCommand::ListPeerFiles(peer, query), action) <==> action == (
        CommandAction::<C>::SendRequest {
            peer,
            request: FileRequest(FileRequestCommand::ListFiles),
            reply: query,
        }),
        core.command_action(ReplCommand::DoesFileExist(peer, file_name, query), action) <==> action
            == (CommandAction::<C>::SendRequest {
            peer,
            request: FileRequest(FileRequestCommand::FileExists(file_name)),
            reply: query,
        }),
        core.command_action(ReplCommand::GetFileFromPeer(peer, file_name, download), action)
            <==> action == (CommandAction::<C>::Download { peer, file_name, reply: download }),
        core.command_action(ReplCommand::Shutdown, action) <==> action
            == CommandAction::<C>::Nothing,
        core.command_action(ReplCommand::Dial(peer, dial), action) ==> {
            let known = core.addresses().contains_key(peer@);
            let addresses = core.addresses()[peer@];
            &&& !known ==> action == CommandAction::<C>::AnswerDial(
                DialAnswer { reply: dial, result: Err(DialError::UnknownPeer) },
            )
            &&& known && addresses.len() == 0 ==> action == CommandAction::<C>::AnswerDial(
                DialAnswer { reply: dial, result: Err(DialError::NoAddress) },
            )
            &&& known && addresses.len() > 0 ==> (action matches CommandAction::Dial {
                address,
                peer: dialed,
                reply,
            } && address@ == peer::multiaddr_with_peer(addresses[0], peer@) && dialed == peer
                && reply == dial)
        },
{
}

/// `get <peer_id> <file_name>` downloads what was typed: once the command line asks for
/// a file, whatever the core does about that command is to download, from the peer that
/// was typed, the file of the whole name that was typed, and to answer on the channel of
/// the command. The header that begins the download names that file.
pub proof fn law_get_downloads_what_was_typed<C: Channels>(
    line: Seq<char>,
    id: Seq<char>,
    core: CommandCore<C>,
    command: ReplCommand<C>,
    action: CommandAction<C>,
)
    requires
        text::words(line).len() == 3,
        text::words(line)[0] == "get"@,
        peer::parsed_peer_id(text::words(line)[1]) == Some(id),
        command@ == Question::GetFileFromPeer(id, text::words(line)[2]),
        core.command_action(command, action),
    ensures
        repl::on_input(line).next == repl::Course::Ask(
            Question::GetPeerList,
            repl::Purpose::PeersToGetFrom(id, text::words(line)[2]),
        ),
        ({
            &&& command matches ReplCommand::GetFileFromPeer(_, _, channel)
            &&& action matches CommandAction::Download { peer, file_name, reply }
            &&& peer@ == id
            &&& file_name@ == text::words(line)[2]
            &&& reply == channel
            &&& header::header(TransmitRequest::FileContents, file_name@).skip(5)
                == vstd::utf8::encode_utf8(text::words(line)[2])
            &&& header::header(TransmitRequest::FileContents, file_name@)[0] == 0
        }),
{
    repl::law_lines_are_taken_by_their_words(line, line);
    repl::law_get_looks_for_the_peer(text::words(line), Some(id));
    header::law_header_layout(TransmitRequest::FileContents, text::words(line)[2]);
}

/// Whatever question about files a command asks, the core asks or fetches exactly that:
/// of the peer and of the file that the question names, and with the channel of the
/// command.
pub proof fn law_questions_are_passed_on<C: Channels>(
    core: CommandCore<C>,
    command: ReplCommand<C>,
    action: CommandAction<C>,
    id: Seq<char>,
    asked: Seq<char>,
)
    requires
        core.command_action(command, action),
    ensures
        command@ == Question::GetFileFromPeer(id, asked) ==> {
            &&& command matches ReplCommand::GetFileFromPeer(_, _, channel)
            &&& action matches CommandAction::Download { peer, file_name, reply }
            &&& peer@ == id && file_name@ == asked && reply == channel
        },
        command@ == Question::DoesFileExist(id, asked) ==> {
            &&& command matches ReplCommand::DoesFileExist(_, _, channel)
            &&& action matches CommandAction::SendRequest { peer, request, reply }
            &&& request.0 matches FileRequestCommand::FileExists(file_name)
            &&& peer@ == id && file_name@ == asked && reply == channel
        },
        command@ == Question::ListPeerFiles(id) ==> {
            &&& command matches ReplCommand::ListPeerFiles(_, channel)
            &&& action matches CommandAction::SendRequest { peer, request, reply }
            &&& request.0 is ListFiles
            &&& peer@ == id && reply == channel
        },
{
}

/// Which events can happen: a response or a failure of a request only while the request
/// has neither, and anything else at any time.
pub proof fn law_events_that_can_happen<C: Channels>(core: CommandCore<C>, event: SwarmEvent<C>)
    ensures
        core.can_happen(event) <==> {
            &&& event matches SwarmEvent::Response { request_id, .. }
                ==> core.requests().contains_key(request_id)
            &&& event matches SwarmEvent::OutboundFailure { request_id, .. }
                ==> core.requests().contains_key(request_id)
        },
{
}

/// A request of another peer is responded to on its own channel: one for the files with
/// the files, and one for the existence of a file with that of the file it names.
pub proof fn law_requests_of_peers_are_responded_to<C: Channels>(
    core: CommandCore<C>,
    file_name: String,
    channel: C::Response,
    action: SwarmAction<C>,
)
    ensures
        core.event_action(
            SwarmEvent::Request { request: FileRequest(FileRequestCommand::ListFiles), channel },
            action,
        ) <==> action == SwarmAction::<C>::RespondWithFiles(channel),
        core.event_action(
            SwarmEvent::Request {
                request: FileRequest(FileRequestCommand::FileExists(file_name)),
                channel,
            },
            action,
        ) <==> action == (SwarmAction::<C>::RespondWithExistence { file_name, channel }),
{
}

/// The answer of another peer arrives unchanged: whoever asked whether it has a file is
/// told yes if the name is among those of its served directory, and no if it is not, on
/// the channel that was kept for the request.
pub proof fn law_existence_is_told_as_it_is<C: Channels>(
    asker: CommandCore<C>,
    request_id: u64,
    names: Seq<String>,
    file_name: Seq<char>,
    response: FileResponse,
    action: SwarmAction<C>,
)
    requires
        asker.requests().contains_key(request_id),
        response == FileResponse(
            FileResponseCommand::FileExists(
                exists|i: int| 0 <= i < names.len() && (#[trigger] names[i])@ == file_name,
            ),
        ),
        asker.event_action(SwarmEvent::Response { request_id, response }, action),
    ensures
        ({
            &&& action matches SwarmAction::AnswerQuery { reply, result }
            &&& reply == asker.requests()[request_id]
            &&& result matches Ok(QueryResult::Boolean(told))
            &&& told <==> text::texts(names).contains(file_name)
            &&& told <==> exists|i: int|
                0 <= i < names.len() && (#[trigger] names[i])@ == file_name
        }),
{
    if text::texts(names).contains(file_name) {
        let i = choose|i: int|
            0 <= i < text::texts(names).len() && text::texts(names)[i] == file_name;
        assert(names[i]@ == file_name);
    }
    if exists|i: int| 0 <= i < names.len() && (#[trigger] names[i])@ == file_name {
        let i = choose|i: int| 0 <= i < names.len() && (#[trigger] names[i])@ == file_name;
        assert(text::texts(names)[i] == file_name);
    }
}

/// Responses and failures go to whoever asked, unchanged.
pub proof fn law_queries_are_answered<C: Channels>(
    core: CommandCore<C>,
    request_id: u64,
    files: Vec<String>,
    exists: bool,
    error: C::Error,
    action: SwarmAction<C>,
)
    ensures
        core.event_action(
            SwarmEvent::Response {
                request_id,
                response: FileResponse(FileResponseCommand::FileList(files)),
            },
            action,
        ) <==> action == (SwarmAction::<C>::AnswerQuery {
            reply: core.requests()[request_id],
            result: Ok(QueryResult::Files(files)),
        }),
        core.event_action(
            SwarmEvent::Response {
                request_id,
                response: FileResponse(FileResponseCommand::FileExists(exists)),
            },
            action,
        ) <==> action == (SwarmAction::<C>::AnswerQuery {
            reply: core.requests()[request_id],
            result: Ok(QueryResult::Boolean(exists)),
        }),
        core.event_action(SwarmEvent::OutboundFailure { request_id, error }, action) <==> action
            == (SwarmAction::<C>::AnswerQuery {
            reply: core.requests()[request_id],
            result: Err(error),
        }),
{
}

/// A dial is answered by a connection that this peer dialed and by a failure to connect,
/// if its peer has one outstanding; nothing else is done about connections.
pub proof fn law_dials_are_answered<C: Channels>(
    core: CommandCore<C>,
    peer: PeerId,
    is_dialer: bool,
    error: C::Error,
    action: SwarmAction<C>,
)
    ensures
        core.event_action(SwarmEvent::ConnectionEstablished { peer, is_dialer }, action) ==> {
            &&& is_dialer && core.dials().contains_key(peer@) ==> (
            action matches SwarmAction::AnswerDial(answer) && answer.reply == core.dials()[peer@]
                && answer.result is Ok)
            &&& !is_dialer || !core.dials().contains_key(peer@) ==> action
                == SwarmAction::<C>::Nothing
        },
        core.event_action(
            SwarmEvent::OutgoingConnectionError { peer: Some(peer), error },
            action,
        ) ==> {
            &&& core.dials().contains_key(peer@) ==> action == SwarmAction::<C>::AnswerDial(
                DialAnswer {
                    reply: core.dials()[peer@],
                    result: Err(DialError::Network(error)),
                },
            )
            &&& !core.dials().contains_key(peer@) ==> action == SwarmAction::<C>::Nothing
        },
        core.event_action(SwarmEvent::OutgoingConnectionError { peer: None, error }, action)
            <==> action == SwarmAction::<C>::Nothing,
        core.event_action(SwarmEvent::Other, action) <==> action == SwarmAction::<C>::Nothing,
{
}

/// Addresses that were discovered are all made known to the network, and those that
/// expired are all taken back, of peers that were known.
pub proof fn law_addresses_are_passed_on<C: Channels>(
    core: CommandCore<C>,
    list: Vec<(PeerId, Address)>,
    action: SwarmAction<C>,
)
    ensures
        core.event_action(SwarmEvent::Discovered(list), action) <==> action
            == SwarmAction::<C>::AddAddresses(list),
        core.event_action(SwarmEvent::Expired(list), action) ==> {
            &&& action matches SwarmAction::RemoveAddresses(noted)
            &&& address_book::sightings(noted@) == address_book::sightings(list@).filter(
                |sighting: (Seq<char>, Seq<u8>)| core.addresses().contains_key(sighting.0),
            )
        },
{
}

/// What an event changes: a response and a failure take their request off, a connection
/// that this peer dialed and a failure to connect take the dial of their peer off,
/// discoveries and expiries change the addresses, and nothing changes anything else.
pub proof fn law_what_events_change<C: Channels>(core: CommandCore<C>, event: SwarmEvent<C>)
    ensures
        match event {
            SwarmEvent::Response { request_id, .. } => core.requests_after(event)
                == core.requests().remove(request_id),
            SwarmEvent::OutboundFailure { request_id, .. } => core.requests_after(event)
                == core.requests().remove(request_id),
            _ => core.requests_after(event) == core.requests(),
        },
        match event {
            SwarmEvent::ConnectionEstablished { peer, is_dialer } => core.dials_after(event)
                == if is_dialer {
                core.dials().remove(peer@)
            } else {
                core.dials()
            },
            SwarmEvent::OutgoingConnectionError { peer: Some(peer), .. } => core.dials_after(event)
                == core.dials().remove(peer@),
            _ => core.dials_after(event) == core.dials(),
        },
        match event {
            SwarmEvent::Discovered(list) => core.addresses_after(event)
                == address_book::after_discovery(core.addresses(), address_book::sightings(list@)),
            SwarmEvent::Expired(list) => core.addresses_after(event) == address_book::after_expiry(
                core.addresses(),
                address_book::sightings(list@),
            ),
            _ => core.addresses_after(event) == core.addresses(),
        },
{
}

/// A new core serves its directory, and knows no digest, no address, no request and no
/// dial.
pub proof fn law_new_core_is_empty<C: Channels>(
    core: CommandCore<C>,
    served_dir: PathBuf,
    file_name: Seq<char>,
    id: Seq<char>,
    request_id: u64,
)
    requires
        core.is_new(served_dir),
    ensures
        core.files().served_dir() == served_dir,
        core.files().digest_bytes(file_name).len() == 0,
        !core.addresses().contains_key(id),
        !core.requests().contains_key(request_id),
        !core.dials().contains_key(id),
{
}

} // verus!
