use file_sharing::command_core::{
    setup_client_system, setup_file_provider_system, CommandAction, CommandCore,
    CommandCoreBehavior, CoreAction, CoreInput, DialAnswer, DialError, SwarmAction, SwarmEvent,
};
use file_sharing::address_book::NoRoute;
use file_sharing::download::Verdict;
use file_sharing::files::{DirectoryEntry, SendStep};
use file_sharing::messages::{
    Channels, FileRequest, FileRequestCommand, FileResponse, FileResponseCommand, QueryResult,
    ReplCommand,
};
use file_sharing::peer::{Address, PeerId};
use file_sharing::repl::{Awaiting, Next, Repl, Reply};
use libp2p::multiaddr::{Multiaddr, Protocol};
use std::path::PathBuf;

const FIRST: &str = "QmNnooDu7bfjFPoTZYxMNLWUQJyrVwtbZg5gBMjTezGAJN";
const SECOND: &str = "QmaCpDMGvV2BGHeYERUEnRQAwe3N8SzbUtfsmvsqQLuvuJ";

/// Channels that are known by number.
struct Numbered;

impl Channels for Numbered {
    type Dial = u32;
    type Peers = u32;
    type Identity = u32;
    type Query = u32;
    type Download = u32;
    type Response = u32;
    type Error = &'static str;
}

type Core = CommandCore<Numbered>;

fn new_core() -> Core {
    setup_file_provider_system(PathBuf::from("shared"))
}

fn peer(id: &str) -> PeerId {
    PeerId::parse(id).unwrap()
}

fn address(text: &str) -> Address {
    Address::from_bytes(text.parse::<Multiaddr>().unwrap().to_vec()).unwrap()
}

fn sighting(id: &str, text: &str) -> Vec<(PeerId, Address)> {
    vec![(peer(id), address(text))]
}

fn command(core: &mut Core, command: ReplCommand<Numbered>) -> CommandAction<Numbered> {
    let (action, behavior) = core.run(CoreInput::Command(Some(command)));
    assert_eq!(behavior, CommandCoreBehavior::Continue);
    match action {
        CoreAction::Command(action) => action,
        _ => panic!("expected an action for a command"),
    }
}

fn event(core: &mut Core, event: SwarmEvent<Numbered>) -> SwarmAction<Numbered> {
    let (action, behavior) = core.run(CoreInput::Event(Some(event)));
    assert_eq!(behavior, CommandCoreBehavior::Continue);
    match action {
        CoreAction::Event(action) => action,
        _ => panic!("expected an action for an event"),
    }
}

fn discovered(core: &mut Core, id: &str, text: &str) {
    match event(core, SwarmEvent::Discovered(sighting(id, text))) {
        SwarmAction::AddAddresses(list) => assert_eq!(list, sighting(id, text)),
        _ => panic!("expected addresses"),
    }
}

fn dial_answer(action: SwarmAction<Numbered>) -> DialAnswer<Numbered> {
    match action {
        SwarmAction::AnswerDial(answer) => answer,
        _ => panic!("expected the answer to a dial"),
    }
}

fn connected(id: &str, is_dialer: bool) -> SwarmEvent<Numbered> {
    SwarmEvent::ConnectionEstablished { peer: peer(id), is_dialer }
}

fn unreachable_peer(id: &str) -> SwarmEvent<Numbered> {
    SwarmEvent::OutgoingConnectionError { peer: Some(peer(id)), error: "unreachable" }
}

#[test]
fn a_new_core() {
    let core = new_core();
    assert_eq!(core.file_handler().get_served_dir(), PathBuf::from("shared"));
    assert_eq!(core.file_handler().send_digest("a"), b"");
    assert!(!core.is_outstanding(0));
    assert_eq!(core.open_new_stream(&peer(FIRST)), Err(NoRoute::UnknownPeer));
}

#[test]
fn a_client_has_a_command_line_too() {
    let (repl, core): (Repl<&str>, Core) = setup_client_system("sender", PathBuf::from("mine"));
    assert_eq!(repl.command_sender, "sender");
    assert_eq!(core.file_handler().get_served_dir(), PathBuf::from("mine"));
}

#[test]
fn streams_have_a_handler_of_their_own() {
    let core = new_core();
    let mut handler = core.setup_inbound_stream_handling();
    let sending = handler.send_file("a".to_string(), true).unwrap();
    assert!(matches!(handler.send_piece(sending, &[]), SendStep::End));
    assert_eq!(handler.send_digest("a").len(), 64);
    assert_eq!(handler.get_served_dir(), PathBuf::from("shared"));
    assert_eq!(core.file_handler().send_digest("a"), b"");
    assert_eq!(core.setup_inbound_stream_handling().send_digest("a"), b"");
}

#[test]
fn shutdown_quits() {
    let (action, behavior) = new_core().run(CoreInput::Command(Some(ReplCommand::Shutdown)));
    assert!(matches!(action, CoreAction::Command(CommandAction::Nothing)));
    assert_eq!(behavior, CommandCoreBehavior::Quit);
}

#[test]
fn sources_that_have_run_dry() {
    for input in [CoreInput::Command(None), CoreInput::Event(None)] {
        let (action, behavior) = new_core().run(input);
        assert!(matches!(action, CoreAction::Nothing));
        assert_eq!(behavior, CommandCoreBehavior::Continue);
    }
}

#[test]
fn commands_that_are_answered_at_once() {
    let mut core = new_core();
    assert!(matches!(
        command(&mut core, ReplCommand::GetPeerList(1)),
        CommandAction::AnswerPeers(1)
    ));
    assert!(matches!(
        command(&mut core, ReplCommand::GetMyPeerId(2)),
        CommandAction::AnswerIdentity(2)
    ));
    assert!(matches!(
        command(&mut core, ReplCommand::ListLocalFiles(3)),
        CommandAction::AnswerLocalFiles(3)
    ));
}

#[test]
fn commands_that_become_requests() {
    let mut core = new_core();
    match command(&mut core, ReplCommand::ListPeerFiles(peer(FIRST), 4)) {
        CommandAction::SendRequest { peer: to, request, reply } => {
            assert_eq!(to, peer(FIRST));
            assert_eq!(request, FileRequest(FileRequestCommand::ListFiles));
            assert_eq!(reply, 4);
        }
        _ => panic!("expected a request"),
    }
    match command(&mut core, ReplCommand::DoesFileExist(peer(SECOND), "a".to_string(), 5)) {
        CommandAction::SendRequest { peer: to, request, reply } => {
            assert_eq!(to, peer(SECOND));
            assert_eq!(request, FileRequest(FileRequestCommand::FileExists("a".to_string())));
            assert_eq!(reply, 5);
        }
        _ => panic!("expected a request"),
    }
}

#[test]
fn a_download_is_asked_for() {
    match command(&mut new_core(), ReplCommand::GetFileFromPeer(peer(FIRST), "a".to_string(), 6)) {
        CommandAction::Download { peer: from, file_name, reply } => {
            assert_eq!((from, file_name.as_str(), reply), (peer(FIRST), "a", 6));
        }
        _ => panic!("expected a download"),
    }
}

#[test]
fn a_peer_that_was_never_discovered_is_not_dialed() {
    match command(&mut new_core(), ReplCommand::Dial(peer(FIRST), 7)) {
        CommandAction::AnswerDial(DialAnswer { reply, result }) => {
            assert_eq!(reply, 7);
            let error = result.unwrap_err();
            assert!(matches!(error, DialError::UnknownPeer));
            assert_eq!(error.message().unwrap(), "Peer was not in address map");
        }
        _ => panic!("expected an answer"),
    }
}

#[test]
fn a_peer_without_an_address_is_not_dialed() {
    let mut core = new_core();
    discovered(&mut core, FIRST, "/ip4/10.0.0.1/tcp/1");
    match event(&mut core, SwarmEvent::Expired(sighting(FIRST, "/ip4/10.0.0.1/tcp/1"))) {
        SwarmAction::RemoveAddresses(list) => {
            assert_eq!(list, sighting(FIRST, "/ip4/10.0.0.1/tcp/1"))
        }
        _ => panic!("expected addresses"),
    }
    match command(&mut core, ReplCommand::Dial(peer(FIRST), 8)) {
        CommandAction::AnswerDial(DialAnswer { reply, result }) => {
            assert_eq!(reply, 8);
            let error = result.unwrap_err();
            assert!(matches!(error, DialError::NoAddress));
            assert_eq!(error.message().unwrap(), "Peer did not have a valid address in map");
        }
        _ => panic!("expected an answer"),
    }
    assert_eq!(core.open_new_stream(&peer(FIRST)), Err(NoRoute::NoAddress));
}

#[test]
fn a_peer_is_dialed_at_its_first_address() {
    let mut core = new_core();
    discovered(&mut core, FIRST, "/ip4/10.0.0.1/tcp/1");
    discovered(&mut core, FIRST, "/ip4/10.0.0.2/tcp/2");
    match command(&mut core, ReplCommand::Dial(peer(FIRST), 9)) {
        CommandAction::Dial { address, peer: dialed, reply } => {
            let expected = "/ip4/10.0.0.1/tcp/1"
                .parse::<Multiaddr>()
                .unwrap()
                .with(Protocol::P2p(FIRST.parse().unwrap()));
            assert_eq!(address.to_bytes(), expected.to_vec());
            assert_eq!((dialed, reply), (peer(FIRST), 9));
        }
        _ => panic!("expected a dial"),
    }
    assert_eq!(core.open_new_stream(&peer(FIRST)), Ok(address("/ip4/10.0.0.1/tcp/1")));
}

#[test]
fn a_dial_that_the_network_refuses() {
    let mut core = new_core();
    let answer = core.dial_result(peer(FIRST), 10, Err("busy")).unwrap();
    assert_eq!(answer.reply, 10);
    let error = answer.result.unwrap_err();
    assert!(error.message().is_none());
    assert!(matches!(error, DialError::Network("busy")));
    assert!(matches!(event(&mut core, connected(FIRST, true)), SwarmAction::Nothing));
}

#[test]
fn a_dial_is_answered_once_when_it_succeeds() {
    let mut core = new_core();
    assert!(core.dial_result(peer(FIRST), 11, Ok(())).is_none());
    assert!(matches!(event(&mut core, connected(FIRST, false)), SwarmAction::Nothing));
    assert!(matches!(event(&mut core, connected(SECOND, true)), SwarmAction::Nothing));
    let answer = dial_answer(event(&mut core, connected(FIRST, true)));
    assert_eq!(answer.reply, 11);
    assert!(answer.result.is_ok());
    assert!(matches!(event(&mut core, connected(FIRST, true)), SwarmAction::Nothing));
}

#[test]
fn a_dial_is_answered_once_when_it_fails() {
    let mut core = new_core();
    assert!(core.dial_result(peer(FIRST), 12, Ok(())).is_none());
    let unknown = SwarmEvent::OutgoingConnectionError { peer: None, error: "lost" };
    assert!(matches!(event(&mut core, unknown), SwarmAction::Nothing));
    let answer = dial_answer(event(&mut core, unreachable_peer(FIRST)));
    assert_eq!(answer.reply, 12);
    assert!(matches!(answer.result, Err(DialError::Network("unreachable"))));
    assert!(matches!(event(&mut core, unreachable_peer(FIRST)), SwarmAction::Nothing));
}

#[test]
fn a_second_dial_takes_the_place_of_the_first() {
    let mut core = new_core();
    assert!(core.dial_result(peer(FIRST), 13, Ok(())).is_none());
    assert!(core.dial_result(peer(FIRST), 14, Ok(())).is_none());
    assert_eq!(dial_answer(event(&mut core, connected(FIRST, true))).reply, 14);
    assert!(matches!(event(&mut core, connected(FIRST, true)), SwarmAction::Nothing));
}

#[test]
fn a_request_is_answered_once() {
    let mut core = new_core();
    core.request_sent(1, 20);
    core.request_sent(2, 21);
    assert!(core.is_outstanding(1));
    let response = FileResponse(FileResponseCommand::FileList(vec!["a".to_string()]));
    match event(&mut core, SwarmEvent::Response { request_id: 1, response }) {
        SwarmAction::AnswerQuery { reply, result: Ok(QueryResult::Files(files)) } => {
            assert_eq!((reply, files), (20, vec!["a".to_string()]));
        }
        _ => panic!("expected files"),
    }
    assert!(!core.is_outstanding(1));
    assert!(core.is_outstanding(2));
    let response = FileResponse(FileResponseCommand::FileExists(true));
    match event(&mut core, SwarmEvent::Response { request_id: 2, response }) {
        SwarmAction::AnswerQuery { reply, result: Ok(QueryResult::Boolean(exists)) } => {
            assert_eq!((reply, exists), (21, true));
        }
        _ => panic!("expected an answer"),
    }
    assert!(!core.is_outstanding(2));
}

#[test]
fn a_request_that_fails() {
    let mut core = new_core();
    core.request_sent(3, 22);
    match event(&mut core, SwarmEvent::OutboundFailure { request_id: 3, error: "timeout" }) {
        SwarmAction::AnswerQuery { reply, result: Err(error) } => {
            assert_eq!((reply, error), (22, "timeout"));
        }
        _ => panic!("expected an error"),
    }
    assert!(!core.is_outstanding(3));
}

#[test]
fn requests_of_other_peers() {
    let mut core = new_core();
    let request = FileRequest(FileRequestCommand::ListFiles);
    assert!(matches!(
        event(&mut core, SwarmEvent::Request { request, channel: 30 }),
        SwarmAction::RespondWithFiles(30)
    ));
    let request = FileRequest(FileRequestCommand::FileExists("a".to_string()));
    match event(&mut core, SwarmEvent::Request { request, channel: 31 }) {
        SwarmAction::RespondWithExistence { file_name, channel } => {
            assert_eq!((file_name.as_str(), channel), ("a", 31));
        }
        _ => panic!("expected a response"),
    }
    assert!(matches!(event(&mut core, SwarmEvent::Other), SwarmAction::Nothing));
}

fn entries() -> Vec<DirectoryEntry> {
    vec![
        DirectoryEntry { file_name: Some("a".to_string()), is_file: Some(true) },
        DirectoryEntry { file_name: Some("d".to_string()), is_file: Some(false) },
    ]
}

#[test]
fn responses_from_the_served_directory() {
    let core = new_core();
    assert_eq!(
        core.respond_with_files::<&str>(&entries(), None),
        Ok(FileResponse(FileResponseCommand::FileList(vec!["a".to_string()])))
    );
    assert_eq!(core.respond_with_files(&entries(), Some("gone")), Err("gone"));
    let names = vec!["a".to_string(), "d".to_string()];
    assert_eq!(
        core.respond_with_existence::<&str>(&names, None, "d"),
        Ok(FileResponse(FileResponseCommand::FileExists(true)))
    );
    assert_eq!(
        core.respond_with_existence::<&str>(&names, None, "b"),
        Ok(FileResponse(FileResponseCommand::FileExists(false)))
    );
    assert_eq!(core.respond_with_existence(&names, Some("gone"), "b"), Err("gone"));
}

#[test]
fn local_files() {
    match new_core().local_files::<&str>(&entries(), None) {
        Ok(QueryResult::Files(files)) => assert_eq!(files, ["a"]),
        _ => panic!("expected files"),
    }
    match new_core().local_files(&entries(), Some("gone")) {
        Err(error) => assert_eq!(error, "gone"),
        Ok(_) => panic!("expected an error"),
    }
}

#[test]
fn a_peer_lists_the_files_of_another() {
    let (repl, mut asker): (Repl<()>, Core) = setup_client_system((), PathBuf::from("."));
    let then = match repl.handle_stdin_input(&format!("list {}", FIRST)).next {
        Next::Ask { command: ReplCommand::ListPeerFiles(_, ()), then } => then,
        _ => panic!("expected a list"),
    };
    let reply = match command(&mut asker, ReplCommand::ListPeerFiles(peer(FIRST), 40)) {
        CommandAction::SendRequest { reply, .. } => reply,
        _ => panic!("expected a request"),
    };
    asker.request_sent(1, reply);
    let response = new_core().respond_with_files::<&str>(&entries(), None).unwrap();
    let result = match event(&mut asker, SwarmEvent::Response { request_id: 1, response }) {
        SwarmAction::AnswerQuery { reply: 40, result: Ok(result) } => result,
        _ => panic!("expected an answer"),
    };
    match repl.resume::<String>(then, Reply::Files(Ok(result))) {
        Ok(step) => assert_eq!(step.output, ["a"]),
        Err(e) => panic!("unexpected {}", e),
    }
}

#[test]
fn each_peer_is_listed_once() {
    let discovered = vec![peer(FIRST), peer(SECOND), peer(FIRST)];
    let list = Core::peer_list(&discovered);
    assert_eq!(list.len(), 2);
    assert!(list.contains(&peer(FIRST)) && list.contains(&peer(SECOND)));
    assert!(Core::peer_list(&vec![]).is_empty());
}

#[test]
fn downloads_end() {
    let mut core = new_core();
    assert_eq!(core.finish_download::<&str>("a", Verdict::Intact, Ok(())), Ok(true));
    assert_eq!(core.finish_download::<&str>("a", Verdict::Corrupt, Ok(())), Ok(false));
    assert_eq!(core.finish_download("a", Verdict::Corrupt, Err("denied")), Err("denied"));
}

#[test]
fn downloads_are_given_up() {
    let mut core = new_core();
    assert_eq!(core.abandon_download::<&str>("a", Ok(())), Ok(()));
    assert_eq!(core.abandon_download("a", Err("denied")), Err("denied"));
}

#[test]
fn messages_about_streams() {
    assert_eq!(
        Core::stream_failure(&peer(FIRST), true, "unsupported"),
        format!("Peer {} does not support the file transfer protocol: unsupported", FIRST)
    );
    assert_eq!(
        Core::stream_failure(&peer(FIRST), false, "io"),
        format!("Error opening stream to peer {}: io", FIRST)
    );
}

#[test]
fn what_the_command_line_awaits_is_what_it_asked_for() {
    let repl = Repl::new(());
    for input in ["peers".to_string(), "whoami".to_string(), format!("dial {}", FIRST)] {
        match repl.handle_stdin_input(&input).next {
            Next::Ask { command: ReplCommand::GetPeerList(()), then } => {
                assert!(matches!(then, Awaiting::Peers))
            }
            Next::Ask { command: ReplCommand::GetMyPeerId(()), then } => {
                assert!(matches!(then, Awaiting::Identity))
            }
            Next::Ask { command: ReplCommand::Dial(_, ()), then } => {
                assert!(matches!(then, Awaiting::DialResult))
            }
            _ => panic!("expected a question"),
        }
    }
}
