use file_sharing::messages::{NoChannels, QueryResult, ReplCommand};
use file_sharing::peer::PeerId;
use file_sharing::repl::{Awaiting, Next, Repl, ReplInput, ReplStep, Reply, PROMPT};

const ID: &str = "QmNnooDu7bfjFPoTZYxMNLWUQJyrVwtbZg5gBMjTezGAJN";
const OTHER: &str = "QmaCpDMGvV2BGHeYERUEnRQAwe3N8SzbUtfsmvsqQLuvuJ";

fn peer(id: &str) -> PeerId {
    PeerId::parse(id).unwrap()
}

fn start() -> ReplStep {
    match Repl::new(()).run::<String>(ReplInput::Start) {
        Ok(step) => step,
        Err(e) => panic!("unexpected {}", e),
    }
}

fn line(input: &str) -> ReplStep {
    match Repl::new(()).run::<String>(ReplInput::Line(input.to_string())) {
        Ok(step) => step,
        Err(e) => panic!("unexpected {}", e),
    }
}

fn answer(then: Awaiting, reply: Reply<String>) -> Result<ReplStep, String> {
    assert!(then.accepts(&reply));
    Repl::new(()).run(ReplInput::Answer(then, reply))
}

fn shown(step: ReplStep) -> Vec<String> {
    match step.next {
        Next::Prompt => step.output,
        _ => panic!("expected the prompt"),
    }
}

fn asked(step: ReplStep) -> (ReplCommand<NoChannels>, Awaiting) {
    assert!(step.output.is_empty());
    match step.next {
        Next::Ask { command, then } => (command, then),
        _ => panic!("expected a question"),
    }
}

fn after(then: Awaiting, reply: Reply<String>) -> Vec<String> {
    shown(answer(then, reply).unwrap_or_else(|e| panic!("unexpected {}", e)))
}

fn after_asking(then: Awaiting, reply: Reply<String>) -> (ReplCommand<NoChannels>, Awaiting) {
    asked(answer(then, reply).unwrap_or_else(|e| panic!("unexpected {}", e)))
}

#[test]
fn the_greeting() {
    assert_eq!(
        shown(start()),
        ["File Sharing Client", "Type \"help\" for help for more information."]
    );
    assert_eq!(PROMPT, "fsc> ");
}

#[test]
fn the_sender_is_kept() {
    assert_eq!(Repl::new(5).command_sender, 5);
}

#[test]
fn help() {
    assert_eq!(
        shown(line("help")),
        [
            "help - this help message",
            "whoami - display my peer id",
            "quit - quit the application",
            "peers - list peers",
            "dial - dial <peer_id> - dial a peer",
            "list - list local files",
            "list <peer_id> - list files for peer",
            "get <peer_id> <file_name> - get file from peer",
        ]
    );
    assert_eq!(shown(line("help me")).len(), 8);
}

#[test]
fn quit_and_exit_end() {
    for input in ["quit", "exit", "  quit now"] {
        let step = line(input);
        assert_eq!(step.output, ["Quitting..."]);
        assert!(matches!(step.next, Next::Quit(ReplCommand::Shutdown)));
    }
}

#[test]
fn nothing_else_ends() {
    for input in ["", "help", "peers", "dial", "list", "get", "whoami", "QUIT", "quit\tnow", "q"] {
        assert!(!matches!(line(input).next, Next::Quit(_)));
    }
}

#[test]
fn blank_lines_show_nothing() {
    for input in ["", " ", "\t \r\n", "\u{3000}"] {
        assert!(shown(line(input)).is_empty());
    }
}

#[test]
fn white_space_around_a_line_is_ignored() {
    assert_eq!(shown(line("  frob x \t")), shown(line("frob x")));
    assert!(matches!(asked(line("\twhoami ")).0, ReplCommand::GetMyPeerId(())));
}

#[test]
fn unknown_commands() {
    assert_eq!(shown(line("frob x")), ["Unknown command: frob"]);
    assert_eq!(shown(line("Help")), ["Unknown command: Help"]);
    assert_eq!(shown(line("help\tme")), ["Unknown command: help\tme"]);
}

#[test]
fn peers() {
    let (command, then) = asked(line("peers"));
    assert!(matches!(command, ReplCommand::GetPeerList(())));
    assert!(matches!(then, Awaiting::Peers));
    assert_eq!(after(then, Reply::Peers(vec![peer(ID), peer(OTHER)])), [ID, OTHER]);
    assert!(after(Awaiting::Peers, Reply::Peers(vec![])).is_empty());
}

#[test]
fn whoami() {
    let (command, then) = asked(line("whoami"));
    assert!(matches!(command, ReplCommand::GetMyPeerId(())));
    assert_eq!(after(then, Reply::Identity(peer(ID))), [ID]);
}

#[test]
fn dial() {
    let (command, then) = asked(line(&format!("dial {}", ID)));
    match command {
        ReplCommand::Dial(id, ()) => assert_eq!(id, peer(ID)),
        _ => panic!("expected a dial"),
    }
    assert!(after(then, Reply::Dialed(true)).is_empty());
    assert_eq!(after(Awaiting::DialResult, Reply::Dialed(false)), ["Dial failed"]);
}

#[test]
fn dial_needs_one_peer() {
    let usage = ["dial <peer_id> - dial a peer"];
    assert_eq!(shown(line("dial")), usage);
    assert_eq!(shown(line(&format!("dial {} {}", ID, ID))), usage);
    assert_eq!(shown(line(&format!("dial  {}", ID))), usage);
}

#[test]
fn invalid_peers_are_refused() {
    assert_eq!(shown(line("dial bob")), ["Invalid peer id: bob"]);
    assert_eq!(shown(line("list bob")), ["Invalid peer id: bob"]);
    assert_eq!(shown(line("list  x")), ["Invalid peer id: "]);
    assert_eq!(shown(line("get bob a.txt")), ["Invalid peer id: bob"]);
}

#[test]
fn list_local_files() {
    let (command, then) = asked(line("list"));
    assert!(matches!(command, ReplCommand::ListLocalFiles(())));
    let files = vec!["b".to_string(), "a".to_string()];
    assert_eq!(after(then, Reply::Files(Ok(QueryResult::Files(files)))), ["b", "a"]);
}

#[test]
fn list_files_of_a_peer() {
    for input in [format!("list {}", ID), format!("list {} and more", ID)] {
        let (command, then) = asked(line(&input));
        match command {
            ReplCommand::ListPeerFiles(id, ()) => assert_eq!(id, peer(ID)),
            _ => panic!("expected a list"),
        }
        assert!(after(then, Reply::Files(Ok(QueryResult::Files(vec![])))).is_empty());
    }
}

#[test]
fn lists_that_are_none() {
    assert_eq!(
        after(Awaiting::Files, Reply::Files(Ok(QueryResult::Boolean(true)))),
        ["No files found"]
    );
    assert_eq!(
        after(Awaiting::Files, Reply::Files(Err("lost".to_string()))),
        ["Error listing files: lost"]
    );
}

#[test]
fn get_downloads_a_file() {
    let (command, then) = asked(line(&format!("get {} a.txt", ID)));
    assert!(matches!(command, ReplCommand::GetPeerList(())));
    let (command, then) = after_asking(then, Reply::Peers(vec![peer(OTHER), peer(ID)]));
    match command {
        ReplCommand::DoesFileExist(id, name, ()) => {
            assert_eq!((id, name.as_str()), (peer(ID), "a.txt"))
        }
        _ => panic!("expected a question for the file"),
    }
    let (command, then) =
        after_asking(then, Reply::Existence(Ok(QueryResult::Boolean(true))));
    match command {
        ReplCommand::GetFileFromPeer(id, name, ()) => {
            assert_eq!((id, name.as_str()), (peer(ID), "a.txt"))
        }
        _ => panic!("expected a download"),
    }
    assert_eq!(after(then, Reply::Downloaded(true)), ["File downloaded successfully"]);
    assert_eq!(
        after(Awaiting::DownloadResult, Reply::Downloaded(false)),
        ["File download failed"]
    );
}

#[test]
fn get_needs_a_peer_and_a_file() {
    let usage = ["get <peer_id> <file_name> - get file from peer"];
    assert_eq!(shown(line("get")), usage);
    assert_eq!(shown(line(&format!("get {}", ID))), usage);
    assert_eq!(shown(line(&format!("get {} a b", ID))), usage);
}

#[test]
fn get_needs_a_peer_on_the_list() {
    let (_, then) = asked(line(&format!("get {} a.txt", ID)));
    assert_eq!(after(then, Reply::Peers(vec![peer(OTHER)])), ["Peer not found"]);
}

fn existence() -> Awaiting {
    Awaiting::Existence { peer: peer(ID), file_name: "a.txt".to_string() }
}

#[test]
fn get_needs_a_file_that_exists() {
    assert_eq!(
        after(existence(), Reply::Existence(Ok(QueryResult::Boolean(false)))),
        ["File does not exist"]
    );
    assert_eq!(
        after(existence(), Reply::ExistenceUnknown("channel closed".to_string())),
        ["Unable to determine if file exists: channel closed"]
    );
}

#[test]
fn get_stops_after_a_list_of_files() {
    let reply = Reply::Existence(Ok(QueryResult::Files(vec!["a.txt".to_string()])));
    assert!(after(existence(), reply).is_empty());
}

#[test]
fn an_error_about_existence_ends_the_command_line() {
    match answer(existence(), Reply::Existence(Err("refused".to_string()))) {
        Err(e) => assert_eq!(e, "refused"),
        Ok(_) => panic!("expected an error"),
    }
}

#[test]
fn answers_to_other_questions_are_not_accepted() {
    assert!(!Awaiting::Peers.accepts::<String>(&Reply::Dialed(true)));
    assert!(!existence().accepts::<String>(&Reply::Files(Ok(QueryResult::Boolean(true)))));
    assert!(!Awaiting::Files.accepts::<String>(&Reply::Existence(Ok(QueryResult::Boolean(true)))));
    assert!(!Awaiting::DownloadResult.accepts::<String>(&Reply::Identity(peer(ID))));
    assert!(existence().accepts::<String>(&Reply::ExistenceUnknown(String::new())));
}

#[test]
fn words_with_a_given_peer() {
    let repl = Repl::new(());
    let words = vec!["dial".to_string(), "bob".to_string()];
    match asked(repl.handle_words(&words, Some(peer(ID)))).0 {
        ReplCommand::Dial(id, ()) => assert_eq!(id, peer(ID)),
        _ => panic!("expected a dial"),
    }
    assert_eq!(shown(repl.handle_words(&words, None)), ["Invalid peer id: bob"]);
    assert!(shown(repl.handle_words(&vec![String::new()], None)).is_empty());
}
