//! The command line of a client: what each line of input asks for, and what is
//! shown of the answers. A line leads to a [`ReplStep`]. Where that step asks
//! something of the command core, the answer leads to the next step.

use crate::messages::{NoChannels, Question, QueryAnswer, QueryResult, ReplCommand};
use crate::peer;
use crate::peer::PeerId;
use crate::text;
use vstd::prelude::*;

verus! {

/// What is shown when the command line starts.
pub const BANNER: &'static str = "File Sharing Client";

/// What is shown under the banner.
pub const HELP_HINT: &'static str = "Type \"help\" for help for more information.";

/// What is shown when a line of input is awaited.
pub const PROMPT: &'static str = "fsc> ";

/// How to use `dial`.
pub const DIAL_USAGE: &'static str = "dial <peer_id> - dial a peer";

/// How to use `get`.
pub const GET_USAGE: &'static str = "get <peer_id> <file_name> - get file from peer";

/// What the answer to a command is for.
pub enum Awaiting {
    /// To show the peers.
    Peers,
    /// To say so if a dial failed.
    DialResult,
    /// To show files.
    Files,
    /// To find the peer from which to get a file.
    PeersToGetFrom { peer: PeerId, file_name: String },
    /// To see whether the file to get exists.
    Existence { peer: PeerId, file_name: String },
    /// To say how a download ended.
    DownloadResult,
    /// To show the id of this peer.
    Identity,
}

/// What the command line does next.
pub enum Next {
    /// Show the prompt, and read the next line.
    Prompt,
    /// Send the command to the core, and end.
    Quit(ReplCommand<NoChannels>),
    /// Send the command to the core, and go on when it has answered.
    Ask { command: ReplCommand<NoChannels>, then: Awaiting },
}

/// The lines to show, and what to do after that.
pub struct ReplStep {
    pub output: Vec<String>,
    pub next: Next,
}

/// What the command core answered.
pub enum Reply<E> {
    /// The list of peers.
    Peers(Vec<PeerId>),
    /// Whether a dial succeeded.
    Dialed(bool),
    /// The result of a query for files, or the message of the error that it met.
    Files(Result<QueryResult, String>),
    /// The result of a query for the existence of a file, or the error that it met.
    Existence(Result<QueryResult, E>),
    /// No answer came to a query for the existence of a file, for the reason in
    /// this message.
    ExistenceUnknown(String),
    /// Whether a download succeeded.
    Downloaded(bool),
    /// The id of this peer.
    Identity(PeerId),
}

/// What the command line takes: that it was started, a line of input, or the
/// answer to what an earlier step asked.
pub enum ReplInput<E> {
    Start,
    Line(String),
    Answer(Awaiting, Reply<E>),
}

/// What the answer to a command is for, in terms of values.
pub enum Purpose {
    Peers,
    DialResult,
    Files,
    PeersToGetFrom(Seq<char>, Seq<char>),
    Existence(Seq<char>, Seq<char>),
    DownloadResult,
    Identity,
}

impl Awaiting {
    /// Whether an answer is one to what was asked.
    pub fn accepts<E>(&self, reply: &Reply<E>) -> (accepted: bool)
        ensures
            accepted == answers(reply@, self@),
    {
        match (self, reply) {
            (Awaiting::Peers, Reply::Peers(_)) => true,
            (Awaiting::DialResult, Reply::Dialed(_)) => true,
            (Awaiting::Files, Reply::Files(_)) => true,
            (Awaiting::PeersToGetFrom { .. }, Reply::Peers(_)) => true,
            (Awaiting::Existence { .. }, Reply::Existence(_)) => true,
            (Awaiting::Existence { .. }, Reply::ExistenceUnknown(_)) => true,
            (Awaiting::DownloadResult, Reply::Downloaded(_)) => true,
            (Awaiting::Identity, Reply::Identity(_)) => true,
            _ => false,
        }
    }
}

impl View for Awaiting {
    type V = Purpose;

    open spec fn view(&self) -> Purpose {
        match *self {
            Awaiting::Peers => Purpose::Peers,
            Awaiting::DialResult => Purpose::DialResult,
            Awaiting::Files => Purpose::Files,
            Awaiting::PeersToGetFrom { peer, file_name } => Purpose::PeersToGetFrom(
                peer@,
                file_name@,
            ),
            Awaiting::Existence { peer, file_name } => Purpose::Existence(peer@, file_name@),
            Awaiting::DownloadResult => Purpose::DownloadResult,
            Awaiting::Identity => Purpose::Identity,
        }
    }
}

/// What the command line does next, in terms of values.
pub enum Course {
    Prompt,
    Quit(Question),
    Ask(Question, Purpose),
}

impl View for Next {
    type V = Course;

    open spec fn view(&self) -> Course {
        match *self {
            Next::Prompt => Course::Prompt,
            Next::Quit(command) => Course::Quit(command@),
            Next::Ask { command, then } => Course::Ask(command@, then@),
        }
    }
}

/// A step in terms of values.
pub struct Move {
    pub output: Seq<Seq<char>>,
    pub next: Course,
}

impl View for ReplStep {
    type V = Move;

    open spec fn view(&self) -> Move {
        Move { output: text::texts(self.output@), next: self.next@ }
    }
}

/// An answer in terms of values.
pub enum Answer {
    Peers(Seq<Seq<char>>),
    Dialed(bool),
    Files(QueryAnswer),
    FilesFailed(Seq<char>),
    Existence(QueryAnswer),
    ExistenceFailed,
    ExistenceUnknown(Seq<char>),
    Downloaded(bool),
    Identity(Seq<char>),
}

impl<E> View for Reply<E> {
    type V = Answer;

    open spec fn view(&self) -> Answer {
        match *self {
            Reply::Peers(peers) => Answer::Peers(peer::ids(peers@)),
            Reply::Dialed(succeeded) => Answer::Dialed(succeeded),
            Reply::Files(Ok(result)) => Answer::Files(result@),
            Reply::Files(Err(message)) => Answer::FilesFailed(message@),
            Reply::Existence(Ok(result)) => Answer::Existence(result@),
            Reply::Existence(Err(_)) => Answer::ExistenceFailed,
            Reply::ExistenceUnknown(message) => Answer::ExistenceUnknown(message@),
            Reply::Downloaded(succeeded) => Answer::Downloaded(succeeded),
            Reply::Identity(peer) => Answer::Identity(peer@),
        }
    }
}

/// Shows lines, and then the prompt.
pub open spec fn showing(output: Seq<Seq<char>>) -> Move {
    Move { output, next: Course::Prompt }
}

/// Shows nothing, and asks the command core.
pub open spec fn asking(question: Question, purpose: Purpose) -> Move {
    Move { output: Seq::empty(), next: Course::Ask(question, purpose) }
}

/// What is shown before the first prompt.
pub open spec fn greeting() -> Seq<Seq<char>> {
    seq![BANNER@, HELP_HINT@]
}

/// The lines of the help.
pub open spec fn help() -> Seq<Seq<char>> {
    seq![
        "help - this help message"@,
        "whoami - display my peer id"@,
        "quit - quit the application"@,
        "peers - list peers"@,
        "dial - dial <peer_id> - dial a peer"@,
        "list - list local files"@,
        "list <peer_id> - list files for peer"@,
        "get <peer_id> <file_name> - get file from peer"@,
    ]
}

/// Refuses a peer id that is none.
pub open spec fn refusing(typed: Seq<char>) -> Move {
    showing(seq!["Invalid peer id: "@ + typed])
}

/// What the words of an input line lead to, when `id` is what its second word is
/// as a peer id, if it is one.
pub open spec fn on_words(input: Seq<Seq<char>>, id: Option<Seq<char>>) -> Move {
    let verb = input[0];
    if verb == "help"@ {
        showing(help())
    } else if verb == "quit"@ || verb == "exit"@ {
        Move { output: seq!["Quitting..."@], next: Course::Quit(Question::Shutdown) }
    } else if verb == "peers"@ {
        asking(Question::GetPeerList, Purpose::Peers)
    } else if verb == "dial"@ {
        if input.len() != 2 {
            showing(seq![DIAL_USAGE@])
        } else {
            match id {
                Some(id) => asking(Question::Dial(id), Purpose::DialResult),
                None => refusing(input[1]),
            }
        }
    } else if verb == "list"@ {
        if input.len() == 1 {
            asking(Question::ListLocalFiles, Purpose::Files)
        } else {
            match id {
                Some(id) => asking(Question::ListPeerFiles(id), Purpose::Files),
                None => refusing(input[1]),
            }
        }
    } else if verb == "get"@ {
        if input.len() != 3 {
            showing(seq![GET_USAGE@])
        } else {
            match id {
                Some(id) => asking(Question::GetPeerList, Purpose::PeersToGetFrom(id, input[2])),
                None => refusing(input[1]),
            }
        }
    } else if verb == "whoami"@ {
        asking(Question::GetMyPeerId, Purpose::Identity)
    } else if verb == ""@ {
        showing(Seq::empty())
    } else {
        showing(seq!["Unknown command: "@ + verb])
    }
}

/// What a line of input leads to.
pub open spec fn on_input(line: Seq<char>) -> Move {
    let input = text::words(line);
    let id = if input.len() >= 2 {
        peer::parsed_peer_id(input[1])
    } else {
        None
    };
    on_words(input, id)
}

/// The id of a peer, if there is one.
pub open spec fn id_of(peer: Option<PeerId>) -> Option<Seq<char>> {
    match peer {
        Some(peer) => Some(peer@),
        None => None,
    }
}

/// Whether an answer is one to what was asked.
pub open spec fn answers(answer: Answer, purpose: Purpose) -> bool {
    match purpose {
        Purpose::Peers => answer is Peers,
        Purpose::DialResult => answer is Dialed,
        Purpose::Files => answer is Files || answer is FilesFailed,
        Purpose::PeersToGetFrom(..) => answer is Peers,
        Purpose::Existence(..) => answer is Existence || answer is ExistenceFailed
            || answer is ExistenceUnknown,
        Purpose::DownloadResult => answer is Downloaded,
        Purpose::Identity => answer is Identity,
    }
}

/// What an answer leads to; nothing if the command line ends with the error that
/// the answer holds.
pub open spec fn on_answer(purpose: Purpose, answer: Answer) -> Option<Move> {
    match (purpose, answer) {
        (Purpose::Peers, Answer::Peers(peers)) => Some(showing(peers)),
        (Purpose::DialResult, Answer::Dialed(succeeded)) => Some(
            showing(
                if succeeded {
                    Seq::empty()
                } else {
                    seq!["Dial failed"@]
                },
            ),
        ),
        (Purpose::Files, Answer::Files(QueryAnswer::Files(files))) => Some(showing(files)),
        (Purpose::Files, Answer::Files(QueryAnswer::Boolean(_))) => Some(
            showing(seq!["No files found"@]),
        ),
        (Purpose::Files, Answer::FilesFailed(message)) => Some(
            showing(seq!["Error listing files: "@ + message]),
        ),
        (Purpose::PeersToGetFrom(id, file_name), Answer::Peers(peers)) => Some(
            if peers.contains(id) {
                asking(Question::DoesFileExist(id, file_name), Purpose::Existence(id, file_name))
            } else {
                showing(seq!["Peer not found"@])
            },
        ),
        (Purpose::Existence(id, file_name), Answer::Existence(result)) => Some(
            match result {
                QueryAnswer::Boolean(true) => asking(
                    Question::GetFileFromPeer(id, file_name),
                    Purpose::DownloadResult,
                ),
                QueryAnswer::Boolean(false) => showing(seq!["File does not exist"@]),
                QueryAnswer::Files(_) => showing(Seq::empty()),
            },
        ),
        (Purpose::Existence(..), Answer::ExistenceUnknown(message)) => Some(
            showing(seq!["Unable to determine if file exists: "@ + message]),
        ),
        (Purpose::DownloadResult, Answer::Downloaded(succeeded)) => Some(
            showing(
                seq![
                    if succeeded {
                        "File downloaded successfully"@
                    } else {
                        "File download failed"@
                    },
                ],
            ),
        ),
        (Purpose::Identity, Answer::Identity(id)) => Some(showing(seq![id])),
        _ => None,
    }
}

fn show(output: Vec<String>) -> (step: ReplStep)
    ensures
        step@ == showing(text::texts(output@)),
{
    ReplStep { output, next: Next::Prompt }
}

fn show_line(line: String) -> (step: ReplStep)
    ensures
        step@ == showing(seq![line@]),
{
    let mut output: Vec<String> = Vec::new();
    output.push(line);
    assert(text::texts(output@) =~= seq![line@]);
    show(output)
}

fn show_nothing() -> (step: ReplStep)
    ensures
        step@ == showing(Seq::<Seq<char>>::empty()),
{
    let output: Vec<String> = Vec::new();
    assert(text::texts(output@) =~= Seq::empty());
    show(output)
}

fn ask(command: ReplCommand<NoChannels>, then: Awaiting) -> (step: ReplStep)
    ensures
        step@ == asking(command@, then@),
{
    let output: Vec<String> = Vec::new();
    assert(text::texts(output@) =~= Seq::empty());
    ReplStep { output, next: Next::Ask { command, then } }
}

fn refuse(typed: &str) -> (step: ReplStep)
    ensures
        step@ == refusing(typed@),
{
    show_line(text::joined("Invalid peer id: ", typed))
}

fn show_greeting() -> (step: ReplStep)
    ensures
        step@ == showing(greeting()),
{
    let mut output: Vec<String> = Vec::new();
    output.push(BANNER.to_owned());
    output.push(HELP_HINT.to_owned());
    assert(text::texts(output@) =~= greeting());
    show(output)
}

fn show_help() -> (step: ReplStep)
    ensures
        step@ == showing(help()),
{
    let mut output: Vec<String> = Vec::new();
    output.push("help - this help message".to_owned());
    output.push("whoami - display my peer id".to_owned());
    output.push("quit - quit the application".to_owned());
    output.push("peers - list peers".to_owned());
    output.push("dial - dial <peer_id> - dial a peer".to_owned());
    output.push("list - list local files".to_owned());
    output.push("list <peer_id> - list files for peer".to_owned());
    output.push("get <peer_id> <file_name> - get file from peer".to_owned());
    assert(text::texts(output@) =~= help());
    show(output)
}

fn show_peers(peers: &Vec<PeerId>) -> (step: ReplStep)
    ensures
        step@ == showing(peer::ids(peers@)),
{
    let mut output: Vec<String> = Vec::new();
    let mut i: usize = 0;
    assert(text::texts(output@) =~= peer::ids(peers@).take(0));
    while i < peers.len()
        invariant
            i <= peers@.len(),
            text::texts(output@) == peer::ids(peers@).take(i as int),
        decreases peers@.len() - i,
    {
        let ghost before = text::texts(output@);
        output.push(peers[i].to_text());
        assert(text::texts(output@) =~= before.push(peers@[i as int]@));
        assert(peer::ids(peers@).take(i + 1) =~= before.push(peers@[i as int]@));
        i = i + 1;
    }
    assert(peer::ids(peers@).take(i as int) =~= peer::ids(peers@));
    show(output)
}

/// The command line of a client.
pub struct Repl<S> {
    /// The way to the command core.
    pub command_sender: S,
}

impl<S> Repl<S> {
    /// A command line whose commands go to the given sender.
    pub fn new(command_sender: S) -> (repl: Repl<S>)
        ensures
            repl.command_sender == command_sender,
    {
        Repl { command_sender }
    }

    /// Takes the next input. The first is the start, at which the greeting is shown.
    pub fn run<E>(&self, input: ReplInput<E>) -> (step: Result<ReplStep, E>)
        requires
            input matches ReplInput::Answer(then, reply) ==> answers(reply@, then@),
        ensures
            match input {
                ReplInput::Start => step matches Ok(step) && step@ == showing(greeting()),
                ReplInput::Line(line) => step matches Ok(step) && step@ == on_input(line@),
                ReplInput::Answer(then, reply) => match step {
                    Ok(step) => on_answer(then@, reply@) == Some(step@),
                    Err(error) => on_answer(then@, reply@) is None && reply == Reply::Existence(
                        Err::<QueryResult, E>(error),
                    ),
                },
            },
    {
        match input {
            ReplInput::Start => Ok(show_greeting()),
            ReplInput::Line(line) => Ok(self.handle_stdin_input(line.as_str())),
            ReplInput::Answer(then, reply) => self.resume(then, reply),
        }
    }

    /// Takes a line of input.
    pub fn handle_stdin_input(&self, input_line: &str) -> (step: ReplStep)
        ensures
            step@ == on_input(input_line@),
    {
        let input = text::split_at_spaces(text::trim(input_line));
        proof {
            text::lemma_pieces_not_empty(text::trimmed(input_line@));
            assert(text::texts(input@).len() == input@.len());
        }
        let peer = if input.len() >= 2 {
            assert(text::texts(input@)[1] == input@[1]@);
            PeerId::parse(input[1].as_str())
        } else {
            None
        };
        self.handle_words(&input, peer)
    }

    /// Takes the words of an input line, and the peer that its second word stands
    /// for, if it stands for one.
    pub fn handle_words(&self, input: &Vec<String>, peer: Option<PeerId>) -> (step: ReplStep)
        requires
            input@.len() >= 1,
        ensures
            step@ == on_words(text::texts(input@), id_of(peer)),
    {
        assert(forall|k: int| 0 <= k < input@.len() ==> text::texts(input@)[k] == input@[k]@);
        let verb = input[0].as_str();
        if text::same_text(verb, "help") {
            show_help()
        } else if text::same_text(verb, "quit") || text::same_text(verb, "exit") {
            let mut output: Vec<String> = Vec::new();
            output.push("Quitting...".to_owned());
            assert(text::texts(output@) =~= seq!["Quitting..."@]);
            ReplStep { output, next: Next::Quit(ReplCommand::Shutdown) }
        } else if text::same_text(verb, "peers") {
            ask(ReplCommand::GetPeerList(()), Awaiting::Peers)
        } else if text::same_text(verb, "dial") {
            if input.len() != 2 {
                return show_line(DIAL_USAGE.to_owned());
            }
            match peer {
                Some(peer) => ask(ReplCommand::Dial(peer, ()), Awaiting::DialResult),
                None => refuse(input[1].as_str()),
            }
        } else if text::same_text(verb, "list") {
            if input.len() == 1 {
                return ask(ReplCommand::ListLocalFiles(()), Awaiting::Files);
            }
            match peer {
                Some(peer) => ask(ReplCommand::ListPeerFiles(peer, ()), Awaiting::Files),
                None => refuse(input[1].as_str()),
            }
        } else if text::same_text(verb, "get") {
            if input.len() != 3 {
                return show_line(GET_USAGE.to_owned());
            }
            match peer {
                Some(peer) => {
                    let file_name = input[2].clone();
                    ask(
                        ReplCommand::GetPeerList(()),
                        Awaiting::PeersToGetFrom { peer, file_name },
                    )
                },
                None => refuse(input[1].as_str()),
            }
        } else if text::same_text(verb, "whoami") {
            ask(ReplCommand::GetMyPeerId(()), Awaiting::Identity)
        } else if text::same_text(verb, "") {
            show_nothing()
        } else {
            show_line(text::joined("Unknown command: ", verb))
        }
    }

    /// Takes the answer to what an earlier step asked. The error of a query for
    /// the existence of a file ends the command line.
    pub fn resume<E>(&self, then: Awaiting, reply: Reply<E>) -> (step: Result<ReplStep, E>)
        requires
            answers(reply@, then@),
        ensures
            match step {
                Ok(step) => on_answer(then@, reply@) == Some(step@),
                Err(error) => on_answer(then@, reply@) is None && reply == Reply::Existence(
                    Err::<QueryResult, E>(error),
                ),
            },
    {
        match reply {
            Reply::Peers(peers) => match then {
                Awaiting::PeersToGetFrom { peer, file_name } => {
                    if !peer::is_among(&peer, &peers) {
                        return Ok(show_line("Peer not found".to_owned()));
                    }
                    let command = ReplCommand::DoesFileExist(peer.clone(), file_name.clone(), ());
                    Ok(ask(command, Awaiting::Existence { peer, file_name }))
                },
                _ => Ok(show_peers(&peers)),
            },
            Reply::Dialed(succeeded) => Ok(
                if succeeded {
                    show_nothing()
                } else {
                    show_line("Dial failed".to_owned())
                },
            ),
            Reply::Files(Ok(QueryResult::Files(files))) => Ok(show(files)),
            Reply::Files(Ok(QueryResult::Boolean(_))) => Ok(show_line("No files found".to_owned())),
            Reply::Files(Err(message)) => Ok(
                show_line(text::joined("Error listing files: ", message.as_str())),
            ),
            Reply::Existence(Err(error)) => Err(error),
            Reply::Existence(Ok(QueryResult::Boolean(false))) => Ok(
                show_line("File does not exist".to_owned()),
            ),
            Reply::Existence(Ok(QueryResult::Files(_))) => Ok(show_nothing()),
            Reply::Existence(Ok(QueryResult::Boolean(true))) => match then {
                Awaiting::Existence { peer, file_name } => Ok(
                    ask(
                        ReplCommand::GetFileFromPeer(peer, file_name, ()),
                        Awaiting::DownloadResult,
                    ),
                ),
                _ => Ok(show_nothing()),
            },
            Reply::ExistenceUnknown(message) => Ok(
                show_line(text::joined("Unable to determine if file exists: ", message.as_str())),
            ),
            Reply::Downloaded(succeeded) => Ok(
                if succeeded {
                    show_line("File downloaded successfully".to_owned())
                } else {
                    show_line("File download failed".to_owned())
                },
            ),
            Reply::Identity(id) => Ok(show_line(id.to_text())),
        }
    }
}

/// The command line ends on `quit` and `exit`, and on no other input.
pub proof fn law_only_quit_and_exit_end(line: Seq<char>)
    ensures
        on_input(line).next is Quit <==> (text::words(line)[0] == "quit"@ || text::words(line)[0]
            == "exit"@),
{
    reveal_strlit("help");
    reveal_strlit("quit");
    reveal_strlit("exit");
    assert("help"@[0] == 'h' && "quit"@[0] == 'q' && "exit"@[0] == 'e');
}

/// White space around a line of input makes no difference.
pub proof fn law_outer_white_space_is_ignored(line: Seq<char>)
    ensures
        on_input(text::trimmed(line)) == on_input(line),
{
    text::lemma_trimmed_twice(line);
}

/// A line of nothing but white space shows nothing.
pub proof fn law_blank_line_shows_nothing(line: Seq<char>)
    requires
        forall|i: int| 0 <= i < line.len() ==> text::is_white_space(#[trigger] line[i]),
    ensures
        on_input(line) == (Move { output: Seq::<Seq<char>>::empty(), next: Course::Prompt }),
{
    text::lemma_trimmed_blank(line);
    assert(text::words(line) =~= seq![Seq::<char>::empty()]);
    reveal_strlit("");
    reveal_strlit("help");
    reveal_strlit("quit");
    reveal_strlit("exit");
    reveal_strlit("peers");
    reveal_strlit("dial");
    reveal_strlit("list");
    reveal_strlit("get");
    reveal_strlit("whoami");
    assert(""@ =~= Seq::<char>::empty());
}

/// Whether a question is one whose answer can serve a purpose.
pub open spec fn serves(question: Question, purpose: Purpose) -> bool {
    match purpose {
        Purpose::Peers => question is GetPeerList,
        Purpose::DialResult => question is Dial,
        Purpose::Files => question is ListLocalFiles || question is ListPeerFiles,
        Purpose::PeersToGetFrom(..) => question is GetPeerList,
        Purpose::Existence(id, file_name) => question == Question::DoesFileExist(id, file_name),
        Purpose::DownloadResult => question is GetFileFromPeer,
        Purpose::Identity => question is GetMyPeerId,
    }
}

/// What a step asks is always what its purpose needs to know.
pub proof fn law_questions_serve_their_purpose(
    line: Seq<char>,
    purpose: Purpose,
    answer: Answer,
)
    ensures
        on_input(line).next matches Course::Ask(question, next) ==> serves(question, next),
        on_answer(purpose, answer) matches Some(step) ==> (step.next matches Course::Ask(
            question,
            next,
        ) ==> serves(question, next)),
{
}

/// A file is never asked for unheard: a download is requested only when that peer
/// has answered that it has that file; and it is only asked whether it has if it is
/// on the list of peers.
pub proof fn law_get_asks_first(
    line: Seq<char>,
    purpose: Purpose,
    answer: Answer,
    id: Seq<char>,
    file_name: Seq<char>,
    next: Purpose,
)
    ensures
        on_input(line).next != Course::Ask(Question::GetFileFromPeer(id, file_name), next),
        on_input(line).next != Course::Ask(Question::DoesFileExist(id, file_name), next),
        on_answer(purpose, answer) matches Some(step) ==> {
            &&& step.next == Course::Ask(Question::GetFileFromPeer(id, file_name), next) ==> {
                &&& purpose == Purpose::Existence(id, file_name)
                &&& answer matches Answer::Existence(result)
                &&& result == QueryAnswer::Boolean(true)
            }
            &&& step.next == Course::Ask(Question::DoesFileExist(id, file_name), next) ==> {
                &&& purpose == Purpose::PeersToGetFrom(id, file_name)
                &&& answer matches Answer::Peers(peers)
                &&& peers.contains(id)
            }
        },
{
}

/// `get <peer_id> <file_name>` downloads the file of that name from that peer, if
/// the peer is on the list of peers and says that it has the file.
pub proof fn law_get_downloads(line: Seq<char>, id: Seq<char>, peers: Seq<Seq<char>>)
    requires
        text::words(line).len() == 3,
        text::words(line)[0] == "get"@,
        peer::parsed_peer_id(text::words(line)[1]) == Some(id),
        peers.contains(id),
    ensures
        ({
            let file_name = text::words(line)[2];
            let to_find = Purpose::PeersToGetFrom(id, file_name);
            let to_see = Purpose::Existence(id, file_name);
            &&& on_input(line).output.len() == 0
            &&& on_input(line).next == Course::Ask(Question::GetPeerList, to_find)
            &&& on_answer(to_find, Answer::Peers(peers)) matches Some(step)
            &&& step.output.len() == 0
            &&& step.next == Course::Ask(Question::DoesFileExist(id, file_name), to_see)
            &&& on_answer(
                to_see,
                Answer::Existence(QueryAnswer::Boolean(true)),
            ) matches Some(last)
            &&& last.output.len() == 0
            &&& last.next == Course::Ask(
                Question::GetFileFromPeer(id, file_name),
                Purpose::DownloadResult,
            )
        }),
{
    reveal_strlit("get");
    reveal_strlit("help");
    reveal_strlit("quit");
    reveal_strlit("exit");
    reveal_strlit("peers");
    reveal_strlit("dial");
    reveal_strlit("list");
    assert("get"@.len() == 3);
}

/// No command is another.
proof fn lemma_verbs()
    ensures
        "help"@.len() == 4 && "help"@[0] == 'h',
        "quit"@.len() == 4 && "quit"@[0] == 'q',
        "exit"@.len() == 4 && "exit"@[0] == 'e',
        "peers"@.len() == 5 && "peers"@[0] == 'p',
        "dial"@.len() == 4 && "dial"@[0] == 'd',
        "list"@.len() == 4 && "list"@[0] == 'l',
        "get"@.len() == 3,
        "whoami"@.len() == 6,
        ""@.len() == 0,
{
    reveal_strlit("help");
    reveal_strlit("quit");
    reveal_strlit("exit");
    reveal_strlit("peers");
    reveal_strlit("dial");
    reveal_strlit("list");
    reveal_strlit("get");
    reveal_strlit("whoami");
    reveal_strlit("");
}

/// A line is taken by its words, and its second word is taken for a peer id, whatever
/// it is.
pub proof fn law_lines_are_taken_by_their_words(line: Seq<char>, other: Seq<char>)
    ensures
        text::words(line).len() >= 1,
        text::words(line).len() >= 2 ==> on_input(line) == on_words(
            text::words(line),
            peer::parsed_peer_id(text::words(line)[1]),
        ),
        text::words(line).len() == 1 ==> on_input(line) == on_words(text::words(line), None),
        text::words(line) == text::words(other) ==> on_input(line) == on_input(other),
{
    text::lemma_pieces_not_empty(text::trimmed(line));
}

/// The peer that a word stands for is that peer, or none.
pub proof fn law_id_of_a_peer(peer: PeerId)
    ensures
        id_of(Some(peer)) == Some(peer@),
        id_of(None) is None,
{
}

/// `help` shows the commands, `quit` and `exit` stop the core and end, `peers` and
/// `whoami` ask for what they show, whatever stands behind them.
pub proof fn law_plain_commands(input: Seq<Seq<char>>, id: Option<Seq<char>>)
    requires
        input.len() >= 1,
    ensures
        input[0] == "help"@ ==> on_words(input, id) == (Move {
            output: seq![
                "help - this help message"@,
                "whoami - display my peer id"@,
                "quit - quit the application"@,
                "peers - list peers"@,
                "dial - dial <peer_id> - dial a peer"@,
                "list - list local files"@,
                "list <peer_id> - list files for peer"@,
                "get <peer_id> <file_name> - get file from peer"@,
            ],
            next: Course::Prompt,
        }),
        input[0] == "quit"@ || input[0] == "exit"@ ==> on_words(input, id) == (Move {
            output: seq!["Quitting..."@],
            next: Course::Quit(Question::Shutdown),
        }),
        input[0] == "peers"@ ==> on_words(input, id) == (Move {
            output: Seq::empty(),
            next: Course::Ask(Question::GetPeerList, Purpose::Peers),
        }),
        input[0] == "whoami"@ ==> on_words(input, id) == (Move {
            output: Seq::empty(),
            next: Course::Ask(Question::GetMyPeerId, Purpose::Identity),
        }),
{
    lemma_verbs();
}

/// `dial` with one peer id dials that peer, whichever it is; a word that is no peer id
/// is refused; and the usage is shown exactly if there is not one word behind `dial`.
pub proof fn law_dial_dials(input: Seq<Seq<char>>, id: Option<Seq<char>>)
    requires
        input.len() >= 1,
        input[0] == "dial"@,
    ensures
        input.len() == 2 ==> (id matches Some(peer) ==> on_words(input, id) == (Move {
            output: Seq::empty(),
            next: Course::Ask(Question::Dial(peer), Purpose::DialResult),
        })),
        input.len() == 2 && id is None ==> on_words(input, id) == (Move {
            output: seq!["Invalid peer id: "@ + input[1]],
            next: Course::Prompt,
        }),
        on_words(input, id) == (Move {
            output: seq!["dial <peer_id> - dial a peer"@],
            next: Course::Prompt,
        }) <==> input.len() != 2,
{
    lemma_verbs();
    lemma_refusals();
    if input.len() == 2 && id is None {
        assert(on_words(input, id).output[0][0] == 'I');
    }
}

/// A line that says `dial` and a peer id dials that peer.
pub proof fn law_dial_line_dials(line: Seq<char>, id: Seq<char>)
    requires
        text::words(line).len() == 2,
        text::words(line)[0] == "dial"@,
        peer::parsed_peer_id(text::words(line)[1]) == Some(id),
    ensures
        on_input(line).output.len() == 0,
        on_input(line).next == Course::Ask(Question::Dial(id), Purpose::DialResult),
{
    law_lines_are_taken_by_their_words(line, line);
    law_dial_dials(text::words(line), Some(id));
}

/// A refused peer id is not a usage.
proof fn lemma_refusals()
    ensures
        forall|typed: Seq<char>| (#[trigger] ("Invalid peer id: "@ + typed))[0] == 'I',
        "dial <peer_id> - dial a peer"@[0] == 'd',
        "get <peer_id> <file_name> - get file from peer"@[0] == 'g',
{
    reveal_strlit("Invalid peer id: ");
    reveal_strlit("dial <peer_id> - dial a peer");
    reveal_strlit("get <peer_id> <file_name> - get file from peer");
}

/// `list` alone lists the local files, `list` with a peer id lists the files of that
/// peer, whichever it is, and a word that is no peer id is refused.
pub proof fn law_list_lists(input: Seq<Seq<char>>, id: Option<Seq<char>>)
    requires
        input.len() >= 1,
        input[0] == "list"@,
    ensures
        input.len() == 1 ==> on_words(input, id) == (Move {
            output: Seq::empty(),
            next: Course::Ask(Question::ListLocalFiles, Purpose::Files),
        }),
        input.len() >= 2 ==> (id matches Some(peer) ==> on_words(input, id) == (Move {
            output: Seq::empty(),
            next: Course::Ask(Question::ListPeerFiles(peer), Purpose::Files),
        })),
        input.len() >= 2 && id is None ==> on_words(input, id) == (Move {
            output: seq!["Invalid peer id: "@ + input[1]],
            next: Course::Prompt,
        }),
{
    lemma_verbs();
}

/// `get` with a peer id and a file name looks for that peer, to get the file of all of
/// that name; a word that is no peer id is refused; and the usage is shown exactly if
/// there are not two words behind `get`.
pub proof fn law_get_looks_for_the_peer(input: Seq<Seq<char>>, id: Option<Seq<char>>)
    requires
        input.len() >= 1,
        input[0] == "get"@,
    ensures
        input.len() == 3 ==> (id matches Some(peer) ==> on_words(input, id) == (Move {
            output: Seq::empty(),
            next: Course::Ask(Question::GetPeerList, Purpose::PeersToGetFrom(peer, input[2])),
        })),
        input.len() == 3 && id is None ==> on_words(input, id) == (Move {
            output: seq!["Invalid peer id: "@ + input[1]],
            next: Course::Prompt,
        }),
        on_words(input, id) == (Move {
            output: seq!["get <peer_id> <file_name> - get file from peer"@],
            next: Course::Prompt,
        }) <==> input.len() != 3,
{
    lemma_verbs();
    lemma_refusals();
    if input.len() == 3 && id is None {
        assert(on_words(input, id).output[0][0] == 'I');
    }
}

/// A first word that is no command is called unknown, unless it is empty: then nothing
/// is shown.
pub proof fn law_other_words(input: Seq<Seq<char>>, id: Option<Seq<char>>)
    requires
        input.len() >= 1,
        !seq![
            "help"@,
            "quit"@,
            "exit"@,
            "peers"@,
            "dial"@,
            "list"@,
            "get"@,
            "whoami"@,
        ].contains(input[0]),
    ensures
        input[0].len() == 0 ==> on_words(input, id) == (Move {
            output: Seq::empty(),
            next: Course::Prompt,
        }),
        input[0].len() > 0 ==> on_words(input, id) == (Move {
            output: seq!["Unknown command: "@ + input[0]],
            next: Course::Prompt,
        }),
{
    lemma_verbs();
    let verbs = seq![
        "help"@,
        "quit"@,
        "exit"@,
        "peers"@,
        "dial"@,
        "list"@,
        "get"@,
        "whoami"@,
    ];
    assert(verbs[0] == "help"@ && verbs[1] == "quit"@ && verbs[2] == "exit"@);
    assert(verbs[3] == "peers"@ && verbs[4] == "dial"@ && verbs[5] == "list"@);
    assert(verbs[6] == "get"@ && verbs[7] == "whoami"@);
    if input[0].len() == 0 {
        assert(input[0] =~= ""@);
    }
}

/// What is shown of answers: the peers and the files all of them and in their order,
/// this peer as it is, and of dials and downloads how they ended.
pub proof fn law_answers_are_shown(
    peers: Seq<Seq<char>>,
    files: Seq<Seq<char>>,
    id: Seq<char>,
    message: Seq<char>,
    yes: bool,
)
    ensures
        on_answer(Purpose::Peers, Answer::Peers(peers)) == Some(
            Move { output: peers, next: Course::Prompt },
        ),
        on_answer(Purpose::Identity, Answer::Identity(id)) == Some(
            Move { output: seq![id], next: Course::Prompt },
        ),
        on_answer(Purpose::DialResult, Answer::Dialed(true)) == Some(
            Move { output: Seq::empty(), next: Course::Prompt },
        ),
        on_answer(Purpose::DialResult, Answer::Dialed(false)) == Some(
            Move { output: seq!["Dial failed"@], next: Course::Prompt },
        ),
        on_answer(Purpose::Files, Answer::Files(QueryAnswer::Files(files))) == Some(
            Move { output: files, next: Course::Prompt },
        ),
        on_answer(Purpose::Files, Answer::Files(QueryAnswer::Boolean(yes))) == Some(
            Move { output: seq!["No files found"@], next: Course::Prompt },
        ),
        on_answer(Purpose::Files, Answer::FilesFailed(message)) == Some(
            Move { output: seq!["Error listing files: "@ + message], next: Course::Prompt },
        ),
        on_answer(Purpose::DownloadResult, Answer::Downloaded(true)) == Some(
            Move { output: seq!["File downloaded successfully"@], next: Course::Prompt },
        ),
        on_answer(Purpose::DownloadResult, Answer::Downloaded(false)) == Some(
            Move { output: seq!["File download failed"@], next: Course::Prompt },
        ),
{
}

/// How `get` goes on: a peer on the list is asked whether it has the file, one that is
/// not is not found; a yes, and nothing but a yes, leads to the download of the same
/// file from the same peer.
pub proof fn law_get_goes_on(
    id: Seq<char>,
    file_name: Seq<char>,
    peers: Seq<Seq<char>>,
    files: Seq<Seq<char>>,
    message: Seq<char>,
)
    ensures
        on_answer(Purpose::PeersToGetFrom(id, file_name), Answer::Peers(peers)) == Some(
            if exists|i: int| 0 <= i < peers.len() && peers[i] == id {
                Move {
                    output: Seq::empty(),
                    next: Course::Ask(
                        Question::DoesFileExist(id, file_name),
                        Purpose::Existence(id, file_name),
                    ),
                }
            } else {
                Move { output: seq!["Peer not found"@], next: Course::Prompt }
            },
        ),
        on_answer(
            Purpose::Existence(id, file_name),
            Answer::Existence(QueryAnswer::Boolean(true)),
        ) == Some(
            Move {
                output: Seq::empty(),
                next: Course::Ask(
                    Question::GetFileFromPeer(id, file_name),
                    Purpose::DownloadResult,
                ),
            },
        ),
        on_answer(
            Purpose::Existence(id, file_name),
            Answer::Existence(QueryAnswer::Boolean(false)),
        ) == Some(Move { output: seq!["File does not exist"@], next: Course::Prompt }),
        on_answer(
            Purpose::Existence(id, file_name),
            Answer::Existence(QueryAnswer::Files(files)),
        ) == Some(Move { output: Seq::empty(), next: Course::Prompt }),
        on_answer(Purpose::Existence(id, file_name), Answer::ExistenceUnknown(message)) == Some(
            Move {
                output: seq!["Unable to determine if file exists: "@ + message],
                next: Course::Prompt,
            },
        ),
        on_answer(Purpose::Existence(id, file_name), Answer::ExistenceFailed) is None,
{
}

/// The answers that are accepted are those that lead on, and the error of a query for
/// the existence of a file, which ends the command line.
pub proof fn law_accepted_answers_lead_on(purpose: Purpose, answer: Answer)
    ensures
        answers(answer, purpose) <==> (on_answer(purpose, answer) is Some || (purpose is Existence
            && answer is ExistenceFailed)),
{
}

/// The command line starts with its name and where to find help.
pub proof fn law_greeting()
    ensures
        greeting() == seq![
            "File Sharing Client"@,
            "Type \"help\" for help for more information."@,
        ],
{
}

/// What is awaited is for the whole of the peer and the whole of the file name that it
/// holds.
pub proof fn law_purposes_are_kept(peer: PeerId, file_name: String)
    ensures
        Awaiting::Peers@ == Purpose::Peers,
        Awaiting::DialResult@ == Purpose::DialResult,
        Awaiting::Files@ == Purpose::Files,
        (Awaiting::PeersToGetFrom { peer, file_name })@ == Purpose::PeersToGetFrom(
            peer@,
            file_name@,
        ),
        (Awaiting::Existence { peer, file_name })@ == Purpose::Existence(peer@, file_name@),
        Awaiting::DownloadResult@ == Purpose::DownloadResult,
        Awaiting::Identity@ == Purpose::Identity,
{
}

/// A step shows all its lines, in their order, and does next what it says.
pub proof fn law_steps_are_taken_as_they_are(
    step: ReplStep,
    command: ReplCommand<NoChannels>,
    then: Awaiting,
)
    ensures
        step@.output.len() == step.output@.len(),
        forall|i: int|
            0 <= i < step.output@.len() ==> #[trigger] step@.output[i] == step.output@[i]@,
        step@.next == step.next@,
        Next::Prompt@ == Course::Prompt,
        Next::Quit(command)@ == Course::Quit(command@),
        (Next::Ask { command, then })@ == Course::Ask(command@, then@),
{
}

/// An answer is taken as it is, with all that it holds.
pub proof fn law_answers_are_taken_as_they_are<E>(
    peers: Vec<PeerId>,
    peer: PeerId,
    result: QueryResult,
    message: String,
    error: E,
    yes: bool,
)
    ensures
        Reply::<E>::Peers(peers)@ matches Answer::Peers(ids) && ids.len() == peers@.len() && (
        forall|i: int| 0 <= i < ids.len() ==> #[trigger] ids[i] == peers@[i]@),
        Reply::<E>::Dialed(yes)@ == Answer::Dialed(yes),
        Reply::<E>::Files(Ok(result))@ == Answer::Files(result@),
        Reply::<E>::Files(Err(message))@ == Answer::FilesFailed(message@),
        Reply::<E>::Existence(Ok(result))@ == Answer::Existence(result@),
        Reply::<E>::Existence(Err(error))@ == Answer::ExistenceFailed,
        Reply::<E>::ExistenceUnknown(message)@ == Answer::ExistenceUnknown(message@),
        Reply::<E>::Downloaded(yes)@ == Answer::Downloaded(yes),
        Reply::<E>::Identity(peer)@ == Answer::Identity(peer@),
{
}

} // verus!
