//! The relay between the signing agent and the interactive prompt: it reads
//! each line of the agent, answers a request for the passphrase from the
//! credential store where it can, and hands every other line, word for word,
//! to the prompt.
//!
//! The relay decides; the program around it writes to the prompt, reads its
//! reply and asks the store.

use crate::keepassxc::FetchError;
use crate::text::{begins_with, chars_of, nth_word, same_text, starts_with, word};
use vstd::prelude::*;

verus! {

/// What a line of the agent asks for, by its first word.
#[derive(Debug, PartialEq, Eq)]
pub enum RelayCommand {
    /// The session ends.
    Bye,
    /// The key that the next passphrase is for: the second word of the line,
    /// where there is one.
    SetKeyInfo(Option<String>),
    /// The passphrase is asked for.
    GetPin,
    /// Anything else.
    Other,
}

/// What a `RelayCommand` stands for.
pub enum CommandView {
    Bye,
    SetKeyInfo(Option<Seq<char>>),
    GetPin,
    Other,
}

impl View for RelayCommand {
    type V = CommandView;

    open spec fn view(&self) -> CommandView {
        match self {
            RelayCommand::Bye => CommandView::Bye,
            RelayCommand::SetKeyInfo(Some(id)) => CommandView::SetKeyInfo(Some(id@)),
            RelayCommand::SetKeyInfo(None) => CommandView::SetKeyInfo(None),
            RelayCommand::GetPin => CommandView::GetPin,
            RelayCommand::Other => CommandView::Other,
        }
    }
}

/// The command of a line: its first word decides, letter case counts, and a
/// line without a word is like any other line.
pub open spec fn command_of(line: Seq<char>) -> CommandView {
    match word(line, 0) {
        Some(keyword) => if keyword == "BYE"@ {
            CommandView::Bye
        } else if keyword == "SETKEYINFO"@ {
            CommandView::SetKeyInfo(word(line, 1))
        } else if keyword == "GETPIN"@ {
            CommandView::GetPin
        } else {
            CommandView::Other
        },
        None => CommandView::Other,
    }
}

/// The command of a line.
pub fn classify(line: &str) -> (r: RelayCommand)
    ensures
        r@ == command_of(line@),
{
    match nth_word(line, 0) {
        Some(keyword) => if same_text(keyword.as_str(), "BYE") {
            RelayCommand::Bye
        } else if same_text(keyword.as_str(), "SETKEYINFO") {
            RelayCommand::SetKeyInfo(nth_word(line, 1))
        } else if same_text(keyword.as_str(), "GETPIN") {
            RelayCommand::GetPin
        } else {
            RelayCommand::Other
        },
        None => RelayCommand::Other,
    }
}

/// The state of the relay: the identifier that the agent announced last, if
/// any. Only one is pending at a time.
pub struct Relay {
    keygrep: Option<String>,
}

impl View for Relay {
    type V = Option<Seq<char>>;

    closed spec fn view(&self) -> Option<Seq<char>> {
        match self.keygrep {
            Some(id) => Some(id@),
            None => None,
        }
    }
}

/// What the program is to do with a line of the agent.
#[derive(Debug, PartialEq, Eq)]
pub enum Action {
    /// Write this line to the prompt and answer the agent with the prompt's
    /// reply.
    Forward(String),
    /// Write this line to the prompt, answer the agent with the prompt's
    /// reply, wait for the prompt to exit, persist the identity, and stop.
    Quit(String),
    /// Ask the credential store for the passphrase of this identifier, then
    /// call `handle_getpin` with the outcome.
    Lookup(String),
}

/// What an `Action` stands for.
pub enum ActionView {
    Forward(Seq<char>),
    Quit(Seq<char>),
    Lookup(Seq<char>),
}

impl View for Action {
    type V = ActionView;

    open spec fn view(&self) -> ActionView {
        match self {
            Action::Forward(line) => ActionView::Forward(line@),
            Action::Quit(line) => ActionView::Quit(line@),
            Action::Lookup(id) => ActionView::Lookup(id@),
        }
    }
}

/// What the relay does with a line, and the identifier that is pending
/// afterwards. Whatever is handed to the prompt is the line as it came.
pub open spec fn relay_step(pending: Option<Seq<char>>, line: Seq<char>) -> (
    Option<Seq<char>>,
    ActionView,
) {
    match command_of(line) {
        CommandView::Bye => (pending, ActionView::Quit(line)),
        CommandView::SetKeyInfo(id) => (id, ActionView::Forward(line)),
        CommandView::GetPin => match pending {
            Some(id) => (pending, ActionView::Lookup(id)),
            None => (pending, ActionView::Forward(line)),
        },
        CommandView::Other => (pending, ActionView::Forward(line)),
    }
}

/// A character as a data line carries it: the percent sign, the line feed
/// and the carriage return as a percent sign and their code in two
/// hexadecimal digits, any other character as it is.
pub open spec fn escaped_char(c: char) -> Seq<char> {
    if c == '%' {
        "%25"@
    } else if c == '\n' {
        "%0A"@
    } else if c == '\r' {
        "%0D"@
    } else {
        seq![c]
    }
}

/// A text as a data line carries it, character by character.
pub open spec fn escaped(text: Seq<char>) -> Seq<char>
    decreases text.len(),
{
    if text.len() == 0 {
        Seq::empty()
    } else {
        escaped(text.drop_last()) + escaped_char(text.last())
    }
}

/// The reply that carries a passphrase to the agent, in the form in which
/// the prompt itself answers: a data line, then the bare success line.
pub open spec fn pin_reply(secret: Seq<char>) -> Seq<char> {
    "D "@ + escaped(secret) + "\nOK\n"@
}

/// What the program is to answer to a request for the passphrase, once the
/// store was asked.
#[derive(Debug, PartialEq, Eq)]
pub enum Answer {
    /// Answer the agent with this reply.
    Reply(String),
    /// Write this line to the prompt and answer the agent with the prompt's
    /// reply.
    Forward(String),
}

/// What an `Answer` stands for.
pub enum AnswerView {
    Reply(Seq<char>),
    Forward(Seq<char>),
}

impl View for Answer {
    type V = AnswerView;

    open spec fn view(&self) -> AnswerView {
        match self {
            Answer::Reply(text) => AnswerView::Reply(text@),
            Answer::Forward(line) => AnswerView::Forward(line@),
        }
    }
}

/// Whether a line of the prompt ends its reply: it begins with the success
/// marker or with the error marker, or it is the bare success line.
pub open spec fn is_final(line: Seq<char>) -> bool {
    starts_with(line, "OK "@) || starts_with(line, "ERR "@) || line == "OK\n"@
}

/// Where the reading of a reply stands after a line.
#[derive(Clone, Copy, Debug, PartialEq, Eq, Structural)]
pub enum ReadStep {
    /// The reply goes on: read another line.
    More,
    /// The reply is complete.
    Done,
    /// Nothing was read: the prompt has closed its output.
    Closed,
}

/// Where the reading stands after `line`.
pub open spec fn read_step(line: Seq<char>) -> ReadStep {
    if line.len() == 0 {
        ReadStep::Closed
    } else if is_final(line) {
        ReadStep::Done
    } else {
        ReadStep::More
    }
}

impl Relay {
    /// A relay with no identifier pending.
    pub fn new() -> (r: Relay)
        ensures
            r@ is None,
    {
        Relay { keygrep: None }
    }

    /// The identifier that is pending.
    pub fn keygrep(&self) -> (r: Option<&String>)
        ensures
            match r {
                Some(id) => self@ == Some(id@),
                None => self@ is None,
            },
    {
        match &self.keygrep {
            Some(id) => Some(id),
            None => None,
        }
    }
}

/// Decides what to do with a line of the agent.
pub fn handle_cmd(relay: &mut Relay, cmd: &String) -> (r: Action)
    ensures
        (final(relay)@, r@) == relay_step(old(relay)@, cmd@),
{
    match classify(cmd.as_str()) {
        RelayCommand::Bye => handle_bye(cmd),
        RelayCommand::SetKeyInfo(id) => handle_setkeyinfo(relay, id, cmd),
        RelayCommand::GetPin => handle_getpin(relay, cmd),
        RelayCommand::Other => handle_default(cmd),
    }
}

/// A line that the relay does not answer itself goes to the prompt as it is.
pub fn handle_default(cmd: &String) -> (r: Action)
    ensures
        r@ == ActionView::Forward(cmd@),
{
    Action::Forward(cmd.clone())
}

/// The end of the session goes to the prompt as it is; the prompt is then
/// waited for and the identity persisted.
pub fn handle_bye(cmd: &String) -> (r: Action)
    ensures
        r@ == ActionView::Quit(cmd@),
{
    Action::Quit(cmd.clone())
}

/// The announced identifier replaces the pending one; an announcement without
/// an identifier leaves none pending. The line goes to the prompt as well,
/// which keeps its own record of the key.
pub fn handle_setkeyinfo(relay: &mut Relay, id: Option<String>, cmd: &String) -> (r: Action)
    ensures
        final(relay)@ == match id {
            Some(id) => Some(id@),
            None => None,
        },
        r@ == ActionView::Forward(cmd@),
{
    relay.keygrep = id;
    handle_default(cmd)
}

/// A request for the passphrase is looked up where an identifier is pending,
/// and goes to the prompt where none is.
pub fn handle_getpin(relay: &Relay, cmd: &String) -> (r: Action)
    ensures
        r@ == match relay@ {
            Some(id) => ActionView::Lookup(id),
            None => ActionView::Forward(cmd@),
        },
{
    match &relay.keygrep {
        Some(id) => Action::Lookup(id.clone()),
        None => handle_default(cmd),
    }
}

/// Answers a request for the passphrase with what the store found. Whatever
/// the store could not deliver, it holds no entry or the channel failed,
/// the request goes to the prompt: the store never stands between the agent
/// and a human.
pub fn answer_getpin(outcome: &Result<String, FetchError>, cmd: &String) -> (r: Answer)
    ensures
        r@ == match outcome {
            Ok(secret) => AnswerView::Reply(pin_reply(secret@)),
            Err(_) => AnswerView::Forward(cmd@),
        },
{
    match outcome {
        Ok(secret) => {
            let reply = String::from_str("D ").concat(escape(secret.as_str()).as_str()).concat(
                "\nOK\n",
            );
            Answer::Reply(reply)
        },
        Err(_) => Answer::Forward(cmd.clone()),
    }
}

/// A text as a data line carries it.
pub fn escape(text: &str) -> (r: String)
    ensures
        r@ == escaped(text@),
{
    let cs = chars_of(text);
    let mut out = String::new();
    let mut i: usize = 0;
    while i < cs.len()
        invariant
            cs@ == text@,
            i <= cs.len(),
            out@ == escaped(text@.take(i as int)),
        decreases cs.len() - i,
    {
        let c = cs[i];
        proof {
            let next = text@.take(i + 1);
            assert(next.drop_last() == text@.take(i as int));
            assert(next.last() == c);
            assert(text@.subrange(i as int, i + 1) == seq![c]);
        }
        if c == '%' {
            out.append("%25");
        } else if c == '\n' {
            out.append("%0A");
        } else if c == '\r' {
            out.append("%0D");
        } else {
            out.append(text.substring_char(i, i + 1));
        }
        i += 1;
    }
    assert(text@.take(cs.len() as int) == text@);
    out
}

/// Takes one more line of the prompt's reply into `buf` and says whether the
/// reply is complete with it.
pub fn read_child(buf: &mut String, line: &str) -> (r: ReadStep)
    ensures
        final(buf)@ == old(buf)@ + line@,
        r == read_step(line@),
{
    buf.append(line);
    if line.is_empty() {
        ReadStep::Closed
    } else if begins_with(line, "OK ") || begins_with(line, "ERR ") || same_text(line, "OK\n") {
        ReadStep::Done
    } else {
        ReadStep::More
    }
}

} // verus!
