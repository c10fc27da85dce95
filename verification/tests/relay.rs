use pinentry_keepassxc::assuan::{
    answer_getpin, classify, escape, handle_cmd, read_child, Action, Answer, ReadStep, Relay,
    RelayCommand,
};
use pinentry_keepassxc::channel::ChannelError;
use pinentry_keepassxc::config::{store, Identity};
use pinentry_keepassxc::keepassxc::FetchError;

/// A stand-in for the prompt: it records what it is handed and answers each
/// line with a mark of its own.
struct Prompt {
    seen: Vec<String>,
}

fn forward(prompt: &mut Prompt, line: &str) -> String {
    prompt.seen.push(line.to_string());
    format!("OK forwarded {}", line)
}

/// Runs one line through the relay as the program does: the store answers a
/// lookup with `found`.
fn run(
    relay: &mut Relay,
    prompt: &mut Prompt,
    asked: &mut Vec<String>,
    found: &Result<String, FetchError>,
    line: &str,
) -> String {
    let line = line.to_string();
    match handle_cmd(relay, &line) {
        Action::Forward(text) => forward(prompt, &text),
        Action::Quit(text) => forward(prompt, &text),
        Action::Lookup(id) => {
            asked.push(id);
            match answer_getpin(found, &line) {
                Answer::Reply(reply) => reply,
                Answer::Forward(text) => forward(prompt, &text),
            }
        },
    }
}

#[test]
fn getpin_is_answered_from_the_store() {
    let mut relay = Relay::new();
    let mut prompt = Prompt { seen: Vec::new() };
    let mut asked = Vec::new();
    let found = Ok("hunter2".to_string());
    run(&mut relay, &mut prompt, &mut asked, &found, "SETKEYINFO deadbeefcafebabe\n");
    let reply = run(&mut relay, &mut prompt, &mut asked, &found, "GETPIN\n");
    assert_eq!(reply, "D hunter2\nOK\n");
    assert_eq!(asked, vec!["deadbeefcafebabe".to_string()]);
    assert_eq!(prompt.seen, vec!["SETKEYINFO deadbeefcafebabe\n".to_string()]);
}

#[test]
fn the_synthesized_reply_ends_like_a_reply_of_the_prompt() {
    let found = Ok("hunter2".to_string());
    let reply = match answer_getpin(&found, &"GETPIN\n".to_string()) {
        Answer::Reply(reply) => reply,
        Answer::Forward(_) => panic!("the store had the passphrase"),
    };
    let mut buf = String::new();
    let mut steps = Vec::new();
    for line in reply.split_inclusive('\n') {
        steps.push(read_child(&mut buf, line));
    }
    assert_eq!(steps, vec![ReadStep::More, ReadStep::Done]);
    assert_eq!(buf, reply);
}

#[test]
fn getpin_goes_to_the_prompt_when_the_store_has_no_entry() {
    let mut relay = Relay::new();
    let mut prompt = Prompt { seen: Vec::new() };
    let mut asked = Vec::new();
    let found = Err(FetchError::NotFound);
    run(&mut relay, &mut prompt, &mut asked, &found, "SETKEYINFO deadbeefcafebabe\n");
    let reply = run(&mut relay, &mut prompt, &mut asked, &found, "GETPIN\n");
    let mut other = Prompt { seen: Vec::new() };
    assert_eq!(reply, forward(&mut other, "GETPIN\n"));
    assert_eq!(asked, vec!["deadbeefcafebabe".to_string()]);
    assert_eq!(prompt.seen.last(), Some(&"GETPIN\n".to_string()));
}

#[test]
fn getpin_goes_to_the_prompt_on_every_channel_failure() {
    let failures = [
        ChannelError::Connection,
        ChannelError::Handshake("wrong format of public key".to_string()),
        ChannelError::Decrypt,
        ChannelError::Association("denied".to_string()),
        ChannelError::Refused("Database not opened".to_string()),
        ChannelError::Malformed,
        ChannelError::Seal,
    ];
    for e in failures {
        let found = Err(FetchError::Channel(e));
        assert_eq!(
            answer_getpin(&found, &"GETPIN\n".to_string()),
            Answer::Forward("GETPIN\n".to_string())
        );
    }
}

#[test]
fn getpin_without_an_identifier_goes_to_the_prompt() {
    let mut relay = Relay::new();
    assert_eq!(
        handle_cmd(&mut relay, &"GETPIN\n".to_string()),
        Action::Forward("GETPIN\n".to_string())
    );
}

#[test]
fn bye_is_forwarded_once_and_a_paired_identity_written_once() {
    let mut relay = Relay::new();
    let mut prompt = Prompt { seen: Vec::new() };
    let mut writes = Vec::new();
    let identity = Identity { id: Some("pairing".to_string()), id_key: "c2VjcmV0".to_string() };
    match handle_cmd(&mut relay, &"BYE\n".to_string()) {
        Action::Quit(line) => {
            forward(&mut prompt, &line);
            if let Some(text) = store(&identity) {
                writes.push(text);
            }
        },
        other => panic!("BYE ends the session, not {:?}", other),
    }
    assert_eq!(prompt.seen, vec!["BYE\n".to_string()]);
    assert_eq!(writes, vec![r#"{"idKey":"c2VjcmV0","id":"pairing"}"#.to_string()]);
}

#[test]
fn bye_writes_nothing_for_an_identity_that_is_not_paired() {
    let mut relay = Relay::new();
    let identity = Identity { id: None, id_key: "c2VjcmV0".to_string() };
    assert_eq!(handle_cmd(&mut relay, &"BYE\n".to_string()), Action::Quit("BYE\n".to_string()));
    assert_eq!(store(&identity), None);
}

#[test]
fn other_lines_are_forwarded_as_they_came() {
    let mut relay = Relay::new();
    for line in ["OPTION ttyname=/dev/pts/1\n", "SETDESC Please enter\n", "\n", "", "bye\n", "GETPINX\n"] {
        assert_eq!(handle_cmd(&mut relay, &line.to_string()), Action::Forward(line.to_string()));
        assert_eq!(relay.keygrep(), None);
    }
}

#[test]
fn the_identifier_is_overwritten_not_queued() {
    let mut relay = Relay::new();
    handle_cmd(&mut relay, &"SETKEYINFO first\n".to_string());
    handle_cmd(&mut relay, &"SETKEYINFO second\n".to_string());
    assert_eq!(
        handle_cmd(&mut relay, &"GETPIN\n".to_string()),
        Action::Lookup("second".to_string())
    );
    assert_eq!(
        handle_cmd(&mut relay, &"GETPIN\n".to_string()),
        Action::Lookup("second".to_string())
    );
}

#[test]
fn an_announcement_without_an_identifier_leaves_none_pending() {
    let mut relay = Relay::new();
    handle_cmd(&mut relay, &"SETKEYINFO first\n".to_string());
    assert_eq!(
        handle_cmd(&mut relay, &"SETKEYINFO\n".to_string()),
        Action::Forward("SETKEYINFO\n".to_string())
    );
    assert_eq!(relay.keygrep(), None);
    assert_eq!(
        handle_cmd(&mut relay, &"GETPIN\n".to_string()),
        Action::Forward("GETPIN\n".to_string())
    );
}

#[test]
fn commands_are_told_apart_by_the_first_word() {
    assert_eq!(classify("BYE\n"), RelayCommand::Bye);
    assert_eq!(classify("  BYE now\n"), RelayCommand::Bye);
    assert_eq!(classify("GETPIN\n"), RelayCommand::GetPin);
    assert_eq!(classify("SETKEYINFO n/ABCD extra\n"), RelayCommand::SetKeyInfo(Some("n/ABCD".to_string())));
    assert_eq!(classify("SETKEYINFO\n"), RelayCommand::SetKeyInfo(None));
    assert_eq!(classify("getpin\n"), RelayCommand::Other);
    assert_eq!(classify(""), RelayCommand::Other);
}

#[test]
fn a_reply_is_read_up_to_its_status_line() {
    let mut buf = String::new();
    assert_eq!(read_child(&mut buf, "S ERROR something\n"), ReadStep::More);
    assert_eq!(read_child(&mut buf, "D secret\n"), ReadStep::More);
    assert_eq!(read_child(&mut buf, "OK\n"), ReadStep::Done);
    assert_eq!(buf, "S ERROR something\nD secret\nOK\n");
}

#[test]
fn status_lines() {
    let cases = [
        ("OK Pleased to meet you\n", ReadStep::Done),
        ("OK \n", ReadStep::Done),
        ("OK\n", ReadStep::Done),
        ("ERR 83886179 Operation cancelled <Pinentry>\n", ReadStep::Done),
        ("OK", ReadStep::More),
        ("OKAY\n", ReadStep::More),
        ("ERR\n", ReadStep::More),
        ("D OK \n", ReadStep::More),
        (" OK \n", ReadStep::More),
        ("\n", ReadStep::More),
        ("", ReadStep::Closed),
    ];
    for (line, expected) in cases {
        let mut buf = "before ".to_string();
        assert_eq!(read_child(&mut buf, line), expected);
        assert_eq!(buf, format!("before {}", line));
    }
}

#[test]
fn a_data_line_carries_percent_and_line_ends_escaped() {
    assert_eq!(escape("hunter2"), "hunter2");
    assert_eq!(escape(""), "");
    assert_eq!(escape("100%"), "100%25");
    assert_eq!(escape("a\nb\r\n"), "a%0Ab%0D%0A");
    assert_eq!(escape("%25"), "%2525");
    assert_eq!(escape("pässwörd \t+"), "pässwörd \t+");
}

#[test]
fn a_passphrase_with_a_line_end_stays_on_one_data_line() {
    let found = Ok("top\nsecret 50%".to_string());
    assert_eq!(
        answer_getpin(&found, &"GETPIN\n".to_string()),
        Answer::Reply("D top%0Asecret 50%25\nOK\n".to_string())
    );
}
