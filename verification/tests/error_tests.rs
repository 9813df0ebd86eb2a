use irc_message::message;
use irc_message::ErrorKind;
use irc_message::ParseError;

fn err(line: &str) -> ParseError {
    message(line).expect_err("line should fail to parse")
}

#[test]
fn missing_command_fails() {
    let e = err("@x=1 \r\n");
    assert_eq!(e.kind, ErrorKind::Command);
    assert_eq!(e.at, 5);
}

#[test]
fn empty_input_fails() {
    let e = err("");
    assert_eq!(e.kind, ErrorKind::Command);
    assert_eq!(e.at, 0);
}

#[test]
fn crlf_alone_fails() {
    let e = err("\r\n");
    assert_eq!(e.kind, ErrorKind::Command);
    assert_eq!(e.at, 0);
}

#[test]
fn tag_without_equals_fails() {
    let e = err("@x PRIVMSG\r\n");
    assert_eq!(e.kind, ErrorKind::Tags);
    assert_eq!(e.at, 0);
}

#[test]
fn at_sign_alone_fails() {
    let e = err("@ PRIVMSG\r\n");
    assert_eq!(e.kind, ErrorKind::Tags);
    assert_eq!(e.at, 0);
}

#[test]
fn source_without_following_space_fails() {
    let e = err(":abc\r\n");
    assert_eq!(e.kind, ErrorKind::Command);
    assert_eq!(e.at, 0);
}

#[test]
fn missing_space_after_command_fails() {
    let e = err("PRIVMSG\r\n");
    assert_eq!(e.kind, ErrorKind::Separator);
    assert_eq!(e.at, 7);
}

#[test]
fn missing_terminator_fails() {
    let e = err("PRIVMSG #chan :hello");
    assert_eq!(e.kind, ErrorKind::Terminator);
    assert_eq!(e.at, 20);
}

#[test]
fn line_feed_alone_is_no_terminator() {
    let e = err("PING :x\n");
    assert_eq!(e.kind, ErrorKind::Terminator);
}

#[test]
fn space_before_terminator_fails() {
    let e = err("PRIVMSG a \r\n");
    assert_eq!(e.kind, ErrorKind::Terminator);
    assert_eq!(e.at, 9);
}

#[test]
fn colon_directly_after_middle_fails() {
    let e = err("CMD a:b\r\n");
    assert_eq!(e.kind, ErrorKind::Terminator);
    assert_eq!(e.at, 5);
}
