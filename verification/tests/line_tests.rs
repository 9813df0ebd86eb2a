use irc_message::message;
use irc_message::Message;

fn ok(line: &str) -> (Message, String) {
    let (m, rest) = message(line).expect("line should parse");
    (m, rest.to_string())
}

#[test]
fn alphabetic_command_round_trip() {
    let (m, rest) = ok("COMMAND \r\n");
    assert_eq!(m.command, "COMMAND");
    assert_eq!(m.tags, None);
    assert_eq!(m.source, None);
    assert_eq!(m.parameters, Vec::<String>::new());
    assert_eq!(rest, "");
}

#[test]
fn lowercase_command_round_trip() {
    let (m, _) = ok("privmsg \r\n");
    assert_eq!(m.command, "privmsg");
    assert_eq!(m.parameters, Vec::<String>::new());
}

#[test]
fn numeric_command() {
    let (m, _) = ok("001 \r\n");
    assert_eq!(m.command, "001");
}

#[test]
fn long_numeric_command_accepted() {
    let (m, _) = ok("1234 \r\n");
    assert_eq!(m.command, "1234");
}

#[test]
fn trailing_only_parameter() {
    let (m, _) = ok("PRIVMSG :hello world\r\n");
    assert_eq!(m.parameters, vec!["hello world".to_string()]);
}

#[test]
fn mixed_parameters() {
    let (m, _) = ok("PRIVMSG #chan :hello world\r\n");
    assert_eq!(m.parameters, vec!["#chan".to_string(), "hello world".to_string()]);
}

#[test]
fn empty_trailing_parameter_still_counts() {
    let (m, _) = ok("PRIVMSG #chan :\r\n");
    assert_eq!(m.parameters, vec!["#chan".to_string(), "".to_string()]);
}

#[test]
fn no_trailing_parameter_is_distinct() {
    let (m, _) = ok("PRIVMSG #chan\r\n");
    assert_eq!(m.parameters, vec!["#chan".to_string()]);
    let (with_empty, _) = ok("PRIVMSG #chan :\r\n");
    assert_ne!(m.parameters, with_empty.parameters);
}

#[test]
fn multiple_spaces_between_parameters() {
    let (m, _) = ok("CMD  a   b\r\n");
    assert_eq!(m.parameters, vec!["a".to_string(), "b".to_string()]);
}

#[test]
fn source_parsed_without_colon() {
    let (m, _) = ok(":tmi.twitch.tv PRIVMSG #chan :hi\r\n");
    assert_eq!(m.source, Some("tmi.twitch.tv".to_string()));
    assert_eq!(m.command, "PRIVMSG");
    assert_eq!(m.parameters, vec!["#chan".to_string(), "hi".to_string()]);
}

#[test]
fn source_may_hold_any_non_space_characters() {
    let (m, _) = ok(":nick!user@host X \r\n");
    assert_eq!(m.source, Some("nick!user@host".to_string()));
}

#[test]
fn full_twitch_example() {
    let line = "@badge-info=;badges=broadcaster/1;color=#0000FF \
                :tmi.twitch.tv PRIVMSG #channel :Hello\r\n";
    let (m, rest) = ok(line);
    let expected = Message {
        tags: Some(vec![
            ("badge-info".to_string(), "".to_string()),
            ("badges".to_string(), "broadcaster/1".to_string()),
            ("color".to_string(), "#0000FF".to_string()),
        ]),
        source: Some("tmi.twitch.tv".to_string()),
        command: "PRIVMSG".to_string(),
        parameters: vec!["#channel".to_string(), "Hello".to_string()],
    };
    assert_eq!(m, expected);
    assert_eq!(rest, "");
    assert_eq!(m.tag_value("badge-info"), Some(&"".to_string()));
    assert_eq!(m.tag_value("badges"), Some(&"broadcaster/1".to_string()));
    assert_eq!(m.tag_value("color"), Some(&"#0000FF".to_string()));
    assert_eq!(m.tag_value("absent"), None);
}

#[test]
fn remainder_after_crlf_is_returned() {
    let (m, rest) = ok("PING \r\nnext line");
    assert_eq!(m.command, "PING");
    assert_eq!(rest, "next line");
}

#[test]
fn tag_key_may_hold_spaces() {
    let (m, _) = ok("@a b=c X \r\n");
    assert_eq!(m.tags, Some(vec![("a b".to_string(), "c".to_string())]));
}

#[test]
fn multiple_tags_with_empty_value() {
    let (m, _) = ok("@a=1;b=;c=x X \r\n");
    assert_eq!(
        m.tags,
        Some(vec![
            ("a".to_string(), "1".to_string()),
            ("b".to_string(), "".to_string()),
            ("c".to_string(), "x".to_string()),
        ])
    );
}

#[test]
fn duplicate_tag_keys_later_value_wins_in_mapping() {
    let (m, _) = ok("@a=1;a=2 X \r\n");
    assert_eq!(
        m.tags,
        Some(vec![("a".to_string(), "1".to_string()), ("a".to_string(), "2".to_string())])
    );
    assert_eq!(m.tag_value("a"), Some(&"2".to_string()));
}

#[test]
fn tag_value_is_none_without_tag_segment() {
    let (m, _) = ok("PING \r\n");
    assert_eq!(m.tag_value("a"), None);
}

#[test]
fn unicode_text_in_trailing_parameter() {
    let (m, _) = ok("PRIVMSG #c :héllo wörld\r\n");
    assert_eq!(m.parameters, vec!["#c".to_string(), "héllo wörld".to_string()]);
}
