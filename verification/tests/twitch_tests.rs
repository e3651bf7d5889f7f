use cgq::twitch::parse_privmsg;

#[test]
fn test_parse_privmsg_simple() {
    let line = ":testuser!testuser@testuser.tmi.twitch.tv PRIVMSG #testchannel :hello world";
    let msg = parse_privmsg(line).unwrap();

    assert_eq!(msg.username, "testuser");
    assert_eq!(msg.channel, "#testchannel");
    assert_eq!(msg.message, "hello world");
    assert_eq!(msg.user_id, None);
}

#[test]
fn test_parse_privmsg_with_tags() {
    let line = "@badge-info=;badges=;user-id=12345;display-name=TestUser :testuser!testuser@testuser.tmi.twitch.tv PRIVMSG #testchannel :a";
    let msg = parse_privmsg(line).unwrap();

    assert_eq!(msg.username, "testuser");
    assert_eq!(msg.channel, "#testchannel");
    assert_eq!(msg.message, "a");
    assert_eq!(msg.user_id, Some("12345".to_string()));
}

#[test]
fn test_parse_privmsg_invalid() {
    let line = "PING :tmi.twitch.tv";
    let msg = parse_privmsg(line);
    assert!(msg.is_none());
}

#[test]
fn test_parse_privmsg_last_user_id_wins() {
    let line = "@user-id=1;x=y;user-id=2 :u!u@u PRIVMSG #c :hi";
    let msg = parse_privmsg(line).unwrap();
    assert_eq!(msg.user_id, Some("2".to_string()));
}

#[test]
fn test_parse_privmsg_empty_user_id_is_none() {
    let line = "@user-id=;color=red :u!u@u PRIVMSG #c :hi";
    let msg = parse_privmsg(line).unwrap();
    assert_eq!(msg.user_id, None);
    assert_eq!(msg.username, "u");
}

#[test]
fn test_parse_privmsg_message_may_hold_marks() {
    let line = ":u!u@u PRIVMSG #c :a :b PRIVMSG !x";
    let msg = parse_privmsg(line).unwrap();
    assert_eq!(msg.channel, "#c");
    assert_eq!(msg.message, "a :b PRIVMSG !x");
}

#[test]
fn test_parse_privmsg_needs_every_part() {
    assert!(parse_privmsg("").is_none());
    assert!(parse_privmsg(":u PRIVMSG #c :no bang").is_none());
    assert!(parse_privmsg(":u!u@u NOTICE #c :text").is_none());
    assert!(parse_privmsg(":u!u@u PRIVMSG #c no text").is_none());
    assert!(parse_privmsg("@tags-without-end").is_none());
}

#[test]
fn test_parse_privmsg_unicode_text() {
    let line = "@user-id=7 :zoë!z@z PRIVMSG #café :héllo wörld ✓";
    let msg = parse_privmsg(line).unwrap();
    assert_eq!(msg.username, "zoë");
    assert_eq!(msg.channel, "#café");
    assert_eq!(msg.message, "héllo wörld ✓");
    assert_eq!(msg.user_id, Some("7".to_string()));
}
