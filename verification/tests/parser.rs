use chat_gateway::message_parser::{
    parse_command, parse_message, parse_parameters, parse_source, parse_tags, Command,
};

#[test]
fn privmsg_with_tags_and_source() {
    let m = parse_message(
        "@badges=broadcaster/1;display-name=Alice;id=abc-1 :alice!alice@alice.tmi.twitch.tv PRIVMSG #alice :?song now",
    )
    .unwrap();
    assert_eq!(m.source.nick.as_deref(), Some("alice"));
    assert_eq!(m.source.host.as_deref(), Some("alice@alice.tmi.twitch.tv"));
    let c = m.command.unwrap();
    assert_eq!(c.command.as_deref(), Some("PRIVMSG"));
    assert_eq!(c.channel.as_deref(), Some("#alice"));
    assert_eq!(c.is_cap_request_enabled, None);
    assert_eq!(c.bot_command, None);
    assert_eq!(m.parameters.as_deref(), Some("?song now"));
    let t = m.tags.unwrap();
    assert_eq!(t.other("display-name").as_deref(), Some("Alice"));
    assert_eq!(t.other("id").as_deref(), Some("abc-1"));
    assert_eq!(t.badge("broadcaster").as_deref(), Some("1"));
    assert_eq!(t.other("badges"), None);
}

#[test]
fn privmsg_text_may_hold_colons_and_spaces() {
    let m = parse_message("@id=1 :n!h PRIVMSG #c :a: b :c  ").unwrap();
    assert_eq!(m.parameters.as_deref(), Some("a: b :c  "));
    assert_eq!(m.command.unwrap().channel.as_deref(), Some("#c"));
    assert_eq!(m.source.nick.as_deref(), Some("n"));
    assert_eq!(m.source.host.as_deref(), Some("h"));
}

#[test]
fn ping_line() {
    let m = parse_message("PING :tmi.twitch.tv").unwrap();
    let c = m.command.unwrap();
    assert_eq!(c.command.as_deref(), Some("PING"));
    assert_eq!(c.channel, None);
    assert_eq!(m.parameters.as_deref(), Some("tmi.twitch.tv"));
    assert!(m.tags.is_none());
    assert_eq!(m.source.nick, None);
    assert_eq!(m.source.host, None);
}

#[test]
fn line_without_parameters_has_empty_parameters() {
    let m = parse_message(":tmi.twitch.tv RECONNECT").unwrap();
    assert_eq!(m.command.unwrap().command.as_deref(), Some("RECONNECT"));
    assert_eq!(m.parameters.as_deref(), Some(""));
    assert_eq!(m.source.host.as_deref(), Some("tmi.twitch.tv"));
    assert_eq!(m.source.nick, None);
}

#[test]
fn numeric_replies_give_nothing() {
    assert!(parse_message(":tmi.twitch.tv 421 bot WHO :Unknown command").is_none());
    assert!(parse_message(":tmi.twitch.tv 002 bot :Your host is tmi.twitch.tv").is_none());
    assert!(parse_message(":tmi.twitch.tv 003 bot :This server is rather new").is_none());
    assert!(parse_message(":tmi.twitch.tv 004 bot :-").is_none());
    assert!(parse_message(":bot.tmi.twitch.tv 353 bot = #c :bot").is_none());
    assert!(parse_message(":bot.tmi.twitch.tv 366 bot #c :End of /NAMES list").is_none());
    assert!(parse_message(":tmi.twitch.tv 372 bot :You are in a maze").is_none());
    assert!(parse_message(":tmi.twitch.tv 375 bot :-").is_none());
    assert!(parse_message(":tmi.twitch.tv 376 bot :>").is_none());
    assert!(parse_command("376 bot").is_none());
    assert!(parse_command("421").is_none());
}

#[test]
fn welcome_numeric_is_kept() {
    let m = parse_message(":tmi.twitch.tv 001 bot :Welcome, GLHF!").unwrap();
    let c = m.command.unwrap();
    assert_eq!(c.command.as_deref(), Some("001"));
    assert_eq!(c.channel.as_deref(), Some("bot"));
    assert_eq!(m.parameters.as_deref(), Some("Welcome, GLHF!"));
}

#[test]
fn unknown_and_malformed_lines_give_nothing() {
    assert!(parse_message("").is_none());
    assert!(parse_message("@a=b").is_none());
    assert!(parse_message("@a=b ").is_none());
    assert!(parse_message(":tmi.twitch.tv").is_none());
    assert!(parse_message(":tmi.twitch.tv WHISPER bot :hi").is_none());
    assert!(parse_message("privmsg #c :lower case is no verb").is_none());
    assert!(parse_command("").is_none());
    assert!(parse_command(" PING").is_none());
}

#[test]
fn command_table() {
    for verb in ["JOIN", "PART", "NOTICE", "CLEARCHAT", "HOSTTARGET", "PRIVMSG", "USERSTATE", "ROOMSTATE"] {
        let c = parse_command(&format!("{} #room", verb)).unwrap();
        assert_eq!(c.command.as_deref(), Some(verb));
        assert_eq!(c.channel.as_deref(), Some("#room"));
        let c = parse_command(verb).unwrap();
        assert_eq!(c.channel, None);
    }
    for verb in ["PING", "GLOBALUSERSTATE", "RECONNECT"] {
        let c = parse_command(&format!("{} #room", verb)).unwrap();
        assert_eq!(c.command.as_deref(), Some(verb));
        assert_eq!(c.channel, None);
    }
}

#[test]
fn cap_acknowledgement() {
    let c = parse_command("CAP * ACK").unwrap();
    assert_eq!(c.command.as_deref(), Some("CAP"));
    assert_eq!(c.is_cap_request_enabled, Some(true));
    assert_eq!(c.channel, None);
    let c = parse_command("CAP * NAK").unwrap();
    assert_eq!(c.is_cap_request_enabled, Some(false));
    let c = parse_command("CAP *").unwrap();
    assert_eq!(c.is_cap_request_enabled, None);
    let m = parse_message(":tmi.twitch.tv CAP * ACK :twitch.tv/tags twitch.tv/commands").unwrap();
    assert_eq!(m.command.unwrap().is_cap_request_enabled, Some(true));
    assert_eq!(m.parameters.as_deref(), Some("twitch.tv/tags twitch.tv/commands"));
}

#[test]
fn two_spaces_give_an_empty_channel() {
    let c = parse_command("JOIN  #room").unwrap();
    assert_eq!(c.channel.as_deref(), Some(""));
}

#[test]
fn source_forms() {
    let s = parse_source("nick!host");
    assert_eq!(s.nick.as_deref(), Some("nick"));
    assert_eq!(s.host.as_deref(), Some("host"));
    let s = parse_source("tmi.twitch.tv");
    assert_eq!(s.nick, None);
    assert_eq!(s.host.as_deref(), Some("tmi.twitch.tv"));
    let s = parse_source("");
    assert_eq!(s.nick, None);
    assert_eq!(s.host, None);
    let s = parse_source("a!b!c");
    assert_eq!(s.nick, None);
    assert_eq!(s.host.as_deref(), Some("a"));
    let s = parse_source("!");
    assert_eq!(s.nick.as_deref(), Some(""));
    assert_eq!(s.host.as_deref(), Some(""));
}

#[test]
fn tags_emotes_and_sets() {
    let t = parse_tags("emotes=25:0-4,12-16/1902:6-10;emote-sets=0,33,50;flags=x;client-nonce=y");
    let places = t.emote_places("25").unwrap();
    assert_eq!(places.len(), 2);
    assert_eq!(places[0].start_position.as_deref(), Some("0"));
    assert_eq!(places[0].end_position.as_deref(), Some("4"));
    assert_eq!(places[1].start_position.as_deref(), Some("12"));
    assert_eq!(places[1].end_position.as_deref(), Some("16"));
    let places = t.emote_places("1902").unwrap();
    assert_eq!(places.len(), 1);
    assert!(t.emote_places("7").is_none());
    assert_eq!(t.emote_sets().unwrap(), vec!["0".to_string(), "33".to_string(), "50".to_string()]);
    assert_eq!(t.other("flags"), None);
    assert_eq!(t.other("client-nonce"), None);
    assert_eq!(t.other("emotes"), None);
    assert_eq!(t.other("emote-sets"), None);
    assert_eq!(t.badge("25"), None);
}

#[test]
fn tags_badges_merge_and_later_wins() {
    let t = parse_tags("badge-info=subscriber/8;badges=subscriber/6,premium/1");
    assert_eq!(t.badge("subscriber").as_deref(), Some("6"));
    assert_eq!(t.badge("premium").as_deref(), Some("1"));
    assert_eq!(t.badge("staff"), None);
    assert_eq!(t.other("badge-info"), None);
}

#[test]
fn tags_empty_values() {
    let t = parse_tags("badges=;emotes=;color=;emote-sets=");
    assert_eq!(t.badge("x"), None);
    assert!(t.emote_places("x").is_none());
    assert_eq!(t.other("color").as_deref(), Some(""));
    assert_eq!(t.emote_sets().unwrap(), vec!["".to_string()]);
    let t = parse_tags("color");
    assert_eq!(t.other("color").as_deref(), Some(""));
    assert!(t.emote_sets().is_none());
}

#[test]
fn tags_entries_without_separator_add_nothing() {
    let t = parse_tags("badges=broken,vip/1;emotes=novalue/25:0-4");
    assert_eq!(t.badge("broken"), None);
    assert_eq!(t.badge("vip").as_deref(), Some("1"));
    assert!(t.emote_places("novalue").is_none());
    assert_eq!(t.emote_places("25").unwrap().len(), 1);
}

#[test]
fn tags_position_without_end() {
    let t = parse_tags("emotes=9:5");
    let places = t.emote_places("9").unwrap();
    assert_eq!(places[0].start_position.as_deref(), Some("5"));
    assert_eq!(places[0].end_position, None);
}

#[test]
fn tags_later_value_stays() {
    let t = parse_tags("color=red;mod=0;color=blue");
    assert_eq!(t.other("color").as_deref(), Some("blue"));
    assert_eq!(t.other("mod").as_deref(), Some("0"));
    let t = parse_tags("emote-sets=1,2;emote-sets=3");
    assert_eq!(t.emote_sets().unwrap(), vec!["3".to_string()]);
}

#[test]
fn tags_value_ends_at_second_equals_sign() {
    let t = parse_tags("key=a=b");
    assert_eq!(t.other("key").as_deref(), Some("a"));
}

#[test]
fn tags_with_characters_beyond_ascii() {
    let m = parse_message("@display-name=Zoë测试;id=7 :zoe!zoe@h PRIVMSG #zoë :héllo wörld").unwrap();
    let t = m.tags.unwrap();
    assert_eq!(t.other("display-name").as_deref(), Some("Zoë测试"));
    assert_eq!(m.command.unwrap().channel.as_deref(), Some("#zoë"));
    assert_eq!(m.parameters.as_deref(), Some("héllo wörld"));
}

#[test]
fn empty_tag_block_gives_no_tags() {
    let m = parse_message("@ :n!h PRIVMSG #c :hi").unwrap();
    assert!(m.tags.is_none());
    assert_eq!(m.source.nick.as_deref(), Some("n"));
}

#[test]
fn command_block_is_trimmed() {
    let m = parse_message(":n!h   PRIVMSG #c \t :hi").unwrap();
    let c = m.command.unwrap();
    assert_eq!(c.command.as_deref(), Some("PRIVMSG"));
    assert_eq!(c.channel.as_deref(), Some("#c"));
}

#[test]
fn lone_bang_fills_the_bot_command() {
    let m = parse_message(":n!h PRIVMSG #c :!").unwrap();
    let c = m.command.unwrap();
    assert_eq!(c.command.as_deref(), Some("PRIVMSG"));
    assert_eq!(c.channel.as_deref(), Some("#c"));
    assert_eq!(c.bot_command.as_deref(), Some(""));
    assert_eq!(c.bot_command_params, None);
    assert_eq!(m.parameters.as_deref(), Some("!"));
}

#[test]
fn bot_command_and_arguments() {
    let c = parse_parameters("!dice  6 sides ", Command::default());
    assert_eq!(c.bot_command.as_deref(), Some("dice"));
    assert_eq!(c.bot_command_params.as_deref(), Some("6 sides"));
    let c = parse_parameters("!dice", Command::default());
    assert_eq!(c.bot_command.as_deref(), Some("dice"));
    assert_eq!(c.bot_command_params, None);
    let c = parse_parameters("", Command::default());
    assert_eq!(c.bot_command.as_deref(), Some(""));
    let kept = Command {
        command: Some("PRIVMSG".to_string()),
        channel: Some("#c".to_string()),
        is_cap_request_enabled: None,
        bot_command: None,
        bot_command_params: Some("old".to_string()),
    };
    let c = parse_parameters("!x", kept.clone());
    assert_eq!(c.command.as_deref(), Some("PRIVMSG"));
    assert_eq!(c.channel.as_deref(), Some("#c"));
    assert_eq!(c.bot_command.as_deref(), Some("x"));
    assert_eq!(c.bot_command_params.as_deref(), Some("old"));
}
