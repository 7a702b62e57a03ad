use chat_gateway::dispatch::{
    finish_reply, generate_response, is_channel_owner, owner_matches, reply_message,
    skip_toggle_reply, song_link_reply, song_reply, Answer, DispatchError, Playback, ReplyPlan,
    ReplyTarget, Request, Response,
};
use chat_gateway::message_parser::parse_message;

fn respond(line: &str) -> Response {
    generate_response(&parse_message(line).unwrap())
}

#[test]
fn ping_is_answered_with_pong() {
    match respond("PING :tmi.twitch.tv") {
        Response::Message(line) => assert_eq!(line, "PONG tmi.twitch.tv"),
        other => panic!("{:?}", other),
    }
    match respond("PING") {
        Response::Message(line) => assert_eq!(line, "PONG "),
        other => panic!("{:?}", other),
    }
}

#[test]
fn reconnect_notice_ends_the_connection() {
    assert!(matches!(respond(":tmi.twitch.tv RECONNECT"), Response::Reconnect));
}

#[test]
fn other_verbs_call_for_nothing() {
    assert!(matches!(respond(":bot!bot@h JOIN #c"), Response::Nothing));
    assert!(matches!(respond(":tmi.twitch.tv 001 bot :Welcome"), Response::Nothing));
    assert!(matches!(respond(":tmi.twitch.tv CAP * ACK :twitch.tv/tags"), Response::Nothing));
    assert!(matches!(respond("@id=1 :n!h PRIVMSG #c :hello there"), Response::Nothing));
    assert!(matches!(respond("@id=1 :n!h PRIVMSG #c : ?song"), Response::Nothing));
    assert!(matches!(respond("@id=1 :n!h PRIVMSG #c :?SONG"), Response::Nothing));
}

#[test]
fn commands_listing_is_a_reply() {
    match respond("@display-name=Bob;id=m-17 :bob!bob@h PRIVMSG #alice :?commands please") {
        Response::Message(line) => assert_eq!(
            line,
            "@reply-parent-msg-id=m-17 PRIVMSG #alice :?song ?songlink ?slink ?skip ?skipon ?skipoff"
        ),
        other => panic!("{:?}", other),
    }
}

#[test]
fn song_commands_ask_the_song_service() {
    match respond("@display-name=Bob;id=m-1 :bob!bob@h PRIVMSG #alice :?song") {
        Response::Ask { request, channel_name, reply_to } => {
            assert_eq!(request, Request::Song);
            assert_eq!(channel_name, "alice");
            assert_eq!(reply_to.message_id, "m-1");
            assert_eq!(reply_to.channel, "#alice");
        }
        other => panic!("{:?}", other),
    }
    for text in ["?slink", "?songlink now"] {
        match respond(&format!("@id=m-2 :bob!bob@h PRIVMSG #alice :{}", text)) {
            Response::Ask { request, channel_name, .. } => {
                assert_eq!(request, Request::SongLink);
                assert_eq!(channel_name, "alice");
            }
            other => panic!("{:?}", other),
        }
    }
}

#[test]
fn skip_vote_names_the_sender() {
    match respond(":x!y PRIVMSG #chan :?skip") {
        Response::Skip { username, reply_to } => {
            assert_eq!(username, "x");
            assert_eq!(reply_to.channel, "#chan");
            assert_eq!(reply_to.message_id, "");
        }
        other => panic!("{:?}", other),
    }
    match respond("@display-name=Bob;id=m-3 :bob!bob@h PRIVMSG #alice :?skip now") {
        Response::Skip { username, reply_to } => {
            assert_eq!(username, "bob");
            assert_eq!(reply_to.channel, "#alice");
            assert_eq!(reply_to.message_id, "m-3");
        }
        other => panic!("{:?}", other),
    }
    match respond("@display-name=Bob :tmi.twitch.tv PRIVMSG #alice :?skip") {
        Response::Skip { username, .. } => assert_eq!(username, "Bob"),
        other => panic!("{:?}", other),
    }
    match respond("PRIVMSG #alice :?skip") {
        Response::Skip { username, .. } => assert_eq!(username, ""),
        other => panic!("{:?}", other),
    }
}

#[test]
fn different_nicks_vote_as_different_users() {
    let mut names = Vec::new();
    for nick in ["ann", "bob", "cid", "dee", "eve"] {
        match respond(&format!(":{}!y PRIVMSG #chan :?skip", nick)) {
            Response::Skip { username, .. } => names.push(username),
            other => panic!("{:?}", other),
        }
    }
    assert_eq!(names, vec!["ann", "bob", "cid", "dee", "eve"]);
}

#[test]
fn skip_switch_is_for_the_owner() {
    match respond("@display-name=Alice;id=m-4 :alice!alice@h PRIVMSG #alice :?skipon") {
        Response::Ask { request, channel_name, .. } => {
            assert_eq!(request, Request::EnableSkip);
            assert_eq!(channel_name, "alice");
        }
        other => panic!("{:?}", other),
    }
    match respond("@display-name=ALICE;id=m-4 :alice!alice@h PRIVMSG #Alice :?skipoff") {
        Response::Ask { request, .. } => assert_eq!(request, Request::DisableSkip),
        other => panic!("{:?}", other),
    }
    for text in ["?skipon", "?skipoff"] {
        match respond(&format!("@display-name=Bob;id=m-5 :bob!bob@h PRIVMSG #alice :{}", text)) {
            Response::Failed { error, reply_to } => {
                assert_eq!(error, DispatchError::NotChannelOwner);
                assert_eq!(reply_to.channel, "#alice");
            }
            other => panic!("{:?}", other),
        }
    }
}

#[test]
fn owner_is_known_by_name_in_lower_case() {
    assert!(is_channel_owner("Alice", "#alice"));
    assert!(is_channel_owner("alice", "#ALICE"));
    assert!(is_channel_owner("ÄLICE", "#älice"));
    assert!(!is_channel_owner("Alice", "alice"));
    assert!(!is_channel_owner("Alice", "#alice2"));
    assert!(!is_channel_owner("", ""));
    assert!(is_channel_owner("", "#"));
    assert!(owner_matches("alice", "#alice"));
    assert!(!owner_matches("Alice", "#alice"));
    assert!(!owner_matches("alice", "alice"));
}

#[test]
fn reply_plans() {
    assert_eq!(reply_message("?song", false), ReplyPlan::Ask(Request::Song));
    assert_eq!(reply_message("?slink x", false), ReplyPlan::Ask(Request::SongLink));
    assert_eq!(reply_message("?songlink", true), ReplyPlan::Ask(Request::SongLink));
    assert_eq!(reply_message("?skip", false), ReplyPlan::Skip);
    assert_eq!(reply_message("?skipon", true), ReplyPlan::Ask(Request::EnableSkip));
    assert_eq!(reply_message("?skipon", false), ReplyPlan::Refuse(DispatchError::NotChannelOwner));
    assert_eq!(reply_message("?skipoff", true), ReplyPlan::Ask(Request::DisableSkip));
    assert_eq!(reply_message("?skipoff", false), ReplyPlan::Refuse(DispatchError::NotChannelOwner));
    assert_eq!(reply_message("?commands", false), ReplyPlan::Listing);
    assert_eq!(reply_message("", true), ReplyPlan::Nothing);
    assert_eq!(reply_message("?songs", true), ReplyPlan::Nothing);
    assert_eq!(reply_message("hello ?song", true), ReplyPlan::Nothing);
}

fn playing() -> Option<Playback> {
    Some(Playback::Playing {
        artists: vec!["Nina Simone".to_string(), "Hal Mooney".to_string()],
        title: "Sinnerman".to_string(),
        link: "https://open.example/track/1".to_string(),
    })
}

#[test]
fn song_replies() {
    assert_eq!(song_reply(&playing()), Ok("Nina Simone - Sinnerman".to_string()));
    assert_eq!(song_link_reply(&playing()), Ok("https://open.example/track/1".to_string()));
    assert_eq!(song_reply(&Some(Playback::Idle)), Ok("No song currently playing".to_string()));
    assert_eq!(song_link_reply(&Some(Playback::Idle)), Ok("No song currently playing".to_string()));
    assert_eq!(song_reply(&None), Err(DispatchError::SongUnavailable));
    assert_eq!(song_link_reply(&None), Err(DispatchError::SongUnavailable));
}

#[test]
fn song_without_artist_is_named_by_its_title() {
    let answer = Some(Playback::Playing {
        artists: Vec::new(),
        title: "Untitled".to_string(),
        link: "https://open.example/track/2".to_string(),
    });
    assert_eq!(song_reply(&answer), Ok("Untitled".to_string()));
    assert_eq!(song_link_reply(&answer), Ok("https://open.example/track/2".to_string()));
}

#[test]
fn skip_switch_replies() {
    assert_eq!(skip_toggle_reply(true, Some(true)), Ok("Vote skip is now enabled".to_string()));
    assert_eq!(skip_toggle_reply(false, Some(true)), Ok("Vote skip is now disabled".to_string()));
    assert_eq!(
        skip_toggle_reply(true, Some(false)),
        Err(DispatchError::SkipToggleRejected { enable: true })
    );
    assert_eq!(
        skip_toggle_reply(false, Some(false)),
        Err(DispatchError::SkipToggleRejected { enable: false })
    );
    assert_eq!(skip_toggle_reply(true, None), Err(DispatchError::SkipToggleFailed { enable: true }));
    assert_eq!(skip_toggle_reply(false, None), Err(DispatchError::SkipToggleFailed { enable: false }));
}

#[test]
fn failures_in_words() {
    assert_eq!(DispatchError::NotChannelOwner.category(), "User is not the channel owner.");
    assert_eq!(DispatchError::SongUnavailable.category(), "Could not get song");
    assert_eq!(DispatchError::SkipToggleRejected { enable: true }.category(), "Enabling song skip failed");
    assert_eq!(DispatchError::SkipToggleFailed { enable: false }.category(), "Disabling song skip failed");
    assert_eq!(DispatchError::SkipRejected.category(), "Could not skip song");
    assert_eq!(DispatchError::SkipFailed.category(), "Could not skip song");
    assert_eq!(DispatchError::NotChannelOwner.log_line("x"), "User is not the channel owner.");
    assert_eq!(DispatchError::SongUnavailable.log_line("timeout"), "Could not get song: timeout");
    assert_eq!(
        DispatchError::SkipToggleRejected { enable: true }.log_line("500 Internal Server Error"),
        "Enabling song skip failed with status code 500 Internal Server Error"
    );
    assert_eq!(
        DispatchError::SkipToggleRejected { enable: false }.log_line("404 Not Found"),
        "Disabling song skip failed with status code 404 Not Found"
    );
    assert_eq!(
        DispatchError::SkipToggleFailed { enable: true }.log_line("refused"),
        "Enabling song skip failed: refused"
    );
    assert_eq!(
        DispatchError::SkipToggleFailed { enable: false }.log_line("refused"),
        "Disabling song skip failed: refused"
    );
    assert_eq!(
        DispatchError::SkipRejected.log_line("403 Forbidden"),
        "Could not skip song, status code: 403 Forbidden"
    );
    assert_eq!(DispatchError::SkipFailed.log_line("refused"), "Error skipping song: refused");
}

#[test]
fn reply_and_failure_lines() {
    let target = ReplyTarget { message_id: "m-9".to_string(), channel: "#alice".to_string() };
    assert_eq!(target.reply_line("hi: there"), "@reply-parent-msg-id=m-9 PRIVMSG #alice :hi: there");
    assert_eq!(
        target.failure_line(DispatchError::SongUnavailable).as_deref(),
        Some("@reply-parent-msg-id=m-9 PRIVMSG #alice :Could not get song")
    );
    let nowhere = ReplyTarget { message_id: "m-9".to_string(), channel: String::new() };
    assert_eq!(nowhere.failure_line(DispatchError::SongUnavailable), None);
    assert_eq!(nowhere.reply_line("x"), "@reply-parent-msg-id=m-9 PRIVMSG  :x");
}

#[test]
fn chat_message_without_channel() {
    match respond("@id=1 :n!h PRIVMSG :?song") {
        Response::Ask { request, channel_name, reply_to } => {
            assert_eq!(request, Request::Song);
            assert_eq!(channel_name, "");
            assert_eq!(reply_to.channel, "");
        }
        other => panic!("{:?}", other),
    }
}

fn song() -> Playback {
    Playback::Playing {
        artists: vec!["Nina Simone".to_string(), "Hal Mooney".to_string()],
        title: "Sinnerman".to_string(),
        link: "https://open.example/track/1".to_string(),
    }
}

#[test]
fn each_request_gets_its_own_reply() {
    assert_eq!(finish_reply(Request::Song, Answer::Song(song())), Ok("Nina Simone - Sinnerman".to_string()));
    assert_eq!(
        finish_reply(Request::SongLink, Answer::Song(song())),
        Ok("https://open.example/track/1".to_string())
    );
    assert_eq!(
        finish_reply(Request::Song, Answer::Song(Playback::Idle)),
        Ok("No song currently playing".to_string())
    );
    assert_eq!(
        finish_reply(Request::SongLink, Answer::Song(Playback::Idle)),
        Ok("No song currently playing".to_string())
    );
    assert_eq!(
        finish_reply(Request::EnableSkip, Answer::Status(true)),
        Ok("Vote skip is now enabled".to_string())
    );
    assert_eq!(
        finish_reply(Request::DisableSkip, Answer::Status(true)),
        Ok("Vote skip is now disabled".to_string())
    );
    assert_eq!(
        finish_reply(Request::EnableSkip, Answer::Status(false)),
        Err(DispatchError::SkipToggleRejected { enable: true })
    );
    assert_eq!(
        finish_reply(Request::DisableSkip, Answer::Status(false)),
        Err(DispatchError::SkipToggleRejected { enable: false })
    );
}

#[test]
fn failed_or_foreign_answers_are_failures() {
    assert_eq!(finish_reply(Request::Song, Answer::Failed), Err(DispatchError::SongUnavailable));
    assert_eq!(finish_reply(Request::SongLink, Answer::Failed), Err(DispatchError::SongUnavailable));
    assert_eq!(finish_reply(Request::Song, Answer::Status(true)), Err(DispatchError::SongUnavailable));
    assert_eq!(
        finish_reply(Request::EnableSkip, Answer::Failed),
        Err(DispatchError::SkipToggleFailed { enable: true })
    );
    assert_eq!(
        finish_reply(Request::DisableSkip, Answer::Failed),
        Err(DispatchError::SkipToggleFailed { enable: false })
    );
    assert_eq!(
        finish_reply(Request::DisableSkip, Answer::Song(song())),
        Err(DispatchError::SkipToggleFailed { enable: false })
    );
}
