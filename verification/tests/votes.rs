use chat_gateway::dispatch::{generate_response, DispatchError, Response};
use chat_gateway::message_parser::parse_message;
use chat_gateway::votes::{
    VoteOutcome, VoteSkip, VoteState, REQUIRED_SKIPS, SKIP_COOLDOWN_SECS, VOTE_EXPIRY_SECS,
};

const COUNTED: VoteOutcome = VoteOutcome::Counted { expire_after_secs: 30 };
const QUORUM: VoteOutcome = VoteOutcome::Quorum { expire_after_secs: 30 };

#[test]
fn constants() {
    assert_eq!(REQUIRED_SKIPS, 5);
    assert_eq!(VOTE_EXPIRY_SECS, 30);
    assert_eq!(SKIP_COOLDOWN_SECS, 10);
}

#[test]
fn same_user_twice_counts_once() {
    let mut v = VoteSkip::new();
    assert_eq!(v.register_vote("#c", "ann"), COUNTED);
    assert_eq!(v.register_vote("#c", "ann"), VoteOutcome::Duplicate);
    assert_eq!(v.voter_count("#c"), 1);
    assert_eq!(v.pending_count("#c"), 1);
    assert!(v.has_voted("#c", "ann"));
    assert!(!v.has_voted("#c", "Ann"));
    assert!(!v.has_voted("#d", "ann"));
    assert_eq!(v.voter_count("#d"), 0);
}

#[test]
fn five_users_reach_the_quorum_once() {
    let mut v = VoteSkip::new();
    let mut quorums = 0;
    for (i, user) in ["a", "b", "c", "d", "e"].iter().enumerate() {
        let outcome = v.register_vote("#c", user);
        if outcome == QUORUM {
            quorums += 1;
            assert_eq!(i, 4);
        } else {
            assert_eq!(outcome, COUNTED);
        }
    }
    assert_eq!(quorums, 1);
    assert_eq!(v.voter_count("#c"), 5);
    assert_eq!(v.pending_count("#c"), 5);
    assert_eq!(v.skip_answered("#c", Some(true), 100), Ok("PRIVMSG #c :Vote skip passed".to_string()));
    assert_eq!(v.voter_count("#c"), 0);
    assert_eq!(v.pending_count("#c"), 0);
    assert!(!v.has_voted("#c", "a"));
    assert_eq!(v.register_vote("#c", "f"), COUNTED);
    assert_eq!(v.voter_count("#c"), 1);
    assert!(v.has_voted("#c", "f"));
}

#[test]
fn channels_are_counted_apart() {
    let mut v = VoteSkip::new();
    for user in ["a", "b", "c", "d"] {
        assert_eq!(v.register_vote("#one", user), COUNTED);
    }
    assert_eq!(v.register_vote("#two", "e"), COUNTED);
    assert_eq!(v.voter_count("#one"), 4);
    assert_eq!(v.voter_count("#two"), 1);
    assert_eq!(v.register_vote("#one", "e"), QUORUM);
    assert_eq!(v.skip_answered("#one", Some(true), 50), Ok("PRIVMSG #one :Vote skip passed".to_string()));
    assert_eq!(v.voter_count("#one"), 0);
    assert_eq!(v.voter_count("#two"), 1);
}

#[test]
fn each_channel_has_its_own_cooldown() {
    let mut v = VoteSkip::new();
    for user in ["a", "b", "c", "d", "e"] {
        v.handle_skip("#a", user, 90);
    }
    assert!(v.skip_answered("#a", Some(true), 100).is_ok());
    assert_eq!(v.state("#a", 101), VoteState::Cooldown);
    assert_eq!(v.state("#b", 101), VoteState::Empty);
    assert_eq!(v.handle_skip("#a", "x", 101), VoteOutcome::Dropped);
    assert_eq!(v.handle_skip("#b", "x", 101), COUNTED);
    assert_eq!(v.state("#b", 101), VoteState::Collecting);
    assert_eq!(v.voter_count("#a"), 0);
    assert_eq!(v.voter_count("#b"), 1);
    assert_eq!(v.state("#a", 110), VoteState::Empty);
}

#[test]
fn a_new_counter_accepts_votes_at_once() {
    let mut v = VoteSkip::new();
    assert!(v.accepts_votes("#c", 0));
    assert!(v.accepts_votes("#c", 5));
    assert!(v.accepts_votes("#c", u64::MAX));
    assert_eq!(v.state("#c", 0), VoteState::Empty);
    assert_eq!(v.handle_skip("#c", "a", 5), COUNTED);
    assert_eq!(v.state("#c", 5), VoteState::Collecting);
}

#[test]
fn expiry_takes_the_vote_back() {
    let mut v = VoteSkip::new();
    v.register_vote("#c", "a");
    v.register_vote("#c", "b");
    v.expire_vote("#c", "a");
    assert_eq!(v.voter_count("#c"), 1);
    assert_eq!(v.pending_count("#c"), 1);
    assert!(!v.has_voted("#c", "a"));
    assert!(v.has_voted("#c", "b"));
    v.expire_vote("#c", "a");
    v.expire_vote("#c", "nobody");
    v.expire_vote("#other", "b");
    assert_eq!(v.voter_count("#c"), 1);
    assert_eq!(v.register_vote("#c", "a"), COUNTED);
    assert_eq!(v.voter_count("#c"), 2);
    v.expire_vote("#c", "b");
    v.expire_vote("#c", "a");
    assert_eq!(v.state("#c", 0), VoteState::Empty);
}

#[test]
fn expiry_after_a_skip_changes_nothing() {
    let mut v = VoteSkip::new();
    for user in ["a", "b", "c", "d", "e"] {
        v.register_vote("#c", user);
    }
    assert!(v.skip_answered("#c", Some(true), 20).is_ok());
    v.expire_vote("#c", "a");
    v.expire_vote("#c", "e");
    assert_eq!(v.voter_count("#c"), 0);
    assert_eq!(v.pending_count("#c"), 0);
}

#[test]
fn failed_skip_keeps_the_votes() {
    let mut v = VoteSkip::new();
    for user in ["a", "b", "c", "d", "e"] {
        v.register_vote("#c", user);
    }
    assert_eq!(v.skip_answered("#c", Some(false), 40), Err(DispatchError::SkipRejected));
    assert_eq!(v.voter_count("#c"), 5);
    assert_eq!(v.skip_answered("#c", None, 41), Err(DispatchError::SkipFailed));
    assert_eq!(v.voter_count("#c"), 5);
    assert_eq!(v.pending_count("#c"), 5);
    assert!(v.accepts_votes("#c", 41));
    assert_eq!(v.register_vote("#c", "f"), QUORUM);
    assert_eq!(v.register_vote("#c", "f"), VoteOutcome::Duplicate);
    v.expire_vote("#c", "e");
    assert!(!v.has_voted("#c", "e"));
    v.expire_vote("#c", "a");
    assert!(!v.has_voted("#c", "a"));
    assert_eq!(v.voter_count("#c"), 4);
}

#[test]
fn cooldown_drops_votes() {
    let mut v = VoteSkip::new();
    for user in ["a", "b", "c", "d", "e"] {
        v.register_vote("#c", user);
    }
    assert!(v.skip_answered("#c", Some(true), 1000).is_ok());
    assert!(!v.accepts_votes("#c", 1000));
    assert!(!v.accepts_votes("#c", 1009));
    assert!(v.accepts_votes("#c", 1010));
    assert!(!v.accepts_votes("#c", 999));
    assert!(!v.accepts_votes("#c", 0));
    assert_eq!(v.handle_skip("#c", "a", 1005), VoteOutcome::Dropped);
    assert_eq!(v.voter_count("#c"), 0);
    assert_eq!(v.handle_skip("#c", "a", 1010), COUNTED);
    assert_eq!(v.handle_skip("#c", "a", 1011), VoteOutcome::Duplicate);
    assert_eq!(v.voter_count("#c"), 1);
    let mut late = VoteSkip::new();
    assert!(late.skip_answered("#c", Some(true), u64::MAX - 3).is_ok());
    assert!(!late.accepts_votes("#c", u64::MAX));
}

#[test]
fn five_skip_lines_skip_once_and_start_a_cooldown() {
    let mut v = VoteSkip::new();
    let mut now = 0;
    let mut skips = 0;
    for user in ["x", "ann", "bob", "cid", "dee"] {
        let line = format!(":{}!y PRIVMSG #chan :?skip", user);
        let parsed = parse_message(&line).unwrap();
        match generate_response(&parsed) {
            Response::Skip { username, reply_to } => {
                assert_eq!(username, user);
                match v.handle_skip(&reply_to.channel, &username, now) {
                    VoteOutcome::Quorum { expire_after_secs } => {
                        assert_eq!(expire_after_secs, 30);
                        skips += 1;
                        let said = v.skip_answered(&reply_to.channel, Some(true), now);
                        assert_eq!(said, Ok("PRIVMSG #chan :Vote skip passed".to_string()));
                    }
                    other => {
                        assert_eq!(other, COUNTED);
                        assert_eq!(skips, 0);
                    }
                }
            }
            other => panic!("{:?}", other),
        }
        now += 2;
    }
    assert_eq!(skips, 1);
    assert_eq!(v.voter_count("#chan"), 0);
    assert_eq!(v.pending_count("#chan"), 0);
    let skipped_at = now - 2;
    assert_eq!(v.handle_skip("#chan", "eve", skipped_at + 1), VoteOutcome::Dropped);
    assert_eq!(v.handle_skip("#chan", "eve", skipped_at + 9), VoteOutcome::Dropped);
    assert_eq!(v.voter_count("#chan"), 0);
    assert_eq!(v.handle_skip("#chan", "eve", skipped_at + 10), COUNTED);
    assert_eq!(v.voter_count("#chan"), 1);
}
