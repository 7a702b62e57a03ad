//! Laws of the line decoder, proved over the spec functions that its
//! contracts use.

use crate::dispatch::{
    channel_of, owns, plan_of, response_to, tag_of, verb_of, ReplyPlan, ResponseView,
};
use crate::message_parser::{
    after, apply_tag, apply_tags, bare_command, classify_command, cut_line, decode_source,
    decode_tags, is_channel_verb, is_ignored_numeric, is_ignored_tag, is_other_tag,
    is_plain_verb, marked_block, no_tags, parse_line, past_source, past_tags, starts_with,
    tag_key, tag_value,
};
use crate::text::{
    first_index, is_whitespace, lemma_first_index_is, lemma_split_cons, lemma_split_none,
    lemma_trim_end_after, lemma_trim_end_is_prefix, split, trim, trim_end, trim_start,
};
use crate::votes::{
    after_answer, after_votes, law_quorum_at_fifth_voter, lemma_distinct_votes, no_votes,
    outcome_at, VoteOutcome, VOTE_EXPIRY_SECS,
};
use vstd::prelude::*;

verus! {

/// The ignored numeric replies are no verbs of any other kind.
pub proof fn lemma_numerics_are_no_verbs(verb: Seq<char>)
    requires
        is_ignored_numeric(verb),
    ensures
        !is_channel_verb(verb),
        !is_plain_verb(verb),
        verb != "CAP"@,
{
    reveal_strlit("002");
    reveal_strlit("003");
    reveal_strlit("004");
    reveal_strlit("353");
    reveal_strlit("366");
    reveal_strlit("372");
    reveal_strlit("375");
    reveal_strlit("376");
    reveal_strlit("421");
    reveal_strlit("JOIN");
    reveal_strlit("PART");
    reveal_strlit("NOTICE");
    reveal_strlit("CLEARCHAT");
    reveal_strlit("HOSTTARGET");
    reveal_strlit("PRIVMSG");
    reveal_strlit("USERSTATE");
    reveal_strlit("ROOMSTATE");
    reveal_strlit("001");
    reveal_strlit("PING");
    reveal_strlit("GLOBALUSERSTATE");
    reveal_strlit("RECONNECT");
    reveal_strlit("CAP");
    assert(verb.len() == 3);
    assert(verb[2] != '1' || verb[0] != '0');
    assert("001"@[0] == '0' && "001"@[2] == '1');
    assert("CAP"@[0] == 'C');
    assert(verb[0] != 'C');
}

/// A line whose verb is one of the ignored numeric replies (`002`, `003`,
/// `004`, `353`, `366`, `372`, `375`, `376`, `421`) decodes to nothing,
/// whatever else the line holds.
pub proof fn law_numeric_replies_are_dropped(line: Seq<char>)
    requires
        is_ignored_numeric(split(cut_line(line).command, ' ')[0]),
    ensures
        parse_line(line) is None,
{
    lemma_numerics_are_no_verbs(split(cut_line(line).command, ' ')[0]);
}

/// A line decodes to something exactly when the first token of its command
/// block is a known verb.
pub proof fn law_known_verbs_only(line: Seq<char>)
    ensures
        parse_line(line) is Some <==> {
            let verb = split(cut_line(line).command, ' ')[0];
            is_channel_verb(verb) || is_plain_verb(verb) || verb == "CAP"@
        },
{
}

/// No character of `s` is `c`.
pub open spec fn free_of(s: Seq<char>, c: char) -> bool {
    forall|i: int| 0 <= i < s.len() ==> s[i] != c
}

/// What follows the tag block of a chat message: the line
/// `:<nick>!<host> PRIVMSG #<chan> :<text>`.
pub open spec fn plain_privmsg_line(
    nick: Seq<char>,
    host: Seq<char>,
    chan: Seq<char>,
    text: Seq<char>,
) -> Seq<char> {
    marked_line(
        ':',
        nick + seq!['!'] + host,
        "PRIVMSG"@ + seq![' '] + (seq!['#'] + chan) + seq![' ', ':'] + text,
    )
}

/// A chat message: the line `:<nick>!<host> PRIVMSG #<chan> :<text>`, with
/// `@<tags>` and a space before it where it has tags.
pub open spec fn privmsg_line(
    tags: Option<Seq<char>>,
    nick: Seq<char>,
    host: Seq<char>,
    chan: Seq<char>,
    text: Seq<char>,
) -> Seq<char> {
    match tags {
        Some(t) => marked_line('@', t, plain_privmsg_line(nick, host, chan, text)),
        None => plain_privmsg_line(nick, host, chan, text),
    }
}

/// What a chat message may be made of: a tag block without a space, nick
/// and host without a space or `!`, and a channel name without a space or
/// `:`.
pub open spec fn privmsg_parts(
    tags: Option<Seq<char>>,
    nick: Seq<char>,
    host: Seq<char>,
    chan: Seq<char>,
) -> bool {
    &&& tags matches Some(t) ==> free_of(t, ' ')
    &&& free_of(nick, ' ')
    &&& free_of(nick, '!')
    &&& free_of(host, ' ')
    &&& free_of(host, '!')
    &&& free_of(chan, ' ')
    &&& free_of(chan, ':')
}

/// The channel that a chat message to `#<chan>` decodes to: `#` and the
/// name, less the white space at the end of the name, which goes when the
/// command block is trimmed. A name that does not end in white space comes
/// out whole.
pub open spec fn channel_read(chan: Seq<char>) -> Seq<char> {
    seq!['#'] + trim_end(chan)
}

/// The line `m body rest`, where ` ` stands between `body` and `rest`.
pub open spec fn marked_line(m: char, body: Seq<char>, rest: Seq<char>) -> Seq<char> {
    seq![m] + body + seq![' '] + rest
}

/// A block that begins with a marker and holds no space runs to the first
/// space, and what follows that space is the rest of the line.
pub proof fn lemma_marked_block(m: char, body: Seq<char>, rest: Seq<char>)
    requires
        m != ' ',
        free_of(body, ' '),
    ensures
        starts_with(marked_line(m, body, rest), m),
        marked_block(marked_line(m, body, rest)) == body,
        after(marked_line(m, body, rest), first_index(marked_line(m, body, rest), ' ')) == rest,
{
    let s = marked_line(m, body, rest);
    let end: int = body.len() as int + 1;
    lemma_first_index_is(s, ' ', end);
    assert(s.subrange(1, end) =~= body);
    assert(s.skip(end + 1) =~= rest);
}

/// A command block that holds no colon and does not begin with white
/// space, followed by ` :` and a text: what stands before the first colon,
/// trimmed, is the block without the white space at its end, and the text
/// is what stands after the colon.
pub proof fn lemma_command_block(block: Seq<char>, text: Seq<char>)
    requires
        block.len() > 0,
        free_of(block, ':'),
        !is_whitespace(block[0]),
    ensures
        trim((block + seq![' ', ':'] + text).take(first_index(block + seq![' ', ':'] + text, ':')))
            == trim_end(block),
        after(block + seq![' ', ':'] + text, first_index(block + seq![' ', ':'] + text, ':'))
            == text,
{
    let tail = block + seq![' ', ':'] + text;
    let colon: int = block.len() as int + 1;
    lemma_first_index_is(tail, ':', colon);
    let padded = tail.take(colon);
    assert(padded =~= block + seq![' ']);
    assert(tail.skip(colon + 1) =~= text);
    assert(padded[0] == block[0]);
    assert(trim_start(padded) == padded);
    assert(padded.drop_last() =~= block);
    assert(is_whitespace(padded.last()));
    assert(trim_end(padded) == trim_end(padded.drop_last()));
}

/// The command block `PRIVMSG <target>` is classified as a chat message to
/// `target`, where `target` holds no space.
pub proof fn lemma_privmsg_block(target: Seq<char>)
    requires
        free_of(target, ' '),
    ensures
        classify_command("PRIVMSG"@ + seq![' '] + target) matches Some(c) && c.command == Some(
            "PRIVMSG"@,
        ) && c.channel == Some(target),
{
    reveal_strlit("PRIVMSG");
    let verb = "PRIVMSG"@;
    lemma_split_cons(verb, ' ', target);
    lemma_split_none(target, ' ');
    assert(split(verb + seq![' '] + target, ' ') =~= seq![verb, target]);
}

/// The source block `nick!host` gives both, where neither holds `!`.
pub proof fn lemma_nick_and_host(nick: Seq<char>, host: Seq<char>)
    requires
        free_of(nick, '!'),
        free_of(host, '!'),
    ensures
        decode_source(nick + seq!['!'] + host).nick == Some(nick),
        decode_source(nick + seq!['!'] + host).host == Some(host),
{
    lemma_split_cons(nick, '!', host);
    lemma_split_none(host, '!');
    assert(split(nick + seq!['!'] + host, '!') =~= seq![nick, host]);
}

/// A chat message with a full source, with or without tags, decodes to
/// its own parts: the nick and the host of the source, the channel with its
/// `#`, and the text as the parameters, whatever the text holds. Of the
/// channel name only white space at its end is lost.
pub proof fn law_privmsg_fields(
    tags: Option<Seq<char>>,
    nick: Seq<char>,
    host: Seq<char>,
    chan: Seq<char>,
    text: Seq<char>,
)
    requires
        privmsg_parts(tags, nick, host, chan),
    ensures
        parse_line(privmsg_line(tags, nick, host, chan, text)) matches Some(m) && {
            &&& m.source.nick == Some(nick)
            &&& m.source.host == Some(host)
            &&& m.command matches Some(c) && c.command == Some("PRIVMSG"@) && c.channel == Some(
                channel_read(chan),
            )
            &&& m.parameters == Some(text)
            &&& tags is None ==> m.tags is None
        },
        (chan.len() > 0 ==> !is_whitespace(chan.last())) ==> channel_read(chan) == seq!['#'] + chan,
{
    let line = privmsg_line(tags, nick, host, chan, text);
    let source = nick + seq!['!'] + host;
    let target = seq!['#'] + chan;
    let block = "PRIVMSG"@ + seq![' '] + target;
    let tail = block + seq![' ', ':'] + text;
    let rest = marked_line(':', source, tail);
    assert(rest == plain_privmsg_line(nick, host, chan, text));
    lemma_marked_block(':', source, tail);
    match tags {
        Some(t) => {
            lemma_marked_block('@', t, rest);
        },
        None => {
            assert(!starts_with(rest, '@'));
            assert(cut_line(line).tags.len() == 0);
        },
    }
    assert(past_tags(line) == rest);
    assert(past_source(line) == tail);
    assert(cut_line(line).source == source);
    let head = "PRIVMSG"@ + seq![' ', '#'];
    assert(block.len() > 0 && free_of(block, ':') && !is_whitespace(block[0]) && head.len() > 0
        && !is_whitespace(head.last())) by {
        reveal_strlit("PRIVMSG");
    }
    lemma_command_block(block, text);
    assert(block =~= head + chan);
    lemma_trim_end_after(head, chan);
    lemma_trim_end_is_prefix(chan);
    let read = channel_read(chan);
    assert(trim_end(block) =~= "PRIVMSG"@ + seq![' '] + read);
    assert(cut_line(line).command == "PRIVMSG"@ + seq![' '] + read);
    assert(cut_line(line).parameters == text);
    assert(free_of(read, ' ')) by {
        assert forall|i: int| 0 <= i < read.len() implies read[i] != ' ' by {
            if i > 0 {
                assert(read[i] == chan[i - 1]);
            }
        }
    }
    lemma_privmsg_block(read);
    lemma_nick_and_host(nick, host);
}

/// Some tag of `items` is named `key`.
pub open spec fn names_tag(items: Seq<Seq<char>>, key: Seq<char>) -> bool {
    exists|i: int| 0 <= i < items.len() && #[trigger] tag_key(items[i]) == key
}

/// Some tag of `items` is named `key` and has a value that is not empty.
pub open spec fn names_filled_tag(items: Seq<Seq<char>>, key: Seq<char>) -> bool {
    exists|i: int|
        0 <= i < items.len() && #[trigger] tag_key(items[i]) == key && tag_value(items[i]).len()
            > 0
}

/// The names of the special tags and of the ignored tags all differ.
pub proof fn lemma_tag_names_differ()
    ensures
        "badges"@ != "badge-info"@,
        "badges"@ != "emotes"@,
        "badges"@ != "emote-sets"@,
        "badge-info"@ != "emotes"@,
        "badge-info"@ != "emote-sets"@,
        "emotes"@ != "emote-sets"@,
        !is_ignored_tag("badges"@),
        !is_ignored_tag("badge-info"@),
        !is_ignored_tag("emotes"@),
        !is_ignored_tag("emote-sets"@),
{
    reveal_strlit("badges");
    reveal_strlit("badge-info");
    reveal_strlit("emotes");
    reveal_strlit("emote-sets");
    reveal_strlit("client-nonce");
    reveal_strlit("flags");
    assert("emotes"@.len() == 6 && "emote-sets"@.len() == 10);
    assert("badges"@.len() == 6 && "badge-info"@.len() == 10);
    assert("emotes"@[0] == 'e' && "emote-sets"@[0] == 'e');
    assert("badges"@[0] == 'b' && "badge-info"@[0] == 'b');
    assert("client-nonce"@[0] == 'c' && "flags"@[0] == 'f');
}

/// Which mappings a list of tags fills: the mapping of other tags holds
/// `key` exactly when `key` is no special and no ignored name and some tag
/// bears it; each special mapping is there exactly when a tag of its kind
/// is (for badges and emotes: one with a value).
pub proof fn lemma_places(items: Seq<Seq<char>>, key: Seq<char>)
    ensures
        ({
            let t = apply_tags(no_tags(), items);
            &&& (t.other is Some && t.other->0.contains_key(key)) <==> (is_other_tag(key)
                && names_tag(items, key))
            &&& t.emote_sets is Some <==> names_tag(items, "emote-sets"@)
            &&& t.badges is Some <==> (names_filled_tag(items, "badges"@) || names_filled_tag(
                items,
                "badge-info"@,
            ))
            &&& t.emotes is Some <==> names_filled_tag(items, "emotes"@)
        }),
    decreases items.len(),
{
    lemma_tag_names_differ();
    if items.len() > 0 {
        let front = items.drop_last();
        let item = items.last();
        let last = items.len() - 1;
        lemma_places(front, key);
        assert(forall|i: int| 0 <= i < front.len() ==> front[i] == items[i]);
        let before = apply_tags(no_tags(), front);
        let t = apply_tag(before, item);
        lemma_names_step(items, key);
        lemma_names_step(items, "emote-sets"@);
        lemma_filled_step(items, "badges"@);
        lemma_filled_step(items, "badge-info"@);
        lemma_filled_step(items, "emotes"@);
    }
}

/// A list names `key` when its front does or its last tag is named so.
proof fn lemma_names_step(items: Seq<Seq<char>>, key: Seq<char>)
    requires
        items.len() > 0,
    ensures
        names_tag(items, key) <==> (names_tag(items.drop_last(), key) || tag_key(items.last())
            == key),
{
    let front = items.drop_last();
    let last = items.len() - 1;
    if names_tag(front, key) {
        let i = choose|i: int| 0 <= i < front.len() && #[trigger] tag_key(front[i]) == key;
        assert(tag_key(items[i]) == key);
    }
    if tag_key(items.last()) == key {
        assert(tag_key(items[last]) == key);
    }
    if names_tag(items, key) {
        let i = choose|i: int| 0 <= i < items.len() && #[trigger] tag_key(items[i]) == key;
        if i < last {
            assert(tag_key(front[i]) == key);
        }
    }
}

/// The same for a tag with a value.
proof fn lemma_filled_step(items: Seq<Seq<char>>, key: Seq<char>)
    requires
        items.len() > 0,
    ensures
        names_filled_tag(items, key) <==> (names_filled_tag(items.drop_last(), key) || (tag_key(
            items.last(),
        ) == key && tag_value(items.last()).len() > 0)),
{
    let front = items.drop_last();
    let last = items.len() - 1;
    if names_filled_tag(front, key) {
        let i = choose|i: int|
            0 <= i < front.len() && #[trigger] tag_key(front[i]) == key && tag_value(
                front[i],
            ).len() > 0;
        assert(tag_key(items[i]) == key && tag_value(items[i]).len() > 0);
    }
    if tag_key(items.last()) == key && tag_value(items.last()).len() > 0 {
        assert(tag_key(items[last]) == key && tag_value(items[last]).len() > 0);
    }
    if names_filled_tag(items, key) {
        let i = choose|i: int|
            0 <= i < items.len() && #[trigger] tag_key(items[i]) == key && tag_value(
                items[i],
            ).len() > 0;
        if i < last {
            assert(tag_key(front[i]) == key && tag_value(front[i]).len() > 0);
        }
    }
}

/// Every tag of a block has exactly one place. A tag whose name is neither
/// special (`badges`, `badge-info`, `emotes`, `emote-sets`) nor ignored
/// (`client-nonce`, `flags`) is held by the mapping of other tags under its
/// own name, and that mapping holds no other names. A special tag fills its
/// own mapping and no other, and an ignored tag fills none.
pub proof fn law_each_tag_has_one_place(raw: Seq<char>, key: Seq<char>)
    ensures
        ({
            let items = split(raw, ';');
            let t = decode_tags(raw);
            &&& (t.other is Some && t.other->0.contains_key(key)) <==> (is_other_tag(key)
                && names_tag(items, key))
            &&& t.emote_sets is Some <==> names_tag(items, "emote-sets"@)
            &&& t.badges is Some <==> (names_filled_tag(items, "badges"@) || names_filled_tag(
                items,
                "badge-info"@,
            ))
            &&& t.emotes is Some <==> names_filled_tag(items, "emotes"@)
        }),
{
    lemma_places(split(raw, ';'), key);
}

/// The value that stays for a name of the mapping of other tags is that of
/// the last tag that bears the name.
pub proof fn lemma_last_value(items: Seq<Seq<char>>, i: int)
    requires
        0 <= i < items.len(),
        is_other_tag(tag_key(items[i])),
        forall|j: int| i < j < items.len() ==> tag_key(#[trigger] items[j]) != tag_key(items[i]),
    ensures
        ({
            let t = apply_tags(no_tags(), items);
            t.other is Some && t.other->0.contains_key(tag_key(items[i])) && t.other->0[tag_key(
                items[i],
            )] == tag_value(items[i])
        }),
    decreases items.len(),
{
    let front = items.drop_last();
    let last = items.len() - 1;
    if i < last {
        assert(front[i] == items[i]);
        assert(forall|j: int| i < j < front.len() ==> front[j] == items[j]);
        lemma_last_value(front, i);
        assert(tag_key(items[last]) != tag_key(items[i]));
    }
}

/// Where a name comes twice among the other tags of a block, the later
/// value stays.
pub proof fn law_later_value_stays(raw: Seq<char>, i: int)
    requires
        0 <= i < split(raw, ';').len(),
        is_other_tag(tag_key(split(raw, ';')[i])),
        forall|j: int|
            i < j < split(raw, ';').len() ==> tag_key(#[trigger] split(raw, ';')[j]) != tag_key(
                split(raw, ';')[i],
            ),
    ensures
        decode_tags(raw).other is Some,
        decode_tags(raw).other->0.contains_key(tag_key(split(raw, ';')[i])),
        decode_tags(raw).other->0[tag_key(split(raw, ';')[i])] == tag_value(split(raw, ';')[i]),
{
    lemma_last_value(split(raw, ';'), i);
}

/// The command block `PING` is classified as a bare `PING`.
pub proof fn lemma_ping_block()
    ensures
        classify_command("PING"@) == Some(bare_command(Some("PING"@), None)),
        "PING"@.len() == 4,
        free_of("PING"@, ':'),
        !is_whitespace("PING"@[0]),
        !is_whitespace("PING"@.last()),
        !starts_with("PING"@, '@'),
        !starts_with("PING"@, ':'),
{
    reveal_strlit("PING");
    reveal_strlit("JOIN");
    reveal_strlit("PART");
    reveal_strlit("NOTICE");
    reveal_strlit("CLEARCHAT");
    reveal_strlit("HOSTTARGET");
    reveal_strlit("PRIVMSG");
    reveal_strlit("USERSTATE");
    reveal_strlit("ROOMSTATE");
    reveal_strlit("001");
    lemma_split_none("PING"@, ' ');
    assert("PING"@[1] == 'I' && "PART"@[1] == 'A' && "JOIN"@[0] == 'J');
}

/// Any `PING` is answered with a `PONG` that echoes what came with it: the
/// line `PING :<text>` decodes, and calls for the line `PONG <text>`.
pub proof fn law_ping_is_echoed(text: Seq<char>)
    ensures
        parse_line("PING"@ + seq![' ', ':'] + text) matches Some(m) && response_to(m)
            == ResponseView::Message("PONG "@ + text),
{
    let line = "PING"@ + seq![' ', ':'] + text;
    lemma_ping_block();
    lemma_command_block("PING"@, text);
    assert(line[0] == "PING"@[0]);
    assert(past_tags(line) == line);
    assert(past_source(line) == line);
    let raw = cut_line(line);
    assert(raw.command == "PING"@);
    assert(raw.parameters == text);
    let m = parse_line(line)->0;
    assert(verb_of(m) == "PING"@);
}

/// A text whose first token is `?skip` is a skip vote, whoever sent it.
pub proof fn lemma_skip_plan(text: Seq<char>, is_channel_owner: bool)
    requires
        split(text, ' ')[0] == "?skip"@,
    ensures
        plan_of(text, is_channel_owner) == ReplyPlan::Skip,
{
    reveal_strlit("?skip");
    reveal_strlit("?song");
    reveal_strlit("?slink");
    reveal_strlit("?songlink");
    assert("?skip"@[2] == 'k' && "?song"@[2] == 'o' && "?slink"@.len() == 6 && "?songlink"@.len()
        == 9);
}

/// A skip vote names its sender: the chat message
/// `:<nick>!<host> PRIVMSG #<chan> :<text>`, with or without tags, whose
/// text begins with the token `?skip`, calls for a vote of `nick` on the
/// channel that the line names. So the votes of senders with different
/// nicks are votes of different users.
pub proof fn law_skip_vote_names_its_sender(
    tags: Option<Seq<char>>,
    nick: Seq<char>,
    host: Seq<char>,
    chan: Seq<char>,
    text: Seq<char>,
)
    requires
        privmsg_parts(tags, nick, host, chan),
        split(text, ' ')[0] == "?skip"@,
    ensures
        parse_line(privmsg_line(tags, nick, host, chan, text)) matches Some(m) && (response_to(
            m,
        ) matches ResponseView::Skip { username, reply_to } && username == nick && reply_to.channel
            == channel_read(chan)),
{
    law_privmsg_fields(tags, nick, host, chan, text);
    let m = parse_line(privmsg_line(tags, nick, host, chan, text))->0;
    assert(verb_of(m) == "PRIVMSG"@);
    assert("PRIVMSG"@ != "PING"@) by {
        reveal_strlit("PRIVMSG");
        reveal_strlit("PING");
    }
    lemma_skip_plan(text, owns(tag_of(m, "display-name"@), channel_of(m)));
}

/// Five skip votes from five users skip once. Of five chat messages
/// `:<nick>!<host> PRIVMSG #<chan> :?skip` with distinct nicks, on a
/// channel without votes that is in no cooldown, the `k`-th is a vote of
/// its own nick; the first four are counted and the fifth reaches the
/// quorum, at whatever times they come. Once the skip has gone through, the
/// channel has no voter and no expiry is due.
pub proof fn law_five_skip_votes_skip_once(
    nicks: Seq<Seq<char>>,
    hosts: Seq<Seq<char>>,
    chan: Seq<char>,
    k: int,
    now: u64,
)
    requires
        nicks.len() == 5,
        hosts.len() == 5,
        nicks.no_duplicates(),
        forall|i: int| 0 <= i < 5 ==> privmsg_parts(None, #[trigger] nicks[i], hosts[i], chan),
        1 <= k <= 5,
    ensures
        parse_line(privmsg_line(None, nicks[k - 1], hosts[k - 1], chan, "?skip"@)) matches Some(m)
            && (response_to(m) matches ResponseView::Skip { username, reply_to } && {
            &&& username == nicks[k - 1]
            &&& reply_to.channel == channel_read(chan)
            &&& outcome_at(after_votes(no_votes(), nicks.take(k - 1)), username, now) == (if k
                == 5 {
                VoteOutcome::Quorum { expire_after_secs: VOTE_EXPIRY_SECS }
            } else {
                VoteOutcome::Counted { expire_after_secs: VOTE_EXPIRY_SECS }
            })
        }),
        after_answer(after_votes(no_votes(), nicks), Some(true), now).voters.len() == 0,
        after_answer(after_votes(no_votes(), nicks), Some(true), now).pending.len() == 0,
{
    assert(privmsg_parts(None, nicks[k - 1], hosts[k - 1], chan));
    assert(split("?skip"@, ' ')[0] == "?skip"@) by {
        reveal_strlit("?skip");
        lemma_split_none("?skip"@, ' ');
    }
    law_skip_vote_names_its_sender(None, nicks[k - 1], hosts[k - 1], chan, "?skip"@);
    law_quorum_at_fifth_voter(nicks, k);
    lemma_distinct_votes(nicks.take(k - 1));
}

} // verus!
