//! What to do with a decoded line: answer a `PING`, reconnect on a
//! `RECONNECT`, and for a chat message find the bot command it holds.
//!
//! Some bot commands need an answer from another service before a reply can
//! be written. The functions here decide what to ask for and, given the
//! answer as plain values, what to reply; the caller does the asking.

use crate::message_parser::{lookup, MessageResponse, MessageView};
use crate::text::{join2, opt_view, range_is, same_text, split, split_ranges, to_chars};
use vstd::prelude::*;
use vstd::string::StringExecFns;

verus! {

/// The lower-case form that `str::to_lowercase` of std gives to a text.
pub uninterp spec fn lowercase(s: Seq<char>) -> Seq<char>;

/// `str::to_lowercase` of std: the text in lower case, as Unicode defines
/// it. The result depends on the text alone.
#[verifier::external_body]
fn to_lowercase(s: &str) -> (r: String)
    ensures
        r@ == lowercase(s@),
{
    s.to_lowercase()
}

/// Why a recognised bot command got no proper reply.
#[derive(Clone, Copy, Debug, PartialEq, Eq, Structural)]
pub enum DispatchError {
    /// A command for the channel owner came from someone else.
    NotChannelOwner,
    /// The song could not be fetched.
    SongUnavailable,
    /// Turning vote skips on or off was answered with a failure status.
    SkipToggleRejected { enable: bool },
    /// Turning vote skips on or off got no answer.
    SkipToggleFailed { enable: bool },
    /// A skip that the votes called for was answered with a failure status.
    SkipRejected,
    /// A skip that the votes called for got no answer.
    SkipFailed,
}

/// The failure in words fit for the chat: the kind of failure, without
/// detail.
pub open spec fn category_text(e: DispatchError) -> Seq<char> {
    match e {
        DispatchError::NotChannelOwner => "User is not the channel owner."@,
        DispatchError::SongUnavailable => "Could not get song"@,
        DispatchError::SkipToggleRejected { enable } | DispatchError::SkipToggleFailed {
            enable,
        } => if enable {
            "Enabling song skip failed"@
        } else {
            "Disabling song skip failed"@
        },
        DispatchError::SkipRejected | DispatchError::SkipFailed => "Could not skip song"@,
    }
}

/// The failure in words fit for a log, with the detail that the caller has:
/// the status for a rejected request, the error for a failed one.
pub open spec fn log_text(e: DispatchError, detail: Seq<char>) -> Seq<char> {
    match e {
        DispatchError::NotChannelOwner => category_text(e),
        DispatchError::SongUnavailable => category_text(e) + ": "@ + detail,
        DispatchError::SkipToggleRejected { .. } => category_text(e) + " with status code "@
            + detail,
        DispatchError::SkipToggleFailed { .. } => category_text(e) + ": "@ + detail,
        DispatchError::SkipRejected => category_text(e) + ", status code: "@ + detail,
        DispatchError::SkipFailed => "Error skipping song: "@ + detail,
    }
}

impl DispatchError {
    /// The kind of failure, for the chat.
    pub fn category(&self) -> (r: String)
        ensures
            r@ == category_text(*self),
    {
        match self {
            DispatchError::NotChannelOwner => "User is not the channel owner.".to_owned(),
            DispatchError::SongUnavailable => "Could not get song".to_owned(),
            DispatchError::SkipToggleRejected { enable } | DispatchError::SkipToggleFailed {
                enable,
            } => if *enable {
                "Enabling song skip failed".to_owned()
            } else {
                "Disabling song skip failed".to_owned()
            },
            DispatchError::SkipRejected | DispatchError::SkipFailed => "Could not skip song".to_owned(),
        }
    }

    /// The failure with its detail, for the log.
    pub fn log_line(&self, detail: &str) -> (r: String)
        ensures
            r@ == log_text(*self, detail@),
    {
        let mut s = self.category();
        match self {
            DispatchError::SkipRejected => {
                s.append(", status code: ");
                s.append(detail);
            },
            DispatchError::SkipFailed => {
                return join2("Error skipping song: ", detail);
            },
            DispatchError::NotChannelOwner => {},
            DispatchError::SongUnavailable => {
                s.append(": ");
                s.append(detail);
            },
            DispatchError::SkipToggleRejected { .. } => {
                s.append(" with status code ");
                s.append(detail);
            },
            DispatchError::SkipToggleFailed { .. } => {
                s.append(": ");
                s.append(detail);
            },
        }
        s
    }
}

/// A service that a bot command needs an answer from. Each is asked about
/// one channel.
#[derive(Clone, Copy, Debug, PartialEq, Eq, Structural)]
pub enum Request {
    /// What is playing, to name the song.
    Song,
    /// What is playing, to give its link.
    SongLink,
    /// Allow vote skips.
    EnableSkip,
    /// Forbid vote skips.
    DisableSkip,
}

/// What a chat message asks of the bot.
#[derive(Clone, Copy, Debug, PartialEq, Eq, Structural)]
pub enum ReplyPlan {
    /// The message is no bot command.
    Nothing,
    /// Reply with the list of commands.
    Listing,
    /// Count a skip vote.
    Skip,
    /// Ask a service, then reply with what it says.
    Ask(Request),
    /// Do nothing, for this reason.
    Refuse(DispatchError),
}

/// The plan for a chat message: its first token, cut at single spaces,
/// looked up in the table of bot commands. Turning vote skips on or off is
/// for the channel owner alone.
pub open spec fn plan_of(text: Seq<char>, is_channel_owner: bool) -> ReplyPlan {
    let token = split(text, ' ')[0];
    if token == "?song"@ {
        ReplyPlan::Ask(Request::Song)
    } else if token == "?slink"@ || token == "?songlink"@ {
        ReplyPlan::Ask(Request::SongLink)
    } else if token == "?skip"@ {
        ReplyPlan::Skip
    } else if token == "?skipon"@ {
        if is_channel_owner {
            ReplyPlan::Ask(Request::EnableSkip)
        } else {
            ReplyPlan::Refuse(DispatchError::NotChannelOwner)
        }
    } else if token == "?skipoff"@ {
        if is_channel_owner {
            ReplyPlan::Ask(Request::DisableSkip)
        } else {
            ReplyPlan::Refuse(DispatchError::NotChannelOwner)
        }
    } else if token == "?commands"@ {
        ReplyPlan::Listing
    } else {
        ReplyPlan::Nothing
    }
}

/// Finds the bot command of a chat message and says what it takes to
/// answer it.
pub fn reply_message(user_msg: &str, is_channel_owner: bool) -> (r: ReplyPlan)
    ensures
        r == plan_of(user_msg@, is_channel_owner),
{
    let chars = to_chars(user_msg);
    assert(chars@.subrange(0, chars.len() as int) =~= chars@);
    let tokens = split_ranges(&chars, 0, chars.len(), ' ');
    let (a, b) = tokens[0];
    if range_is(&chars, a, b, "?song") {
        ReplyPlan::Ask(Request::Song)
    } else if range_is(&chars, a, b, "?slink") || range_is(&chars, a, b, "?songlink") {
        ReplyPlan::Ask(Request::SongLink)
    } else if range_is(&chars, a, b, "?skip") {
        ReplyPlan::Skip
    } else if range_is(&chars, a, b, "?skipon") {
        if is_channel_owner {
            ReplyPlan::Ask(Request::EnableSkip)
        } else {
            ReplyPlan::Refuse(DispatchError::NotChannelOwner)
        }
    } else if range_is(&chars, a, b, "?skipoff") {
        if is_channel_owner {
            ReplyPlan::Ask(Request::DisableSkip)
        } else {
            ReplyPlan::Refuse(DispatchError::NotChannelOwner)
        }
    } else if range_is(&chars, a, b, "?commands") {
        ReplyPlan::Listing
    } else {
        ReplyPlan::Nothing
    }
}

/// The list of bot commands, as the reply to `?commands` gives it.
pub open spec fn listing_text() -> Seq<char> {
    "?song ?songlink ?slink ?skip ?skipon ?skipoff"@
}

/// What is playing on a channel, as the song service reports it.
#[derive(Debug)]
pub enum Playback {
    /// Nothing is playing.
    Idle,
    /// A song is playing: its artists, in the order in which the service
    /// names them, its title and its link.
    Playing { artists: Vec<String>, title: String, link: String },
}

/// How a song is named in a reply: its first artist and its title, or the
/// title alone where the service names no artist.
pub open spec fn song_name(artists: Seq<String>, title: Seq<char>) -> Seq<char> {
    if artists.len() > 0 {
        artists[0]@ + " - "@ + title
    } else {
        title
    }
}

/// The reply to `?song` or `?songlink` for an answer of the song service;
/// `None` stands for a request that failed.
pub open spec fn song_text(link: bool, answer: Option<Playback>) -> Result<
    Seq<char>,
    DispatchError,
> {
    match answer {
        None => Err(DispatchError::SongUnavailable),
        Some(Playback::Idle) => Ok("No song currently playing"@),
        Some(Playback::Playing { artists, title, link: url }) => if link {
            Ok(url@)
        } else {
            Ok(song_name(artists@, title@))
        },
    }
}

/// The characters of a reply text, or the error that stands in its place.
pub open spec fn reply_view(r: Result<String, DispatchError>) -> Result<Seq<char>, DispatchError> {
    match r {
        Ok(s) => Ok(s@),
        Err(e) => Err(e),
    }
}

/// The reply to `?song`: artist and title of what is playing.
pub fn song_reply(answer: &Option<Playback>) -> (r: Result<String, DispatchError>)
    ensures
        reply_view(r) == song_text(false, *answer),
{
    match answer {
        None => Err(DispatchError::SongUnavailable),
        Some(Playback::Idle) => Ok("No song currently playing".to_owned()),
        Some(Playback::Playing { artists, title, link }) => {
            if artists.len() > 0 {
                let mut s = join2(artists[0].as_str(), " - ");
                s.append(title.as_str());
                Ok(s)
            } else {
                Ok(title.clone())
            }
        },
    }
}

/// The reply to `?songlink` or `?slink`: the link of what is playing.
pub fn song_link_reply(answer: &Option<Playback>) -> (r: Result<String, DispatchError>)
    ensures
        reply_view(r) == song_text(true, *answer),
{
    match answer {
        None => Err(DispatchError::SongUnavailable),
        Some(Playback::Idle) => Ok("No song currently playing".to_owned()),
        Some(Playback::Playing { artists, title, link }) => Ok(link.clone()),
    }
}

/// The reply to `?skipon` (`enable`) or `?skipoff` for the status that the
/// service answered with: `Some(true)` for a success status, `Some(false)`
/// for any other, `None` for a request that failed.
pub open spec fn toggle_text(enable: bool, answer: Option<bool>) -> Result<
    Seq<char>,
    DispatchError,
> {
    match answer {
        None => Err(DispatchError::SkipToggleFailed { enable }),
        Some(false) => Err(DispatchError::SkipToggleRejected { enable }),
        Some(true) => if enable {
            Ok("Vote skip is now enabled"@)
        } else {
            Ok("Vote skip is now disabled"@)
        },
    }
}

/// The reply to `?skipon` or `?skipoff`.
pub fn skip_toggle_reply(enable: bool, answer: Option<bool>) -> (r: Result<String, DispatchError>)
    ensures
        reply_view(r) == toggle_text(enable, answer),
{
    match answer {
        None => Err(DispatchError::SkipToggleFailed { enable }),
        Some(false) => Err(DispatchError::SkipToggleRejected { enable }),
        Some(true) => if enable {
            Ok("Vote skip is now enabled".to_owned())
        } else {
            Ok("Vote skip is now disabled".to_owned())
        },
    }
}

/// What a service answered.
#[derive(Debug)]
pub enum Answer {
    /// The song service said what is playing.
    Song(Playback),
    /// A service answered with a status: `true` for a success status.
    Status(bool),
    /// The request failed.
    Failed,
}

/// What an answer says of what is playing; `None` where it says nothing of
/// it.
pub open spec fn playback_of(answer: Answer) -> Option<Playback> {
    match answer {
        Answer::Song(playback) => Some(playback),
        _ => None,
    }
}

/// Whether an answer bears a success status; `None` where it bears no
/// status.
pub open spec fn status_of(answer: Answer) -> Option<bool> {
    match answer {
        Answer::Status(success) => Some(success),
        _ => None,
    }
}

/// The reply to the bot command behind `request`, given the answer of the
/// service that was asked. An answer of another kind than the request
/// calls for counts as a request that failed.
pub open spec fn reply_text(request: Request, answer: Answer) -> Result<Seq<char>, DispatchError> {
    match request {
        Request::Song => song_text(false, playback_of(answer)),
        Request::SongLink => song_text(true, playback_of(answer)),
        Request::EnableSkip => toggle_text(true, status_of(answer)),
        Request::DisableSkip => toggle_text(false, status_of(answer)),
    }
}

/// Writes the reply to a bot command once its service has answered.
pub fn finish_reply(request: Request, answer: Answer) -> (r: Result<String, DispatchError>)
    ensures
        reply_view(r) == reply_text(request, answer),
{
    match request {
        Request::Song | Request::SongLink => {
            let playback = match answer {
                Answer::Song(playback) => Some(playback),
                _ => None,
            };
            match request {
                Request::Song => song_reply(&playback),
                _ => song_link_reply(&playback),
            }
        },
        Request::EnableSkip | Request::DisableSkip => {
            let status = match answer {
                Answer::Status(success) => Some(success),
                _ => None,
            };
            match request {
                Request::EnableSkip => skip_toggle_reply(true, status),
                _ => skip_toggle_reply(false, status),
            }
        },
    }
}

/// Whether a display name, already in lower case, is that of the owner of a
/// channel, given in lower case with its leading `#`.
pub fn owner_matches(lowered_name: &str, lowered_channel: &str) -> (r: bool)
    ensures
        r == (seq!['#'] + lowered_name@ == lowered_channel@),
{
    let marked = join2("#", lowered_name);
    proof {
        reveal_strlit("#");
        assert("#"@ =~= seq!['#']);
    }
    same_text(marked.as_str(), lowered_channel)
}

/// Whether `display_name` names the owner of `channel`: the two agree once
/// both are in lower case and the `#` of the channel is set aside. This
/// compares names only; it knows nothing of who moderates a channel.
pub open spec fn owns(display_name: Seq<char>, channel: Seq<char>) -> bool {
    seq!['#'] + lowercase(display_name) == lowercase(channel)
}

/// Whether the sender with this display name counts as the owner of the
/// channel.
pub fn is_channel_owner(display_name: &str, channel: &str) -> (r: bool)
    ensures
        r == owns(display_name@, channel@),
{
    let name = to_lowercase(display_name);
    let chan = to_lowercase(channel);
    owner_matches(name.as_str(), chan.as_str())
}

/// What a `ReplyTarget` holds.
pub struct ReplyTargetView {
    pub message_id: Seq<char>,
    pub channel: Seq<char>,
}

/// The chat message that a reply answers: its id and its channel, with `#`.
#[derive(Debug)]
pub struct ReplyTarget {
    pub message_id: String,
    pub channel: String,
}

impl View for ReplyTarget {
    type V = ReplyTargetView;

    open spec fn view(&self) -> ReplyTargetView {
        ReplyTargetView { message_id: self.message_id@, channel: self.channel@ }
    }
}

/// The line that sends `text` to the channel of `target` as a reply to its
/// message.
pub open spec fn reply_line_of(target: ReplyTargetView, text: Seq<char>) -> Seq<char> {
    "@reply-parent-msg-id="@ + target.message_id + " PRIVMSG "@ + target.channel + " :"@ + text
}

/// The line that tells the channel of `target` of a failure, where there is
/// a channel to tell: the kind of failure, without detail.
pub open spec fn failure_line_of(target: ReplyTargetView, error: DispatchError) -> Option<
    Seq<char>,
> {
    if target.channel.len() > 0 {
        Some(reply_line_of(target, category_text(error)))
    } else {
        None
    }
}

impl ReplyTarget {
    /// The line that sends `text` as a reply.
    pub fn reply_line(&self, text: &str) -> (r: String)
        ensures
            r@ == reply_line_of(self@, text@),
    {
        let mut s = join2("@reply-parent-msg-id=", self.message_id.as_str());
        s.append(" PRIVMSG ");
        s.append(self.channel.as_str());
        s.append(" :");
        s.append(text);
        s
    }

    /// The line that reports `error` to the chat, if the message came from a
    /// channel.
    pub fn failure_line(&self, error: DispatchError) -> (r: Option<String>)
        ensures
            match r {
                Some(s) => failure_line_of(self@, error) == Some(s@),
                None => failure_line_of(self@, error) is None,
            },
    {
        if self.channel.as_str().unicode_len() > 0 {
            let text = error.category();
            Some(self.reply_line(text.as_str()))
        } else {
            None
        }
    }
}

/// What a `Response` holds.
pub enum ResponseView {
    Nothing,
    Message(Seq<char>),
    Reconnect,
    Skip { username: Seq<char>, reply_to: ReplyTargetView },
    Ask { request: Request, channel_name: Seq<char>, reply_to: ReplyTargetView },
    Failed { error: DispatchError, reply_to: ReplyTargetView },
}

/// What a decoded line calls for.
#[derive(Debug)]
pub enum Response {
    /// Nothing to do.
    Nothing,
    /// Send this line.
    Message(String),
    /// The server is about to close the connection: end this one and
    /// connect again.
    Reconnect,
    /// A skip vote of the sender, who votes as `username`, on the channel
    /// of `reply_to`.
    Skip { username: String, reply_to: ReplyTarget },
    /// Ask a service about the channel `channel_name` (without `#`), then
    /// reply to `reply_to` with what the answer gives.
    Ask { request: Request, channel_name: String, reply_to: ReplyTarget },
    /// A bot command was refused.
    Failed { error: DispatchError, reply_to: ReplyTarget },
}

impl View for Response {
    type V = ResponseView;

    open spec fn view(&self) -> ResponseView {
        match self {
            Response::Nothing => ResponseView::Nothing,
            Response::Message(line) => ResponseView::Message(line@),
            Response::Reconnect => ResponseView::Reconnect,
            Response::Skip { username, reply_to } => ResponseView::Skip {
                username: username@,
                reply_to: reply_to@,
            },
            Response::Ask { request, channel_name, reply_to } => ResponseView::Ask {
                request: *request,
                channel_name: channel_name@,
                reply_to: reply_to@,
            },
            Response::Failed { error, reply_to } => ResponseView::Failed {
                error: *error,
                reply_to: reply_to@,
            },
        }
    }
}

/// The text, or an empty one where there is none.
pub open spec fn text_or_empty(o: Option<Seq<char>>) -> Seq<char> {
    match o {
        Some(s) => s,
        None => Seq::empty(),
    }
}

/// A channel without its leading `#`.
pub open spec fn channel_name_of(channel: Seq<char>) -> Seq<char> {
    if channel.len() > 0 {
        channel.skip(1)
    } else {
        channel
    }
}

/// The verb of a decoded line.
pub open spec fn verb_of(m: MessageView) -> Seq<char> {
    match m.command {
        Some(c) => text_or_empty(c.command),
        None => Seq::empty(),
    }
}

/// The channel of a decoded line, with its `#`.
pub open spec fn channel_of(m: MessageView) -> Seq<char> {
    match m.command {
        Some(c) => text_or_empty(c.channel),
        None => Seq::empty(),
    }
}

/// The value of the tag `key` of a decoded line, among the tags that have
/// no mapping of their own.
pub open spec fn tag_of(m: MessageView, key: Seq<char>) -> Seq<char> {
    match m.tags {
        Some(t) => text_or_empty(lookup(t.other, key)),
        None => Seq::empty(),
    }
}

/// The name under which the sender of a decoded line votes: the nick of
/// its source, which every line of a user bears, and the display name only
/// where the source has no nick.
pub open spec fn sender_of(m: MessageView) -> Seq<char> {
    match m.source.nick {
        Some(nick) => nick,
        None => tag_of(m, "display-name"@),
    }
}

/// What a decoded line calls for. A `PING` is answered with `PONG` and the
/// parameters it came with. A `RECONNECT` ends the connection. A chat
/// message is answered according to its bot command, as a reply to the
/// message, which is known by the tag `id`. Whether the sender owns the
/// channel is judged by the tag `display-name`; a skip vote is counted
/// under `sender_of`. Every other line calls for nothing.
pub open spec fn response_to(m: MessageView) -> ResponseView {
    let channel = channel_of(m);
    let message = text_or_empty(m.parameters);
    let display_name = tag_of(m, "display-name"@);
    let target = ReplyTargetView { message_id: tag_of(m, "id"@), channel };
    if verb_of(m) == "PING"@ {
        ResponseView::Message("PONG "@ + message)
    } else if verb_of(m) == "PRIVMSG"@ {
        match plan_of(message, owns(display_name, channel)) {
            ReplyPlan::Nothing => ResponseView::Nothing,
            ReplyPlan::Listing => ResponseView::Message(reply_line_of(target, listing_text())),
            ReplyPlan::Skip => ResponseView::Skip { username: sender_of(m), reply_to: target },
            ReplyPlan::Ask(request) => ResponseView::Ask {
                request,
                channel_name: channel_name_of(channel),
                reply_to: target,
            },
            ReplyPlan::Refuse(error) => ResponseView::Failed { error, reply_to: target },
        }
    } else if verb_of(m) == "RECONNECT"@ {
        ResponseView::Reconnect
    } else {
        ResponseView::Nothing
    }
}

/// A copy of the text, or an empty one where there is none.
fn text_or_default(o: &Option<String>) -> (r: String)
    ensures
        r@ == text_or_empty(opt_view(*o)),
{
    match o {
        Some(s) => s.clone(),
        None => String::new(),
    }
}

/// `channel` without its first character.
fn strip_mark(channel: &str) -> (r: String)
    ensures
        r@ == channel_name_of(channel@),
{
    let n = channel.unicode_len();
    if n > 0 {
        channel.substring_char(1, n).to_owned()
    } else {
        String::new()
    }
}

/// Decides what a decoded line calls for.
pub fn generate_response(parsed_message: &MessageResponse) -> (r: Response)
    ensures
        r@ == response_to(parsed_message@),
{
    let command = match &parsed_message.command {
        Some(c) => text_or_default(&c.command),
        None => String::new(),
    };
    let channel = match &parsed_message.command {
        Some(c) => text_or_default(&c.channel),
        None => String::new(),
    };
    let message = text_or_default(&parsed_message.parameters);
    let message_id = match &parsed_message.tags {
        Some(t) => text_or_default(&t.other("id")),
        None => String::new(),
    };
    let display_name = match &parsed_message.tags {
        Some(t) => text_or_default(&t.other("display-name")),
        None => String::new(),
    };
    if same_text(command.as_str(), "PING") {
        Response::Message(join2("PONG ", message.as_str()))
    } else if same_text(command.as_str(), "PRIVMSG") {
        let owner = is_channel_owner(display_name.as_str(), channel.as_str());
        match reply_message(message.as_str(), owner) {
            ReplyPlan::Nothing => Response::Nothing,
            ReplyPlan::Listing => {
                let target = ReplyTarget { message_id, channel };
                Response::Message(target.reply_line("?song ?songlink ?slink ?skip ?skipon ?skipoff"))
            },
            ReplyPlan::Skip => {
                let username = match &parsed_message.source.nick {
                    Some(nick) => nick.clone(),
                    None => display_name,
                };
                Response::Skip { username, reply_to: ReplyTarget { message_id, channel } }
            },
            ReplyPlan::Ask(request) => {
                let channel_name = strip_mark(channel.as_str());
                Response::Ask { request, channel_name, reply_to: ReplyTarget { message_id, channel } }
            },
            ReplyPlan::Refuse(error) => Response::Failed {
                error,
                reply_to: ReplyTarget { message_id, channel },
            },
        }
    } else if same_text(command.as_str(), "RECONNECT") {
        Response::Reconnect
    } else {
        Response::Nothing
    }
}

} // verus!
