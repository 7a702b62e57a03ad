//! The life of a connection: the phases it goes through, what to do at each
//! change of phase, what to send first, and how a frame of inbound text
//! falls into lines.
//!
//! Nothing here connects, sleeps or sends. `Session::step` takes what
//! happened and says what to do next; the caller does it and comes back with
//! the next event.

use crate::backoff::{
    after_failure, attempts_after, is_exhausted, AttemptsView, ConnectionAttemptState,
};
use crate::text::{join2, opt_view, string_of, texts, to_chars, trim_end, whitespace};
use vstd::prelude::*;
use vstd::string::StringExecFns;

verus! {

/// Where a session stands.
#[derive(Clone, Copy, Debug, PartialEq, Eq, Structural)]
pub enum Phase {
    /// No connection, and none being made.
    Disconnected,
    /// Waiting out the delay, then connecting.
    Connecting,
    /// Connected: reader, writer and queue consumer are at work.
    Connected,
    /// The connection is being closed: the consumer is stopped, the writer
    /// flushes.
    Draining,
    /// The cap on attempts was reached: the run is over.
    Stopped,
}

/// What happened.
#[derive(Clone, Copy, Debug, PartialEq, Eq, Structural)]
pub enum SessionEvent {
    /// The orchestrator is ready for the next attempt.
    Ready,
    /// The attempt to connect failed.
    ConnectFailed,
    /// The attempt to connect succeeded.
    ConnectSucceeded,
    /// The server announced that it will close the connection.
    ReconnectNotice,
    /// Reading from the socket failed, or the stream ended.
    ReadFailed,
    /// The writer met the terminate sentinel and stopped.
    WriterStopped,
    /// The socket is closed.
    Closed,
}

/// What to do next.
#[derive(Clone, Copy, Debug, PartialEq, Eq, Structural)]
pub enum SessionAction {
    /// Nothing.
    Wait,
    /// Sleep for `after_secs` seconds, then try to connect.
    Connect { after_secs: u64 },
    /// Send the handshake and start reader, writer and queue consumer.
    Start,
    /// Stop the queue consumer, let the writer flush, close the socket.
    Drain,
    /// Give up: the cap on attempts is reached.
    GiveUp,
}

/// What a `Session` holds.
pub struct SessionView {
    pub phase: Phase,
    pub attempts: AttemptsView,
}

/// Whether `event` ends a connection that is up.
pub open spec fn ends_connection(event: SessionEvent) -> bool {
    event == SessionEvent::ReconnectNotice || event == SessionEvent::ReadFailed || event
        == SessionEvent::WriterStopped
}

/// The session after `event`. An event that does not belong to the phase
/// changes nothing.
pub open spec fn next_session(s: SessionView, event: SessionEvent) -> SessionView {
    match (s.phase, event) {
        (Phase::Disconnected, SessionEvent::Ready) => if is_exhausted(s.attempts) {
            SessionView { phase: Phase::Stopped, ..s }
        } else {
            SessionView { phase: Phase::Connecting, ..s }
        },
        (Phase::Connecting, SessionEvent::ConnectFailed) => SessionView {
            phase: Phase::Disconnected,
            attempts: after_failure(s.attempts),
        },
        (Phase::Connecting, SessionEvent::ConnectSucceeded) => SessionView {
            phase: Phase::Connected,
            attempts: attempts_after(0),
        },
        (Phase::Connected, _) => if ends_connection(event) {
            SessionView { phase: Phase::Draining, ..s }
        } else {
            s
        },
        (Phase::Draining, SessionEvent::Closed) => SessionView { phase: Phase::Disconnected, ..s },
        _ => s,
    }
}

/// What `event` calls for in the session `s`.
pub open spec fn action_for(s: SessionView, event: SessionEvent) -> SessionAction {
    match (s.phase, event) {
        (Phase::Disconnected, SessionEvent::Ready) => if is_exhausted(s.attempts) {
            SessionAction::GiveUp
        } else {
            SessionAction::Connect { after_secs: s.attempts.delay as u64 }
        },
        (Phase::Connecting, SessionEvent::ConnectSucceeded) => SessionAction::Start,
        (Phase::Connected, _) => if ends_connection(event) {
            SessionAction::Drain
        } else {
            SessionAction::Wait
        },
        _ => SessionAction::Wait,
    }
}

/// A session: its phase, and the state of the reconnect loop.
#[derive(Clone, Copy, Debug)]
pub struct Session {
    phase: Phase,
    attempts: ConnectionAttemptState,
}

impl View for Session {
    type V = SessionView;

    closed spec fn view(&self) -> SessionView {
        SessionView { phase: self.phase, attempts: self.attempts@ }
    }
}

impl Session {
    /// The state of the reconnect loop is well formed.
    pub closed spec fn wf(&self) -> bool {
        self.attempts.wf()
    }

    /// A session at startup: disconnected, with no failed attempt.
    pub fn new() -> (r: Self)
        ensures
            r.wf(),
            r@ == (SessionView { phase: Phase::Disconnected, attempts: attempts_after(0) }),
    {
        Session { phase: Phase::Disconnected, attempts: ConnectionAttemptState::new() }
    }

    /// The phase of the session.
    pub fn phase(&self) -> (r: Phase)
        ensures
            r == self@.phase,
    {
        self.phase
    }

    /// Failed attempts since the last successful connection.
    pub fn attempts(&self) -> (r: u64)
        ensures
            r == self@.attempts.attempts,
    {
        self.attempts.attempts()
    }

    /// Takes an event and says what to do next.
    pub fn step(&mut self, event: SessionEvent) -> (r: SessionAction)
        requires
            old(self).wf(),
        ensures
            final(self).wf(),
            final(self)@ == next_session(old(self)@, event),
            r == action_for(old(self)@, event),
    {
        match (self.phase, event) {
            (Phase::Disconnected, SessionEvent::Ready) => match self.attempts.next_delay() {
                None => {
                    self.phase = Phase::Stopped;
                    SessionAction::GiveUp
                },
                Some(after_secs) => {
                    self.phase = Phase::Connecting;
                    SessionAction::Connect { after_secs }
                },
            },
            (Phase::Connecting, SessionEvent::ConnectFailed) => {
                self.attempts.connection_failed();
                self.phase = Phase::Disconnected;
                SessionAction::Wait
            },
            (Phase::Connecting, SessionEvent::ConnectSucceeded) => {
                self.attempts.connection_succeeded();
                self.phase = Phase::Connected;
                SessionAction::Start
            },
            (Phase::Connected, SessionEvent::ReconnectNotice)
            | (Phase::Connected, SessionEvent::ReadFailed)
            | (Phase::Connected, SessionEvent::WriterStopped) => {
                self.phase = Phase::Draining;
                SessionAction::Drain
            },
            (Phase::Draining, SessionEvent::Closed) => {
                self.phase = Phase::Disconnected;
                SessionAction::Wait
            },
            _ => SessionAction::Wait,
        }
    }
}

/// The session after `n` attempts that each failed.
pub open spec fn after_failed_attempts(s: SessionView, n: nat) -> SessionView
    decreases n,
{
    if n == 0 {
        s
    } else {
        next_session(
            next_session(after_failed_attempts(s, (n - 1) as nat), SessionEvent::Ready),
            SessionEvent::ConnectFailed,
        )
    }
}

/// A session that has just connected has no failed attempt on record,
/// however many there were before.
pub proof fn law_connecting_resets_the_count(s: SessionView)
    requires
        s.phase == Phase::Connecting,
    ensures
        next_session(s, SessionEvent::ConnectSucceeded).attempts == attempts_after(0),
        next_session(s, SessionEvent::ConnectSucceeded).phase == Phase::Connected,
{
}

/// From a session without failed attempts, the attempt that follows `n`
/// failures in a row waits `backoff_delay(n)` seconds, for `n` below
/// twelve; after twelve failures in a row no attempt follows, and the
/// session stops.
pub proof fn law_twelve_failures_stop_the_session(s: SessionView, n: nat)
    requires
        s.phase == Phase::Disconnected,
        s.attempts == attempts_after(0),
        n <= crate::backoff::MAX_CONNECTION_ATTEMPTS,
    ensures
        after_failed_attempts(s, n).phase == Phase::Disconnected,
        after_failed_attempts(s, n).attempts == attempts_after(n),
        action_for(after_failed_attempts(s, n), SessionEvent::Ready) == (if n
            == crate::backoff::MAX_CONNECTION_ATTEMPTS {
            SessionAction::GiveUp
        } else {
            SessionAction::Connect { after_secs: crate::backoff::backoff_delay(n) as u64 }
        }),
        n == crate::backoff::MAX_CONNECTION_ATTEMPTS ==> next_session(
            after_failed_attempts(s, n),
            SessionEvent::Ready,
        ).phase == Phase::Stopped,
    decreases n,
{
    if n > 0 {
        law_twelve_failures_stop_the_session(s, (n - 1) as nat);
        crate::backoff::law_failures_in_a_row(n);
        crate::backoff::law_failures_in_a_row((n - 1) as nat);
    }
}

/// Each of the three ways in which a connection ends leads to draining, and
/// a drained session is ready for the next attempt.
pub proof fn law_connection_end_drains(s: SessionView, event: SessionEvent)
    requires
        s.phase == Phase::Connected,
        ends_connection(event),
    ensures
        next_session(s, event).phase == Phase::Draining,
        action_for(s, event) == SessionAction::Drain,
        next_session(next_session(s, event), SessionEvent::Closed).phase == Phase::Disconnected,
        next_session(next_session(s, event), SessionEvent::Closed).attempts == s.attempts,
{
}

/// An item on its way to the writer.
#[derive(Debug)]
pub enum OutboundItem {
    /// A line to send.
    Send(String),
    /// The writer is to stop and hand the connection back.
    Terminate,
}

/// The line that the writer sends for `item`; `None` when the writer is to
/// stop.
pub open spec fn line_of(item: OutboundItem) -> Option<Seq<char>> {
    match item {
        OutboundItem::Send(line) => Some(line@),
        OutboundItem::Terminate => None,
    }
}

/// What the writer does with the next item: the line to send, or `None` to
/// stop, after which it takes no further item.
pub fn writer_step(item: OutboundItem) -> (r: Option<String>)
    ensures
        opt_view(r) == line_of(item),
{
    match item {
        OutboundItem::Send(line) => Some(line),
        OutboundItem::Terminate => None,
    }
}

/// The channels `users`, each with `#` before it, with commas between.
pub open spec fn joined_channels(users: Seq<Seq<char>>) -> Seq<char>
    decreases users.len(),
{
    if users.len() == 0 {
        Seq::empty()
    } else if users.len() == 1 {
        "#"@ + users[0]
    } else {
        joined_channels(users.drop_last()) + ","@ + "#"@ + users.last()
    }
}

/// The lines that open a connection, in the order in which they are sent:
/// the capability request, the credential, the nickname, the join of the
/// configured channel if there is one, and one join for all of `users` if
/// there are any.
pub open spec fn handshake_lines(
    token: Seq<char>,
    nick: Seq<char>,
    channel: Option<Seq<char>>,
    users: Seq<Seq<char>>,
) -> Seq<Seq<char>> {
    seq![
        "CAP REQ :twitch.tv/tags twitch.tv/commands"@,
        "PASS oauth:"@ + token,
        "NICK "@ + nick,
    ] + (match channel {
        Some(c) => seq!["JOIN #"@ + c],
        None => Seq::empty(),
    }) + (if users.len() > 0 {
        seq!["JOIN "@ + joined_channels(users)]
    } else {
        Seq::empty()
    })
}

/// The channels of `users`, marked and joined by commas.
fn join_channels(users: &Vec<String>) -> (r: String)
    ensures
        r@ == joined_channels(texts(users@)),
{
    let mut out = String::new();
    let mut i: usize = 0;
    let ghost all = texts(users@);
    while i < users.len()
        invariant
            i <= users.len(),
            all == texts(users@),
            out@ == joined_channels(all.take(i as int)),
        decreases users.len() - i,
    {
        proof {
            assert(all.take(i + 1).drop_last() =~= all.take(i as int));
            assert(all.take(i + 1).last() == users@[i as int]@);
            assert(all.take(i + 1)[0] == all[0]);
        }
        if i > 0 {
            out.append(",");
        }
        out.append("#");
        out.append(users[i].as_str());
        proof {
            if i == 0 {
                assert(out@ =~= "#"@ + users@[0]@);
            } else {
                assert(out@ =~= joined_channels(all.take(i as int)) + ","@ + "#"@
                    + users@[i as int]@);
            }
        }
        i += 1;
    }
    proof {
        assert(all.take(i as int) =~= all);
    }
    out
}

/// The lines to send once the socket is open.
pub fn handshake(token: &str, nick: &str, channel: Option<&str>, active_users: &Vec<String>) -> (r:
    Vec<String>)
    ensures
        texts(r@) == handshake_lines(
            token@,
            nick@,
            match channel {
                Some(c) => Some(c@),
                None => None,
            },
            texts(active_users@),
        ),
{
    let mut lines: Vec<String> = Vec::new();
    lines.push("CAP REQ :twitch.tv/tags twitch.tv/commands".to_owned());
    lines.push(join2("PASS oauth:", token));
    lines.push(join2("NICK ", nick));
    proof {
        assert(texts(lines@) =~= seq![
            "CAP REQ :twitch.tv/tags twitch.tv/commands"@,
            "PASS oauth:"@ + token@,
            "NICK "@ + nick@,
        ]);
    }
    let ghost first = texts(lines@);
    match channel {
        Some(c) => {
            let line = join2("JOIN #", c);
            lines.push(line);
            proof {
                assert(texts(lines@) =~= first + seq!["JOIN #"@ + c@]);
            }
        },
        None => {
            proof {
                assert(texts(lines@) =~= first + Seq::<Seq<char>>::empty());
            }
        },
    }
    let ghost second = texts(lines@);
    if active_users.len() > 0 {
        let all = join_channels(active_users);
        lines.push(join2("JOIN ", all.as_str()));
        proof {
            assert(texts(lines@) =~= second + seq!["JOIN "@ + joined_channels(texts(active_users@))]);
        }
    } else {
        proof {
            assert(texts(lines@) =~= second + Seq::<Seq<char>>::empty());
        }
    }
    proof {
        assert(texts(active_users@).len() == active_users@.len());
    }
    lines
}

/// Whether a line break (`\r\n`) begins at position `j` of `s`.
pub open spec fn breaks_at(s: Seq<char>, j: int) -> bool {
    0 <= j && j + 1 < s.len() && s[j] == '\r' && s[j + 1] == '\n'
}

/// Position of the first line break in `s`, or `s.len()` when `s` holds
/// none.
pub open spec fn first_break(s: Seq<char>) -> int
    decreases s.len(),
{
    if s.len() < 2 {
        s.len() as int
    } else if breaks_at(s, 0) {
        0
    } else {
        1 + first_break(s.drop_first())
    }
}

/// The pieces of `s` between line breaks.
pub open spec fn split_breaks(s: Seq<char>) -> Seq<Seq<char>>
    decreases s.len(),
{
    let i = first_break(s);
    if 0 <= i && i + 2 <= s.len() {
        seq![s.take(i)] + split_breaks(s.skip(i + 2))
    } else {
        seq![s]
    }
}

/// The protocol lines of one inbound frame: the frame without its trailing
/// white space, cut at line breaks.
pub open spec fn frame_lines(frame: Seq<char>) -> Seq<Seq<char>> {
    split_breaks(trim_end(frame))
}

/// What `first_break` finds: no line break begins before it, and it is
/// either a position where one begins or the end of `s`.
pub proof fn lemma_first_break_is(s: Seq<char>, i: int)
    requires
        0 <= i <= s.len(),
        forall|j: int| 0 <= j < i ==> !#[trigger] breaks_at(s, j),
        breaks_at(s, i) || i == s.len(),
    ensures
        first_break(s) == i,
    decreases s.len(),
{
    if s.len() < 2 {
    } else if breaks_at(s, 0) {
    } else {
        let t = s.drop_first();
        assert(i > 0);
        assert forall|j: int| 0 <= j < i - 1 implies !#[trigger] breaks_at(t, j) by {
            assert(!breaks_at(s, j + 1));
            if j + 1 < t.len() {
                assert(t[j] == s[j + 1] && t[j + 1] == s[j + 1 + 1]);
            }
        }
        if i < s.len() {
            assert(t[i - 1] == s[i] && t[i - 1 + 1] == s[i + 1]);
        }
        lemma_first_break_is(t, i - 1);
    }
}

/// Cuts an inbound frame into its protocol lines.
pub fn split_frame(frame: &str) -> (r: Vec<String>)
    ensures
        r.len() >= 1,
        texts(r@) == frame_lines(frame@),
{
    let chars = to_chars(frame);
    let mut end: usize = chars.len();
    proof {
        assert(chars@.take(chars.len() as int) =~= chars@);
    }
    while end > 0 && whitespace(chars[end - 1])
        invariant
            end <= chars.len(),
            trim_end(chars@) == trim_end(chars@.take(end as int)),
        decreases end,
    {
        proof {
            assert(chars@.take(end as int).drop_last() =~= chars@.take(end - 1));
        }
        end -= 1;
    }
    let ghost body = chars@.take(end as int);
    assert(trim_end(chars@) == body);
    let mut out: Vec<String> = Vec::new();
    let mut start: usize = 0;
    proof {
        assert(chars@.subrange(0, end as int) =~= body);
    }
    loop
        invariant_except_break
            start <= end <= chars.len(),
            split_breaks(body) == texts(out@) + split_breaks(
                chars@.subrange(start as int, end as int),
            ),
        ensures
            out.len() >= 1,
            split_breaks(body) == texts(out@),
        decreases end - start,
    {
        let ghost rest = chars@.subrange(start as int, end as int);
        let mut i: usize = start;
        while end - i >= 2 && !(chars[i] == '\r' && chars[i + 1] == '\n')
            invariant
                start <= i <= end <= chars.len(),
                forall|j: int|
                    start <= j < i ==> !#[trigger] breaks_at(chars@.take(end as int), j),
            decreases end - i,
        {
            i += 1;
        }
        let found = end - i >= 2;
        let stop = if found {
            i
        } else {
            end
        };
        proof {
            assert forall|j: int| 0 <= j < stop - start implies !#[trigger] breaks_at(rest, j) by {
                if start + j < i {
                    assert(!breaks_at(chars@.take(end as int), start + j));
                }
            }
            lemma_first_break_is(rest, stop - start);
            assert(rest.take(stop - start) =~= chars@.subrange(start as int, stop as int));
        }
        let ghost before = out@;
        out.push(string_of(&chars, start, stop));
        proof {
            assert(texts(out@) =~= texts(before).push(chars@.subrange(start as int, stop as int)));
        }
        if !found {
            proof {
                assert(rest.take(stop - start) =~= rest);
            }
            break ;
        }
        proof {
            assert(rest.skip(stop - start + 2) =~= chars@.subrange(stop + 2, end as int));
        }
        start = stop + 2;
    }
    proof {
        assert(texts(out@).len() == out@.len());
    }
    out
}

} // verus!
