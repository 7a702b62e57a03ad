//! Counting skip votes: who has voted on which channel, when a quorum is
//! reached, and when a channel accepts votes at all.
//!
//! Each channel has a count of its own, with a cooldown of its own. The
//! counter does no waiting and no asking. It tells the caller what a vote
//! led to; the caller schedules the expiry of the vote, asks the music
//! service to skip once a quorum is reached, and reports back.

use crate::dispatch::{reply_view, DispatchError};
use crate::text::{join2, same_text, texts};
use vstd::hash_map::StringHashMap;
use vstd::prelude::*;
use vstd::string::StringExecFns;

verus! {

/// Distinct voters that it takes to skip a song.
pub const REQUIRED_SKIPS: usize = 5;

/// Seconds after which a vote is taken back.
pub const VOTE_EXPIRY_SECS: u64 = 30;

/// Seconds after a skip during which the votes of the channel are dropped.
pub const SKIP_COOLDOWN_SECS: u64 = 10;

/// The votes of one channel: who has voted, in the order of the votes,
/// whose vote is due to expire, and when the channel last skipped a song,
/// in seconds, if it ever did.
pub struct VotersView {
    pub voters: Seq<Seq<char>>,
    pub pending: Seq<Seq<char>>,
    pub last_skip: Option<u64>,
}

/// The votes of every channel. A channel that was never voted on has a
/// session without votes.
pub struct VotesView {
    pub sessions: Map<Seq<char>, VotersView>,
}

/// What became of a vote.
#[derive(Clone, Copy, Debug, PartialEq, Eq, Structural)]
pub enum VoteOutcome {
    /// It came too soon after a skip on its channel and was dropped.
    Dropped,
    /// The user had voted already: nothing changed.
    Duplicate,
    /// It was counted, and is to expire after this many seconds.
    Counted { expire_after_secs: u64 },
    /// It was counted, is to expire after this many seconds, and reached
    /// the quorum: the song is to be skipped.
    Quorum { expire_after_secs: u64 },
}

/// Where the votes of a channel stand at some time.
#[derive(Clone, Copy, Debug, PartialEq, Eq, Structural)]
pub enum VoteState {
    /// No votes, and votes are accepted.
    Empty,
    /// Some votes, and votes are accepted.
    Collecting,
    /// A song was skipped less than `SKIP_COOLDOWN_SECS` seconds ago: votes
    /// are dropped.
    Cooldown,
}

/// A session without votes that has skipped no song.
pub open spec fn no_votes() -> VotersView {
    VotersView { voters: Seq::empty(), pending: Seq::empty(), last_skip: None }
}

/// Votes on no channel.
pub open spec fn empty_votes() -> VotesView {
    VotesView { sessions: Map::total(|c: Seq<char>| no_votes()) }
}

/// `s` without `x`.
pub open spec fn without(s: Seq<Seq<char>>, x: Seq<char>) -> Seq<Seq<char>>
    decreases s.len(),
{
    if s.len() == 0 {
        s
    } else if s.last() == x {
        without(s.drop_last(), x)
    } else {
        without(s.drop_last(), x).push(s.last())
    }
}

/// Nobody votes twice, and only a voter's vote can be due to expire.
pub open spec fn session_wf(s: VotersView) -> bool {
    &&& s.voters.no_duplicates()
    &&& s.pending.no_duplicates()
    &&& forall|i: int| 0 <= i < s.pending.len() ==> s.voters.contains(#[trigger] s.pending[i])
}

/// Every channel has a session, and every session is well formed.
pub open spec fn votes_wf(v: VotesView) -> bool {
    forall|c: Seq<char>| #[trigger] v.sessions.dom().contains(c) && session_wf(v.sessions[c])
}

/// Whether the session `s` accepts votes at the time `now`: it has skipped
/// no song yet, or the cooldown since its last skip is over.
pub open spec fn accepts_at(s: VotersView, now: u64) -> bool {
    match s.last_skip {
        None => true,
        Some(at) => now >= at && now - at >= SKIP_COOLDOWN_SECS,
    }
}

/// Where the session `s` stands at the time `now`.
pub open spec fn state_at(s: VotersView, now: u64) -> VoteState {
    if !accepts_at(s, now) {
        VoteState::Cooldown
    } else if s.voters.len() == 0 {
        VoteState::Empty
    } else {
        VoteState::Collecting
    }
}

/// What a vote of `user` leads to in the session `s`, whatever the time.
pub open spec fn vote_outcome(s: VotersView, user: Seq<char>) -> VoteOutcome {
    if s.voters.contains(user) {
        VoteOutcome::Duplicate
    } else if s.voters.len() + 1 >= REQUIRED_SKIPS {
        VoteOutcome::Quorum { expire_after_secs: VOTE_EXPIRY_SECS }
    } else {
        VoteOutcome::Counted { expire_after_secs: VOTE_EXPIRY_SECS }
    }
}

/// The session `s` after a vote of `user`, whatever the time. A second vote
/// of one user changes nothing. Any other vote is counted and due to
/// expire, whether or not it reaches the quorum.
pub open spec fn after_vote(s: VotersView, user: Seq<char>) -> VotersView {
    if s.voters.contains(user) {
        s
    } else {
        VotersView { voters: s.voters.push(user), pending: s.pending.push(user), ..s }
    }
}

/// What a vote of `user` at the time `now` leads to in the session `s`.
pub open spec fn outcome_at(s: VotersView, user: Seq<char>, now: u64) -> VoteOutcome {
    if accepts_at(s, now) {
        vote_outcome(s, user)
    } else {
        VoteOutcome::Dropped
    }
}

/// The session `s` after a vote of `user` at the time `now`.
pub open spec fn after_vote_at(s: VotersView, user: Seq<char>, now: u64) -> VotersView {
    if accepts_at(s, now) {
        after_vote(s, user)
    } else {
        s
    }
}

/// The session `s` after the vote of `user` has expired: the user is no
/// voter any more. An expiry that is not due changes nothing.
pub open spec fn after_expiry(s: VotersView, user: Seq<char>) -> VotersView {
    if s.pending.contains(user) {
        VotersView { voters: without(s.voters, user), pending: without(s.pending, user), ..s }
    } else {
        s
    }
}

/// A session after a skip went through at the time `now`: it has no votes,
/// no expiry is due, and its cooldown begins.
pub open spec fn after_skip(now: u64) -> VotersView {
    VotersView { voters: Seq::empty(), pending: Seq::empty(), last_skip: Some(now) }
}

/// The session `s` after the music service answered a request to skip:
/// `Some(true)` for a success status, `Some(false)` for any other, `None`
/// for a request that failed. Only a success changes the session.
pub open spec fn after_answer(s: VotersView, answer: Option<bool>, now: u64) -> VotersView {
    if answer == Some(true) {
        after_skip(now)
    } else {
        s
    }
}

/// The line that announces a skip on `channel`.
pub open spec fn passed_line(channel: Seq<char>) -> Seq<char> {
    "PRIVMSG "@ + channel + " :Vote skip passed"@
}

/// What to tell of the answer of the music service: the line that
/// announces the skip, or the failure.
pub open spec fn answer_text(channel: Seq<char>, answer: Option<bool>) -> Result<
    Seq<char>,
    DispatchError,
> {
    match answer {
        Some(true) => Ok(passed_line(channel)),
        Some(false) => Err(DispatchError::SkipRejected),
        None => Err(DispatchError::SkipFailed),
    }
}

/// The votes `v` with the session `s` for `channel`, and every other
/// channel as it was.
pub open spec fn with_session(v: VotesView, channel: Seq<char>, s: VotersView) -> VotesView {
    VotesView { sessions: v.sessions.insert(channel, s) }
}

/// What `without` keeps: everything but `x`, each as often as before and in
/// the same order.
pub proof fn lemma_without(s: Seq<Seq<char>>, x: Seq<char>)
    ensures
        !without(s, x).contains(x),
        forall|y: Seq<char>| y != x ==> (without(s, x).contains(y) <==> s.contains(y)),
        s.no_duplicates() ==> without(s, x).no_duplicates(),
        !s.contains(x) ==> without(s, x) == s,
        without(s, x).len() <= s.len(),
    decreases s.len(),
{
    if s.len() > 0 {
        let front = s.drop_last();
        let last = s.last();
        lemma_without(front, x);
        let kept = without(front, x);
        assert forall|y: Seq<char>| y != x implies (without(s, x).contains(y) <==> s.contains(
            y,
        )) by {
            if s.contains(y) {
                let i = choose|i: int| 0 <= i < s.len() && s[i] == y;
                if i < s.len() - 1 {
                    assert(front[i] == y);
                    assert(front.contains(y));
                    assert(kept.contains(y));
                    let k = choose|k: int| 0 <= k < kept.len() && kept[k] == y;
                    assert(without(s, x)[k] == y);
                } else {
                    assert(without(s, x).last() == y);
                }
            }
            if without(s, x).contains(y) {
                let k = choose|k: int| 0 <= k < without(s, x).len() && without(s, x)[k] == y;
                if k < kept.len() {
                    assert(kept[k] == y);
                    assert(front.contains(y));
                    let i = choose|i: int| 0 <= i < front.len() && front[i] == y;
                    assert(s[i] == y);
                } else {
                    assert(s[s.len() - 1] == y);
                }
            }
        }
        if without(s, x).contains(x) {
            let k = choose|k: int| 0 <= k < without(s, x).len() && without(s, x)[k] == x;
            assert(kept[k] == x);
        }
        if s.no_duplicates() {
            assert(front.no_duplicates());
            if last != x {
                assert(!kept.contains(last)) by {
                    if kept.contains(last) {
                        assert(front.contains(last));
                        let i = choose|i: int| 0 <= i < front.len() && front[i] == last;
                        assert(s[i] == s[s.len() - 1]);
                    }
                }
                assert forall|i: int, j: int|
                    0 <= i < without(s, x).len() && 0 <= j < without(s, x).len() && i
                        != j implies without(s, x)[i] != without(s, x)[j] by {
                    if i == kept.len() {
                        assert(kept.contains(kept[j]));
                    } else if j == kept.len() {
                        assert(kept.contains(kept[i]));
                    }
                }
            }
        }
        if !s.contains(x) {
            assert(!front.contains(x)) by {
                if front.contains(x) {
                    let i = choose|i: int| 0 <= i < front.len() && front[i] == x;
                    assert(s[i] == x);
                }
            }
            assert(last != x) by {
                assert(s[s.len() - 1] == last);
            }
            assert(front.push(last) =~= s);
        }
    }
}

/// In a well-formed session, a user whose vote is due to expire is a voter.
pub proof fn lemma_pending_are_voters(s: VotersView, user: Seq<char>)
    requires
        session_wf(s),
        s.pending.contains(user),
    ensures
        s.voters.contains(user),
{
    let i = choose|i: int| 0 <= i < s.pending.len() && s.pending[i] == user;
    assert(s.voters.contains(s.pending[i]));
}

/// A vote keeps a session well formed: nobody is counted twice.
pub proof fn law_vote_keeps_voters_distinct(s: VotersView, user: Seq<char>)
    requires
        session_wf(s),
    ensures
        session_wf(after_vote(s, user)),
        after_vote(s, user).voters.contains(user),
{
    let t = after_vote(s, user);
    if !s.voters.contains(user) {
        assert(t.voters.last() == user);
        if s.pending.contains(user) {
            lemma_pending_are_voters(s, user);
        }
        assert forall|i: int| 0 <= i < t.pending.len() implies t.voters.contains(
            #[trigger] t.pending[i],
        ) by {
            let p = t.pending[i];
            if i < s.pending.len() {
                assert(s.voters.contains(s.pending[i]));
                let k = choose|k: int| 0 <= k < s.voters.len() && s.voters[k] == p;
                assert(t.voters[k] == p);
            } else {
                assert(t.voters[t.voters.len() - 1] == p);
            }
        }
    }
}

/// An expiry keeps a session well formed, takes the user out, and leaves
/// every other voter in.
pub proof fn law_expiry_removes_the_voter(s: VotersView, user: Seq<char>)
    requires
        session_wf(s),
    ensures
        session_wf(after_expiry(s, user)),
        s.pending.contains(user) ==> !after_expiry(s, user).voters.contains(user),
        forall|other: Seq<char>|
            other != user ==> (after_expiry(s, user).voters.contains(other) <==> s.voters.contains(
                other,
            )),
{
    lemma_without(s.voters, user);
    lemma_without(s.pending, user);
    let t = after_expiry(s, user);
    if s.pending.contains(user) {
        assert forall|i: int| 0 <= i < t.pending.len() implies t.voters.contains(
            #[trigger] t.pending[i],
        ) by {
            let p = t.pending[i];
            assert(t.pending.contains(p));
            assert(p != user);
            assert(s.pending.contains(p));
            lemma_pending_are_voters(s, p);
        }
    }
}

/// Registering the same user twice is the same as registering the user
/// once; from no votes, the count stays at one.
pub proof fn law_second_vote_changes_nothing(s: VotersView, user: Seq<char>)
    ensures
        after_vote(after_vote(s, user), user) == after_vote(s, user),
        vote_outcome(after_vote(s, user), user) == VoteOutcome::Duplicate,
        after_vote(after_vote(no_votes(), user), user).voters.len() == 1,
{
    let t = after_vote(s, user);
    if !s.voters.contains(user) {
        assert(t.voters[t.voters.len() - 1] == user);
    }
    let one = after_vote(no_votes(), user);
    assert(one.voters[0] == user);
}

/// The session after the votes of `users`, in order.
pub open spec fn after_votes(s: VotersView, users: Seq<Seq<char>>) -> VotersView
    decreases users.len(),
{
    if users.len() == 0 {
        s
    } else {
        after_vote(after_votes(s, users.drop_last()), users.last())
    }
}

/// From no votes, the votes of distinct users are all counted, in order,
/// and each is due to expire.
pub proof fn lemma_distinct_votes(users: Seq<Seq<char>>)
    requires
        users.no_duplicates(),
    ensures
        after_votes(no_votes(), users).voters == users,
        after_votes(no_votes(), users).pending == users,
        after_votes(no_votes(), users).last_skip is None,
    decreases users.len(),
{
    if users.len() > 0 {
        let front = users.drop_last();
        lemma_distinct_votes(front);
        assert(!front.contains(users.last())) by {
            if front.contains(users.last()) {
                let i = choose|i: int| 0 <= i < front.len() && front[i] == users.last();
                assert(users[i] == users[users.len() - 1]);
            }
        }
        assert(front.push(users.last()) =~= users);
    }
}

/// From no votes, the vote of the `k`-th of a row of distinct users reaches
/// the quorum exactly when `k` is `REQUIRED_SKIPS` or more; the votes
/// before that are counted only. So five distinct users call for a skip
/// once, with the fifth vote.
pub proof fn law_quorum_at_fifth_voter(users: Seq<Seq<char>>, k: int)
    requires
        users.no_duplicates(),
        1 <= k <= users.len(),
    ensures
        vote_outcome(after_votes(no_votes(), users.take(k - 1)), users[k - 1]) == (if k
            >= REQUIRED_SKIPS {
            VoteOutcome::Quorum { expire_after_secs: VOTE_EXPIRY_SECS }
        } else {
            VoteOutcome::Counted { expire_after_secs: VOTE_EXPIRY_SECS }
        }),
        after_votes(no_votes(), users.take(k)).voters == users.take(k),
{
    let before = users.take(k - 1);
    lemma_distinct_votes(before);
    lemma_distinct_votes(users.take(k));
    assert(!before.contains(users[k - 1])) by {
        if before.contains(users[k - 1]) {
            let i = choose|i: int| 0 <= i < before.len() && before[i] == users[k - 1];
            assert(users[i] == users[k - 1]);
        }
    }
}

/// The count of a channel reaches the quorum only with a vote that calls
/// for a skip: below the quorum, every other vote and every expiry leave it
/// below.
pub proof fn law_count_stays_below_quorum(s: VotersView, user: Seq<char>)
    requires
        s.voters.len() < REQUIRED_SKIPS,
    ensures
        vote_outcome(s, user) is Quorum || after_vote(s, user).voters.len() < REQUIRED_SKIPS,
        after_expiry(s, user).voters.len() < REQUIRED_SKIPS,
{
    lemma_without(s.voters, user);
}

/// A channel that has skipped no song accepts votes at any time.
pub proof fn law_new_channel_accepts_votes(user: Seq<char>, now: u64)
    ensures
        accepts_at(no_votes(), now),
        state_at(no_votes(), now) == VoteState::Empty,
        outcome_at(no_votes(), user, now) == (VoteOutcome::Counted {
            expire_after_secs: VOTE_EXPIRY_SECS,
        }),
        state_at(after_vote_at(no_votes(), user, now), now) == VoteState::Collecting,
{
}

/// Once a skip went through, the channel has no votes and no expiry is due,
/// and the next vote that is accepted starts a new count.
pub proof fn law_votes_start_afresh(s: VotersView, user: Seq<char>, now: u64)
    ensures
        after_answer(s, Some(true), now).voters.len() == 0,
        after_answer(s, Some(true), now).pending.len() == 0,
        after_vote(after_answer(s, Some(true), now), user).voters == seq![user],
        vote_outcome(after_answer(s, Some(true), now), user) == (VoteOutcome::Counted {
            expire_after_secs: VOTE_EXPIRY_SECS,
        }),
{
    assert(Seq::<Seq<char>>::empty().push(user) =~= seq![user]);
}

/// A skip that failed leaves every vote where it was.
pub proof fn law_failed_skip_keeps_votes(s: VotersView, now: u64)
    ensures
        after_answer(s, Some(false), now) == s,
        after_answer(s, None, now) == s,
{
}

/// During the cooldown that a skip begins, a vote on the channel is dropped
/// and changes nothing; once the cooldown is over, votes are counted again.
pub proof fn law_votes_wait_for_cooldown(user: Seq<char>, skipped: u64, now: u64)
    requires
        skipped <= now,
    ensures
        now - skipped < SKIP_COOLDOWN_SECS ==> state_at(after_skip(skipped), now)
            == VoteState::Cooldown && outcome_at(after_skip(skipped), user, now)
            == VoteOutcome::Dropped && after_vote_at(after_skip(skipped), user, now) == after_skip(
            skipped,
        ),
        now - skipped >= SKIP_COOLDOWN_SECS ==> state_at(after_skip(skipped), now)
            == VoteState::Empty && outcome_at(after_skip(skipped), user, now) is Counted,
{
}

/// What happens on one channel leaves every other channel as it was: its
/// votes, its expiries and its cooldown.
pub proof fn law_channels_are_apart(v: VotesView, channel: Seq<char>, s: VotersView, other: Seq<char>)
    requires
        other != channel,
    ensures
        with_session(v, channel, s).sessions[other] == v.sessions[other],
        with_session(v, channel, s).sessions[channel] == s,
{
}

/// A vote that expires leaves the session as it was before the vote.
pub proof fn law_expired_vote_is_undone(s: VotersView, user: Seq<char>)
    requires
        session_wf(s),
        vote_outcome(s, user) != VoteOutcome::Duplicate,
    ensures
        after_expiry(after_vote(s, user), user) == s,
{
    let t = after_vote(s, user);
    assert(t.pending[t.pending.len() - 1] == user);
    assert(t.voters.drop_last() =~= s.voters);
    assert(t.pending.drop_last() =~= s.pending);
    lemma_without(s.voters, user);
    if s.pending.contains(user) {
        lemma_pending_are_voters(s, user);
    }
    lemma_without(s.pending, user);
}

/// The votes of one channel.
pub struct SkipVoteSession {
    voters: Vec<String>,
    pending: Vec<String>,
    last_skip: Option<u64>,
}

impl View for SkipVoteSession {
    type V = VotersView;

    closed spec fn view(&self) -> VotersView {
        VotersView {
            voters: texts(self.voters@),
            pending: texts(self.pending@),
            last_skip: self.last_skip,
        }
    }
}

/// The skip votes of all channels.
pub struct VoteSkip {
    sessions: StringHashMap<SkipVoteSession>,
}

/// The session that `m` holds for `channel`, one without votes where it
/// holds none.
pub open spec fn session_in(m: Map<Seq<char>, SkipVoteSession>, channel: Seq<char>) -> VotersView {
    if m.contains_key(channel) {
        m[channel]@
    } else {
        no_votes()
    }
}

impl View for VoteSkip {
    type V = VotesView;

    closed spec fn view(&self) -> VotesView {
        VotesView { sessions: Map::total(|c: Seq<char>| session_in(self.sessions@, c)) }
    }
}

/// Whether `v` holds the text `s`.
fn holds(v: &Vec<String>, s: &str) -> (r: bool)
    ensures
        r == texts(v@).contains(s@),
{
    let mut i: usize = 0;
    while i < v.len()
        invariant
            i <= v.len(),
            forall|j: int| 0 <= j < i ==> texts(v@)[j] != s@,
        decreases v.len() - i,
    {
        if same_text(v[i].as_str(), s) {
            assert(texts(v@)[i as int] == s@);
            return true;
        }
        i += 1;
    }
    false
}

/// A copy of `v` without the text `s`.
fn copy_without(v: &Vec<String>, s: &str) -> (r: Vec<String>)
    ensures
        texts(r@) == without(texts(v@), s@),
{
    let mut out: Vec<String> = Vec::new();
    let mut i: usize = 0;
    while i < v.len()
        invariant
            i <= v.len(),
            texts(out@) == without(texts(v@).take(i as int), s@),
        decreases v.len() - i,
    {
        let ghost before = out@;
        proof {
            assert(texts(v@).take(i + 1).drop_last() =~= texts(v@).take(i as int));
            assert(texts(v@).take(i + 1).last() == v@[i as int]@);
        }
        if !same_text(v[i].as_str(), s) {
            out.push(v[i].clone());
            proof {
                assert(texts(out@) =~= texts(before).push(v@[i as int]@));
            }
        }
        i += 1;
    }
    proof {
        assert(texts(v@).take(i as int) =~= texts(v@));
    }
    out
}

/// A copy of `v`.
fn copy_texts(v: &Vec<String>) -> (r: Vec<String>)
    ensures
        texts(r@) == texts(v@),
{
    let mut out: Vec<String> = Vec::new();
    let mut i: usize = 0;
    while i < v.len()
        invariant
            i <= v.len(),
            texts(out@) == texts(v@).take(i as int),
        decreases v.len() - i,
    {
        let ghost before = out@;
        out.push(v[i].clone());
        proof {
            assert(texts(out@) =~= texts(before).push(v@[i as int]@));
            assert(texts(v@).take(i + 1) =~= texts(v@).take(i as int).push(v@[i as int]@));
        }
        i += 1;
    }
    proof {
        assert(texts(v@).take(i as int) =~= texts(v@));
    }
    out
}

/// Whether a session that last skipped at `last_skip` accepts votes at
/// `now`.
fn accepts(last_skip: Option<u64>, now: u64) -> (r: bool)
    ensures
        forall|s: VotersView| s.last_skip == last_skip ==> r == #[trigger] accepts_at(s, now),
{
    match last_skip {
        None => true,
        Some(at) => now >= at && now - at >= SKIP_COOLDOWN_SECS,
    }
}

impl VoteSkip {
    /// Every channel has a session, and every session is well formed.
    pub open spec fn wf(&self) -> bool {
        votes_wf(self@)
    }

    /// No votes on any channel, and no channel in a cooldown.
    pub fn new() -> (r: Self)
        ensures
            r.wf(),
            r@ == empty_votes(),
    {
        let r = VoteSkip { sessions: StringHashMap::new() };
        proof {
            assert(r@.sessions =~= empty_votes().sessions);
        }
        r
    }

    /// Whether votes on `channel` are accepted at the time `now`.
    pub fn accepts_votes(&self, channel: &str, now: u64) -> (r: bool)
        ensures
            r == accepts_at(self@.sessions[channel@], now),
    {
        match self.sessions.get(channel) {
            Some(s) => accepts(s.last_skip, now),
            None => true,
        }
    }

    /// Where the votes on `channel` stand at the time `now`.
    pub fn state(&self, channel: &str, now: u64) -> (r: VoteState)
        ensures
            r == state_at(self@.sessions[channel@], now),
    {
        if !self.accepts_votes(channel, now) {
            VoteState::Cooldown
        } else if self.voter_count(channel) == 0 {
            VoteState::Empty
        } else {
            VoteState::Collecting
        }
    }

    /// How many users have a vote on `channel`.
    pub fn voter_count(&self, channel: &str) -> (r: usize)
        ensures
            r == self@.sessions[channel@].voters.len(),
    {
        match self.sessions.get(channel) {
            Some(s) => {
                assert(texts(s.voters@).len() == s.voters@.len());
                s.voters.len()
            },
            None => 0,
        }
    }

    /// How many votes on `channel` are due to expire.
    pub fn pending_count(&self, channel: &str) -> (r: usize)
        ensures
            r == self@.sessions[channel@].pending.len(),
    {
        match self.sessions.get(channel) {
            Some(s) => {
                assert(texts(s.pending@).len() == s.pending@.len());
                s.pending.len()
            },
            None => 0,
        }
    }

    /// Whether `user` has a vote on `channel`.
    pub fn has_voted(&self, channel: &str, user: &str) -> (r: bool)
        ensures
            r == self@.sessions[channel@].voters.contains(user@),
    {
        match self.sessions.get(channel) {
            Some(s) => holds(&s.voters, user),
            None => {
                assert(no_votes().voters.len() == 0);
                false
            },
        }
    }

    /// Counts a vote of `user` on `channel`, whatever the time. A second
    /// vote of one user changes nothing.
    pub fn register_vote(&mut self, channel: &str, user: &str) -> (r: VoteOutcome)
        requires
            old(self).wf(),
        ensures
            final(self).wf(),
            r == vote_outcome(old(self)@.sessions[channel@], user@),
            final(self)@ == with_session(
                old(self)@,
                channel@,
                after_vote(old(self)@.sessions[channel@], user@),
            ),
    {
        let ghost before = self@;
        let ghost session = before.sessions[channel@];
        let (mut voters, mut pending, last_skip) = match self.sessions.get(channel) {
            Some(s) => (copy_texts(&s.voters), copy_texts(&s.pending), s.last_skip),
            None => (Vec::new(), Vec::new(), None),
        };
        proof {
            assert(before.sessions.dom().contains(channel@));
            assert(texts(voters@) =~= session.voters);
            assert(texts(pending@) =~= session.pending);
            law_vote_keeps_voters_distinct(session, user@);
        }
        if holds(&voters, user) {
            proof {
                assert(self@.sessions =~= before.sessions.insert(channel@, session));
            }
            return VoteOutcome::Duplicate;
        }
        let ghost held = voters@;
        let ghost due = pending@;
        voters.push(user.to_owned());
        pending.push(user.to_owned());
        proof {
            assert(texts(voters@) =~= texts(held).push(user@));
            assert(texts(pending@) =~= texts(due).push(user@));
            assert(texts(voters@).len() == voters@.len());
        }
        let outcome = if voters.len() >= REQUIRED_SKIPS {
            VoteOutcome::Quorum { expire_after_secs: VOTE_EXPIRY_SECS }
        } else {
            VoteOutcome::Counted { expire_after_secs: VOTE_EXPIRY_SECS }
        };
        let updated = SkipVoteSession { voters, pending, last_skip };
        self.sessions.insert(channel.to_owned(), updated);
        proof {
            assert(updated@ == after_vote(session, user@));
            assert(self@.sessions =~= before.sessions.insert(channel@, updated@));
            assert forall|c: Seq<char>| #[trigger]
                self@.sessions.dom().contains(c) && session_wf(self@.sessions[c]) by {
                assert(before.sessions.dom().contains(c));
            }
        }
        outcome
    }

    /// Takes a skip vote of `username` on the channel `channel_name` at the
    /// time `now`, in seconds. During the cooldown of the channel the vote
    /// is dropped; else it is counted as `register_vote` counts it.
    pub fn handle_skip(&mut self, channel_name: &str, username: &str, now: u64) -> (r: VoteOutcome)
        requires
            old(self).wf(),
        ensures
            final(self).wf(),
            r == outcome_at(old(self)@.sessions[channel_name@], username@, now),
            final(self)@ == with_session(
                old(self)@,
                channel_name@,
                after_vote_at(old(self)@.sessions[channel_name@], username@, now),
            ),
    {
        if self.accepts_votes(channel_name, now) {
            self.register_vote(channel_name, username)
        } else {
            proof {
                assert(self@.sessions.dom().contains(channel_name@));
                assert(self@.sessions =~= self@.sessions.insert(
                    channel_name@,
                    self@.sessions[channel_name@],
                ));
            }
            VoteOutcome::Dropped
        }
    }

    /// Takes back the vote of `user` on `channel` when its time is up. An
    /// expiry that is no longer due, because the votes were cleared, changes
    /// nothing.
    pub fn expire_vote(&mut self, channel: &str, user: &str)
        requires
            old(self).wf(),
        ensures
            final(self).wf(),
            final(self)@ == with_session(
                old(self)@,
                channel@,
                after_expiry(old(self)@.sessions[channel@], user@),
            ),
    {
        let ghost before = self@;
        let ghost session = before.sessions[channel@];
        proof {
            assert(before.sessions.dom().contains(channel@));
            law_expiry_removes_the_voter(session, user@);
        }
        let updated = match self.sessions.get(channel) {
            Some(s) => {
                if holds(&s.pending, user) {
                    Some(
                        SkipVoteSession {
                            voters: copy_without(&s.voters, user),
                            pending: copy_without(&s.pending, user),
                            last_skip: s.last_skip,
                        },
                    )
                } else {
                    None
                }
            },
            None => {
                assert(no_votes().pending.len() == 0);
                None
            },
        };
        match updated {
            Some(u) => {
                self.sessions.insert(channel.to_owned(), u);
                proof {
                    assert(self@.sessions =~= before.sessions.insert(channel@, u@));
                    assert forall|c: Seq<char>| #[trigger]
                        self@.sessions.dom().contains(c) && session_wf(self@.sessions[c]) by {
                        assert(before.sessions.dom().contains(c));
                    }
                }
            },
            None => {
                proof {
                    assert(self@.sessions =~= before.sessions.insert(channel@, session));
                }
            },
        }
    }

    /// Takes the answer of the music service to a request to skip on
    /// `channel`, at the time `now`. After a success the channel has no
    /// votes, its cooldown begins, and the result is the line that
    /// announces the skip; the caller cancels the expiries of the channel.
    /// After a failure nothing has changed, and the result says which.
    pub fn skip_answered(&mut self, channel: &str, answer: Option<bool>, now: u64) -> (r: Result<
        String,
        DispatchError,
    >)
        requires
            old(self).wf(),
        ensures
            final(self).wf(),
            final(self)@ == with_session(
                old(self)@,
                channel@,
                after_answer(old(self)@.sessions[channel@], answer, now),
            ),
            reply_view(r) == answer_text(channel@, answer),
    {
        let ghost before = self@;
        proof {
            assert(before.sessions.dom().contains(channel@));
        }
        match answer {
            Some(true) => {
                let cleared = SkipVoteSession {
                    voters: Vec::new(),
                    pending: Vec::new(),
                    last_skip: Some(now),
                };
                proof {
                    assert(texts(Seq::<String>::empty()) =~= Seq::<Seq<char>>::empty());
                    assert(cleared@ == after_skip(now));
                }
                self.sessions.insert(channel.to_owned(), cleared);
                proof {
                    assert(self@.sessions =~= before.sessions.insert(channel@, after_skip(now)));
                    assert forall|c: Seq<char>| #[trigger]
                        self@.sessions.dom().contains(c) && session_wf(self@.sessions[c]) by {
                        assert(before.sessions.dom().contains(c));
                    }
                }
                let mut line = join2("PRIVMSG ", channel);
                line.append(" :Vote skip passed");
                Ok(line)
            },
            Some(false) => {
                proof {
                    assert(self@.sessions =~= before.sessions.insert(
                        channel@,
                        before.sessions[channel@],
                    ));
                }
                Err(DispatchError::SkipRejected)
            },
            None => {
                proof {
                    assert(self@.sessions =~= before.sessions.insert(
                        channel@,
                        before.sessions[channel@],
                    ));
                }
                Err(DispatchError::SkipFailed)
            },
        }
    }
}

} // verus!
