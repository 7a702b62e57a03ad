//! Decoding one protocol line into its tags, source, command and
//! parameters.
//!
//! A line has up to four parts, in this order: `@` and a tag block, `:` and a
//! source block, a command block, and `:` followed by the parameters. What
//! each part decodes to is given by a spec function over `Seq<char>`; the
//! executable functions are proved to compute exactly that.

use crate::text::{
    find, first_index, lemma_first_index, opt_view, pieces, range_is, ranges_within, split,
    split_ranges, string_of, texts, to_chars, trim, trim_range,
};
use vstd::hash_map::StringHashMap;
use vstd::prelude::*;

verus! {

/// What a `Source` holds.
pub struct SourceView {
    pub nick: Option<Seq<char>>,
    pub host: Option<Seq<char>>,
}

/// What a `Command` holds.
pub struct CommandView {
    pub command: Option<Seq<char>>,
    pub channel: Option<Seq<char>>,
    pub is_cap_request_enabled: Option<bool>,
    pub bot_command: Option<Seq<char>>,
    pub bot_command_params: Option<Seq<char>>,
}

/// Where a line came from. A server's own lines carry a host and no nick.
#[derive(Debug)]
pub struct Source {
    pub nick: Option<String>,
    pub host: Option<String>,
}

impl View for Source {
    type V = SourceView;

    open spec fn view(&self) -> SourceView {
        SourceView { nick: opt_view(self.nick), host: opt_view(self.host) }
    }
}

impl Default for Source {
    fn default() -> (r: Self)
        ensures
            r@ == (SourceView { nick: None, host: None }),
    {
        Source { nick: None, host: None }
    }
}

/// A classified command: the verb and the fields that the verb carries.
#[derive(Debug)]
pub struct Command {
    pub command: Option<String>,
    pub channel: Option<String>,
    pub is_cap_request_enabled: Option<bool>,
    pub bot_command: Option<String>,
    pub bot_command_params: Option<String>,
}

impl View for Command {
    type V = CommandView;

    open spec fn view(&self) -> CommandView {
        CommandView {
            command: opt_view(self.command),
            channel: opt_view(self.channel),
            is_cap_request_enabled: self.is_cap_request_enabled,
            bot_command: opt_view(self.bot_command),
            bot_command_params: opt_view(self.bot_command_params),
        }
    }
}

impl Default for Command {
    fn default() -> (r: Self)
        ensures
            r@ == bare_command(None, None),
    {
        Command {
            command: None,
            channel: None,
            is_cap_request_enabled: None,
            bot_command: None,
            bot_command_params: None,
        }
    }
}

impl Clone for Command {
    fn clone(&self) -> (r: Self)
        ensures
            r@ == self@,
    {
        Command {
            command: clone_opt(&self.command),
            channel: clone_opt(&self.channel),
            is_cap_request_enabled: self.is_cap_request_enabled,
            bot_command: clone_opt(&self.bot_command),
            bot_command_params: clone_opt(&self.bot_command_params),
        }
    }
}

/// A copy of an optional string.
pub fn clone_opt(o: &Option<String>) -> (r: Option<String>)
    ensures
        opt_view(r) == opt_view(*o),
{
    match o {
        Some(s) => Some(s.clone()),
        None => None,
    }
}

/// A command with a verb, perhaps a channel, and nothing else.
pub open spec fn bare_command(command: Option<Seq<char>>, channel: Option<Seq<char>>) -> CommandView {
    CommandView {
        command,
        channel,
        is_cap_request_enabled: None,
        bot_command: None,
        bot_command_params: None,
    }
}

/// The `k`-th piece, where there is one.
pub open spec fn piece_at(parts: Seq<Seq<char>>, k: int) -> Option<Seq<char>> {
    if 0 <= k < parts.len() {
        Some(parts[k])
    } else {
        None
    }
}

/// Verbs that name a channel in their second token.
pub open spec fn is_channel_verb(verb: Seq<char>) -> bool {
    ||| verb == "JOIN"@
    ||| verb == "PART"@
    ||| verb == "NOTICE"@
    ||| verb == "CLEARCHAT"@
    ||| verb == "HOSTTARGET"@
    ||| verb == "PRIVMSG"@
    ||| verb == "USERSTATE"@
    ||| verb == "ROOMSTATE"@
    ||| verb == "001"@
}

/// Verbs that carry nothing but themselves.
pub open spec fn is_plain_verb(verb: Seq<char>) -> bool {
    ||| verb == "PING"@
    ||| verb == "GLOBALUSERSTATE"@
    ||| verb == "RECONNECT"@
}

/// Numeric replies that are recognised and then ignored.
pub open spec fn is_ignored_numeric(verb: Seq<char>) -> bool {
    ||| verb == "002"@
    ||| verb == "003"@
    ||| verb == "004"@
    ||| verb == "353"@
    ||| verb == "366"@
    ||| verb == "372"@
    ||| verb == "375"@
    ||| verb == "376"@
    ||| verb == "421"@
}

/// The command that a raw command block stands for, or `None` when its verb
/// is unknown or is one of the ignored numeric replies. The block is cut at
/// single spaces: the first token is the verb, the second a channel and the
/// third, for `CAP`, the acknowledgement.
pub open spec fn classify_command(raw: Seq<char>) -> Option<CommandView> {
    let parts = split(raw, ' ');
    let verb = parts[0];
    if is_channel_verb(verb) {
        Some(bare_command(Some(verb), piece_at(parts, 1)))
    } else if is_plain_verb(verb) {
        Some(bare_command(Some(verb), None))
    } else if verb == "CAP"@ {
        Some(
            CommandView {
                command: Some(verb),
                channel: None,
                is_cap_request_enabled: match piece_at(parts, 2) {
                    Some(p) => Some(p == "ACK"@),
                    None => None,
                },
                bot_command: None,
                bot_command_params: None,
            },
        )
    } else {
        None
    }
}

/// The source that a raw source block stands for: `nick!host`, a host
/// alone, or nothing.
pub open spec fn decode_source(raw: Seq<char>) -> SourceView {
    let parts = split(raw, '!');
    if raw.len() == 0 {
        SourceView { nick: None, host: None }
    } else if parts.len() == 2 {
        SourceView { nick: Some(parts[0]), host: Some(parts[1]) }
    } else {
        SourceView { nick: None, host: Some(parts[0]) }
    }
}

/// The piece that range `k` of `ranges` cuts out of `chars`, where there is
/// such a range.
fn piece_string(chars: &Vec<char>, ranges: &Vec<(usize, usize)>, k: usize) -> (r: Option<String>)
    requires
        ranges_within(ranges@, 0, chars.len() as int),
    ensures
        opt_view(r) == piece_at(pieces(chars@, ranges@), k as int),
{
    if k < ranges.len() {
        let (a, b) = ranges[k];
        Some(string_of(chars, a, b))
    } else {
        None
    }
}

/// Whether `chars[from..to]` is a verb that names a channel.
fn channel_verb(chars: &Vec<char>, from: usize, to: usize) -> (r: bool)
    requires
        from <= to <= chars.len(),
    ensures
        r == is_channel_verb(chars@.subrange(from as int, to as int)),
{
    range_is(chars, from, to, "JOIN") || range_is(chars, from, to, "PART") || range_is(
        chars,
        from,
        to,
        "NOTICE",
    ) || range_is(chars, from, to, "CLEARCHAT") || range_is(chars, from, to, "HOSTTARGET")
        || range_is(chars, from, to, "PRIVMSG") || range_is(chars, from, to, "USERSTATE")
        || range_is(chars, from, to, "ROOMSTATE") || range_is(chars, from, to, "001")
}

/// Whether `chars[from..to]` is a verb that carries nothing else.
fn plain_verb(chars: &Vec<char>, from: usize, to: usize) -> (r: bool)
    requires
        from <= to <= chars.len(),
    ensures
        r == is_plain_verb(chars@.subrange(from as int, to as int)),
{
    range_is(chars, from, to, "PING") || range_is(chars, from, to, "GLOBALUSERSTATE")
        || range_is(chars, from, to, "RECONNECT")
}

/// Classifies the command block `chars[from..to]`.
fn command_in(chars: &Vec<char>, from: usize, to: usize) -> (r: Option<Command>)
    requires
        from <= to <= chars.len(),
    ensures
        match r {
            Some(c) => classify_command(chars@.subrange(from as int, to as int)) == Some(c@),
            None => classify_command(chars@.subrange(from as int, to as int)) is None,
        },
{
    let parts = split_ranges(chars, from, to, ' ');
    let (a, b) = parts[0];
    let verb = string_of(chars, a, b);
    if channel_verb(chars, a, b) {
        Some(
            Command {
                command: Some(verb),
                channel: piece_string(chars, &parts, 1),
                is_cap_request_enabled: None,
                bot_command: None,
                bot_command_params: None,
            },
        )
    } else if plain_verb(chars, a, b) {
        Some(
            Command {
                command: Some(verb),
                channel: None,
                is_cap_request_enabled: None,
                bot_command: None,
                bot_command_params: None,
            },
        )
    } else if range_is(chars, a, b, "CAP") {
        let acknowledged = if 2 < parts.len() {
            let (c, d) = parts[2];
            Some(range_is(chars, c, d, "ACK"))
        } else {
            None
        };
        Some(
            Command {
                command: Some(verb),
                channel: None,
                is_cap_request_enabled: acknowledged,
                bot_command: None,
                bot_command_params: None,
            },
        )
    } else {
        None
    }
}

/// Classifies a raw command block: `Some` for a known verb, with the fields
/// that the verb carries, and `None` for an unknown verb or an ignored
/// numeric reply.
pub fn parse_command(raw_command_component: &str) -> (r: Option<Command>)
    ensures
        match r {
            Some(c) => classify_command(raw_command_component@) == Some(c@),
            None => classify_command(raw_command_component@) is None,
        },
{
    let chars = to_chars(raw_command_component);
    assert(chars@.subrange(0, chars.len() as int) =~= chars@);
    command_in(&chars, 0, chars.len())
}

/// Decodes the source block `chars[from..to]`.
fn source_in(chars: &Vec<char>, from: usize, to: usize) -> (r: Source)
    requires
        from <= to <= chars.len(),
    ensures
        r@ == decode_source(chars@.subrange(from as int, to as int)),
{
    if from == to {
        return Source { nick: None, host: None };
    }
    let parts = split_ranges(chars, from, to, '!');
    if parts.len() == 2 {
        Source { nick: piece_string(chars, &parts, 0), host: piece_string(chars, &parts, 1) }
    } else {
        Source { nick: None, host: piece_string(chars, &parts, 0) }
    }
}

/// Decodes a raw source block: `nick!host` gives both, a block without `!`
/// (or with more than one) gives its first piece as the host, and an empty
/// block gives neither.
pub fn parse_source(raw_source_component: &str) -> (r: Source)
    ensures
        r@ == decode_source(raw_source_component@),
{
    let chars = to_chars(raw_source_component);
    assert(chars@.subrange(0, chars.len() as int) =~= chars@);
    source_in(&chars, 0, chars.len())
}

/// `command` with the bot command that the parameters `raw` spell: the
/// first character of `raw` is a prefix and is dropped, the rest is trimmed,
/// and what stands before its first space is the bot command, what follows
/// the arguments. Without a space the arguments stay as they were.
pub open spec fn with_bot_command(raw: Seq<char>, command: CommandView) -> CommandView {
    let body = trim(
        if raw.len() > 0 {
            raw.skip(1)
        } else {
            raw
        },
    );
    let p = first_index(body, ' ');
    if 0 <= p < body.len() {
        CommandView {
            bot_command: Some(body.take(p)),
            bot_command_params: Some(trim(body.skip(p))),
            ..command
        }
    } else {
        CommandView { bot_command: Some(body), ..command }
    }
}

/// Fills in the bot command and its arguments from a parameters block whose
/// first character is the command prefix.
pub fn parse_parameters(raw_parameters_component: &str, command: Command) -> (r: Command)
    ensures
        r@ == with_bot_command(raw_parameters_component@, command@),
{
    let chars = to_chars(raw_parameters_component);
    let n = chars.len();
    let start: usize = if n > 0 {
        1
    } else {
        0
    };
    let (a, b) = trim_range(&chars, start, n);
    let p = find(&chars, a, b, ' ');
    let ghost body = chars@.subrange(a as int, b as int);
    proof {
        assert(chars@.subrange(start as int, n as int) =~= if chars@.len() > 0 {
            chars@.skip(1)
        } else {
            chars@
        });
    }
    let mut command = command;
    if p < b {
        let (c, d) = trim_range(&chars, p, b);
        proof {
            assert(body.take(p - a) =~= chars@.subrange(a as int, p as int));
            assert(body.skip(p - a) =~= chars@.subrange(p as int, b as int));
        }
        command.bot_command = Some(string_of(&chars, a, p));
        command.bot_command_params = Some(string_of(&chars, c, d));
    } else {
        command.bot_command = Some(string_of(&chars, a, b));
    }
    command
}

/// What an `Emote` holds.
pub struct EmoteView {
    pub start_position: Option<Seq<char>>,
    pub end_position: Option<Seq<char>>,
}

/// What a `Tags` holds: three special mappings and one for every other tag.
/// A mapping is `None` until a tag of its kind has been decoded.
pub struct TagsView {
    pub badges: Option<Map<Seq<char>, Seq<char>>>,
    pub emote_sets: Option<Seq<Seq<char>>>,
    pub emotes: Option<Map<Seq<char>, Seq<EmoteView>>>,
    pub other: Option<Map<Seq<char>, Seq<char>>>,
}

/// One place in the message text where an emote stands.
#[derive(Debug)]
pub struct Emote {
    pub start_position: Option<String>,
    pub end_position: Option<String>,
}

impl View for Emote {
    type V = EmoteView;

    open spec fn view(&self) -> EmoteView {
        EmoteView {
            start_position: opt_view(self.start_position),
            end_position: opt_view(self.end_position),
        }
    }
}

/// The characters of each string of a map.
pub open spec fn text_map(m: Map<Seq<char>, String>) -> Map<Seq<char>, Seq<char>> {
    m.map_values(|s: String| s@)
}

/// What each emote of a sequence holds.
pub open spec fn emote_views(v: Seq<Emote>) -> Seq<EmoteView> {
    v.map_values(|e: Emote| e@)
}

/// What each list of emotes of a map holds.
pub open spec fn emote_map(m: Map<Seq<char>, Vec<Emote>>) -> Map<Seq<char>, Seq<EmoteView>> {
    m.map_values(|v: Vec<Emote>| emote_views(v@))
}

/// The decoded tag block of a line.
pub struct Tags {
    badges: Option<StringHashMap<String>>,
    emote_sets: Option<Vec<String>>,
    emotes: Option<StringHashMap<Vec<Emote>>>,
    other: Option<StringHashMap<String>>,
}

/// What four mappings hold together.
pub open spec fn tags_view(
    badges: Option<StringHashMap<String>>,
    emote_sets: Option<Vec<String>>,
    emotes: Option<StringHashMap<Vec<Emote>>>,
    other: Option<StringHashMap<String>>,
) -> TagsView {
    TagsView {
        badges: match badges {
            Some(m) => Some(text_map(m@)),
            None => None,
        },
        emote_sets: match emote_sets {
            Some(v) => Some(texts(v@)),
            None => None,
        },
        emotes: match emotes {
            Some(m) => Some(emote_map(m@)),
            None => None,
        },
        other: match other {
            Some(m) => Some(text_map(m@)),
            None => None,
        },
    }
}

impl View for Tags {
    type V = TagsView;

    closed spec fn view(&self) -> TagsView {
        tags_view(self.badges, self.emote_sets, self.emotes, self.other)
    }
}

/// The value that `m` holds for `key`, where it holds one.
pub open spec fn lookup<V>(m: Option<Map<Seq<char>, V>>, key: Seq<char>) -> Option<V> {
    match m {
        Some(m) => if m.contains_key(key) {
            Some(m[key])
        } else {
            None
        },
        None => None,
    }
}

impl Default for Tags {
    fn default() -> (r: Self)
        ensures
            r@ == no_tags(),
    {
        Tags { badges: None, emote_sets: None, emotes: None, other: None }
    }
}

impl Tags {
    /// The value of the badge `name`.
    pub fn badge(&self, name: &str) -> (r: Option<String>)
        ensures
            opt_view(r) == lookup(self@.badges, name@),
    {
        match &self.badges {
            Some(m) => match m.get(name) {
                Some(v) => Some(v.clone()),
                None => None,
            },
            None => None,
        }
    }

    /// The emote sets in the order of the tag, where the tag was present.
    pub fn emote_sets(&self) -> (r: Option<Vec<String>>)
        ensures
            match r {
                Some(v) => self@.emote_sets == Some(texts(v@)),
                None => self@.emote_sets is None,
            },
    {
        match &self.emote_sets {
            Some(v) => {
                let mut out: Vec<String> = Vec::new();
                let mut i: usize = 0;
                while i < v.len()
                    invariant
                        i <= v.len(),
                        texts(out@) == texts(v@).take(i as int),
                    decreases v.len() - i,
                {
                    let ghost before = out@;
                    out.push(v[i].clone());
                    proof {
                        assert(texts(out@) =~= texts(before).push(v@[i as int]@));
                        assert(texts(v@).take(i + 1) =~= texts(v@).take(i as int).push(
                            v@[i as int]@,
                        ));
                    }
                    i += 1;
                }
                proof {
                    assert(texts(v@).take(i as int) =~= texts(v@));
                }
                Some(out)
            },
            None => None,
        }
    }

    /// The places of the emote `id` in the message text.
    pub fn emote_places(&self, id: &str) -> (r: Option<Vec<Emote>>)
        ensures
            match r {
                Some(v) => lookup(self@.emotes, id@) == Some(emote_views(v@)),
                None => lookup(self@.emotes, id@) is None,
            },
    {
        match &self.emotes {
            Some(m) => match m.get(id) {
                Some(v) => {
                    let mut out: Vec<Emote> = Vec::new();
                    let mut i: usize = 0;
                    while i < v.len()
                        invariant
                            i <= v.len(),
                            emote_views(out@) == emote_views(v@).take(i as int),
                        decreases v.len() - i,
                    {
                        let ghost before = out@;
                        let copy = Emote {
                            start_position: clone_opt(&v[i].start_position),
                            end_position: clone_opt(&v[i].end_position),
                        };
                        out.push(copy);
                        proof {
                            assert(emote_views(out@) =~= emote_views(before).push(v@[i as int]@));
                            assert(emote_views(v@).take(i + 1) =~= emote_views(v@).take(
                                i as int,
                            ).push(v@[i as int]@));
                        }
                        i += 1;
                    }
                    proof {
                        assert(emote_views(v@).take(i as int) =~= emote_views(v@));
                    }
                    Some(out)
                },
                None => None,
            },
            None => None,
        }
    }

    /// The value of `key` among the tags that have no mapping of their own.
    pub fn other(&self, key: &str) -> (r: Option<String>)
        ensures
            opt_view(r) == lookup(self@.other, key@),
    {
        match &self.other {
            Some(m) => match m.get(key) {
                Some(v) => Some(v.clone()),
                None => None,
            },
            None => None,
        }
    }
}

/// No tag decoded yet.
pub open spec fn no_tags() -> TagsView {
    TagsView { badges: None, emote_sets: None, emotes: None, other: None }
}

/// The name of a tag: what stands before its first `=`.
pub open spec fn tag_key(item: Seq<char>) -> Seq<char> {
    split(item, '=')[0]
}

/// The value of a tag: what stands between its first and second `=`, and
/// nothing where it has no `=`.
pub open spec fn tag_value(item: Seq<char>) -> Seq<char> {
    let parts = split(item, '=');
    if parts.len() > 1 {
        parts[1]
    } else {
        Seq::empty()
    }
}

/// Tags that are dropped.
pub open spec fn is_ignored_tag(key: Seq<char>) -> bool {
    key == "client-nonce"@ || key == "flags"@
}

/// Tags that fill the badge mapping.
pub open spec fn is_badge_tag(key: Seq<char>) -> bool {
    key == "badges"@ || key == "badge-info"@
}

/// Tags that go to the mapping of all other tags.
pub open spec fn is_other_tag(key: Seq<char>) -> bool {
    !is_badge_tag(key) && key != "emotes"@ && key != "emote-sets"@ && !is_ignored_tag(key)
}

/// `m` with the badges `entries` added, in order: an entry `name/value`
/// sets `name`, a later one replacing an earlier one, and an entry without
/// `/` adds nothing.
pub open spec fn add_badges(m: Map<Seq<char>, Seq<char>>, entries: Seq<Seq<char>>) -> Map<
    Seq<char>,
    Seq<char>,
>
    decreases entries.len(),
{
    if entries.len() == 0 {
        m
    } else {
        let before = add_badges(m, entries.drop_last());
        let parts = split(entries.last(), '/');
        if parts.len() >= 2 {
            before.insert(parts[0], parts[1])
        } else {
            before
        }
    }
}

/// The place that `start-end` names; a position without `-` has no end.
pub open spec fn emote_at(position: Seq<char>) -> EmoteView {
    let parts = split(position, '-');
    EmoteView { start_position: Some(parts[0]), end_position: piece_at(parts, 1) }
}

/// The places that a comma-separated list of positions names.
pub open spec fn emote_list(positions: Seq<char>) -> Seq<EmoteView> {
    split(positions, ',').map_values(|p: Seq<char>| emote_at(p))
}

/// `m` with the emotes `entries` added, in order: an entry `id:positions`
/// sets the places of `id`, a later one replacing an earlier one, and an
/// entry without `:` adds nothing.
pub open spec fn add_emotes(
    m: Map<Seq<char>, Seq<EmoteView>>,
    entries: Seq<Seq<char>>,
) -> Map<Seq<char>, Seq<EmoteView>>
    decreases entries.len(),
{
    if entries.len() == 0 {
        m
    } else {
        let before = add_emotes(m, entries.drop_last());
        let parts = split(entries.last(), ':');
        if parts.len() >= 2 {
            before.insert(parts[0], emote_list(parts[1]))
        } else {
            before
        }
    }
}

/// The mapping held so far, or an empty one.
pub open spec fn or_empty<V>(m: Option<Map<Seq<char>, V>>) -> Map<Seq<char>, V> {
    match m {
        Some(m) => m,
        None => Map::empty(),
    }
}

/// `t` after one more tag `item` of the form `key=value`.
pub open spec fn apply_tag(t: TagsView, item: Seq<char>) -> TagsView {
    let key = tag_key(item);
    let value = tag_value(item);
    if is_badge_tag(key) {
        if value.len() > 0 {
            TagsView { badges: Some(add_badges(or_empty(t.badges), split(value, ','))), ..t }
        } else {
            t
        }
    } else if key == "emotes"@ {
        if value.len() > 0 {
            TagsView { emotes: Some(add_emotes(or_empty(t.emotes), split(value, '/'))), ..t }
        } else {
            t
        }
    } else if key == "emote-sets"@ {
        TagsView { emote_sets: Some(split(value, ',')), ..t }
    } else if is_ignored_tag(key) {
        t
    } else {
        TagsView { other: Some(or_empty(t.other).insert(key, value)), ..t }
    }
}

/// `t` after the tags `items`, in order.
pub open spec fn apply_tags(t: TagsView, items: Seq<Seq<char>>) -> TagsView
    decreases items.len(),
{
    if items.len() == 0 {
        t
    } else {
        apply_tag(apply_tags(t, items.drop_last()), items.last())
    }
}

/// What a raw tag block decodes to: its tags, cut at `;`, applied in order.
pub open spec fn decode_tags(raw: Seq<char>) -> TagsView {
    apply_tags(no_tags(), split(raw, ';'))
}

/// The pieces of `chars[from..to]` between occurrences of `c`, as strings.
fn texts_in(chars: &Vec<char>, from: usize, to: usize, c: char) -> (r: Vec<String>)
    requires
        from <= to <= chars.len(),
    ensures
        texts(r@) == split(chars@.subrange(from as int, to as int), c),
{
    let parts = split_ranges(chars, from, to, c);
    let mut out: Vec<String> = Vec::new();
    let mut i: usize = 0;
    while i < parts.len()
        invariant
            i <= parts.len(),
            ranges_within(parts@, from as int, to as int),
            to <= chars.len(),
            texts(out@) == pieces(chars@, parts@).take(i as int),
        decreases parts.len() - i,
    {
        let (a, b) = parts[i];
        let ghost before = out@;
        out.push(string_of(chars, a, b));
        proof {
            assert(texts(out@) =~= texts(before).push(chars@.subrange(a as int, b as int)));
            assert(pieces(chars@, parts@).take(i + 1) =~= pieces(chars@, parts@).take(
                i as int,
            ).push(chars@.subrange(a as int, b as int)));
        }
        i += 1;
    }
    proof {
        assert(pieces(chars@, parts@).take(i as int) =~= pieces(chars@, parts@));
    }
    out
}

/// Adds the badges listed in `chars[from..to]` to `m`.
fn badges_into(chars: &Vec<char>, from: usize, to: usize, m: &mut StringHashMap<String>)
    requires
        from <= to <= chars.len(),
    ensures
        text_map(final(m)@) == add_badges(
            text_map(old(m)@),
            split(chars@.subrange(from as int, to as int), ','),
        ),
{
    let entries = split_ranges(chars, from, to, ',');
    let ghost all = pieces(chars@, entries@);
    let ghost start = text_map(m@);
    let mut i: usize = 0;
    while i < entries.len()
        invariant
            i <= entries.len(),
            ranges_within(entries@, from as int, to as int),
            to <= chars.len(),
            all == pieces(chars@, entries@),
            text_map(m@) == add_badges(start, all.take(i as int)),
        decreases entries.len() - i,
    {
        let (a, b) = entries[i];
        let parts = split_ranges(chars, a, b, '/');
        let ghost before = m@;
        proof {
            assert(all.take(i + 1).drop_last() =~= all.take(i as int));
            assert(all.take(i + 1).last() == chars@.subrange(a as int, b as int));
        }
        if parts.len() >= 2 {
            let (ka, kb) = parts[0];
            let (va, vb) = parts[1];
            let key = string_of(chars, ka, kb);
            let value = string_of(chars, va, vb);
            m.insert(key, value);
            proof {
                assert(text_map(m@) =~= text_map(before).insert(key@, value@));
                assert(pieces(chars@, parts@)[0] == key@);
                assert(pieces(chars@, parts@)[1] == value@);
            }
        }
        i += 1;
    }
    proof {
        assert(all.take(i as int) =~= all);
    }
}

/// The places named by the position list `chars[from..to]`.
fn emote_list_in(chars: &Vec<char>, from: usize, to: usize) -> (r: Vec<Emote>)
    requires
        from <= to <= chars.len(),
    ensures
        emote_views(r@) == emote_list(chars@.subrange(from as int, to as int)),
{
    let positions = split_ranges(chars, from, to, ',');
    let ghost all = pieces(chars@, positions@);
    let mut out: Vec<Emote> = Vec::new();
    let mut i: usize = 0;
    while i < positions.len()
        invariant
            i <= positions.len(),
            ranges_within(positions@, from as int, to as int),
            to <= chars.len(),
            all == pieces(chars@, positions@),
            emote_views(out@) == all.take(i as int).map_values(|p: Seq<char>| emote_at(p)),
        decreases positions.len() - i,
    {
        let (a, b) = positions[i];
        let parts = split_ranges(chars, a, b, '-');
        let emote = Emote {
            start_position: piece_string(chars, &parts, 0),
            end_position: piece_string(chars, &parts, 1),
        };
        let ghost before = out@;
        proof {
            assert(emote@ == emote_at(chars@.subrange(a as int, b as int)));
        }
        out.push(emote);
        proof {
            assert(emote_views(out@) =~= emote_views(before).push(emote@));
            assert(all.take(i + 1) =~= all.take(i as int).push(
                chars@.subrange(a as int, b as int),
            ));
            assert(all.take(i + 1).map_values(|p: Seq<char>| emote_at(p)) =~= all.take(
                i as int,
            ).map_values(|p: Seq<char>| emote_at(p)).push(emote@));
        }
        i += 1;
    }
    proof {
        assert(all.take(i as int) =~= all);
    }
    out
}

/// Adds the emotes listed in `chars[from..to]` to `m`.
fn emotes_into(chars: &Vec<char>, from: usize, to: usize, m: &mut StringHashMap<Vec<Emote>>)
    requires
        from <= to <= chars.len(),
    ensures
        emote_map(final(m)@) == add_emotes(
            emote_map(old(m)@),
            split(chars@.subrange(from as int, to as int), '/'),
        ),
{
    let entries = split_ranges(chars, from, to, '/');
    let ghost all = pieces(chars@, entries@);
    let ghost start = emote_map(m@);
    let mut i: usize = 0;
    while i < entries.len()
        invariant
            i <= entries.len(),
            ranges_within(entries@, from as int, to as int),
            to <= chars.len(),
            all == pieces(chars@, entries@),
            emote_map(m@) == add_emotes(start, all.take(i as int)),
        decreases entries.len() - i,
    {
        let (a, b) = entries[i];
        let parts = split_ranges(chars, a, b, ':');
        let ghost before = m@;
        proof {
            assert(all.take(i + 1).drop_last() =~= all.take(i as int));
            assert(all.take(i + 1).last() == chars@.subrange(a as int, b as int));
        }
        if parts.len() >= 2 {
            let (ka, kb) = parts[0];
            let (va, vb) = parts[1];
            let key = string_of(chars, ka, kb);
            let list = emote_list_in(chars, va, vb);
            let ghost places = emote_views(list@);
            m.insert(key, list);
            proof {
                assert(emote_map(m@) =~= emote_map(before).insert(key@, places));
                assert(pieces(chars@, parts@)[0] == key@);
                assert(pieces(chars@, parts@)[1] == chars@.subrange(va as int, vb as int));
            }
        }
        i += 1;
    }
    proof {
        assert(all.take(i as int) =~= all);
    }
}

/// Decodes the tag block `chars[from..to]`.
fn tags_in(chars: &Vec<char>, from: usize, to: usize) -> (r: Tags)
    requires
        from <= to <= chars.len(),
    ensures
        r@ == decode_tags(chars@.subrange(from as int, to as int)),
{
    let items = split_ranges(chars, from, to, ';');
    let ghost all = pieces(chars@, items@);
    let mut badges: Option<StringHashMap<String>> = None;
    let mut emote_sets: Option<Vec<String>> = None;
    let mut emotes: Option<StringHashMap<Vec<Emote>>> = None;
    let mut other: Option<StringHashMap<String>> = None;
    let mut i: usize = 0;
    while i < items.len()
        invariant
            i <= items.len(),
            ranges_within(items@, from as int, to as int),
            to <= chars.len(),
            all == pieces(chars@, items@),
            tags_view(badges, emote_sets, emotes, other) == apply_tags(
                no_tags(),
                all.take(i as int),
            ),
        decreases items.len() - i,
    {
        let (a, b) = items[i];
        let parts = split_ranges(chars, a, b, '=');
        let (ka, kb) = parts[0];
        let (va, vb) = if parts.len() > 1 {
            parts[1]
        } else {
            (b, b)
        };
        let ghost item = chars@.subrange(a as int, b as int);
        let ghost before = tags_view(badges, emote_sets, emotes, other);
        proof {
            assert(all.take(i + 1).drop_last() =~= all.take(i as int));
            assert(all.take(i + 1).last() == item);
            assert(pieces(chars@, parts@)[0] == chars@.subrange(ka as int, kb as int));
            assert(tag_key(item) == chars@.subrange(ka as int, kb as int));
            if parts.len() > 1 {
                assert(pieces(chars@, parts@)[1] == chars@.subrange(va as int, vb as int));
            }
            assert(tag_value(item) =~= chars@.subrange(va as int, vb as int));
        }
        if range_is(chars, ka, kb, "badges") || range_is(chars, ka, kb, "badge-info") {
            if va < vb {
                let mut m = match badges {
                    Some(m) => m,
                    None => StringHashMap::new(),
                };
                proof {
                    assert(text_map(m@) =~= or_empty(before.badges));
                }
                badges_into(chars, va, vb, &mut m);
                badges = Some(m);
            }
        } else if range_is(chars, ka, kb, "emotes") {
            if va < vb {
                let mut m = match emotes {
                    Some(m) => m,
                    None => StringHashMap::new(),
                };
                proof {
                    assert(emote_map(m@) =~= or_empty(before.emotes));
                }
                emotes_into(chars, va, vb, &mut m);
                emotes = Some(m);
            }
        } else if range_is(chars, ka, kb, "emote-sets") {
            emote_sets = Some(texts_in(chars, va, vb, ','));
        } else if range_is(chars, ka, kb, "client-nonce") || range_is(chars, ka, kb, "flags") {
        } else {
            let mut m = match other {
                Some(m) => m,
                None => StringHashMap::new(),
            };
            let ghost held = m@;
            proof {
                assert(text_map(held) =~= or_empty(before.other));
            }
            let key = string_of(chars, ka, kb);
            let value = string_of(chars, va, vb);
            m.insert(key, value);
            proof {
                assert(text_map(m@) =~= text_map(held).insert(key@, value@));
            }
            other = Some(m);
        }
        proof {
            assert(tags_view(badges, emote_sets, emotes, other) == apply_tag(before, item));
        }
        i += 1;
    }
    proof {
        assert(all.take(i as int) =~= all);
    }
    Tags { badges, emote_sets, emotes, other }
}

/// Decodes a raw tag block, the `key=value` pairs between semicolons.
/// `badges` and `badge-info` fill the badge mapping, `emotes` the emote
/// mapping and `emote-sets` the list of emote sets; `client-nonce` and
/// `flags` are dropped; every other tag goes to the mapping of other tags.
/// Where a name comes twice, the later value stays.
pub fn parse_tags(tags: &str) -> (r: Tags)
    ensures
        r@ == decode_tags(tags@),
{
    let chars = to_chars(tags);
    assert(chars@.subrange(0, chars.len() as int) =~= chars@);
    tags_in(&chars, 0, chars.len())
}

/// What a `MessageResponse` holds.
pub struct MessageView {
    pub tags: Option<TagsView>,
    pub source: SourceView,
    pub command: Option<CommandView>,
    pub parameters: Option<Seq<char>>,
}

/// One decoded protocol line.
pub struct MessageResponse {
    pub tags: Option<Tags>,
    pub source: Source,
    pub command: Option<Command>,
    pub parameters: Option<String>,
}

impl View for MessageResponse {
    type V = MessageView;

    open spec fn view(&self) -> MessageView {
        MessageView {
            tags: match self.tags {
                Some(t) => Some(t@),
                None => None,
            },
            source: self.source@,
            command: match self.command {
                Some(c) => Some(c@),
                None => None,
            },
            parameters: opt_view(self.parameters),
        }
    }
}

impl Default for MessageResponse {
    fn default() -> (r: Self)
        ensures
            r@ == (MessageView {
                tags: None,
                source: SourceView { nick: None, host: None },
                command: None,
                parameters: None,
            }),
    {
        MessageResponse {
            tags: None,
            source: Source { nick: None, host: None },
            command: None,
            parameters: None,
        }
    }
}

/// The four raw blocks of a line, each without its marker.
pub struct RawParts {
    pub tags: Seq<char>,
    pub source: Seq<char>,
    pub command: Seq<char>,
    pub parameters: Seq<char>,
}

/// What follows position `i` of `s`; nothing when `i` is the end of `s`.
pub open spec fn after(s: Seq<char>, i: int) -> Seq<char> {
    if 0 <= i < s.len() {
        s.skip(i + 1)
    } else {
        Seq::empty()
    }
}

/// Whether `s` begins with `c`.
pub open spec fn starts_with(s: Seq<char>, c: char) -> bool {
    s.len() > 0 && s[0] == c
}

/// The text of a block that begins with a one-character marker and runs to
/// the first space of `s`, or to the end of `s`.
pub open spec fn marked_block(s: Seq<char>) -> Seq<char> {
    s.subrange(1, first_index(s, ' '))
}

/// What is left of `line` once its tag block, if it has one, is taken off.
pub open spec fn past_tags(line: Seq<char>) -> Seq<char> {
    if starts_with(line, '@') {
        after(line, first_index(line, ' '))
    } else {
        line
    }
}

/// What is left of `line` once its tag block and its source block are taken
/// off: the command block and the parameters.
pub open spec fn past_source(line: Seq<char>) -> Seq<char> {
    let rest = past_tags(line);
    if starts_with(rest, ':') {
        after(rest, first_index(rest, ' '))
    } else {
        rest
    }
}

/// Cuts a line into its raw blocks. A line that begins with `@` has a tag
/// block up to its first space. What follows, if it begins with `:`, has a
/// source block up to the next space. Of the rest, what stands before the
/// first `:` is the command block, trimmed, and what stands after it the
/// parameters.
pub open spec fn cut_line(line: Seq<char>) -> RawParts {
    let rest = past_tags(line);
    let tail = past_source(line);
    let colon = first_index(tail, ':');
    RawParts {
        tags: if starts_with(line, '@') {
            marked_block(line)
        } else {
            Seq::empty()
        },
        source: if starts_with(rest, ':') {
            marked_block(rest)
        } else {
            Seq::empty()
        },
        command: trim(tail.take(colon)),
        parameters: after(tail, colon),
    }
}

/// What a line decodes to: nothing when its command block is not
/// classified, and else its four blocks, each decoded. An empty tag block
/// gives no tags. Parameters that are the single character `!` also fill
/// the bot command of the command.
pub open spec fn parse_line(line: Seq<char>) -> Option<MessageView> {
    let raw = cut_line(line);
    match classify_command(raw.command) {
        None => None,
        Some(c) => Some(
            MessageView {
                tags: if raw.tags.len() > 0 {
                    Some(decode_tags(raw.tags))
                } else {
                    None
                },
                source: decode_source(raw.source),
                command: Some(
                    if raw.parameters == seq!['!'] {
                        with_bot_command(raw.parameters, c)
                    } else {
                        c
                    },
                ),
                parameters: Some(raw.parameters),
            },
        ),
    }
}

/// The range of the marked block that begins at `from`, and where the text
/// after it begins.
fn marked_range(chars: &Vec<char>, from: usize) -> (r: (usize, usize, usize))
    requires
        from < chars.len(),
        chars@[from as int] != ' ',
    ensures
        from < r.0 <= r.1 <= r.2 <= chars.len(),
        chars@.subrange(r.0 as int, r.1 as int) == marked_block(chars@.skip(from as int)),
        chars@.skip(r.2 as int) == after(
            chars@.skip(from as int),
            first_index(chars@.skip(from as int), ' '),
        ),
{
    let n = chars.len();
    let ghost s = chars@.skip(from as int);
    proof {
        assert(chars@.subrange(from as int, n as int) =~= s);
    }
    let end = find(chars, from, n, ' ');
    let next = if end < n {
        end + 1
    } else {
        n
    };
    proof {
        lemma_first_index(s, ' ');
        assert(s[0] == chars@[from as int]);
        assert(chars@.subrange(from + 1, end as int) =~= s.subrange(1, end - from));
        if end < n {
            assert(chars@.skip(next as int) =~= s.skip(end - from + 1));
        } else {
            assert(chars@.skip(next as int) =~= Seq::<char>::empty());
        }
    }
    (from + 1, end, next)
}

/// Decodes one protocol line. The result is `Some` exactly when the command
/// block of the line is classified; tags, source and parameters are decoded
/// only then.
pub fn parse_message(irc_message: &str) -> (r: Option<MessageResponse>)
    ensures
        match r {
            Some(m) => parse_line(irc_message@) == Some(m@),
            None => parse_line(irc_message@) is None,
        },
{
    let chars = to_chars(irc_message);
    let n = chars.len();
    let ghost line = chars@;
    proof {
        assert(chars@.skip(0) =~= line);
    }
    let mut idx: usize = 0;
    let mut tags_range: (usize, usize) = (0, 0);
    let mut source_range: (usize, usize) = (0, 0);
    proof {
        assert(chars@.subrange(0, 0) =~= Seq::<char>::empty());
    }
    if n > 0 && chars[0] == '@' {
        let (a, b, next) = marked_range(&chars, 0);
        tags_range = (a, b);
        idx = next;
    }
    assert(chars@.skip(idx as int) == past_tags(line));
    assert(chars@.subrange(tags_range.0 as int, tags_range.1 as int) == cut_line(line).tags);
    if idx < n && chars[idx] == ':' {
        let (a, b, next) = marked_range(&chars, idx);
        source_range = (a, b);
        idx = next;
    }
    assert(chars@.skip(idx as int) == past_source(line));
    assert(chars@.subrange(source_range.0 as int, source_range.1 as int) == cut_line(
        line,
    ).source);
    let ghost tail = chars@.skip(idx as int);
    proof {
        assert(chars@.subrange(idx as int, n as int) =~= tail);
    }
    let colon = find(&chars, idx, n, ':');
    let (ca, cb) = trim_range(&chars, idx, colon);
    let params_from = if colon < n {
        colon + 1
    } else {
        n
    };
    proof {
        assert(chars@.subrange(idx as int, colon as int) =~= tail.take(colon - idx));
        assert(chars@.subrange(params_from as int, n as int) =~= after(tail, colon - idx));
    }
    match command_in(&chars, ca, cb) {
        None => None,
        Some(command) => {
            let tags = if tags_range.0 < tags_range.1 {
                Some(tags_in(&chars, tags_range.0, tags_range.1))
            } else {
                None
            };
            let source = source_in(&chars, source_range.0, source_range.1);
            let parameters = string_of(&chars, params_from, n);
            let is_bang = n - params_from == 1 && chars[params_from] == '!';
            proof {
                if is_bang {
                    assert(parameters@ =~= seq!['!']);
                } else if parameters@.len() == 1 {
                    assert(parameters@[0] == chars@[params_from as int]);
                    assert(seq!['!'][0] == '!');
                }
            }
            let command = if is_bang {
                parse_parameters(parameters.as_str(), command)
            } else {
                command
            };
            Some(
                MessageResponse {
                    tags,
                    source,
                    command: Some(command),
                    parameters: Some(parameters),
                },
            )
        },
    }
}

} // verus!
