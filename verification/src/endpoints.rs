//! The addresses at which the music service is asked: the path of each
//! request, and the full address with the channel as its query.

use crate::dispatch::Request;
use crate::text::join2;
use vstd::prelude::*;

verus! {

/// The error of the `url` crate's parser. Nothing of its inside is used.
#[verifier::external_type_specification]
#[verifier::external_body]
pub struct ExParseError(url::ParseError);

/// The address that `Url::parse_with_params` makes of the address `input`
/// and one query pair; `None` where it finds no absolute address in
/// `input`.
pub uninterp spec fn url_with_param(input: Seq<char>, key: Seq<char>, value: Seq<char>) -> Option<
    Seq<char>,
>;

/// The longest text, in characters, that is handed to the parser of
/// addresses, as the address and as the value of its query. The parser
/// keeps positions in 32 bits and fails beyond them; texts within this
/// bound stay far below, at twelve bytes a character at most.
pub const MAX_ADDRESS_CHARS: usize = 1_048_576;

/// `Url::parse_with_params` of the `url` crate, which `reqwest` hands on as
/// `reqwest::Url`, with one query pair: it parses `input` as an absolute
/// address and adds the pair to its query, encoded. The result, taken as
/// text, depends on the three texts alone. Texts beyond the bound are left
/// out: on an address of more than 4 GiB the call does not return.
#[verifier::external_body]
fn parse_with_param(input: &str, key: &str, value: &str) -> (r: Result<String, url::ParseError>)
    requires
        input@.len() <= MAX_ADDRESS_CHARS,
        key@.len() <= MAX_ADDRESS_CHARS,
        value@.len() <= MAX_ADDRESS_CHARS,
    ensures
        match r {
            Ok(address) => url_with_param(input@, key@, value@) == Some(address@),
            Err(_) => url_with_param(input@, key@, value@) is None,
        },
{
    match reqwest::Url::parse_with_params(input, &[(key, value)]) {
        Ok(address) => Ok(String::from(address)),
        Err(e) => Err(e),
    }
}

/// A request to the music service.
#[derive(Clone, Copy, Debug, PartialEq, Eq, Structural)]
pub enum Endpoint {
    /// What is playing on a channel.
    Song,
    /// Skip what is playing on a channel.
    SkipSong,
    /// Allow vote skips on a channel.
    EnableSkip,
    /// Forbid vote skips on a channel.
    DisableSkip,
}

/// Why no address could be made.
#[derive(Clone, Copy, Debug, PartialEq, Eq, Structural)]
pub enum EndpointError {
    /// The base address with the path, or the channel name, has more than
    /// `MAX_ADDRESS_CHARS` characters.
    TooLong,
    /// The base address with the path is no absolute address.
    InvalidAddress,
}

/// The path of a request, below the base address of the service.
pub open spec fn path_of(endpoint: Endpoint) -> Seq<char> {
    match endpoint {
        Endpoint::Song => "/api/spotify/song"@,
        Endpoint::SkipSong => "/api/spotify/skip"@,
        Endpoint::EnableSkip => "/api/commands/skip/add"@,
        Endpoint::DisableSkip => "/api/commands/skip/remove"@,
    }
}

/// Whether a request changes something, and so is sent as a `POST`; the
/// others are sent as a `GET`.
pub open spec fn is_post(endpoint: Endpoint) -> bool {
    endpoint != Endpoint::Song
}

/// Whether a request is answered with what is playing; the others are
/// answered with a status alone.
pub open spec fn tells_song(endpoint: Endpoint) -> bool {
    endpoint == Endpoint::Song
}

/// The request that answers a bot command.
pub open spec fn endpoint_of(request: Request) -> Endpoint {
    match request {
        Request::Song | Request::SongLink => Endpoint::Song,
        Request::EnableSkip => Endpoint::EnableSkip,
        Request::DisableSkip => Endpoint::DisableSkip,
    }
}

/// Whether the texts of a request are too long to make an address of: the
/// base address with the path of the request, or the channel name.
pub open spec fn too_long(base: Seq<char>, endpoint: Endpoint, channel_name: Seq<char>) -> bool {
    base.len() + path_of(endpoint).len() > MAX_ADDRESS_CHARS || channel_name.len()
        > MAX_ADDRESS_CHARS
}

/// The address of a request about `channel_name`, below the base address
/// `base`: the address that `Url::parse_with_params` makes of `base`
/// followed by the path of the request, with the query pair
/// `channel_name`.
pub open spec fn address_of(base: Seq<char>, endpoint: Endpoint, channel_name: Seq<char>) -> Option<
    Seq<char>,
> {
    url_with_param(base + path_of(endpoint), "channel_name"@, channel_name)
}

impl Endpoint {
    /// The request that answers a bot command.
    pub fn for_request(request: Request) -> (r: Endpoint)
        ensures
            r == endpoint_of(request),
    {
        match request {
            Request::Song | Request::SongLink => Endpoint::Song,
            Request::EnableSkip => Endpoint::EnableSkip,
            Request::DisableSkip => Endpoint::DisableSkip,
        }
    }

    /// The path of the request.
    pub fn path(&self) -> (r: &'static str)
        ensures
            r@ == path_of(*self),
    {
        match self {
            Endpoint::Song => "/api/spotify/song",
            Endpoint::SkipSong => "/api/spotify/skip",
            Endpoint::EnableSkip => "/api/commands/skip/add",
            Endpoint::DisableSkip => "/api/commands/skip/remove",
        }
    }

    /// Whether the request is sent as a `POST`.
    pub fn uses_post(&self) -> (r: bool)
        ensures
            r == is_post(*self),
    {
        match self {
            Endpoint::Song => false,
            _ => true,
        }
    }

    /// Whether the answer to the request says what is playing.
    pub fn answers_with_song(&self) -> (r: bool)
        ensures
            r == tells_song(*self),
    {
        match self {
            Endpoint::Song => true,
            _ => false,
        }
    }

    /// The address of the request about `channel_name`. Texts that are too
    /// long give `TooLong`; of the others, those in which `base` with the
    /// path is no absolute address give `InvalidAddress`.
    pub fn address(&self, base: &str, channel_name: &str) -> (r: Result<String, EndpointError>)
        ensures
            match r {
                Ok(address) => !too_long(base@, *self, channel_name@) && address_of(
                    base@,
                    *self,
                    channel_name@,
                ) == Some(address@),
                Err(EndpointError::TooLong) => too_long(base@, *self, channel_name@),
                Err(EndpointError::InvalidAddress) => !too_long(base@, *self, channel_name@)
                    && address_of(base@, *self, channel_name@) is None,
            },
    {
        let input = join2(base, self.path());
        if input.as_str().unicode_len() > MAX_ADDRESS_CHARS || channel_name.unicode_len()
            > MAX_ADDRESS_CHARS {
            return Err(EndpointError::TooLong);
        }
        proof {
            reveal_strlit("channel_name");
        }
        match parse_with_param(input.as_str(), "channel_name", channel_name) {
            Ok(address) => Ok(address),
            Err(_) => Err(EndpointError::InvalidAddress),
        }
    }
}

/// The address at which the channels to join are asked for.
pub open spec fn active_users_address(base: Seq<char>) -> Seq<char> {
    base + "/api/active"@
}

/// The address at which the channels to join are asked for.
pub fn active_users_url(base: &str) -> (r: String)
    ensures
        r@ == active_users_address(base@),
{
    join2(base, "/api/active")
}

} // verus!
