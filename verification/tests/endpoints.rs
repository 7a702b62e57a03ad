use chat_gateway::dispatch::Request;
use chat_gateway::endpoints::{active_users_url, Endpoint, EndpointError, MAX_ADDRESS_CHARS};

#[test]
fn address_carries_the_channel_as_query() {
    assert_eq!(
        Endpoint::Song.address("http://localhost:3000", "alice"),
        Ok("http://localhost:3000/api/spotify/song?channel_name=alice".to_string())
    );
    assert_eq!(
        Endpoint::SkipSong.address("http://localhost:3000", "#alice"),
        Ok("http://localhost:3000/api/spotify/skip?channel_name=%23alice".to_string())
    );
    assert_eq!(
        Endpoint::EnableSkip.address("https://web.example", "a b&c"),
        Ok("https://web.example/api/commands/skip/add?channel_name=a+b%26c".to_string())
    );
    assert_eq!(
        Endpoint::DisableSkip.address("HTTP://Web.Example:80/", ""),
        Ok("http://web.example//api/commands/skip/remove?channel_name=".to_string())
    );
}

#[test]
fn address_needs_an_absolute_base() {
    assert_eq!(Endpoint::Song.address("", "alice"), Err(EndpointError::InvalidAddress));
    assert_eq!(Endpoint::Song.address("localhost", "alice"), Err(EndpointError::InvalidAddress));
    assert_eq!(Endpoint::Song.address("http://[::1", "alice"), Err(EndpointError::InvalidAddress));
    assert_eq!(Endpoint::Song.address("http://a b", "alice"), Err(EndpointError::InvalidAddress));
}

#[test]
fn paths_and_methods() {
    assert_eq!(Endpoint::Song.path(), "/api/spotify/song");
    assert_eq!(Endpoint::SkipSong.path(), "/api/spotify/skip");
    assert_eq!(Endpoint::EnableSkip.path(), "/api/commands/skip/add");
    assert_eq!(Endpoint::DisableSkip.path(), "/api/commands/skip/remove");
    assert!(!Endpoint::Song.uses_post());
    assert!(Endpoint::SkipSong.uses_post());
    assert!(Endpoint::EnableSkip.uses_post());
    assert!(Endpoint::DisableSkip.uses_post());
    assert!(Endpoint::Song.answers_with_song());
    assert!(!Endpoint::SkipSong.answers_with_song());
    assert!(!Endpoint::EnableSkip.answers_with_song());
    assert!(!Endpoint::DisableSkip.answers_with_song());
    assert_eq!(Endpoint::for_request(Request::Song), Endpoint::Song);
    assert_eq!(Endpoint::for_request(Request::SongLink), Endpoint::Song);
    assert_eq!(Endpoint::for_request(Request::EnableSkip), Endpoint::EnableSkip);
    assert_eq!(Endpoint::for_request(Request::DisableSkip), Endpoint::DisableSkip);
    assert_eq!(active_users_url("http://localhost:3000"), "http://localhost:3000/api/active");
}

#[test]
fn texts_beyond_the_bound_are_refused() {
    assert_eq!(MAX_ADDRESS_CHARS, 1_048_576);
    let base = "http://localhost:3000";
    let longest = "c".repeat(MAX_ADDRESS_CHARS);
    let address = Endpoint::Song.address(base, &longest).unwrap();
    assert_eq!(address.len(), base.len() + "/api/spotify/song?channel_name=".len() + MAX_ADDRESS_CHARS);
    let too_long = "c".repeat(MAX_ADDRESS_CHARS + 1);
    assert_eq!(Endpoint::Song.address(base, &too_long), Err(EndpointError::TooLong));
    let path = Endpoint::DisableSkip.path().len();
    let long_base = format!("http://h/{}", "é".repeat(MAX_ADDRESS_CHARS - path - 9));
    assert!(Endpoint::DisableSkip.address(&long_base, "c").is_ok());
    let longer_base = format!("http://h/{}", "é".repeat(MAX_ADDRESS_CHARS - path - 8));
    assert_eq!(Endpoint::DisableSkip.address(&longer_base, "c"), Err(EndpointError::TooLong));
    assert_eq!(Endpoint::DisableSkip.address(&"x".repeat(MAX_ADDRESS_CHARS + 1), "c"), Err(EndpointError::TooLong));
}
