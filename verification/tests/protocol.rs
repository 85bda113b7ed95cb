use playerlink::client::{handle_redirect, OAuthError};
use playerlink::host;
use playerlink::messages::{
    AccessToken, Auth, AuthMessage, AuthorizationCode, BotInfo, ClientRequest, CsrfToken, Duration,
    Message, PatchError, PlayMode, PlayerControl, PlayerControlResult, PlayerState, RefreshToken,
    State, Track, Unexpected, User, VoiceState,
};

fn track(len: u64, pos: u64, title: &str, uri: &str) -> Track {
    Track {
        len: Duration::from_secs(len),
        pos: Duration::from_secs(pos),
        title: title.to_string(),
        uri: uri.to_string(),
    }
}

fn sample_state() -> PlayerState {
    PlayerState {
        bot: BotInfo { name: "BotName".to_string(), avatar: "Avatar".to_string() },
        paused: false,
        mode: PlayMode::Normal,
        current: Some(track(7, 1, "now", "u0")),
        history: vec![track(5, 3, "t1", "u1")],
        queue: vec![track(8, 2, "t2", "u2")],
    }
}

fn round_trip(m: Message) {
    let bytes = m.generate();
    let parsed = Message::parse(&bytes).expect("wire bytes must parse");
    assert_eq!(parsed, m);
}

// --- diff/patch through the envelope ---

#[test]
fn diff() {
    let old = PlayerState {
        bot: BotInfo { name: "BotName".to_string(), avatar: "Avatar".to_string() },
        paused: false,
        mode: PlayMode::Normal,
        current: None,
        history: vec![
            Track {
                len: Duration::from_secs(5),
                pos: Duration::from_secs(3),
                title: "t1".to_string(),
                uri: "u1".to_string(),
            },
            Track {
                len: Duration::from_secs(8),
                pos: Duration::from_secs(2),
                title: "t2".to_string(),
                uri: "u1".to_string(),
            },
        ],
        queue: vec![],
    };
    let new = PlayerState {
        bot: BotInfo { name: "BotName".to_string(), avatar: "Avatar".to_string() },
        paused: false,
        mode: PlayMode::Normal,
        current: None,
        history: vec![Track {
            len: Duration::from_secs(5),
            pos: Duration::from_secs(4),
            title: "t1".to_string(),
            uri: "u1".to_string(),
        }],
        queue: vec![],
    };
    let diff = Message::generate_patch(&old, &new);
    let msg = Message::PlayerState(Some(State::UpdateState(diff)));
    let mut patched = old.clone();
    msg.patch_player_state(&mut patched).unwrap();
    assert_eq!(patched, new);
}

// --- envelope round-trip, every variant ---

#[test]
fn envelope_round_trip_client_request() {
    round_trip(Message::ClientRequest(ClientRequest::Authenticate(Auth::Code(
        AuthorizationCode::new("abc".to_string()),
    ))));
    round_trip(Message::ClientRequest(ClientRequest::Authenticate(Auth::Token(
        RefreshToken::new("refresh".to_string()),
    ))));
    round_trip(Message::ClientRequest(ClientRequest::AuthStatus()));
    round_trip(Message::ClientRequest(ClientRequest::Control(
        "uuid-1".to_string(),
        PlayerControl::Skip(3),
    )));
    round_trip(Message::ClientRequest(ClientRequest::End()));
}

#[test]
fn envelope_round_trip_controls() {
    for ctl in [
        PlayerControl::Resume(),
        PlayerControl::Pause(),
        PlayerControl::Skip(2),
        PlayerControl::BackSkip(1),
        PlayerControl::SetTime(Duration::new(3, 500_000_000)),
        PlayerControl::PlayMode(PlayMode::LoopOne),
        PlayerControl::Enqueue("https://example.net/song".to_string()),
        PlayerControl::Leave(),
        PlayerControl::Join(),
    ] {
        round_trip(Message::ClientRequest(ClientRequest::Control("u".to_string(), ctl)));
    }
}

#[test]
fn envelope_round_trip_control_result() {
    round_trip(Message::ClientControlResult(PlayerControlResult {
        uuid: "id-9".to_string(),
        req: PlayerControl::Pause(),
        res: Ok(()),
    }));
    round_trip(Message::ClientControlResult(PlayerControlResult {
        uuid: "id-9".to_string(),
        req: PlayerControl::Enqueue("u".to_string()),
        res: Err("not in a channel".to_string()),
    }));
}

#[test]
fn envelope_round_trip_auth() {
    round_trip(Message::Auth(AuthMessage::AuthStatus(true)));
    round_trip(Message::Auth(AuthMessage::AuthStatus(false)));
    round_trip(Message::Auth(AuthMessage::AuthSuccess(
        User {
            username: "name".to_string(),
            id: "1234".to_string(),
            avatar: "av".to_string(),
        },
        RefreshToken::new("tok".to_string()),
    )));
    round_trip(Message::Auth(AuthMessage::AuthError()));
}

#[test]
fn envelope_round_trip_player_state() {
    round_trip(Message::PlayerState(None));
    round_trip(Message::PlayerState(Some(State::EmptyState())));
    round_trip(Message::PlayerState(Some(State::FullState(Box::new(sample_state())))));
    round_trip(Message::PlayerState(Some(State::UpdateState(vec![1, 2, 3, 255]))));
}

#[test]
fn envelope_round_trip_voice_state() {
    round_trip(Message::UserVoiceState(None));
    round_trip(Message::UserVoiceState(Some(VoiceState {
        channel_id: 42,
        channel_name: "général — écoute".to_string(),
    })));
}

#[test]
fn envelope_round_trip_unexpected() {
    round_trip(Message::Unexpected(Unexpected::WsMessageTypeString("t".to_string())));
    round_trip(Message::Unexpected(Unexpected::ParseError(vec![0, 9], "bad".to_string())));
    round_trip(Message::Unexpected(Unexpected::MessageType("?".to_string())));
}

#[test]
fn parse_rejects_garbage() {
    assert_eq!(Message::parse(&[0xFF]), Err(PatchError::DecodeError()));
    assert_eq!(Message::parse(&[]), Err(PatchError::DecodeError()));
}

// --- diff/patch ---

#[test]
fn patch_round_trip_shrink_grow_reorder() {
    let a = sample_state();
    let mut b = sample_state();
    b.paused = true;
    b.mode = PlayMode::LoopAll;
    b.current = None;
    b.history = vec![track(8, 2, "t2", "u2"), track(5, 3, "t1", "u1"), track(1, 0, "t3", "u3")];
    b.queue = vec![];
    let patch = Message::generate_patch(&a, &b);
    let msg = Message::PlayerState(Some(State::UpdateState(patch)));
    let mut mirror = a.clone();
    msg.patch_player_state(&mut mirror).unwrap();
    assert_eq!(mirror, b);
}

#[test]
fn patch_identity_when_unchanged() {
    let a = sample_state();
    let patch = Message::generate_patch(&a, &a);
    let msg = Message::PlayerState(Some(State::UpdateState(patch)));
    let mut mirror = a.clone();
    msg.patch_player_state(&mut mirror).unwrap();
    assert_eq!(mirror, a);
}

#[test]
fn patch_wrong_variant_rejected() {
    let mut mirror = sample_state();
    let before = mirror.clone();
    assert_eq!(
        Message::PlayerState(Some(State::EmptyState())).patch_player_state(&mut mirror),
        Err(PatchError::WrongVariant())
    );
    assert_eq!(
        Message::Auth(AuthMessage::AuthError()).patch_player_state(&mut mirror),
        Err(PatchError::WrongVariant())
    );
    assert_eq!(mirror, before);
}

#[test]
fn patch_undecodable_bytes_rejected() {
    let mut mirror = sample_state();
    let before = mirror.clone();
    let msg = Message::PlayerState(Some(State::UpdateState(vec![9, 9, 9])));
    assert_eq!(msg.patch_player_state(&mut mirror), Err(PatchError::DecodeError()));
    assert_eq!(mirror, before);
}

#[test]
fn scenario_position_advance() {
    let old = PlayerState {
        bot: BotInfo { name: "b".to_string(), avatar: "a".to_string() },
        paused: false,
        mode: PlayMode::Normal,
        current: None,
        history: vec![track(10, 3, "T1", "u1")],
        queue: vec![],
    };
    let mut new = old.clone();
    new.history = vec![track(10, 4, "T1", "u1")];
    let patch = Message::generate_patch(&old, &new);
    let msg = Message::PlayerState(Some(State::UpdateState(patch)));
    let mut mirror = old.clone();
    msg.patch_player_state(&mut mirror).unwrap();
    assert_eq!(mirror, new);
    assert!(!mirror.paused);
    assert_eq!(mirror.queue, vec![]);
    assert_eq!(mirror.history[0].pos, Duration::from_secs(4));
}

// --- redirect capture and CSRF ---

#[test]
fn redirect_with_matching_state_yields_code() {
    let expected = CsrfToken::new("XYZ".to_string());
    let r = handle_redirect("GET /?code=ABC&state=XYZ HTTP/1.1", &expected);
    assert_eq!(r, Ok(AuthorizationCode::new("ABC".to_string())));
}

#[test]
fn redirect_missing_code_is_rejected() {
    let expected = CsrfToken::new("XYZ".to_string());
    let r = handle_redirect("GET /?state=XYZ HTTP/1.1", &expected);
    assert_eq!(r, Err(OAuthError::NoCodeInResponse()));
}

#[test]
fn redirect_missing_state_is_rejected() {
    let expected = CsrfToken::new("XYZ".to_string());
    let r = handle_redirect("GET /?code=ABC HTTP/1.1", &expected);
    assert_eq!(r, Err(OAuthError::NoCsrfInResponse()));
}

#[test]
fn redirect_with_wrong_state_never_returns_code() {
    let expected = CsrfToken::new("XYZ".to_string());
    let r = handle_redirect("GET /?code=ABC&state=ZZZ HTTP/1.1", &expected);
    assert_eq!(
        r,
        Err(OAuthError::MismatchCsrf(
            CsrfToken::new("ZZZ".to_string()),
            CsrfToken::new("XYZ".to_string())
        ))
    );
}

#[test]
fn redirect_with_empty_state_never_returns_code() {
    let expected = CsrfToken::new("XYZ".to_string());
    let r = handle_redirect("GET /?code=ABC&state= HTTP/1.1", &expected);
    assert_eq!(
        r,
        Err(OAuthError::MismatchCsrf(
            CsrfToken::new("".to_string()),
            CsrfToken::new("XYZ".to_string())
        ))
    );
}

#[test]
fn redirect_state_is_percent_decoded() {
    let expected = CsrfToken::new("X Z".to_string());
    let r = handle_redirect("GET /?code=A%20C&state=X%20Z HTTP/1.1", &expected);
    assert_eq!(r, Ok(AuthorizationCode::new("A C".to_string())));
}

#[test]
fn redirect_without_target_is_rejected() {
    let expected = CsrfToken::new("XYZ".to_string());
    assert_eq!(handle_redirect("GET", &expected), Err(OAuthError::RequestSplitError()));
    assert_eq!(handle_redirect("", &expected), Err(OAuthError::RequestSplitError()));
}

// --- token exchange dispatch and response validation ---

#[test]
fn grant_dispatch_follows_credential() {
    let g = host::grant_request(&Auth::Code(AuthorizationCode::new("c1".to_string())));
    assert!(matches!(g, host::Grant::AuthorizationCode(ref c) if c.secret().as_str() == "c1"));
    let g = host::grant_request(&Auth::Token(RefreshToken::new("r1".to_string())));
    assert!(matches!(g, host::Grant::RefreshToken(ref t) if t.secret().as_str() == "r1"));
}

#[test]
fn token_response_requires_refresh_token() {
    let r = host::tokens_from_response(AccessToken::new("at".to_string()), None);
    assert_eq!(r, Err(host::OAuthError::NoRefreshTokenInResponse()));
    let r = host::tokens_from_response(
        AccessToken::new("at".to_string()),
        Some(RefreshToken::new("rt".to_string())),
    );
    let (a, t) = r.unwrap();
    assert_eq!(a.secret().as_str(), "at");
    assert_eq!(t.secret().as_str(), "rt");
}

// --- identity resolution ---

#[test]
fn identity_from_ok_response() {
    let body = br#"{"id":"1234","username":"someone","avatar":"abcd","extra":7}"#;
    let u = host::resolve_user(200, body).unwrap();
    assert_eq!(
        u,
        User {
            username: "someone".to_string(),
            id: "1234".to_string(),
            avatar: "abcd".to_string()
        }
    );
}

#[test]
fn identity_errors_carry_status() {
    let body = br#"{"id":"1234","username":"someone","avatar":"abcd"}"#;
    assert_eq!(host::resolve_user(404, body), Err(host::OAuthError::ResponseError(404)));
    assert_eq!(host::resolve_user(401, body), Err(host::OAuthError::ResponseError(401)));
}

#[test]
fn identity_decode_failure_is_distinct() {
    assert_eq!(
        host::resolve_user(200, b"not json at all"),
        Err(host::OAuthError::UserParseError())
    );
    assert_eq!(
        host::resolve_user(200, br#"{"id":5,"username":"x","avatar":"y"}"#),
        Err(host::OAuthError::UserParseError())
    );
}

#[test]
fn bearer_header_is_exact() {
    let h = host::bearer_header_value(&AccessToken::new("tok".to_string()));
    assert_eq!(h, "Bearer tok");
}

#[test]
fn variant_names_are_distinct() {
    assert_eq!(Message::PlayerState(None).variant_name(), "PlayerState");
    assert_eq!(Message::Auth(AuthMessage::AuthError()).variant_name(), "Auth");
    assert_eq!(
        Message::Unexpected(Unexpected::MessageType("m".to_string())).variant_name(),
        "Unexpected"
    );
}

#[test]
fn token_body_parsing() {
    let body = br#"{"access_token":"at1","refresh_token":"rt1","token_type":"Bearer"}"#;
    let (a, t) = host::tokens_from_body(body).unwrap();
    assert_eq!(a.secret().as_str(), "at1");
    assert_eq!(t.secret().as_str(), "rt1");
    assert_eq!(
        host::tokens_from_body(br#"{"access_token":"at1"}"#),
        Err(host::OAuthError::NoRefreshTokenInResponse())
    );
    assert_eq!(
        host::tokens_from_body(br#"{"refresh_token":"rt1"}"#),
        Err(host::OAuthError::RequestError())
    );
    assert_eq!(host::tokens_from_body(b"not json"), Err(host::OAuthError::RequestError()));
}

#[test]
fn bearer_header_rejects_control_characters() {
    let bad = AccessToken::new("to\nk".to_string());
    assert_eq!(
        host::checked_bearer_header_value(&bad),
        Err(host::OAuthError::InvalidHeader())
    );
    let good = AccessToken::new("tok-123".to_string());
    assert_eq!(host::checked_bearer_header_value(&good).unwrap(), "Bearer tok-123");
}

#[test]
fn authorization_url_carries_state_and_params() {
    let cfg = playerlink::client::Config {
        client_id: "815279319513432134".to_string(),
        auth_url: "https://example.net/api/oauth2/authorize".to_string(),
        redirect_url: "localhost:1887".to_string(),
    };
    let (authorize_url, token) = playerlink::client::prepare_authorization(&cfg).unwrap();
    let parsed = url::Url::parse(&authorize_url).unwrap();
    let pairs: Vec<(String, String)> = parsed
        .query_pairs()
        .map(|(k, v)| (k.into_owned(), v.into_owned()))
        .collect();
    let first = |key: &str| -> Option<String> {
        pairs.iter().find(|(k, _)| k == key).map(|(_, v)| v.clone())
    };
    assert_eq!(first("state").as_deref(), Some(token.secret().as_str()));
    assert_eq!(first("client_id").as_deref(), Some("815279319513432134"));
    assert_eq!(first("redirect_uri").as_deref(), Some("http://localhost:1887"));
    assert_eq!(first("scope").as_deref(), Some("identify"));
    assert_eq!(first("response_type").as_deref(), Some("code"));
    assert!(!token.secret().is_empty());
}

#[test]
fn authorization_url_fresh_token_each_attempt() {
    let cfg = playerlink::client::Config {
        client_id: "id".to_string(),
        auth_url: "https://example.net/authorize".to_string(),
        redirect_url: "localhost:1887".to_string(),
    };
    let (_, t1) = playerlink::client::prepare_authorization(&cfg).unwrap();
    let (_, t2) = playerlink::client::prepare_authorization(&cfg).unwrap();
    assert_ne!(t1.secret(), t2.secret());
}

#[test]
fn malformed_config_urls_are_parse_errors() {
    let cfg = playerlink::client::Config {
        client_id: "id".to_string(),
        auth_url: "not a url".to_string(),
        redirect_url: "localhost:1887".to_string(),
    };
    assert_eq!(
        playerlink::client::prepare_authorization(&cfg),
        Err(OAuthError::ParseError())
    );
    let cfg = playerlink::client::Config {
        client_id: "id".to_string(),
        auth_url: "https://example.net/authorize".to_string(),
        redirect_url: ":::".to_string(),
    };
    assert_eq!(
        playerlink::client::prepare_authorization(&cfg),
        Err(OAuthError::ParseError())
    );
}
