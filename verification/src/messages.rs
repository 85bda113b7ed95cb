//! Wire message types exchanged between a client and the host, the shared
//! player-state snapshot they synchronize, and the spec-level models that the
//! codec and patch contracts are stated over.
use vstd::prelude::*;

verus! {

/// Relies on `core::result::Result`'s `Clone`: needed so that types holding a
/// `Result` payload can derive `Clone`; nothing is claimed of the copy.
pub assume_specification<T: Clone, E: Clone>[ <Result<T, E> as Clone>::clone ](
    r: &Result<T, E>,
) -> Result<T, E>;

// ---------------------------------------------------------------------------
// Opaque credential strings. Each is compared only by exact secret equality.
// ---------------------------------------------------------------------------

/// Single-use code issued by the provider, exchanged later for tokens.
#[derive(Debug, Clone, PartialEq)]
pub struct AuthorizationCode {
    secret: String,
}

/// Long-lived credential used to mint new access tokens.
#[derive(Debug, Clone, PartialEq)]
pub struct RefreshToken {
    secret: String,
}

/// Short-lived credential for API calls.
#[derive(Debug, Clone, PartialEq)]
pub struct AccessToken {
    secret: String,
}

/// Random state value round-tripped through the authorization redirect.
#[derive(Debug, Clone, PartialEq)]
pub struct CsrfToken {
    secret: String,
}

impl View for AuthorizationCode {
    type V = Seq<char>;

    closed spec fn view(&self) -> Seq<char> {
        self.secret@
    }
}

impl AuthorizationCode {
    pub fn new(secret: String) -> (r: AuthorizationCode)
        ensures
            r@ == secret@,
    {
        AuthorizationCode { secret }
    }

    pub fn secret(&self) -> (r: &String)
        ensures
            r@ == self@,
    {
        &self.secret
    }
}

impl View for RefreshToken {
    type V = Seq<char>;

    closed spec fn view(&self) -> Seq<char> {
        self.secret@
    }
}

impl RefreshToken {
    pub fn new(secret: String) -> (r: RefreshToken)
        ensures
            r@ == secret@,
    {
        RefreshToken { secret }
    }

    pub fn secret(&self) -> (r: &String)
        ensures
            r@ == self@,
    {
        &self.secret
    }
}

impl View for AccessToken {
    type V = Seq<char>;

    closed spec fn view(&self) -> Seq<char> {
        self.secret@
    }
}

impl AccessToken {
    pub fn new(secret: String) -> (r: AccessToken)
        ensures
            r@ == secret@,
    {
        AccessToken { secret }
    }

    pub fn secret(&self) -> (r: &String)
        ensures
            r@ == self@,
    {
        &self.secret
    }
}

impl View for CsrfToken {
    type V = Seq<char>;

    closed spec fn view(&self) -> Seq<char> {
        self.secret@
    }
}

impl CsrfToken {
    pub fn new(secret: String) -> (r: CsrfToken)
        ensures
            r@ == secret@,
    {
        CsrfToken { secret }
    }

    pub fn secret(&self) -> (r: &String)
        ensures
            r@ == self@,
    {
        &self.secret
    }
}

// ---------------------------------------------------------------------------
// Player state.
// ---------------------------------------------------------------------------

/// A span of time, as whole seconds plus a nanosecond remainder.
#[derive(Debug, Clone, Copy, PartialEq, Eq, Structural)]
pub struct Duration {
    pub secs: u64,
    pub nanos: u32,
}

impl Duration {
    pub fn from_secs(secs: u64) -> (r: Duration)
        ensures
            r == (Duration { secs, nanos: 0u32 }),
    {
        Duration { secs, nanos: 0 }
    }

    pub fn new(secs: u64, nanos: u32) -> (r: Duration)
        ensures
            r == (Duration { secs, nanos }),
    {
        Duration { secs, nanos }
    }
}

#[derive(Debug, Clone, Copy, PartialEq, Eq, Structural)]
pub enum PlayMode {
    Normal,
    LoopAll,
    LoopOne,
}

#[derive(Debug, Clone, PartialEq)]
pub struct Track {
    pub len: Duration,
    pub pos: Duration,
    pub title: String,
    pub uri: String,
}

#[derive(Debug, Clone, PartialEq)]
pub struct BotInfo {
    pub name: String,
    pub avatar: String,
}

/// The host's authoritative playback snapshot; a client holds a mirror copy
/// reconstructed from sync messages.
#[derive(Debug, Clone, PartialEq)]
pub struct PlayerState {
    pub bot: BotInfo,
    pub paused: bool,
    pub mode: PlayMode,
    pub current: Option<Track>,
    pub history: Vec<Track>,
    pub queue: Vec<Track>,
}

#[derive(Debug, Clone, PartialEq)]
pub struct User {
    pub username: String,
    pub id: String,
    pub avatar: String,
}

#[derive(Debug, Clone, PartialEq)]
pub struct VoiceState {
    pub channel_id: u64,
    pub channel_name: String,
}

// ---------------------------------------------------------------------------
// Envelope variants.
// ---------------------------------------------------------------------------

#[derive(Debug, Clone, PartialEq)]
pub enum Unexpected {
    WsMessageTypeString(String),
    ParseError(Vec<u8>, String),
    MessageType(String),
}

#[derive(Debug, Clone, PartialEq)]
pub enum AuthMessage {
    AuthStatus(bool),
    AuthSuccess(User, RefreshToken),
    AuthError(),
}

/// Sync payload: a complete snapshot, an opaque patch against the receiver's
/// last-known snapshot, or nothing.
#[derive(Debug, Clone, PartialEq)]
pub enum State {
    FullState(Box<PlayerState>),
    UpdateState(Vec<u8>),
    EmptyState(),
}

#[derive(Debug, Clone, PartialEq)]
pub enum Auth {
    Code(AuthorizationCode),
    Token(RefreshToken),
}

#[derive(Debug, Clone, PartialEq)]
pub enum PlayerControl {
    Resume(),
    Pause(),
    Skip(usize),
    BackSkip(usize),
    SetTime(Duration),
    PlayMode(PlayMode),
    Enqueue(String),
    Leave(),
    Join(),
}

#[derive(Debug, Clone, PartialEq)]
pub struct PlayerControlResult {
    pub uuid: String,
    pub req: PlayerControl,
    pub res: Result<(), String>,
}

#[derive(Debug, Clone, PartialEq)]
pub enum ClientRequest {
    Authenticate(Auth),
    AuthStatus(),
    /// UUID, PlayControl Request
    Control(String, PlayerControl),
    End(),
}

/// The tagged union carried on the wire; exactly one variant per message.
#[derive(Debug, Clone, PartialEq)]
pub enum Message {
    ClientRequest(ClientRequest),
    ClientControlResult(PlayerControlResult),
    Auth(AuthMessage),
    PlayerState(Option<State>),
    UserVoiceState(Option<VoiceState>),
    Unexpected(Unexpected),
}

impl Message {
    /// The active variant's name, as the envelope shows itself in logs.
    pub fn variant_name(&self) -> (r: &'static str)
        ensures
            r@ == match self@ {
                SpecMessage::ClientRequest(_) => "ClientRequest"@,
                SpecMessage::ClientControlResult(_) => "ClientControlResult"@,
                SpecMessage::Auth(_) => "Auth"@,
                SpecMessage::PlayerState(_) => "PlayerState"@,
                SpecMessage::UserVoiceState(_) => "UserVoiceState"@,
                SpecMessage::Unexpected(_) => "Unexpected"@,
            },
    {
        match self {
            Message::ClientRequest(_) => "ClientRequest",
            Message::ClientControlResult(_) => "ClientControlResult",
            Message::Auth(_) => "Auth",
            Message::PlayerState(_) => "PlayerState",
            Message::UserVoiceState(_) => "UserVoiceState",
            Message::Unexpected(_) => "Unexpected",
        }
    }
}

/// Failure of patch application: the patch bytes did not decode, or the
/// message was not an `UpdateState` payload.
#[derive(Debug, Clone, PartialEq)]
pub enum PatchError {
    DecodeError(),
    WrongVariant(),
}

// ---------------------------------------------------------------------------
// Spec-level models: the mathematical values the contracts speak about.
// ---------------------------------------------------------------------------

#[verifier::ext_equal]
pub struct SpecTrack {
    pub len: Duration,
    pub pos: Duration,
    pub title: Seq<char>,
    pub uri: Seq<char>,
}

#[verifier::ext_equal]
pub struct SpecBotInfo {
    pub name: Seq<char>,
    pub avatar: Seq<char>,
}

#[verifier::ext_equal]
pub struct SpecPlayerState {
    pub bot: SpecBotInfo,
    pub paused: bool,
    pub mode: PlayMode,
    pub current: Option<SpecTrack>,
    pub history: Seq<SpecTrack>,
    pub queue: Seq<SpecTrack>,
}

#[verifier::ext_equal]
pub struct SpecUser {
    pub username: Seq<char>,
    pub id: Seq<char>,
    pub avatar: Seq<char>,
}

#[verifier::ext_equal]
pub struct SpecVoiceState {
    pub channel_id: u64,
    pub channel_name: Seq<char>,
}

#[verifier::ext_equal]
pub enum SpecUnexpected {
    WsMessageTypeString(Seq<char>),
    ParseError(Seq<u8>, Seq<char>),
    MessageType(Seq<char>),
}

#[verifier::ext_equal]
pub enum SpecAuthMessage {
    AuthStatus(bool),
    AuthSuccess(SpecUser, Seq<char>),
    AuthError,
}

#[verifier::ext_equal]
pub enum SpecState {
    FullState(SpecPlayerState),
    UpdateState(Seq<u8>),
    EmptyState,
}

#[verifier::ext_equal]
pub enum SpecAuth {
    Code(Seq<char>),
    Token(Seq<char>),
}

#[verifier::ext_equal]
pub enum SpecPlayerControl {
    Resume,
    Pause,
    Skip(usize),
    BackSkip(usize),
    SetTime(Duration),
    PlayMode(PlayMode),
    Enqueue(Seq<char>),
    Leave,
    Join,
}

#[verifier::ext_equal]
pub struct SpecPlayerControlResult {
    pub uuid: Seq<char>,
    pub req: SpecPlayerControl,
    pub res: Result<(), Seq<char>>,
}

#[verifier::ext_equal]
pub enum SpecClientRequest {
    Authenticate(SpecAuth),
    AuthStatus,
    Control(Seq<char>, SpecPlayerControl),
    End,
}

#[verifier::ext_equal]
pub enum SpecMessage {
    ClientRequest(SpecClientRequest),
    ClientControlResult(SpecPlayerControlResult),
    Auth(SpecAuthMessage),
    PlayerState(Option<SpecState>),
    UserVoiceState(Option<SpecVoiceState>),
    Unexpected(SpecUnexpected),
}

// ---------------------------------------------------------------------------
// Views tying each executable type to its model.
// ---------------------------------------------------------------------------

impl View for Track {
    type V = SpecTrack;

    open spec fn view(&self) -> SpecTrack {
        SpecTrack { len: self.len, pos: self.pos, title: self.title@, uri: self.uri@ }
    }
}

impl View for BotInfo {
    type V = SpecBotInfo;

    open spec fn view(&self) -> SpecBotInfo {
        SpecBotInfo { name: self.name@, avatar: self.avatar@ }
    }
}

pub open spec fn view_tracks(v: Seq<Track>) -> Seq<SpecTrack> {
    v.map_values(|t: Track| t@)
}

pub open spec fn view_opt_track(o: Option<Track>) -> Option<SpecTrack> {
    match o {
        Some(t) => Some(t@),
        None => None,
    }
}

pub open spec fn view_opt_state(o: Option<State>) -> Option<SpecState> {
    match o {
        Some(s) => Some(s@),
        None => None,
    }
}

pub open spec fn view_opt_voice(o: Option<VoiceState>) -> Option<SpecVoiceState> {
    match o {
        Some(v) => Some(v@),
        None => None,
    }
}

impl View for PlayerState {
    type V = SpecPlayerState;

    open spec fn view(&self) -> SpecPlayerState {
        SpecPlayerState {
            bot: self.bot@,
            paused: self.paused,
            mode: self.mode,
            current: view_opt_track(self.current),
            history: view_tracks(self.history@),
            queue: view_tracks(self.queue@),
        }
    }
}

impl View for User {
    type V = SpecUser;

    open spec fn view(&self) -> SpecUser {
        SpecUser { username: self.username@, id: self.id@, avatar: self.avatar@ }
    }
}

impl View for VoiceState {
    type V = SpecVoiceState;

    open spec fn view(&self) -> SpecVoiceState {
        SpecVoiceState { channel_id: self.channel_id, channel_name: self.channel_name@ }
    }
}

impl View for Unexpected {
    type V = SpecUnexpected;

    open spec fn view(&self) -> SpecUnexpected {
        match self {
            Unexpected::WsMessageTypeString(s) => SpecUnexpected::WsMessageTypeString(s@),
            Unexpected::ParseError(b, s) => SpecUnexpected::ParseError(b@, s@),
            Unexpected::MessageType(s) => SpecUnexpected::MessageType(s@),
        }
    }
}

impl View for AuthMessage {
    type V = SpecAuthMessage;

    open spec fn view(&self) -> SpecAuthMessage {
        match self {
            AuthMessage::AuthStatus(b) => SpecAuthMessage::AuthStatus(*b),
            AuthMessage::AuthSuccess(u, t) => SpecAuthMessage::AuthSuccess(u@, t@),
            AuthMessage::AuthError() => SpecAuthMessage::AuthError,
        }
    }
}

impl View for State {
    type V = SpecState;

    open spec fn view(&self) -> SpecState {
        match self {
            State::FullState(p) => SpecState::FullState(p@),
            State::UpdateState(b) => SpecState::UpdateState(b@),
            State::EmptyState() => SpecState::EmptyState,
        }
    }
}

impl View for Auth {
    type V = SpecAuth;

    open spec fn view(&self) -> SpecAuth {
        match self {
            Auth::Code(c) => SpecAuth::Code(c@),
            Auth::Token(t) => SpecAuth::Token(t@),
        }
    }
}

impl View for PlayerControl {
    type V = SpecPlayerControl;

    open spec fn view(&self) -> SpecPlayerControl {
        match self {
            PlayerControl::Resume() => SpecPlayerControl::Resume,
            PlayerControl::Pause() => SpecPlayerControl::Pause,
            PlayerControl::Skip(n) => SpecPlayerControl::Skip(*n),
            PlayerControl::BackSkip(n) => SpecPlayerControl::BackSkip(*n),
            PlayerControl::SetTime(d) => SpecPlayerControl::SetTime(*d),
            PlayerControl::PlayMode(m) => SpecPlayerControl::PlayMode(*m),
            PlayerControl::Enqueue(u) => SpecPlayerControl::Enqueue(u@),
            PlayerControl::Leave() => SpecPlayerControl::Leave,
            PlayerControl::Join() => SpecPlayerControl::Join,
        }
    }
}

impl View for PlayerControlResult {
    type V = SpecPlayerControlResult;

    open spec fn view(&self) -> SpecPlayerControlResult {
        SpecPlayerControlResult {
            uuid: self.uuid@,
            req: self.req@,
            res: match &self.res {
                Ok(_) => Ok(()),
                Err(s) => Err(s@),
            },
        }
    }
}

impl View for ClientRequest {
    type V = SpecClientRequest;

    open spec fn view(&self) -> SpecClientRequest {
        match self {
            ClientRequest::Authenticate(a) => SpecClientRequest::Authenticate(a@),
            ClientRequest::AuthStatus() => SpecClientRequest::AuthStatus,
            ClientRequest::Control(u, c) => SpecClientRequest::Control(u@, c@),
            ClientRequest::End() => SpecClientRequest::End,
        }
    }
}

impl View for Message {
    type V = SpecMessage;

    open spec fn view(&self) -> SpecMessage {
        match self {
            Message::ClientRequest(r) => SpecMessage::ClientRequest(r@),
            Message::ClientControlResult(r) => SpecMessage::ClientControlResult(r@),
            Message::Auth(a) => SpecMessage::Auth(a@),
            Message::PlayerState(s) => SpecMessage::PlayerState(view_opt_state(*s)),
            Message::UserVoiceState(v) => SpecMessage::UserVoiceState(view_opt_voice(*v)),
            Message::Unexpected(u) => SpecMessage::Unexpected(u@),
        }
    }
}

} // verus!
