//! The life of the access credential.
//!
//! An [`Authenticator`] owns the access token and the refresh token. Asked for
//! a token, it hands out the one it holds while that is fresh, renews it with
//! the refresh token when it has one, and otherwise runs the device-code flow:
//! it asks for a code, announces it, and polls the token endpoint until the
//! user has approved the code or a new code is needed.
//!
//! The authenticator neither sends nor sleeps. [`Authenticator::get_token`]
//! takes what just happened and the reading of the clock, and answers with the
//! next thing to do. Whoever drives it does that thing and reports back.
//! The clock counts whole seconds and must never run backwards.

use crate::http::text_of;
use crate::http::AppendPaths;
use crate::http::BodyKind;
use crate::http::Client;
use crate::http::HttpError;
use crate::http::Method;
use crate::http::Request;
use crate::http::RequestView;
use crate::http::StatusRule;
use vstd::prelude::*;
use vstd::string::StringExecFns;

verus! {

/// The identity under which this library asks for authorization.
pub const CLIENT_ID: &'static str = "9a021cf1-0d67-456b-b821-c1dff53de0e7";

/// What this library asks to be allowed to do.
pub const SCOPE: &'static str = "offline_access files.read";

/// Seconds by which a token is taken to expire early, so that none runs out
/// while a request that carries it is under way.
pub const REFRESH_TOKEN_PADDING: u64 = 60;

/// The status with which the token endpoint answers while the user has not
/// yet decided.
pub const BAD_REQUEST: u16 = 400;

/// What the presentation layer is told while a token is being acquired.
#[derive(Debug, PartialEq, Eq)]
pub enum AuthMessage {
    /// The user is to open the address (first) and enter the code (second).
    HasClientCode(String, String),
    /// The user has approved the code.
    Completed,
}

/// What an [`AuthMessage`] says, over characters.
pub enum AuthMessageView {
    HasClientCode(Seq<char>, Seq<char>),
    Completed,
}

impl View for AuthMessage {
    type V = AuthMessageView;

    open spec fn view(&self) -> AuthMessageView {
        match self {
            AuthMessage::HasClientCode(uri, code) => AuthMessageView::HasClientCode(uri@, code@),
            AuthMessage::Completed => AuthMessageView::Completed,
        }
    }
}

/// The answer of the device authorization endpoint.
#[derive(Debug, PartialEq, Eq)]
pub struct DeviceAuthResponse {
    pub device_code: String,
    pub user_code: String,
    pub verification_uri: String,
    /// Seconds for which the code can be used.
    pub expires_in: u64,
    /// Seconds to wait between two polls.
    pub interval: u64,
}

/// What a [`DeviceAuthResponse`] says, over characters.
pub struct DeviceAuthResponseView {
    pub device_code: Seq<char>,
    pub user_code: Seq<char>,
    pub verification_uri: Seq<char>,
    pub expires_in: u64,
    pub interval: u64,
}

impl View for DeviceAuthResponse {
    type V = DeviceAuthResponseView;

    open spec fn view(&self) -> DeviceAuthResponseView {
        DeviceAuthResponseView {
            device_code: self.device_code@,
            user_code: self.user_code@,
            verification_uri: self.verification_uri@,
            expires_in: self.expires_in,
            interval: self.interval,
        }
    }
}

/// The tokens that the token endpoint issued.
#[derive(Debug, PartialEq, Eq)]
pub struct TokenResponseSuccess {
    /// Seconds for which the access token can be used.
    pub expires_in: u64,
    pub access_token: String,
    pub refresh_token: String,
}

/// What a [`TokenResponseSuccess`] says, over characters.
pub struct TokenResponseSuccessView {
    pub expires_in: u64,
    pub access_token: Seq<char>,
    pub refresh_token: Seq<char>,
}

impl View for TokenResponseSuccess {
    type V = TokenResponseSuccessView;

    open spec fn view(&self) -> TokenResponseSuccessView {
        TokenResponseSuccessView {
            expires_in: self.expires_in,
            access_token: self.access_token@,
            refresh_token: self.refresh_token@,
        }
    }
}

/// The refusal of the token endpoint.
#[derive(Debug, PartialEq, Eq)]
pub struct TokenResponseError {
    pub error: String,
    pub error_description: String,
}

/// What a [`TokenResponseError`] says, over characters.
pub struct TokenResponseErrorView {
    pub error: Seq<char>,
    pub error_description: Seq<char>,
}

impl View for TokenResponseError {
    type V = TokenResponseErrorView;

    open spec fn view(&self) -> TokenResponseErrorView {
        TokenResponseErrorView { error: self.error@, error_description: self.error_description@ }
    }
}

/// The answer of the token endpoint.
#[derive(Debug, PartialEq, Eq)]
pub enum TokenResponse {
    Success(TokenResponseSuccess),
    Failure(TokenResponseError),
}

/// What a [`TokenResponse`] says, over characters.
pub enum TokenResponseView {
    Success(TokenResponseSuccessView),
    Failure(TokenResponseErrorView),
}

impl View for TokenResponse {
    type V = TokenResponseView;

    open spec fn view(&self) -> TokenResponseView {
        match self {
            TokenResponse::Success(success) => TokenResponseView::Success(success@),
            TokenResponse::Failure(failure) => TokenResponseView::Failure(failure@),
        }
    }
}

/// The request that failed.
#[derive(Clone, Copy, Debug, PartialEq, Eq, Structural)]
pub enum Stage {
    /// The exchange of the refresh token.
    Refresh,
    /// The request for a device code.
    DeviceCode,
    /// The exchange of the device code.
    Exchange,
}

/// Why no token was handed out.
#[derive(Debug, PartialEq, Eq)]
pub enum AuthError {
    /// A request gave no usable answer.
    RequestFailed(Stage, HttpError),
    /// The token endpoint refused for good; this is its description.
    AuthFailed(String),
    /// The token would expire within the safety padding, or later than the
    /// clock can tell.
    TokenExpiresTooQuickly,
    /// What was reported is not what the authenticator was waiting for.
    OutOfTurn,
}

/// What an [`AuthError`] says, over characters.
pub enum AuthErrorView {
    RequestFailed(Stage, HttpError),
    AuthFailed(Seq<char>),
    TokenExpiresTooQuickly,
    OutOfTurn,
}

impl View for AuthError {
    type V = AuthErrorView;

    open spec fn view(&self) -> AuthErrorView {
        match self {
            AuthError::RequestFailed(stage, error) => AuthErrorView::RequestFailed(*stage, *error),
            AuthError::AuthFailed(description) => AuthErrorView::AuthFailed(description@),
            AuthError::TokenExpiresTooQuickly => AuthErrorView::TokenExpiresTooQuickly,
            AuthError::OutOfTurn => AuthErrorView::OutOfTurn,
        }
    }
}

/// What happened since the authenticator last spoke.
#[derive(Debug, PartialEq, Eq)]
pub enum AuthReport {
    /// A caller wants a token.
    Requested,
    /// The request for a device code has ended.
    DeviceCode(Result<DeviceAuthResponse, HttpError>),
    /// The request to the token endpoint has ended.
    Token(Result<TokenResponse, HttpError>),
    /// The message has reached the presentation layer.
    Delivered,
    /// The pause is over.
    Rested,
}

/// What an [`AuthReport`] says, over characters.
pub enum AuthReportView {
    Requested,
    DeviceCode(Result<DeviceAuthResponseView, HttpError>),
    Token(Result<TokenResponseView, HttpError>),
    Delivered,
    Rested,
}

impl View for AuthReport {
    type V = AuthReportView;

    open spec fn view(&self) -> AuthReportView {
        match self {
            AuthReport::Requested => AuthReportView::Requested,
            AuthReport::DeviceCode(Ok(response)) => AuthReportView::DeviceCode(Ok(response@)),
            AuthReport::DeviceCode(Err(error)) => AuthReportView::DeviceCode(Err(*error)),
            AuthReport::Token(Ok(response)) => AuthReportView::Token(Ok(response@)),
            AuthReport::Token(Err(error)) => AuthReportView::Token(Err(*error)),
            AuthReport::Delivered => AuthReportView::Delivered,
            AuthReport::Rested => AuthReportView::Rested,
        }
    }
}

/// What the driver is to do next.
#[derive(Debug, PartialEq, Eq)]
pub enum AuthAction {
    /// Send this request to the device authorization endpoint and report
    /// [`AuthReport::DeviceCode`].
    RequestDeviceCode(Request),
    /// Send this request to the token endpoint and report [`AuthReport::Token`].
    RequestToken(Request),
    /// Deliver this message and report [`AuthReport::Delivered`].
    Notify(AuthMessage),
    /// Pause for this many seconds and report [`AuthReport::Rested`].
    Sleep(u64),
    /// Hand `token` to the caller. Where `store` holds a refresh token, it is
    /// new and is to be kept for later runs.
    Issued { token: String, store: Option<String> },
    /// Tell the caller that there is no token this time.
    Failed(AuthError),
}

/// What an [`AuthAction`] says, over characters.
pub enum AuthActionView {
    RequestDeviceCode(RequestView),
    RequestToken(RequestView),
    Notify(AuthMessageView),
    Sleep(u64),
    Issued { token: Seq<char>, store: Option<Seq<char>> },
    Failed(AuthErrorView),
}

impl View for AuthAction {
    type V = AuthActionView;

    open spec fn view(&self) -> AuthActionView {
        match self {
            AuthAction::RequestDeviceCode(request) => AuthActionView::RequestDeviceCode(request@),
            AuthAction::RequestToken(request) => AuthActionView::RequestToken(request@),
            AuthAction::Notify(message) => AuthActionView::Notify(message@),
            AuthAction::Sleep(seconds) => AuthActionView::Sleep(*seconds),
            AuthAction::Issued { token, store } => AuthActionView::Issued {
                token: token@,
                store: text_of(*store),
            },
            AuthAction::Failed(error) => AuthActionView::Failed(error@),
        }
    }
}

/// One round of device authorization: the code, what the user is shown, how
/// often to poll and until when.
#[derive(Debug, PartialEq, Eq)]
pub struct DeviceSession {
    pub device_code: String,
    pub user_code: String,
    pub verification_uri: String,
    /// Seconds to wait between two polls.
    pub interval: u64,
    /// The reading of the clock from which on the code is of no use.
    pub expires_at: u64,
}

/// What a [`DeviceSession`] says, over characters.
pub struct DeviceSessionView {
    pub device_code: Seq<char>,
    pub user_code: Seq<char>,
    pub verification_uri: Seq<char>,
    pub interval: u64,
    pub expires_at: u64,
}

impl View for DeviceSession {
    type V = DeviceSessionView;

    open spec fn view(&self) -> DeviceSessionView {
        DeviceSessionView {
            device_code: self.device_code@,
            user_code: self.user_code@,
            verification_uri: self.verification_uri@,
            interval: self.interval,
            expires_at: self.expires_at,
        }
    }
}

/// What the authenticator is waiting for.
#[derive(Debug, PartialEq, Eq)]
pub enum Phase {
    /// Nothing: no caller is being served.
    Idle,
    /// The answer to the exchange of the refresh token.
    Refreshing,
    /// The answer to the request for a device code.
    RequestingCode,
    /// The delivery of the code to the presentation layer.
    Announcing(DeviceSession),
    /// The answer to the exchange of the device code.
    Polling(DeviceSession),
    /// The end of the pause between two polls.
    Resting(DeviceSession),
    /// The delivery of the news that the user has approved.
    Completing(TokenResponseSuccess),
}

/// What a [`Phase`] says, over characters.
pub enum PhaseView {
    Idle,
    Refreshing,
    RequestingCode,
    Announcing(DeviceSessionView),
    Polling(DeviceSessionView),
    Resting(DeviceSessionView),
    Completing(TokenResponseSuccessView),
}

impl View for Phase {
    type V = PhaseView;

    open spec fn view(&self) -> PhaseView {
        match self {
            Phase::Idle => PhaseView::Idle,
            Phase::Refreshing => PhaseView::Refreshing,
            Phase::RequestingCode => PhaseView::RequestingCode,
            Phase::Announcing(session) => PhaseView::Announcing(session@),
            Phase::Polling(session) => PhaseView::Polling(session@),
            Phase::Resting(session) => PhaseView::Resting(session@),
            Phase::Completing(success) => PhaseView::Completing(success@),
        }
    }
}

/// The owner of the credential.
#[derive(Debug)]
pub struct Authenticator {
    client: Client,
    refresh_after: u64,
    access_token: Option<String>,
    refresh_token: Option<String>,
    device_code_url: String,
    token_url: String,
    phase: Phase,
}

/// What an [`Authenticator`] holds, over characters.
pub struct AuthenticatorView {
    /// The last reading of the clock at which the access token is fresh.
    pub refresh_after: u64,
    pub access_token: Option<Seq<char>>,
    pub refresh_token: Option<Seq<char>>,
    pub device_code_url: Seq<char>,
    pub token_url: Seq<char>,
    pub phase: PhaseView,
}

impl View for Authenticator {
    type V = AuthenticatorView;

    closed spec fn view(&self) -> AuthenticatorView {
        AuthenticatorView {
            refresh_after: self.refresh_after,
            access_token: text_of(self.access_token),
            refresh_token: text_of(self.refresh_token),
            device_code_url: self.device_code_url@,
            token_url: self.token_url@,
            phase: self.phase@,
        }
    }
}

/// The error code with which the token endpoint says that the user has not
/// yet decided.
pub const AUTHORIZATION_PENDING: &'static str = "authorization_pending";

/// The grant type of the exchange of a device code.
pub const DEVICE_CODE_GRANT: &'static str = "urn:ietf:params:oauth:grant-type:device_code";

/// The grant type of the exchange of a refresh token.
pub const REFRESH_TOKEN_GRANT: &'static str = "refresh_token";

/// The reading of the clock up to which a token is taken to be fresh that was
/// issued at `now` for `expires_in` seconds: its expiry less the safety
/// padding. There is none where the token lasts no longer than the padding, or
/// longer than the clock can tell.
pub open spec fn refresh_deadline(now: u64, expires_in: u64) -> Option<u64> {
    if expires_in > REFRESH_TOKEN_PADDING && now + (expires_in - REFRESH_TOKEN_PADDING)
        <= u64::MAX {
        Some((now + (expires_in - REFRESH_TOKEN_PADDING)) as u64)
    } else {
        None
    }
}

/// The reading of the clock at which a device code expires that was issued at
/// `now` for `expires_in` seconds; the last reading of the clock where the sum
/// is beyond it.
pub open spec fn session_deadline(now: u64, expires_in: u64) -> u64 {
    if now + expires_in <= u64::MAX {
        (now + expires_in) as u64
    } else {
        u64::MAX
    }
}

/// The session that the answer `response` opens at `now`.
pub open spec fn session_opened(response: DeviceAuthResponseView, now: u64) -> DeviceSessionView {
    DeviceSessionView {
        device_code: response.device_code,
        user_code: response.user_code,
        verification_uri: response.verification_uri,
        interval: response.interval,
        expires_at: session_deadline(now, response.expires_in),
    }
}

impl AuthenticatorView {
    /// Whether the access token can be handed out at `now` as it is.
    pub open spec fn fresh(self, now: u64) -> bool {
        self.access_token is Some && now <= self.refresh_after
    }

    /// The request for a device code.
    pub open spec fn device_code_request(self) -> RequestView {
        RequestView {
            method: Method::Post,
            url: self.device_code_url,
            bearer: None,
            form: seq![("client_id"@, CLIENT_ID@), ("scope"@, SCOPE@)],
            rule: StatusRule::NoError,
            body: BodyKind::Json,
        }
    }

    /// The exchange of `refresh_token` for new tokens.
    pub open spec fn refresh_request(self, refresh_token: Seq<char>) -> RequestView {
        RequestView {
            method: Method::Post,
            url: self.token_url,
            bearer: None,
            form: seq![
                ("client_id"@, CLIENT_ID@),
                ("grant_type"@, REFRESH_TOKEN_GRANT@),
                ("scope"@, SCOPE@),
                ("refresh_token"@, refresh_token),
            ],
            rule: StatusRule::NoError,
            body: BodyKind::Json,
        }
    }

    /// The exchange of `device_code` for tokens. The status with which the
    /// endpoint refuses is taken for an answer.
    pub open spec fn exchange_request(self, device_code: Seq<char>) -> RequestView {
        RequestView {
            method: Method::Post,
            url: self.token_url,
            bearer: None,
            form: seq![
                ("grant_type"@, DEVICE_CODE_GRANT@),
                ("client_id"@, CLIENT_ID@),
                ("device_code"@, device_code),
            ],
            rule: StatusRule::NoErrorBut(BAD_REQUEST),
            body: BodyKind::Json,
        }
    }

    /// This state in another phase.
    pub open spec fn in_phase(self, phase: PhaseView) -> AuthenticatorView {
        AuthenticatorView { phase, ..self }
    }

    /// This state without tokens and at rest.
    pub open spec fn without_credential(self) -> AuthenticatorView {
        AuthenticatorView {
            access_token: None,
            refresh_token: None,
            phase: PhaseView::Idle,
            ..self
        }
    }

    /// This state without access token: what [`Authenticator::invalidate`]
    /// leaves.
    pub open spec fn invalidated(self) -> AuthenticatorView {
        AuthenticatorView { access_token: None, ..self }
    }

    /// What becomes of tokens that were issued at `now`. Where their life is
    /// long enough they replace the ones held, and the access token goes to
    /// the caller with the refresh token to keep. Otherwise nothing changes
    /// and the caller is told.
    pub open spec fn accept(self, success: TokenResponseSuccessView, now: u64) -> (
        AuthenticatorView,
        AuthActionView,
    ) {
        match refresh_deadline(now, success.expires_in) {
            Some(deadline) => (
                AuthenticatorView {
                    refresh_after: deadline,
                    access_token: Some(success.access_token),
                    refresh_token: Some(success.refresh_token),
                    phase: PhaseView::Idle,
                    ..self
                },
                AuthActionView::Issued {
                    token: success.access_token,
                    store: Some(success.refresh_token),
                },
            ),
            None => (
                self.in_phase(PhaseView::Idle),
                AuthActionView::Failed(AuthErrorView::TokenExpiresTooQuickly),
            ),
        }
    }

    /// Opens a new round of device authorization.
    pub open spec fn restart(self) -> (AuthenticatorView, AuthActionView) {
        (
            self.in_phase(PhaseView::RequestingCode),
            AuthActionView::RequestDeviceCode(self.device_code_request()),
        )
    }

    /// Gives the caller `error` and comes to rest.
    pub open spec fn fail(self, error: AuthErrorView) -> (AuthenticatorView, AuthActionView) {
        (self.in_phase(PhaseView::Idle), AuthActionView::Failed(error))
    }

    /// The state after `report` at `now`, and what is to be done next.
    pub open spec fn step(self, report: AuthReportView, now: u64) -> (
        AuthenticatorView,
        AuthActionView,
    ) {
        match (self.phase, report) {
            (PhaseView::Idle, AuthReportView::Requested) => {
                if self.fresh(now) {
                    (self, AuthActionView::Issued { token: self.access_token->0, store: None })
                } else if self.refresh_token is Some {
                    (
                        self.in_phase(PhaseView::Refreshing),
                        AuthActionView::RequestToken(
                            self.refresh_request(self.refresh_token->0),
                        ),
                    )
                } else {
                    self.restart()
                }
            },
            (PhaseView::Refreshing, AuthReportView::Token(Ok(TokenResponseView::Success(success)))) => {
                self.accept(success, now)
            },
            (PhaseView::Refreshing, AuthReportView::Token(Ok(TokenResponseView::Failure(failure)))) => {
                (
                    self.without_credential(),
                    AuthActionView::Failed(AuthErrorView::AuthFailed(failure.error_description)),
                )
            },
            (PhaseView::Refreshing, AuthReportView::Token(Err(error))) => {
                (
                    self.without_credential(),
                    AuthActionView::Failed(AuthErrorView::RequestFailed(Stage::Refresh, error)),
                )
            },
            (PhaseView::RequestingCode, AuthReportView::DeviceCode(Ok(response))) => {
                (
                    self.in_phase(PhaseView::Announcing(session_opened(response, now))),
                    AuthActionView::Notify(
                        AuthMessageView::HasClientCode(
                            response.verification_uri,
                            response.user_code,
                        ),
                    ),
                )
            },
            (PhaseView::RequestingCode, AuthReportView::DeviceCode(Err(error))) => {
                self.fail(AuthErrorView::RequestFailed(Stage::DeviceCode, error))
            },
            (PhaseView::Announcing(session), AuthReportView::Delivered) => {
                (
                    self.in_phase(PhaseView::Polling(session)),
                    AuthActionView::RequestToken(self.exchange_request(session.device_code)),
                )
            },
            (PhaseView::Polling(session), AuthReportView::Token(Ok(TokenResponseView::Success(success)))) => {
                (
                    self.in_phase(PhaseView::Completing(success)),
                    AuthActionView::Notify(AuthMessageView::Completed),
                )
            },
            (PhaseView::Polling(session), AuthReportView::Token(Ok(TokenResponseView::Failure(failure)))) => {
                if failure.error == AUTHORIZATION_PENDING@ {
                    (
                        self.in_phase(PhaseView::Resting(session)),
                        AuthActionView::Sleep(session.interval),
                    )
                } else {
                    self.restart()
                }
            },
            (PhaseView::Polling(session), AuthReportView::Token(Err(error))) => {
                self.fail(AuthErrorView::RequestFailed(Stage::Exchange, error))
            },
            (PhaseView::Resting(session), AuthReportView::Rested) => {
                if session.expires_at <= now {
                    self.restart()
                } else {
                    (
                        self.in_phase(PhaseView::Polling(session)),
                        AuthActionView::RequestToken(self.exchange_request(session.device_code)),
                    )
                }
            },
            (PhaseView::Completing(success), AuthReportView::Delivered) => {
                self.accept(success, now)
            },
            _ => self.fail(AuthErrorView::OutOfTurn),
        }
    }
}

impl Authenticator {
    /// An authenticator for the endpoints `devicecode` and `token` under
    /// `base_url`, at rest, with `refresh_token` from an earlier run if there
    /// is one. There is none where `base_url` is no URL to which a path can be
    /// appended.
    pub fn new(base_url: &str, refresh_token: Option<String>) -> (r: Option<Authenticator>)
        ensures
            match r {
                Some(authenticator) => {
                    &&& crate::http::appended(base_url@, seq!["devicecode"@]) == Some(
                        authenticator@.device_code_url,
                    )
                    &&& crate::http::appended(base_url@, seq!["token"@]) == Some(
                        authenticator@.token_url,
                    )
                    &&& authenticator@.access_token is None
                    &&& authenticator@.refresh_token == text_of(refresh_token)
                    &&& authenticator@.refresh_after == 0
                    &&& authenticator@.phase is Idle
                },
                None => {
                    ||| crate::http::appended(base_url@, seq!["devicecode"@]) is None
                    ||| crate::http::appended(base_url@, seq!["token"@]) is None
                },
            },
    {
        let base = base_url.to_owned();
        let device_code_url = match base.append_path("devicecode") {
            Some(url) => url,
            None => {
                return None;
            },
        };
        let token_url = match base.append_path("token") {
            Some(url) => url,
            None => {
                return None;
            },
        };
        Some(
            Authenticator {
                client: Client::new(),
                refresh_after: 0,
                access_token: None,
                refresh_token,
                device_code_url,
                token_url,
                phase: Phase::Idle,
            },
        )
    }

    /// The refresh token that is held, if any.
    pub fn refresh_token(&self) -> (token: Option<&String>)
        ensures
            match token {
                Some(token) => self@.refresh_token == Some(token@),
                None => self@.refresh_token is None,
            },
    {
        self.refresh_token.as_ref()
    }

    /// Forgets the access token, which a server has just refused. The refresh
    /// token stays, so the next caller gets a renewed token.
    pub fn invalidate(&mut self)
        ensures
            final(self)@ == old(self)@.invalidated(),
    {
        self.access_token = None;
    }

    fn device_code_request(&self) -> (request: Request)
        ensures
            request@ == self@.device_code_request(),
    {
        let parameters: [(&str, &str); 2] = [("client_id", CLIENT_ID), ("scope", SCOPE)];
        assert(crate::http::views_of_pairs(parameters@) =~= self@.device_code_request().form);
        self.client.post(self.device_code_url.clone(), &parameters, None)
    }

    fn refresh_request(&self, refresh_token: &str) -> (request: Request)
        ensures
            request@ == self@.refresh_request(refresh_token@),
    {
        let parameters: [(&str, &str); 4] = [
            ("client_id", CLIENT_ID),
            ("grant_type", REFRESH_TOKEN_GRANT),
            ("scope", SCOPE),
            ("refresh_token", refresh_token),
        ];
        assert(crate::http::views_of_pairs(parameters@) =~= self@.refresh_request(
            refresh_token@,
        ).form);
        self.client.post(self.token_url.clone(), &parameters, None)
    }

    fn exchange_request(&self, device_code: &str) -> (request: Request)
        ensures
            request@ == self@.exchange_request(device_code@),
    {
        let parameters: [(&str, &str); 3] = [
            ("grant_type", DEVICE_CODE_GRANT),
            ("client_id", CLIENT_ID),
            ("device_code", device_code),
        ];
        assert(crate::http::views_of_pairs(parameters@) =~= self@.exchange_request(
            device_code@,
        ).form);
        self.client.post(self.token_url.clone(), &parameters, Some(BAD_REQUEST))
    }

    fn restart(&mut self) -> (action: AuthAction)
        ensures
            (final(self)@, action@) == old(self)@.restart(),
    {
        self.phase = Phase::RequestingCode;
        AuthAction::RequestDeviceCode(self.device_code_request())
    }

    fn accept(&mut self, success: TokenResponseSuccess, now: u64) -> (action: AuthAction)
        ensures
            (final(self)@, action@) == old(self)@.accept(success@, now),
    {
        self.phase = Phase::Idle;
        if success.expires_in <= REFRESH_TOKEN_PADDING {
            return AuthAction::Failed(AuthError::TokenExpiresTooQuickly);
        }
        let lifetime: u64 = success.expires_in - REFRESH_TOKEN_PADDING;
        if lifetime > u64::MAX - now {
            return AuthAction::Failed(AuthError::TokenExpiresTooQuickly);
        }
        self.refresh_after = now + lifetime;
        let token = success.access_token.clone();
        let store = success.refresh_token.clone();
        self.access_token = Some(success.access_token);
        self.refresh_token = Some(success.refresh_token);
        AuthAction::Issued { token, store: Some(store) }
    }

    /// Takes what happened and says what is to be done next.
    ///
    /// A caller who wants a token reports [`AuthReport::Requested`] and then
    /// carries out each answer and reports its result, until the answer is
    /// [`AuthAction::Issued`] or [`AuthAction::Failed`]. `now` is the reading
    /// of the clock at the time of the report.
    ///
    /// A fresh access token is handed out at once. Without one, a refresh
    /// token is exchanged; if that fails, both tokens are dropped and the
    /// caller is told, so that the next request starts the device flow. With
    /// no refresh token the device flow runs: a code is requested and
    /// announced, and the token endpoint is polled. While the user has not
    /// decided, the poll is repeated after the pause that came with the code,
    /// unless the code has expired by then. An expired code and any other
    /// refusal open a new round. What is reported out of turn ends the request
    /// with an error.
    pub fn get_token(&mut self, report: AuthReport, now: u64) -> (action: AuthAction)
        ensures
            (final(self)@, action@) == old(self)@.step(report@, now),
    {
        let mut phase = Phase::Idle;
        core::mem::swap(&mut self.phase, &mut phase);
        match (phase, report) {
            (Phase::Idle, AuthReport::Requested) => {
                if self.access_token.is_some() && now <= self.refresh_after {
                    let token = match &self.access_token {
                        Some(token) => token.clone(),
                        None => String::new(),
                    };
                    AuthAction::Issued { token, store: None }
                } else if self.refresh_token.is_some() {
                    self.phase = Phase::Refreshing;
                    let request = match &self.refresh_token {
                        Some(token) => self.refresh_request(token.as_str()),
                        None => self.device_code_request(),
                    };
                    AuthAction::RequestToken(request)
                } else {
                    self.restart()
                }
            },
            (Phase::Refreshing, AuthReport::Token(Ok(TokenResponse::Success(success)))) => {
                self.accept(success, now)
            },
            (Phase::Refreshing, AuthReport::Token(Ok(TokenResponse::Failure(failure)))) => {
                self.access_token = None;
                self.refresh_token = None;
                AuthAction::Failed(AuthError::AuthFailed(failure.error_description))
            },
            (Phase::Refreshing, AuthReport::Token(Err(error))) => {
                self.access_token = None;
                self.refresh_token = None;
                AuthAction::Failed(AuthError::RequestFailed(Stage::Refresh, error))
            },
            (Phase::RequestingCode, AuthReport::DeviceCode(Ok(response))) => {
                let expires_at = if response.expires_in > u64::MAX - now {
                    u64::MAX
                } else {
                    now + response.expires_in
                };
                let message = AuthMessage::HasClientCode(
                    response.verification_uri.clone(),
                    response.user_code.clone(),
                );
                self.phase = Phase::Announcing(
                    DeviceSession {
                        device_code: response.device_code,
                        user_code: response.user_code,
                        verification_uri: response.verification_uri,
                        interval: response.interval,
                        expires_at,
                    },
                );
                AuthAction::Notify(message)
            },
            (Phase::RequestingCode, AuthReport::DeviceCode(Err(error))) => {
                AuthAction::Failed(AuthError::RequestFailed(Stage::DeviceCode, error))
            },
            (Phase::Announcing(session), AuthReport::Delivered) => {
                let request = self.exchange_request(session.device_code.as_str());
                self.phase = Phase::Polling(session);
                AuthAction::RequestToken(request)
            },
            (Phase::Polling(_), AuthReport::Token(Ok(TokenResponse::Success(success)))) => {
                self.phase = Phase::Completing(success);
                AuthAction::Notify(AuthMessage::Completed)
            },
            (Phase::Polling(session), AuthReport::Token(Ok(TokenResponse::Failure(failure)))) => {
                let pending = String::from_str(AUTHORIZATION_PENDING);
                if failure.error == pending {
                    let pause = session.interval;
                    self.phase = Phase::Resting(session);
                    AuthAction::Sleep(pause)
                } else {
                    self.restart()
                }
            },
            (Phase::Polling(_), AuthReport::Token(Err(error))) => {
                AuthAction::Failed(AuthError::RequestFailed(Stage::Exchange, error))
            },
            (Phase::Resting(session), AuthReport::Rested) => {
                if session.expires_at <= now {
                    self.restart()
                } else {
                    let request = self.exchange_request(session.device_code.as_str());
                    self.phase = Phase::Polling(session);
                    AuthAction::RequestToken(request)
                }
            },
            (Phase::Completing(success), AuthReport::Delivered) => {
                self.accept(success, now)
            },
            _ => AuthAction::Failed(AuthError::OutOfTurn),
        }
    }
}

/// A fresh access token is handed out as it is: nothing is sent, nothing is
/// kept anew, and the state stays as it was.
pub proof fn lemma_fresh_token_is_reused(state: AuthenticatorView, now: u64)
    requires
        state.phase is Idle,
        state.fresh(now),
    ensures
        state.step(AuthReportView::Requested, now) == (
            state,
            AuthActionView::Issued { token: state.access_token->0, store: None },
        ),
{
}

/// The device flow, when the endpoints answer well: without tokens to start
/// from, a request for a token leads over one device code, its announcement,
/// one exchange and the news of the approval to the access token that was
/// issued. From then on, and up to the token's expiry less the padding, a
/// further request is answered with the same token at once.
pub proof fn lemma_device_flow_issues_token(
    state: AuthenticatorView,
    response: DeviceAuthResponseView,
    success: TokenResponseSuccessView,
    asked: u64,
    answered: u64,
    announced: u64,
    approved: u64,
    completed: u64,
    later: u64,
)
    requires
        state.phase is Idle,
        !state.fresh(asked),
        state.refresh_token is None,
        refresh_deadline(completed, success.expires_in) is Some,
        later <= refresh_deadline(completed, success.expires_in)->0,
    ensures
        ({
            let (s1, a1) = state.step(AuthReportView::Requested, asked);
            let (s2, a2) = s1.step(AuthReportView::DeviceCode(Ok(response)), answered);
            let (s3, a3) = s2.step(AuthReportView::Delivered, announced);
            let (s4, a4) = s3.step(
                AuthReportView::Token(Ok(TokenResponseView::Success(success))),
                approved,
            );
            let (s5, a5) = s4.step(AuthReportView::Delivered, completed);
            let (s6, a6) = s5.step(AuthReportView::Requested, later);
            &&& a1 == AuthActionView::RequestDeviceCode(state.device_code_request())
            &&& a2 == AuthActionView::Notify(
                AuthMessageView::HasClientCode(response.verification_uri, response.user_code),
            )
            &&& a3 == AuthActionView::RequestToken(state.exchange_request(response.device_code))
            &&& a4 == AuthActionView::Notify(AuthMessageView::Completed)
            &&& a5 == AuthActionView::Issued {
                token: success.access_token,
                store: Some(success.refresh_token),
            }
            &&& s5.phase is Idle
            &&& s5.access_token == Some(success.access_token)
            &&& s5.refresh_token == Some(success.refresh_token)
            &&& s5.refresh_after == refresh_deadline(completed, success.expires_in)->0
            &&& a6 == AuthActionView::Issued { token: success.access_token, store: None }
            &&& s6 == s5
        }),
{
}

/// While the user has not decided and the code has not expired, the same
/// exchange is sent again after the pause that came with the code.
pub proof fn lemma_pending_poll_is_repeated(
    state: AuthenticatorView,
    failure: TokenResponseErrorView,
    refused: u64,
    rested: u64,
)
    requires
        state.phase is Polling,
        failure.error == AUTHORIZATION_PENDING@,
        rested < state.phase->Polling_0.expires_at,
    ensures
        ({
            let session = state.phase->Polling_0;
            let (s1, a1) = state.step(
                AuthReportView::Token(Ok(TokenResponseView::Failure(failure))),
                refused,
            );
            let (s2, a2) = s1.step(AuthReportView::Rested, rested);
            &&& a1 == AuthActionView::Sleep(session.interval)
            &&& a2 == AuthActionView::RequestToken(state.exchange_request(session.device_code))
            &&& s2 == state
        }),
{
}

impl AuthenticatorView {
    /// The state after the reports `reports`, each with the reading of the
    /// clock at its time, and the answers to them in order.
    pub open spec fn run(self, reports: Seq<(AuthReportView, u64)>) -> (
        AuthenticatorView,
        Seq<AuthActionView>,
    )
        decreases reports.len(),
    {
        if reports.len() == 0 {
            (self, Seq::empty())
        } else {
            let (next, action) = self.step(reports[0].0, reports[0].1);
            let (end, actions) = next.run(reports.drop_first());
            (end, seq![action] + actions)
        }
    }
}

/// The reports of `rounds` of waiting: in each round the token endpoint
/// refuses with the first at the time of the second, and the pause that
/// follows is over at the time of the third.
pub open spec fn waiting(rounds: Seq<(TokenResponseErrorView, u64, u64)>) -> Seq<
    (AuthReportView, u64),
>
    decreases rounds.len(),
{
    if rounds.len() == 0 {
        Seq::empty()
    } else {
        seq![
            (AuthReportView::Token(Ok(TokenResponseView::Failure(rounds[0].0))), rounds[0].1),
            (AuthReportView::Rested, rounds[0].2),
        ] + waiting(rounds.drop_first())
    }
}

/// The answers to `rounds` rounds of waiting: in each the pause `pause`, then
/// `request` again.
pub open spec fn repeated(rounds: nat, pause: u64, request: RequestView) -> Seq<AuthActionView>
    decreases rounds,
{
    if rounds == 0 {
        Seq::empty()
    } else {
        seq![AuthActionView::Sleep(pause), AuthActionView::RequestToken(request)] + repeated(
            (rounds - 1) as nat,
            pause,
            request,
        )
    }
}

/// The messages among `actions`, in order.
pub open spec fn messages(actions: Seq<AuthActionView>) -> Seq<AuthMessageView>
    decreases actions.len(),
{
    if actions.len() == 0 {
        Seq::empty()
    } else {
        let before = messages(actions.drop_last());
        match actions.last() {
            AuthActionView::Notify(message) => before.push(message),
            _ => before,
        }
    }
}

/// A run over two runs of reports is the first run and then the second.
pub proof fn lemma_run_in_two(
    state: AuthenticatorView,
    first: Seq<(AuthReportView, u64)>,
    second: Seq<(AuthReportView, u64)>,
)
    ensures
        state.run(first + second) == ({
            let (middle, before) = state.run(first);
            let (end, after) = middle.run(second);
            (end, before + after)
        }),
    decreases first.len(),
{
    if first.len() == 0 {
        assert(first + second =~= second);
        assert(Seq::<AuthActionView>::empty() + state.run(second).1 =~= state.run(second).1);
    } else {
        let (next, action) = state.step(first[0].0, first[0].1);
        assert((first + second)[0] == first[0]);
        assert((first + second).drop_first() =~= first.drop_first() + second);
        lemma_run_in_two(next, first.drop_first(), second);
        let (middle, before) = next.run(first.drop_first());
        let (end, after) = middle.run(second);
        assert(seq![action] + (before + after) =~= (seq![action] + before) + after);
    }
}

/// However often the user is found undecided, the authenticator keeps to the
/// session as long as the code has not expired when a pause is over: each
/// round is answered with the pause and the same exchange, nothing else is
/// sent or announced, and the state after the rounds is the state before.
pub proof fn lemma_waiting_keeps_the_session(
    state: AuthenticatorView,
    rounds: Seq<(TokenResponseErrorView, u64, u64)>,
)
    requires
        state.phase is Polling,
        forall|i: int|
            0 <= i < rounds.len() ==> (#[trigger] rounds[i]).0.error == AUTHORIZATION_PENDING@
                && rounds[i].2 < state.phase->Polling_0.expires_at,
    ensures
        state.run(waiting(rounds)) == (
            state,
            repeated(
                rounds.len(),
                state.phase->Polling_0.interval,
                state.exchange_request(state.phase->Polling_0.device_code),
            ),
        ),
    decreases rounds.len(),
{
    if rounds.len() > 0 {
        let rest = rounds.drop_first();
        let round = seq![
            (AuthReportView::Token(Ok(TokenResponseView::Failure(rounds[0].0))), rounds[0].1),
            (AuthReportView::Rested, rounds[0].2),
        ];
        assert(rounds[0].0.error == AUTHORIZATION_PENDING@);
        assert forall|i: int| 0 <= i < rest.len() implies (#[trigger] rest[i]).0.error
            == AUTHORIZATION_PENDING@ && rest[i].2 < state.phase->Polling_0.expires_at by {
            assert(rest[i] == rounds[i + 1]);
        }
        lemma_pending_poll_is_repeated(state, rounds[0].0, rounds[0].1, rounds[0].2);
        let (resting, sleep) = state.step(round[0].0, round[0].1);
        let (polling, poll) = resting.step(round[1].0, round[1].1);
        assert(round.drop_first().drop_first() =~= Seq::<(AuthReportView, u64)>::empty());
        assert(round.drop_first()[0] == round[1]);
        assert(polling.run(round.drop_first().drop_first()) == (
            polling,
            Seq::<AuthActionView>::empty(),
        ));
        assert(resting.run(round.drop_first()).1 =~= seq![poll]);
        assert(state.run(round).1 =~= seq![sleep, poll]);
        assert(state.run(round).0 == state);
        lemma_waiting_keeps_the_session(state, rest);
        lemma_run_in_two(state, round, waiting(rest));
    }
}

/// The messages of two runs of actions are those of the first and then those
/// of the second.
pub proof fn lemma_messages_in_two(first: Seq<AuthActionView>, second: Seq<AuthActionView>)
    ensures
        messages(first + second) == messages(first) + messages(second),
    decreases second.len(),
{
    if second.len() == 0 {
        assert(first + second =~= first);
        assert(messages(first) + messages(second) =~= messages(first));
    } else {
        assert((first + second).drop_last() =~= first + second.drop_last());
        assert((first + second).last() == second.last());
        lemma_messages_in_two(first, second.drop_last());
        assert(messages(first + second) =~= messages(first) + messages(second));
    }
}

/// Rounds of waiting announce nothing.
pub proof fn lemma_waiting_is_silent(rounds: nat, pause: u64, request: RequestView)
    ensures
        messages(repeated(rounds, pause, request)) == Seq::<AuthMessageView>::empty(),
    decreases rounds,
{
    if rounds > 0 {
        let round = seq![AuthActionView::Sleep(pause), AuthActionView::RequestToken(request)];
        lemma_waiting_is_silent((rounds - 1) as nat, pause, request);
        lemma_messages_in_two(round, repeated((rounds - 1) as nat, pause, request));
        assert(round.drop_last() =~= seq![AuthActionView::Sleep(pause)]);
        assert(round.drop_last().drop_last() =~= Seq::<AuthActionView>::empty());
        assert(messages(round) =~= Seq::<AuthMessageView>::empty()) by {
            reveal_with_fuel(messages, 3);
        }
    }
}

/// The device flow with a user who takes their time: without tokens to start
/// from, and however many polls find the user undecided before the code has
/// expired, a request for a token ends with the access token that was issued.
/// On the way one device code is asked for, and exactly two messages go out:
/// the code, then its approval.
pub proof fn lemma_device_flow_with_waiting_issues_token(
    state: AuthenticatorView,
    response: DeviceAuthResponseView,
    rounds: Seq<(TokenResponseErrorView, u64, u64)>,
    success: TokenResponseSuccessView,
    asked: u64,
    answered: u64,
    announced: u64,
    approved: u64,
    completed: u64,
)
    requires
        state.phase is Idle,
        !state.fresh(asked),
        state.refresh_token is None,
        forall|i: int|
            0 <= i < rounds.len() ==> (#[trigger] rounds[i]).0.error == AUTHORIZATION_PENDING@
                && rounds[i].2 < session_deadline(answered, response.expires_in),
        refresh_deadline(completed, success.expires_in) is Some,
    ensures
        ({
            let opening = seq![
                (AuthReportView::Requested, asked),
                (AuthReportView::DeviceCode(Ok(response)), answered),
                (AuthReportView::Delivered, announced),
            ];
            let closing = seq![
                (AuthReportView::Token(Ok(TokenResponseView::Success(success))), approved),
                (AuthReportView::Delivered, completed),
            ];
            let (end, actions) = state.run(opening + waiting(rounds) + closing);
            &&& actions.len() == 5 + 2 * rounds.len()
            &&& actions.last() == AuthActionView::Issued {
                token: success.access_token,
                store: Some(success.refresh_token),
            }
            &&& messages(actions) == seq![
                AuthMessageView::HasClientCode(response.verification_uri, response.user_code),
                AuthMessageView::Completed,
            ]
            &&& forall|i: int|
                0 < i < actions.len() ==> !(#[trigger] actions[i] is RequestDeviceCode)
            &&& end.phase is Idle
            &&& end.access_token == Some(success.access_token)
            &&& end.refresh_token == Some(success.refresh_token)
        }),
{
    let opening = seq![
        (AuthReportView::Requested, asked),
        (AuthReportView::DeviceCode(Ok(response)), answered),
        (AuthReportView::Delivered, announced),
    ];
    let closing = seq![
        (AuthReportView::Token(Ok(TokenResponseView::Success(success))), approved),
        (AuthReportView::Delivered, completed),
    ];
    let session = session_opened(response, answered);
    let request = state.exchange_request(response.device_code);
    let code = AuthMessageView::HasClientCode(response.verification_uri, response.user_code);

    // The opening leads to the first poll.
    let (s1, a1) = state.step(opening[0].0, opening[0].1);
    let (s2, a2) = s1.step(opening[1].0, opening[1].1);
    let (s3, a3) = s2.step(opening[2].0, opening[2].1);
    let o1 = opening.drop_first();
    let o2 = o1.drop_first();
    assert(o1[0] == opening[1]);
    assert(o2[0] == opening[2]);
    assert(o2.drop_first() =~= Seq::<(AuthReportView, u64)>::empty());
    assert(s3.run(o2.drop_first()) == (s3, Seq::<AuthActionView>::empty()));
    assert(s2.run(o2).1 =~= seq![a3]);
    assert(s1.run(o1).1 =~= seq![a2, a3]);
    let opened = state.run(opening).1;
    assert(opened =~= seq![a1, a2, a3]);
    assert(state.run(opening).0 == s3);
    assert(s3.phase == PhaseView::Polling(session));
    assert(s3.exchange_request(session.device_code) == request);

    // The waiting comes back to the same state.
    lemma_waiting_keeps_the_session(s3, rounds);
    let waited = repeated(rounds.len(), session.interval, request);
    lemma_waiting_is_silent(rounds.len(), session.interval, request);
    lemma_repeated_length(rounds.len(), session.interval, request);

    // The closing brings the token.
    let (s4, a4) = s3.step(closing[0].0, closing[0].1);
    let (s5, a5) = s4.step(closing[1].0, closing[1].1);
    let c1 = closing.drop_first();
    assert(c1[0] == closing[1]);
    assert(c1.drop_first() =~= Seq::<(AuthReportView, u64)>::empty());
    assert(s5.run(c1.drop_first()) == (s5, Seq::<AuthActionView>::empty()));
    assert(s4.run(c1).1 =~= seq![a5]);
    let closed = s3.run(closing).1;
    assert(closed =~= seq![a4, a5]);
    assert(s3.run(closing).0 == s5);

    lemma_run_in_two(state, opening, waiting(rounds));
    lemma_run_in_two(state, opening + waiting(rounds), closing);
    let actions = state.run(opening + waiting(rounds) + closing).1;
    assert(actions == (opened + waited) + closed);

    // The messages are the code and the approval.
    lemma_messages_in_two(opened + waited, closed);
    lemma_messages_in_two(opened, waited);
    assert(opened.drop_last() =~= seq![a1, a2]);
    assert(opened.drop_last().drop_last() =~= seq![a1]);
    assert(opened.drop_last().drop_last().drop_last() =~= Seq::<AuthActionView>::empty());
    assert(messages(opened) =~= seq![code]) by {
        reveal_with_fuel(messages, 4);
    }
    assert(closed.drop_last() =~= seq![a4]);
    assert(closed.drop_last().drop_last() =~= Seq::<AuthActionView>::empty());
    assert(messages(closed) =~= seq![AuthMessageView::Completed]) by {
        reveal_with_fuel(messages, 3);
    }
    assert(messages(actions) =~= seq![code, AuthMessageView::Completed]);

    // Only the first answer asks for a device code.
    assert forall|i: int| 0 < i < actions.len() implies !(#[trigger] actions[i]
        is RequestDeviceCode) by {
        if i < 3 {
            assert(actions[i] == opened[i]);
        } else if i < 3 + waited.len() {
            assert(actions[i] == waited[i - 3]);
            lemma_repeated_kinds(rounds.len(), session.interval, request, i - 3);
        } else {
            assert(actions[i] == closed[i - 3 - waited.len()]);
        }
    }
}

/// One more report adds one more answer: that of the state that the reports
/// before it leave.
pub proof fn lemma_run_one_more(
    state: AuthenticatorView,
    reports: Seq<(AuthReportView, u64)>,
    report: AuthReportView,
    now: u64,
)
    ensures
        state.run(reports.push((report, now))) == ({
            let (middle, before) = state.run(reports);
            let (end, action) = middle.step(report, now);
            (end, before.push(action))
        }),
{
    let last = seq![(report, now)];
    let (middle, before) = state.run(reports);
    let (end, action) = middle.step(report, now);
    assert(reports.push((report, now)) =~= reports + last);
    lemma_run_in_two(state, reports, last);
    assert(last.drop_first() =~= Seq::<(AuthReportView, u64)>::empty());
    assert(end.run(last.drop_first()) == (end, Seq::<AuthActionView>::empty()));
    assert(middle.run(last).1 =~= seq![action]);
    assert(before + seq![action] =~= before.push(action));
}

/// The messages after one more answer.
proof fn lemma_messages_one_more(actions: Seq<AuthActionView>, action: AuthActionView)
    ensures
        messages(actions.push(action)) == match action {
            AuthActionView::Notify(message) => messages(actions).push(message),
            _ => messages(actions),
        },
{
    assert(actions.push(action).drop_last() =~= actions);
}

/// A session from its opening to the last of its polls that finds the user
/// undecided: the authenticator is left polling for that session, and the one
/// message so far is the session's code.
proof fn lemma_session_waits(
    state: AuthenticatorView,
    response: DeviceAuthResponseView,
    rounds: Seq<(TokenResponseErrorView, u64, u64)>,
    asked: u64,
    answered: u64,
    announced: u64,
)
    requires
        state.phase is Idle,
        !state.fresh(asked),
        state.refresh_token is None,
        forall|i: int|
            0 <= i < rounds.len() ==> (#[trigger] rounds[i]).0.error == AUTHORIZATION_PENDING@
                && rounds[i].2 < session_deadline(answered, response.expires_in),
    ensures
        ({
            let opening = seq![
                (AuthReportView::Requested, asked),
                (AuthReportView::DeviceCode(Ok(response)), answered),
                (AuthReportView::Delivered, announced),
            ];
            let (polling, actions) = state.run(opening + waiting(rounds));
            &&& polling == state.in_phase(PhaseView::Polling(session_opened(response, answered)))
            &&& actions.len() == 3 + 2 * rounds.len()
            &&& messages(actions) == seq![
                AuthMessageView::HasClientCode(response.verification_uri, response.user_code),
            ]
            &&& forall|i: int|
                0 < i < actions.len() ==> !(#[trigger] actions[i] is RequestDeviceCode)
        }),
{
    let opening = seq![
        (AuthReportView::Requested, asked),
        (AuthReportView::DeviceCode(Ok(response)), answered),
        (AuthReportView::Delivered, announced),
    ];
    let session = session_opened(response, answered);
    let request = state.exchange_request(response.device_code);
    let code = AuthMessageView::HasClientCode(response.verification_uri, response.user_code);
    let (s1, a1) = state.step(opening[0].0, opening[0].1);
    let (s2, a2) = s1.step(opening[1].0, opening[1].1);
    let (s3, a3) = s2.step(opening[2].0, opening[2].1);
    let o1 = opening.drop_first();
    let o2 = o1.drop_first();
    assert(o1[0] == opening[1]);
    assert(o2[0] == opening[2]);
    assert(o2.drop_first() =~= Seq::<(AuthReportView, u64)>::empty());
    assert(s3.run(o2.drop_first()) == (s3, Seq::<AuthActionView>::empty()));
    assert(s2.run(o2).1 =~= seq![a3]);
    assert(s1.run(o1).1 =~= seq![a2, a3]);
    let opened = state.run(opening).1;
    assert(opened =~= seq![a1, a2, a3]);
    assert(state.run(opening).0 == s3);
    assert(s3.phase == PhaseView::Polling(session));
    assert(s3.exchange_request(session.device_code) == request);

    lemma_waiting_keeps_the_session(s3, rounds);
    let waited = repeated(rounds.len(), session.interval, request);
    lemma_waiting_is_silent(rounds.len(), session.interval, request);
    lemma_repeated_length(rounds.len(), session.interval, request);
    lemma_run_in_two(state, opening, waiting(rounds));
    let actions = state.run(opening + waiting(rounds)).1;
    assert(actions == opened + waited);

    lemma_messages_in_two(opened, waited);
    assert(opened.drop_last() =~= seq![a1, a2]);
    assert(opened.drop_last().drop_last() =~= seq![a1]);
    assert(opened.drop_last().drop_last().drop_last() =~= Seq::<AuthActionView>::empty());
    assert(messages(opened) =~= seq![code]) by {
        reveal_with_fuel(messages, 4);
    }
    assert(messages(actions) =~= seq![code]);

    assert forall|i: int| 0 < i < actions.len() implies !(#[trigger] actions[i]
        is RequestDeviceCode) by {
        if i < 3 {
            assert(actions[i] == opened[i]);
        } else {
            assert(actions[i] == waited[i - 3]);
            lemma_repeated_kinds(rounds.len(), session.interval, request, i - 3);
        }
    }
}

/// A session that ends without approval and a second one that succeeds:
/// without tokens to start from, the first code is announced and polled for,
/// however often the user is found undecided, until the token endpoint
/// refuses for another reason. Then a second code is asked for and announced,
/// and its exchange brings the tokens. Exactly three messages go out, in this
/// order: the first code, the second code, the approval. The caller gets the
/// access token of the second session.
pub proof fn lemma_second_session_issues_token(
    state: AuthenticatorView,
    first: DeviceAuthResponseView,
    rounds: Seq<(TokenResponseErrorView, u64, u64)>,
    refusal: TokenResponseErrorView,
    second: DeviceAuthResponseView,
    success: TokenResponseSuccessView,
    asked: u64,
    answered: u64,
    announced: u64,
    refused: u64,
    answered_again: u64,
    announced_again: u64,
    approved: u64,
    completed: u64,
)
    requires
        state.phase is Idle,
        !state.fresh(asked),
        state.refresh_token is None,
        forall|i: int|
            0 <= i < rounds.len() ==> (#[trigger] rounds[i]).0.error == AUTHORIZATION_PENDING@
                && rounds[i].2 < session_deadline(answered, first.expires_in),
        refusal.error != AUTHORIZATION_PENDING@,
        refresh_deadline(completed, success.expires_in) is Some,
    ensures
        ({
            let opening = seq![
                (AuthReportView::Requested, asked),
                (AuthReportView::DeviceCode(Ok(first)), answered),
                (AuthReportView::Delivered, announced),
            ];
            let reports = (opening + waiting(rounds)).push(
                (AuthReportView::Token(Ok(TokenResponseView::Failure(refusal))), refused),
            ).push((AuthReportView::DeviceCode(Ok(second)), answered_again)).push(
                (AuthReportView::Delivered, announced_again),
            ).push(
                (AuthReportView::Token(Ok(TokenResponseView::Success(success))), approved),
            ).push((AuthReportView::Delivered, completed));
            let (end, actions) = state.run(reports);
            &&& messages(actions) == seq![
                AuthMessageView::HasClientCode(first.verification_uri, first.user_code),
                AuthMessageView::HasClientCode(second.verification_uri, second.user_code),
                AuthMessageView::Completed,
            ]
            &&& actions.last() == AuthActionView::Issued {
                token: success.access_token,
                store: Some(success.refresh_token),
            }
            &&& end.phase is Idle
            &&& end.access_token == Some(success.access_token)
            &&& end.refresh_token == Some(success.refresh_token)
        }),
{
    let opening = seq![
        (AuthReportView::Requested, asked),
        (AuthReportView::DeviceCode(Ok(first)), answered),
        (AuthReportView::Delivered, announced),
    ];
    let r0 = opening + waiting(rounds);
    lemma_session_waits(state, first, rounds, asked, answered, announced);
    let (s0, a0) = state.run(r0);

    let e1 = AuthReportView::Token(Ok(TokenResponseView::Failure(refusal)));
    let r1 = r0.push((e1, refused));
    lemma_run_one_more(state, r0, e1, refused);
    let (s1, a1) = state.run(r1);
    lemma_messages_one_more(a0, a1.last());
    assert(a1 == a0.push(s0.step(e1, refused).1));

    let e2 = AuthReportView::DeviceCode(Ok(second));
    let r2 = r1.push((e2, answered_again));
    lemma_run_one_more(state, r1, e2, answered_again);
    let (s2, a2) = state.run(r2);
    lemma_messages_one_more(a1, a2.last());
    assert(a2 == a1.push(s1.step(e2, answered_again).1));

    let e3 = AuthReportView::Delivered;
    let r3 = r2.push((e3, announced_again));
    lemma_run_one_more(state, r2, e3, announced_again);
    let (s3, a3) = state.run(r3);
    lemma_messages_one_more(a2, a3.last());
    assert(a3 == a2.push(s2.step(e3, announced_again).1));

    let e4 = AuthReportView::Token(Ok(TokenResponseView::Success(success)));
    let r4 = r3.push((e4, approved));
    lemma_run_one_more(state, r3, e4, approved);
    let (s4, a4) = state.run(r4);
    lemma_messages_one_more(a3, a4.last());
    assert(a4 == a3.push(s3.step(e4, approved).1));

    let e5 = AuthReportView::Delivered;
    let r5 = r4.push((e5, completed));
    lemma_run_one_more(state, r4, e5, completed);
    let (s5, a5) = state.run(r5);
    lemma_messages_one_more(a4, a5.last());
    assert(a5 == a4.push(s4.step(e5, completed).1));

    let code_one = AuthMessageView::HasClientCode(first.verification_uri, first.user_code);
    let code_two = AuthMessageView::HasClientCode(second.verification_uri, second.user_code);
    assert(messages(a5) =~= seq![code_one, code_two, AuthMessageView::Completed]);
}

/// Rounds of waiting are answered twice each.
proof fn lemma_repeated_length(rounds: nat, pause: u64, request: RequestView)
    ensures
        repeated(rounds, pause, request).len() == 2 * rounds,
    decreases rounds,
{
    if rounds > 0 {
        lemma_repeated_length((rounds - 1) as nat, pause, request);
    }
}

/// Rounds of waiting are answered with pauses and exchanges only.
proof fn lemma_repeated_kinds(rounds: nat, pause: u64, request: RequestView, i: int)
    requires
        0 <= i < repeated(rounds, pause, request).len(),
    ensures
        repeated(rounds, pause, request)[i] is Sleep || repeated(rounds, pause, request)[i]
            is RequestToken,
    decreases rounds,
{
    if rounds > 0 && i >= 2 {
        lemma_repeated_length((rounds - 1) as nat, pause, request);
        lemma_repeated_kinds((rounds - 1) as nat, pause, request, i - 2);
    }
}

/// A code that has expired during the pause, and a refusal that is not
/// "pending", each open a new round: the next request asks for a new device
/// code.
pub proof fn lemma_dead_session_is_replaced(
    state: AuthenticatorView,
    failure: TokenResponseErrorView,
    now: u64,
)
    ensures
        state.phase is Polling && failure.error != AUTHORIZATION_PENDING@ ==> state.step(
            AuthReportView::Token(Ok(TokenResponseView::Failure(failure))),
            now,
        ) == state.restart(),
        state.phase is Resting && state.phase->Resting_0.expires_at <= now ==> state.step(
            AuthReportView::Rested,
            now,
        ) == state.restart(),
{
}

/// With a refresh token and no fresh access token, a request for a token is
/// served by the exchange of the refresh token alone: that exchange is the one
/// request sent, nothing is announced, and the tokens that it brings replace
/// the ones held.
pub proof fn lemma_refresh_renews_credential(
    state: AuthenticatorView,
    success: TokenResponseSuccessView,
    asked: u64,
    answered: u64,
)
    requires
        state.phase is Idle,
        !state.fresh(asked),
        state.refresh_token is Some,
        refresh_deadline(answered, success.expires_in) is Some,
    ensures
        ({
            let (s1, a1) = state.step(AuthReportView::Requested, asked);
            let (s2, a2) = s1.step(
                AuthReportView::Token(Ok(TokenResponseView::Success(success))),
                answered,
            );
            &&& a1 == AuthActionView::RequestToken(
                state.refresh_request(state.refresh_token->0),
            )
            &&& a2 == AuthActionView::Issued {
                token: success.access_token,
                store: Some(success.refresh_token),
            }
            &&& s2.phase is Idle
            &&& s2.access_token == Some(success.access_token)
            &&& s2.refresh_token == Some(success.refresh_token)
            &&& s2.refresh_after == refresh_deadline(answered, success.expires_in)->0
        }),
{
}

/// A refresh token that the server does not take is dropped: the request that
/// tried it ends with the error, and the next request starts the device flow.
pub proof fn lemma_rejected_refresh_falls_back(
    state: AuthenticatorView,
    answer: Result<TokenResponseErrorView, HttpError>,
    asked: u64,
    answered: u64,
    again: u64,
)
    requires
        state.phase is Idle,
        !state.fresh(asked),
        state.refresh_token is Some,
    ensures
        ({
            let report = match answer {
                Ok(failure) => AuthReportView::Token(Ok(TokenResponseView::Failure(failure))),
                Err(error) => AuthReportView::Token(Err(error)),
            };
            let (s1, a1) = state.step(AuthReportView::Requested, asked);
            let (s2, a2) = s1.step(report, answered);
            let (s3, a3) = s2.step(AuthReportView::Requested, again);
            &&& a1 == AuthActionView::RequestToken(
                state.refresh_request(state.refresh_token->0),
            )
            &&& a2 == AuthActionView::Failed(
                match answer {
                    Ok(failure) => AuthErrorView::AuthFailed(failure.error_description),
                    Err(error) => AuthErrorView::RequestFailed(Stage::Refresh, error),
                },
            )
            &&& s2.phase is Idle
            &&& s2.refresh_token is None
            &&& s2.access_token is None
            &&& a3 == AuthActionView::RequestDeviceCode(state.device_code_request())
            &&& s3.phase is RequestingCode
        }),
{
}

/// A token is handed out only while it is fresh: whenever the answer is the
/// token, it is the access token that the authenticator holds from then on,
/// the clock has not passed its expiry less the padding, and the authenticator
/// is at rest.
pub proof fn lemma_issued_token_is_fresh(
    state: AuthenticatorView,
    report: AuthReportView,
    now: u64,
)
    ensures
        state.step(report, now).1 matches AuthActionView::Issued { token, .. } ==> {
            let after = state.step(report, now).0;
            &&& after.access_token == Some(token)
            &&& after.fresh(now)
            &&& after.phase is Idle
        },
{
}

/// After [`Authenticator::invalidate`] the next request renews the token with
/// the refresh token that is held.
pub proof fn lemma_invalidated_token_is_renewed(state: AuthenticatorView, now: u64)
    requires
        state.phase is Idle,
        state.refresh_token is Some,
    ensures
        state.invalidated().step(AuthReportView::Requested, now).1 == AuthActionView::RequestToken(
            state.refresh_request(state.refresh_token->0),
        ),
{
}

/// A message goes out only where the device flow calls for one: the code when
/// a device code has arrived, the approval when the exchange of a device code
/// has brought tokens.
pub proof fn lemma_notifications(state: AuthenticatorView, report: AuthReportView, now: u64)
    ensures
        state.step(report, now).1 is Notify <==> {
            ||| state.phase is RequestingCode && report matches AuthReportView::DeviceCode(Ok(_))
            ||| state.phase is Polling && report matches AuthReportView::Token(
                Ok(TokenResponseView::Success(_)),
            )
        },
{
}

} // verus!
