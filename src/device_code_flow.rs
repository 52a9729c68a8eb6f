use vstd::prelude::*;
use crate::error::{ErrorCodes, OAuth2Error};
use crate::provider::{make_filename, InputParameters};
use crate::task_manager::TaskMessage;
use crate::token_codec::decode_record;
use crate::token_keeper::{expired_at, expiry_of, opt_view, RecordView, TokenRecord, TokenResponse};

verus! {

/// The client registration that the three exchanges with the authorization
/// server use.
#[derive(Clone)]
pub struct DeviceCodeFlow {
    client_id: String,
    client_secret: Option<String>,
    device_auth_endpoint: String,
    token_endpoint: String,
}

impl DeviceCodeFlow {
    pub closed spec fn client_id_view(&self) -> Seq<char> {
        self.client_id@
    }

    pub closed spec fn client_secret_view(&self) -> Option<Seq<char>> {
        opt_view(self.client_secret)
    }

    pub closed spec fn device_auth_endpoint_view(&self) -> Seq<char> {
        self.device_auth_endpoint@
    }

    pub closed spec fn token_endpoint_view(&self) -> Seq<char> {
        self.token_endpoint@
    }

    pub fn new(
        client_id: String,
        client_secret: Option<String>,
        device_auth_endpoint: String,
        token_endpoint: String,
    ) -> (r: Self)
        ensures
            r.client_id_view() == client_id@,
            r.client_secret_view() == opt_view(client_secret),
            r.device_auth_endpoint_view() == device_auth_endpoint@,
            r.token_endpoint_view() == token_endpoint@,
    {
        DeviceCodeFlow { client_id, client_secret, device_auth_endpoint, token_endpoint }
    }

    pub fn client_id(&self) -> (r: &String)
        ensures
            r@ == self.client_id_view(),
    {
        &self.client_id
    }

    pub fn client_secret(&self) -> (r: &Option<String>)
        ensures
            opt_view(*r) == self.client_secret_view(),
    {
        &self.client_secret
    }

    pub fn device_auth_endpoint(&self) -> (r: &String)
        ensures
            r@ == self.device_auth_endpoint_view(),
    {
        &self.device_auth_endpoint
    }

    pub fn token_endpoint(&self) -> (r: &String)
        ensures
            r@ == self.token_endpoint_view(),
    {
        &self.token_endpoint
    }

    /// Whether this registration is the one a descriptor describes.
    pub open spec fn describes(&self, param: &InputParameters) -> bool {
        &&& self.client_id_view() == param.client_id->0@
        &&& self.client_secret_view() == opt_view(param.client_secret)
        &&& self.device_auth_endpoint_view() == param.device_auth_endpoint->0@
        &&& self.token_endpoint_view() == param.token_endpoint->0@
    }
}

/// A descriptor holds what every exchange with the server needs.
pub open spec fn has_registration(param: &InputParameters) -> bool {
    &&& param.has_identity()
    &&& param.client_id is Some
    &&& param.device_auth_endpoint is Some
    &&& param.token_endpoint is Some
}

/// A descriptor holds what a login needs.
pub open spec fn login_ready(param: &InputParameters) -> bool {
    has_registration(param) && param.scopes is Some
}

fn config_error(message: &str) -> (e: OAuth2Error)
    ensures
        e.error_code == ErrorCodes::ConfigError,
{
    OAuth2Error::new(ErrorCodes::ConfigError, message.to_owned())
}

fn required(field: &Option<String>, message: &str) -> (r: Result<String, OAuth2Error>)
    ensures
        r is Ok <==> field is Some,
        r matches Ok(s) ==> s@ == field->0@,
        r matches Err(e) ==> e.error_code == ErrorCodes::ConfigError,
{
    match field {
        Some(s) => Ok(s.clone()),
        None => Err(config_error(message)),
    }
}

/// Checks a descriptor for the exchanges with the server and gives its task
/// key and client registration.
pub fn registration(param: &InputParameters) -> (r: Result<(String, DeviceCodeFlow), OAuth2Error>)
    ensures
        r is Ok <==> has_registration(param),
        r matches Ok((key, flow)) ==> key@ == param.key_view() && flow.describes(param),
        r matches Err(e) ==> e.error_code == ErrorCodes::ConfigError,
{
    let key = make_filename(param)?;
    let client_id = required(&param.client_id, "No Client ID supplied.")?;
    let device_auth_endpoint = required(&param.device_auth_endpoint, "No Device Auth URL supplied.")?;
    let token_endpoint = required(&param.token_endpoint, "No Token URL supplied.")?;
    let client_secret = match &param.client_secret {
        Some(s) => Some(s.clone()),
        None => None,
    };
    Ok((key, DeviceCodeFlow::new(client_id, client_secret, device_auth_endpoint, token_endpoint)))
}

/// What a login works with once its descriptor is checked.
pub struct LoginPlan {
    pub key: String,
    pub flow: DeviceCodeFlow,
    pub scopes: Vec<String>,
}

/// Checks a descriptor for a login: the registration and the scopes must
/// be there, else the login fails at once with a configuration error.
pub fn plan_login(param: &InputParameters) -> (r: Result<LoginPlan, OAuth2Error>)
    ensures
        r is Ok <==> login_ready(param),
        r matches Ok(plan) ==> {
            &&& plan.key@ == param.key_view()
            &&& plan.flow.describes(param)
            &&& plan.scopes@ == param.scopes->0@
        },
        r matches Err(e) ==> e.error_code == ErrorCodes::ConfigError,
{
    let (key, flow) = registration(param)?;
    let scopes = match &param.scopes {
        Some(s) => s.clone(),
        None => {
            return Err(config_error("No Scopes supplied."));
        },
    };
    Ok(LoginPlan { key, flow, scopes })
}

/// The message that cancels the login session of a descriptor.
pub fn cancel(param: &InputParameters) -> (r: Result<TaskMessage, OAuth2Error>)
    ensures
        r is Ok <==> param.has_identity(),
        r matches Ok(m) ==> m matches TaskMessage::Abort(k) && k@ == param.key_view(),
        r matches Err(e) ==> e.error_code == ErrorCodes::ConfigError,
{
    let key = make_filename(param)?;
    Ok(TaskMessage::Abort(key))
}

/// How an exchange with the authorization server failed.
#[derive(Clone, Debug)]
pub enum ExchangeFailure {
    /// The server refused a refresh token as no longer valid.
    InvalidGrant,
    /// The user declined the authorization.
    AccessDenied,
    /// The device code expired before the user approved it.
    ExpiredToken,
    /// Any other error that the server reported, with the server's error
    /// code.
    Server(String),
    /// The server's answer could not be understood.
    Malformed,
    /// The request did not reach the server or no answer came back, with
    /// the transport's own account of it.
    Transport(String),
}

/// The kind of error an exchange failure is reported as.
pub open spec fn failure_code(f: ExchangeFailure) -> ErrorCodes {
    match f {
        ExchangeFailure::Transport(_) => ErrorCodes::TransportError,
        _ => ErrorCodes::ProviderError,
    }
}

/// The message an exchange failure is reported with: the OAuth2 error code
/// of a server error, the transport's own account of a transport failure.
pub open spec fn failure_message(f: ExchangeFailure) -> Seq<char> {
    match f {
        ExchangeFailure::InvalidGrant => "invalid_grant"@,
        ExchangeFailure::AccessDenied => "access_denied"@,
        ExchangeFailure::ExpiredToken => "expired_token"@,
        ExchangeFailure::Server(code) => code@,
        ExchangeFailure::Malformed => "The answer of the authorization server is not understood."@,
        ExchangeFailure::Transport(text) => text@,
    }
}

/// The error that reports an exchange failure, unchanged: a denied login,
/// an expired device code and a refused grant each keep their own code.
pub fn failure_error(f: ExchangeFailure) -> (e: OAuth2Error)
    ensures
        e.error_code == failure_code(f),
        e.message@ == failure_message(f),
{
    match f {
        ExchangeFailure::InvalidGrant => OAuth2Error::new(
            ErrorCodes::ProviderError,
            String::from_str("invalid_grant"),
        ),
        ExchangeFailure::AccessDenied => OAuth2Error::new(
            ErrorCodes::ProviderError,
            String::from_str("access_denied"),
        ),
        ExchangeFailure::ExpiredToken => OAuth2Error::new(
            ErrorCodes::ProviderError,
            String::from_str("expired_token"),
        ),
        ExchangeFailure::Server(code) => OAuth2Error::new(ErrorCodes::ProviderError, code),
        ExchangeFailure::Malformed => OAuth2Error::new(
            ErrorCodes::ProviderError,
            String::from_str("The answer of the authorization server is not understood."),
        ),
        ExchangeFailure::Transport(text) => OAuth2Error::new(ErrorCodes::TransportError, text),
    }
}

/// The end of a background polling session: the token to keep, received at
/// `now`, or the error to report to the subscribers.
pub fn session_result(outcome: Result<TokenResponse, ExchangeFailure>, now: u64) -> (r: Result<TokenRecord, OAuth2Error>)
    ensures
        match outcome {
            Ok(resp) => r matches Ok(rec) && rec.view() == received(resp, now),
            Err(f) => r matches Err(e) && e.error_code == failure_code(f) && e.message@ == failure_message(f),
        },
{
    match outcome {
        Ok(resp) => Ok(TokenRecord::from_response(resp, now)),
        Err(f) => Err(failure_error(f)),
    }
}

/// The record of a token received at `now`.
pub open spec fn received(resp: TokenResponse, now: u64) -> RecordView {
    RecordView {
        access_token: resp.access_token@,
        refresh_token: opt_view(resp.refresh_token),
        token_type: resp.token_type@,
        expires_at: expiry_of(now, resp.expires_in),
        id_token: opt_view(resp.id_token),
    }
}

/// Reads the token of a task from the content of its file, `None` when
/// there is no file: that is no token rather than a broken one.
pub fn read_token(contents: Option<&str>) -> (r: Result<TokenRecord, OAuth2Error>)
    ensures
        contents is None ==> (r matches Err(e) && e.error_code == ErrorCodes::NoToken),
        contents matches Some(t) ==> match crate::token_codec::decode(t@) {
            Some(v) => r matches Ok(rec) && rec.view() == v,
            None => r matches Err(e) && e.error_code == ErrorCodes::SerializationError,
        },
{
    match contents {
        Some(text) => decode_record(text),
        None => Err(OAuth2Error::new(ErrorCodes::NoToken, String::from_str("There is no token."))),
    }
}

/// What to do with a kept token when a caller asks for it.
pub enum AccessStep {
    /// The token is still valid: hand it out.
    Ready(TokenRecord),
    /// The token expired: exchange this refresh token for a new one.
    Refresh(String),
    /// The token expired and cannot be refreshed: delete it and report
    /// that there is no token.
    Discard(OAuth2Error),
}

/// Decides on a kept token at `now`.
pub fn access_step(record: TokenRecord, now: u64) -> (r: AccessStep)
    ensures
        !expired_at(record.expires_at, now) ==> (r matches AccessStep::Ready(rec) && rec.view()
            == record.view()),
        expired_at(record.expires_at, now) && record.refresh_token is Some ==> (r matches AccessStep::Refresh(
            t,
        ) && t@ == record.refresh_token->0@),
        expired_at(record.expires_at, now) && record.refresh_token is None ==> (r matches AccessStep::Discard(
            e,
        ) && e.error_code == ErrorCodes::NoToken),
{
    if !record.has_expired(now) {
        AccessStep::Ready(record)
    } else {
        match record.refresh_token {
            Some(t) => AccessStep::Refresh(t),
            None => AccessStep::Discard(
                OAuth2Error::new(ErrorCodes::NoToken, String::from_str("There is no refresh token.")),
            ),
        }
    }
}

/// What to do after a refresh exchange.
pub enum RefreshStep {
    /// Save this token over the old one and hand it out.
    Save(TokenRecord),
    /// The kept token can never be refreshed: delete it and fail.
    Discard(OAuth2Error),
    /// Fail and leave the kept token as it is.
    Fail(OAuth2Error),
}

/// What a refresh step is for the outcome of an exchange made at `now`:
/// the answer is kept exactly as the server sent it.
pub open spec fn refresh_step_spec(outcome: Result<TokenResponse, ExchangeFailure>, now: u64, r: RefreshStep) -> bool {
    match outcome {
        Ok(resp) => r matches RefreshStep::Save(rec) && rec.view() == received(resp, now),
        Err(ExchangeFailure::InvalidGrant) => r matches RefreshStep::Discard(e) && e.error_code == ErrorCodes::NoToken
            && e.message@ == "The refresh token is no longer valid."@,
        Err(f) => r matches RefreshStep::Fail(e) && e.error_code == failure_code(f) && e.message@ == failure_message(f),
    }
}

/// Decides on the outcome of a refresh exchange made at `now`.
pub fn refresh_step(outcome: Result<TokenResponse, ExchangeFailure>, now: u64) -> (r: RefreshStep)
    ensures
        refresh_step_spec(outcome, now, r),
{
    match outcome {
        Ok(resp) => RefreshStep::Save(TokenRecord::from_response(resp, now)),
        Err(ExchangeFailure::InvalidGrant) => RefreshStep::Discard(
            OAuth2Error::new(ErrorCodes::NoToken, String::from_str("The refresh token is no longer valid.")),
        ),
        Err(f) => RefreshStep::Fail(failure_error(f)),
    }
}

/// The kept tokens, by task key.
pub type TokenStore = Map<Seq<char>, RecordView>;

/// The kept tokens after a refresh step for `key`.
pub open spec fn after_refresh(store: TokenStore, key: Seq<char>, step: RefreshStep) -> TokenStore {
    match step {
        RefreshStep::Save(rec) => store.insert(key, rec.view()),
        RefreshStep::Discard(_) => store.remove(key),
        RefreshStep::Fail(_) => store,
    }
}

/// A refresh that the server refuses with `invalid_grant` deletes the kept
/// token and reports that there is no token; one that fails with any other
/// server error keeps the token untouched and reports a provider error
/// that carries the server's error code.
pub proof fn lemma_refresh_policy(
    store: TokenStore,
    key: Seq<char>,
    now: u64,
    refused: RefreshStep,
    failed: RefreshStep,
    code: String,
)
    requires
        refresh_step_spec(Err(ExchangeFailure::InvalidGrant), now, refused),
        refresh_step_spec(Err(ExchangeFailure::Server(code)), now, failed),
    ensures
        !after_refresh(store, key, refused).contains_key(key),
        refused matches RefreshStep::Discard(e) && e.error_code == ErrorCodes::NoToken,
        after_refresh(store, key, failed) == store,
        failed matches RefreshStep::Fail(e) && e.error_code == ErrorCodes::ProviderError && e.message@ == code@,
{
}

/// What deleting a token file came to.
#[derive(Clone, Copy, Debug, PartialEq, Eq, Structural)]
pub enum DeleteOutcome {
    /// The file was there and is gone.
    Removed,
    /// There was no file.
    Absent,
    /// The file could not be deleted.
    Failed,
}

/// The answer of a logout whose deletion came to `outcome`: a file that is
/// not there is no error.
pub open spec fn logout_answer(outcome: DeleteOutcome) -> Result<bool, ErrorCodes> {
    match outcome {
        DeleteOutcome::Failed => Err(ErrorCodes::ConfigError),
        _ => Ok(true),
    }
}

/// The answer to a logout, from what deleting the token file came to.
pub fn logout_result(outcome: DeleteOutcome) -> (r: Result<bool, OAuth2Error>)
    ensures
        match logout_answer(outcome) {
            Ok(b) => r == Ok::<bool, OAuth2Error>(b),
            Err(c) => r matches Err(e) && e.error_code == c,
        },
{
    match outcome {
        DeleteOutcome::Failed => Err(config_error("The token file could not be deleted.")),
        _ => Ok(true),
    }
}

/// The kept tokens after a logout for `key`, and what its deletion came to.
pub open spec fn logout_effect(store: TokenStore, key: Seq<char>) -> (TokenStore, DeleteOutcome) {
    (store.remove(key), if store.contains_key(key) { DeleteOutcome::Removed } else { DeleteOutcome::Absent })
}

/// Logging out twice is logging out once: without a kept token both calls
/// succeed, and the second changes nothing.
pub proof fn lemma_logout_idempotent(store: TokenStore, key: Seq<char>)
    ensures
        ({
            let (once, first) = logout_effect(store, key);
            let (twice, second) = logout_effect(once, key);
            &&& twice == once
            &&& !store.contains_key(key) ==> logout_answer(first) == Ok::<bool, ErrorCodes>(true)
            &&& logout_answer(second) == Ok::<bool, ErrorCodes>(true)
        }),
{
    let (once, _) = logout_effect(store, key);
    assert(once.remove(key) =~= once);
}

} // verus!
