//! Invitation issuance: a random token, a pending invitation kept for a
//! fixed time, and delivery of the invitation message.
//!
//! Issuance alternates work done by the caller (writing to the cache,
//! sending the message) with decisions taken here: `create_invite` starts
//! an issuance and `next_step` decides, from each outcome the caller reports,
//! what is done next.

use vstd::prelude::*;
use rand::distributions::DistString;
use crate::models::{ApiError, InviteRequest, clone_opt_string};

verus! {

/// Seconds for which a pending invitation stays reachable.
pub const INVITE_TTL_SECS: u64 = 3600;

/// Number of characters of an invitation token.
pub const TOKEN_LEN: usize = 30;

/// An ASCII letter or digit.
pub open spec fn is_alphanumeric(c: char) -> bool {
    let n = c as u32;
    (48 <= n <= 57) || (65 <= n <= 90) || (97 <= n <= 122)
}

/// A well-formed invitation token: thirty ASCII letters and digits.
pub open spec fn is_token(t: Seq<char>) -> bool {
    t.len() == TOKEN_LEN && forall|i: int| 0 <= i < t.len() ==> is_alphanumeric(#[trigger] t[i])
}

/// Relies on `DistString::sample_string` of rand's `Alphanumeric` with the
/// thread-local generator: `len` characters, each drawn from `A`-`Z`, `a`-`z`
/// and `0`-`9`.
#[verifier::external_body]
fn random_alphanumeric(len: usize) -> (r: String)
    ensures
        r@.len() == len,
        forall|i: int| 0 <= i < r@.len() ==> is_alphanumeric(#[trigger] r@[i]),
{
    rand::distributions::Alphanumeric.sample_string(&mut rand::thread_rng(), len)
}

/// Credentials for the notification service, read once at start-up.
pub struct DeliveryConfig {
    pub api_key: String,
}

impl DeliveryConfig {
    /// A configuration from an API key; a missing or empty key is a
    /// configuration error.
    pub fn new(api_key: Option<String>) -> (r: Result<DeliveryConfig, ApiError>)
        ensures
            match api_key {
                Some(k) => if k@.len() > 0 {
                    r matches Ok(c) && c.api_key == k
                } else {
                    r == Err::<DeliveryConfig, ApiError>(ApiError::Configuration)
                },
                None => r == Err::<DeliveryConfig, ApiError>(ApiError::Configuration),
            },
    {
        match api_key {
            Some(k) => {
                if k.as_str().unicode_len() > 0 {
                    Ok(DeliveryConfig { api_key: k })
                } else {
                    Err(ApiError::Configuration)
                }
            },
            None => Err(ApiError::Configuration),
        }
    }
}

/// A message for the notification service.
pub struct EmailRequest {
    pub to: String,
    pub subject: String,
    pub message: String,
}

/// Subject line of invitation messages.
pub open spec fn invite_subject() -> Seq<char> {
    "You're Invited!"@
}

/// Body of the invitation message: a greeting by first name and a link that
/// carries the token.
pub open spec fn invite_message(first_name: Seq<char>, token: Seq<char>) -> Seq<char> {
    "Hello "@ + first_name
        + ",\n\nYou have been invited to join our platform. Use the following link to accept the invite: https://iam-staging.gingersociety/#/accept-invite/"@
        + token + "\n\nThe link expires in 1 hour."@
}

/// The invitation message for a first name and a token.
pub fn build_invite_message(first_name: &str, token: &str) -> (r: String)
    ensures
        r@ == invite_message(first_name@, token@),
{
    let s = String::from_str("Hello ");
    let s = s.concat(first_name);
    let s = s.concat(
        ",\n\nYou have been invited to join our platform. Use the following link to accept the invite: https://iam-staging.gingersociety/#/accept-invite/",
    );
    let s = s.concat(token);
    let s = s.concat("\n\nThe link expires in 1 hour.");
    s
}

impl InviteRequest {
    /// A copy of this request, equal to it.
    pub fn duplicate(&self) -> (r: InviteRequest)
        ensures
            r == *self,
    {
        InviteRequest {
            email_id: self.email_id.clone(),
            first_name: self.first_name.clone(),
            middle_name: clone_opt_string(&self.middle_name),
            last_name: self.last_name.clone(),
            is_root: self.is_root,
        }
    }
}

/// Where an issuance stands.
pub enum InviteState {
    /// The pending invitation is being written to the cache.
    AwaitingStore { token: String, email_id: String, first_name: String },
    /// The invitation message is being delivered.
    AwaitingSend,
    /// The issuance is over.
    Done,
}

/// The outcome of the work the caller was asked to do.
#[derive(Clone, Copy, Debug, PartialEq, Eq, Structural)]
pub enum InviteEvent {
    /// The pending invitation was written.
    Stored,
    /// The cache could not be reached or refused the write.
    StoreFailed,
    /// The message was accepted for delivery.
    Sent,
    /// The notification service could not deliver the message.
    SendFailed,
}

/// What the caller is to do next.
pub enum InviteAction {
    /// Keep `payload` under `token` for `ttl_secs` seconds.
    Store { token: String, payload: InviteRequest, ttl_secs: u64 },
    /// Deliver `email` with the notification service's `api_key`.
    Send { api_key: String, email: EmailRequest },
    /// Report this outcome to the requester.
    Finish(Result<(), ApiError>),
}

/// Starts issuing an invitation: draws a fresh token and asks for the
/// request to be kept under it for an hour.
pub fn create_invite(invite_request: InviteRequest) -> (r: (InviteState, InviteAction))
    ensures
        r.0 matches InviteState::AwaitingStore { token, email_id, first_name } && {
            &&& is_token(token@)
            &&& email_id == invite_request.email_id
            &&& first_name == invite_request.first_name
            &&& r.1 == InviteAction::Store {
                token,
                payload: invite_request,
                ttl_secs: INVITE_TTL_SECS,
            }
        },
{
    let token = random_alphanumeric(TOKEN_LEN);
    let state = InviteState::AwaitingStore {
        token: token.clone(),
        email_id: invite_request.email_id.clone(),
        first_name: invite_request.first_name.clone(),
    };
    (state, InviteAction::Store { token, payload: invite_request, ttl_secs: INVITE_TTL_SECS })
}

/// Decides what follows an outcome. Once the invitation is stored, a failed
/// delivery is reported as unavailability and the stored invitation is left
/// to expire: nothing asks for it to be removed.
pub fn next_step(state: InviteState, event: InviteEvent, config: &DeliveryConfig) -> (r: (
    InviteState,
    InviteAction,
))
    ensures
        match (state, event) {
            (InviteState::AwaitingStore { token, email_id, first_name }, InviteEvent::Stored) => {
                &&& r.0 is AwaitingSend
                &&& r.1 matches InviteAction::Send { api_key, email } && {
                    &&& api_key == config.api_key
                    &&& email.to == email_id
                    &&& email.subject@ == invite_subject()
                    &&& email.message@ == invite_message(first_name@, token@)
                }
            },
            (InviteState::AwaitingSend, InviteEvent::Sent) => {
                &&& r.0 is Done
                &&& r.1 matches InviteAction::Finish(res) && res is Ok
            },
            _ => {
                &&& r.0 is Done
                &&& r.1 matches InviteAction::Finish(res) && res == Err::<(), ApiError>(
                    ApiError::BackendUnavailable,
                )
            },
        },
{
    match (state, event) {
        (InviteState::AwaitingStore { token, email_id, first_name }, InviteEvent::Stored) => {
            let message = build_invite_message(first_name.as_str(), token.as_str());
            let email = EmailRequest {
                to: email_id,
                subject: String::from_str("You're Invited!"),
                message,
            };
            (InviteState::AwaitingSend, InviteAction::Send { api_key: config.api_key.clone(), email })
        },
        (InviteState::AwaitingSend, InviteEvent::Sent) => (
            InviteState::Done,
            InviteAction::Finish(Ok(())),
        ),
        _ => (InviteState::Done, InviteAction::Finish(Err(ApiError::BackendUnavailable))),
    }
}

} // verus!
