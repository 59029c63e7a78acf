use iam_admin::invite::{
    build_invite_message, create_invite, next_step, DeliveryConfig, InviteAction, InviteEvent,
    InviteState, INVITE_TTL_SECS, TOKEN_LEN,
};
use iam_admin::models::{ApiError, InviteRequest};
use iam_admin::pending::PendingInvitations;

fn request(email: &str) -> InviteRequest {
    InviteRequest {
        email_id: email.to_string(),
        first_name: "Ann".to_string(),
        middle_name: None,
        last_name: "Lee".to_string(),
        is_root: false,
    }
}

fn config() -> DeliveryConfig {
    DeliveryConfig::new(Some("SECRET-REDACTED".to_string())).ok().unwrap()
}

fn start(email: &str) -> (InviteState, String, InviteRequest, u64) {
    let (state, action) = create_invite(request(email));
    match action {
        InviteAction::Store { token, payload, ttl_secs } => (state, token, payload, ttl_secs),
        _ => panic!("first action must store the invitation"),
    }
}

#[test]
fn invite_stores_token_with_payload_for_an_hour() {
    let (_, token, payload, ttl) = start("a@x.com");
    assert_eq!(token.chars().count(), 30);
    assert_eq!(TOKEN_LEN, 30);
    assert!(token.chars().all(|c| c.is_ascii_alphanumeric()));
    assert_eq!(payload.email_id, "a@x.com");
    assert_eq!(payload.first_name, "Ann");
    assert_eq!(payload.last_name, "Lee");
    assert_eq!(ttl, 3600);
    assert_eq!(INVITE_TTL_SECS, 3600);

    let mut cache = PendingInvitations::new();
    cache.set_ex(token.clone(), payload, ttl, 1000);
    let got = cache.get(&token, 1000).unwrap();
    assert_eq!(got.email_id, "a@x.com");
    assert!(cache.get(&token, 4599).is_some());
    assert!(cache.get(&token, 4600).is_none());
    assert!(cache.get(&"other".to_string(), 1000).is_none());
}

#[test]
fn two_invites_for_one_email_get_distinct_tokens() {
    let (_, t1, p1, ttl1) = start("a@x.com");
    let (_, t2, p2, ttl2) = start("a@x.com");
    assert_ne!(t1, t2);
    let mut cache = PendingInvitations::new();
    cache.set_ex(t1.clone(), p1, ttl1, 0);
    cache.set_ex(t2.clone(), p2, ttl2, 10);
    assert_eq!(cache.get(&t1, 3599).unwrap().email_id, "a@x.com");
    assert_eq!(cache.get(&t2, 3609).unwrap().email_id, "a@x.com");
    assert!(cache.get(&t1, 3600).is_none());
    assert!(cache.get(&t2, 3600).is_some());
}

#[test]
fn failed_delivery_leaves_invitation_stored() {
    let (state, token, payload, ttl) = start("a@x.com");
    let mut cache = PendingInvitations::new();
    cache.set_ex(token.clone(), payload, ttl, 50);
    let cfg = config();
    let (state, action) = next_step(state, InviteEvent::Stored, &cfg);
    match action {
        InviteAction::Send { api_key, email } => {
            assert_eq!(api_key, "SECRET-REDACTED");
            assert_eq!(email.to, "a@x.com");
            assert_eq!(email.subject, "You're Invited!");
            assert!(email.message.starts_with("Hello Ann,\n\n"));
            assert!(email.message.contains(&format!("/#/accept-invite/{}\n\n", token)));
        }
        _ => panic!("a stored invitation must be sent"),
    }
    let (_, action) = next_step(state, InviteEvent::SendFailed, &cfg);
    assert!(matches!(action, InviteAction::Finish(Err(ApiError::BackendUnavailable))));
    assert!(cache.get(&token, 100).is_some());
}

#[test]
fn delivered_invitation_finishes_ok() {
    let (state, _, _, _) = start("b@x.com");
    let cfg = config();
    let (state, _) = next_step(state, InviteEvent::Stored, &cfg);
    let (state, action) = next_step(state, InviteEvent::Sent, &cfg);
    assert!(matches!(action, InviteAction::Finish(Ok(()))));
    assert!(matches!(state, InviteState::Done));
}

#[test]
fn failed_store_sends_nothing() {
    let (state, _, _, _) = start("c@x.com");
    let (state, action) = next_step(state, InviteEvent::StoreFailed, &config());
    assert!(matches!(action, InviteAction::Finish(Err(ApiError::BackendUnavailable))));
    assert!(matches!(state, InviteState::Done));
}

#[test]
fn invitation_message_text() {
    let m = build_invite_message("Ann", "abc123");
    assert_eq!(
        m,
        "Hello Ann,\n\nYou have been invited to join our platform. Use the following link to accept the invite: https://iam-staging.gingersociety/#/accept-invite/abc123\n\nThe link expires in 1 hour."
    );
}

#[test]
fn missing_delivery_key_is_a_configuration_error() {
    assert!(matches!(DeliveryConfig::new(None), Err(ApiError::Configuration)));
    assert!(matches!(DeliveryConfig::new(Some(String::new())), Err(ApiError::Configuration)));
    assert_eq!(config().api_key, "SECRET-REDACTED");
}

#[test]
fn resetting_a_token_replaces_its_payload() {
    let mut cache = PendingInvitations::new();
    cache.set_ex("t".to_string(), request("a@x.com"), 10, 0);
    cache.set_ex("t".to_string(), request("b@x.com"), 10, 5);
    assert_eq!(cache.get(&"t".to_string(), 12).unwrap().email_id, "b@x.com");
    assert!(cache.get(&"t".to_string(), 15).is_none());
}
