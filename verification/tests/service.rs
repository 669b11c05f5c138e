use auth_service::service::{
    AccountState, AuthError, AvailabilityField, ErrorClass, MyAuthService, PasswordDigest,
};
use auth_service::tokens::TokenConfig;

fn digest(password: &str) -> PasswordDigest {
    PasswordDigest {
        length: password.len(),
        digest: password.bytes().map(|b| b.wrapping_mul(31) ^ 0x5a).collect(),
    }
}

fn service() -> MyAuthService {
    MyAuthService::new(TokenConfig { access_ttl: 60, refresh_ttl: 600 }, 100, 50)
}

fn with_alice(svc: &mut MyAuthService) -> usize {
    let id = svc
        .sign_up_with("alice", "alice@x.com", digest("secret1"), 1_000, "user-alice", "verify-alice")
        .unwrap();
    assert_eq!(svc.verify_email("verify-alice", 1_001), Ok(id));
    id
}

#[test]
fn sign_up_verify_sign_in_scenario() {
    let mut svc = service();
    let id = svc
        .sign_up_with("alice", "alice@x.com", digest("secret1"), 1_000, "user-alice", "verify-alice")
        .unwrap();
    assert_eq!(id, 0);
    assert_eq!(svc.verify_email("wrong-token", 1_001), Err(AuthError::InvalidToken));
    assert_eq!(svc.account_state(id), AccountState::PendingVerification);
    assert_eq!(svc.verify_email("verify-alice", 1_001), Ok(id));
    assert_eq!(svc.account_state(id), AccountState::Active);
    assert_eq!(
        svc.sign_in_with("alice@x.com", &digest("secret1"), 1_002, "access-1", "refresh-1"),
        Ok(id)
    );
    assert_eq!(svc.authorize("access-1", 1_003), Ok(id));
    let refused = svc.sign_in_with("alice@x.com", &digest("wrong"), 1_004, "access-2", "refresh-2");
    assert_eq!(refused, Err(AuthError::InvalidCredentials));
    assert_eq!(AuthError::InvalidCredentials.class(), ErrorClass::Authentication);
    assert_eq!(svc.authorize("access-2", 1_005), Err(AuthError::InvalidCredentials));
}

#[test]
fn random_sign_up_and_sign_in() {
    let mut svc = MyAuthService::default();
    let signed = svc.sign_up("alice", "alice@x.com", digest("secret1"), 1_000).unwrap();
    assert_eq!(signed.account, 0);
    assert_eq!(signed.user_id.len(), 36);
    assert_eq!(signed.verification_token.len(), 36);
    assert_ne!(signed.user_id, signed.verification_token);
    assert_eq!(svc.store().get(0).user_id, signed.user_id);
    assert_eq!(svc.verify_email(&signed.verification_token, 1_001), Ok(0));
    let tokens = svc.sign_in("ALICE@x.com", &digest("secret1"), 1_002).unwrap();
    assert_eq!(tokens.access_token.len(), 49);
    assert_eq!(tokens.refresh_token.len(), 50);
    assert!(tokens.access_token.starts_with("access_token_"));
    assert!(tokens.refresh_token.starts_with("refresh_token_"));
    assert_eq!(svc.authorize(&tokens.access_token, 1_003), Ok(0));
    assert_eq!(svc.authorize(&tokens.refresh_token, 1_003), Err(AuthError::InvalidCredentials));
    let next = svc.refresh_token(&tokens.refresh_token, 1_004).unwrap();
    assert_ne!(next.refresh_token, tokens.refresh_token);
    assert_ne!(next.access_token, tokens.access_token);
    assert!(next.access_token.starts_with("access_token_"));
    assert!(next.refresh_token.starts_with("refresh_token_"));
    assert_eq!(next.access_token.len(), 49);
    assert_eq!(next.refresh_token.len(), 50);
    assert_eq!(svc.authorize(&next.access_token, 1_005), Ok(0));
    assert_eq!(
        svc.refresh_token(&tokens.refresh_token, 1_006).unwrap_err(),
        AuthError::InvalidCredentials
    );
}

#[test]
fn new_account_is_pending_and_cannot_sign_in() {
    let mut svc = service();
    let id = svc
        .sign_up_with("bob", "bob@x.com", digest("hunter22"), 5, "user-bob", "verify-bob")
        .unwrap();
    assert_eq!(svc.account_state(id), AccountState::PendingVerification);
    assert!(!svc.store().get(id).verified);
    assert_eq!(svc.store().get(id).created_at, 5);
    assert_eq!(
        svc.sign_in_with("bob@x.com", &digest("hunter22"), 6, "a", "r"),
        Err(AuthError::InvalidCredentials)
    );
    assert_eq!(svc.authorize("a", 7), Err(AuthError::InvalidCredentials));
    assert_eq!(svc.account_state(id + 1), AccountState::Unregistered);
}

#[test]
fn sign_up_rejects_empty_fields() {
    let mut svc = service();
    assert_eq!(
        svc.sign_up_with("", "a@x.com", digest("secret1"), 1, "u", "t"),
        Err(AuthError::MissingField)
    );
    assert_eq!(
        svc.sign_up_with("a", "", digest("secret1"), 1, "u", "t"),
        Err(AuthError::MissingField)
    );
    assert_eq!(
        svc.sign_up_with("a", "a@x.com", digest(""), 1, "u", "t"),
        Err(AuthError::MissingField)
    );
    assert_eq!(AuthError::MissingField.class(), ErrorClass::Validation);
    assert_eq!(svc.store().len(), 0);
}

#[test]
fn sign_up_rejects_malformed_email() {
    let mut svc = service();
    assert_eq!(
        svc.sign_up_with("a", "a.x.com", digest("secret1"), 1, "u", "t"),
        Err(AuthError::MalformedEmail)
    );
    assert_eq!(AuthError::MalformedEmail.class(), ErrorClass::Validation);
    assert_eq!(svc.sign_up("a", "nowhere", digest("secret1"), 1).unwrap_err(), AuthError::MalformedEmail);
}

#[test]
fn sign_up_rejects_duplicates_up_to_case() {
    let mut svc = service();
    with_alice(&mut svc);
    assert_eq!(
        svc.sign_up_with("ALICE", "other@x.com", digest("secret1"), 2, "u2", "t2"),
        Err(AuthError::Duplicate)
    );
    assert_eq!(
        svc.sign_up_with("carol", "Alice@X.com", digest("secret1"), 2, "u2", "t2"),
        Err(AuthError::Duplicate)
    );
    assert_eq!(AuthError::Duplicate.class(), ErrorClass::Duplicate);
    assert_eq!(svc.store().len(), 1);
}

#[test]
fn sign_up_with_a_used_identifier_or_token_is_transient() {
    let mut svc = service();
    with_alice(&mut svc);
    assert_eq!(
        svc.sign_up_with("bob", "bob@x.com", digest("secret1"), 2, "user-alice", "t2"),
        Err(AuthError::Transient)
    );
    assert_eq!(
        svc.sign_up_with("bob", "bob@x.com", digest("secret1"), 2, "user-bob", "verify-alice"),
        Err(AuthError::Transient)
    );
    assert_eq!(AuthError::Transient.class(), ErrorClass::Transient);
    assert_eq!(svc.store().len(), 1);
    assert_eq!(
        svc.sign_up_with("bob", "bob@x.com", digest("secret1"), 2, "user-bob", "verify-bob"),
        Ok(1)
    );
}

#[test]
fn check_availability_answers_by_field() {
    let mut svc = service();
    with_alice(&mut svc);
    assert!(!svc.check_availability(AvailabilityField::Username, "Alice"));
    assert!(svc.check_availability(AvailabilityField::Username, "alice@x.com"));
    assert!(!svc.check_availability(AvailabilityField::Email, "ALICE@X.COM"));
    assert!(svc.check_availability(AvailabilityField::Email, "bob@x.com"));
    assert!(svc.check_availability(AvailabilityField::Unspecified, "alice"));
}

#[test]
fn verify_email_twice_is_invalid_and_keeps_the_account_active() {
    let mut svc = service();
    let id = with_alice(&mut svc);
    assert_eq!(svc.verify_email("verify-alice", 1_002), Err(AuthError::InvalidToken));
    assert_eq!(svc.account_state(id), AccountState::Active);
}

#[test]
fn verify_email_at_expiry_is_expired() {
    let mut svc = service();
    let id = svc
        .sign_up_with("alice", "alice@x.com", digest("secret1"), 1_000, "user-alice", "verify-alice")
        .unwrap();
    assert_eq!(svc.verify_email("verify-alice", 1_100), Err(AuthError::ExpiredToken));
    assert_eq!(AuthError::ExpiredToken.class(), ErrorClass::Authentication);
    assert_eq!(svc.account_state(id), AccountState::PendingVerification);
    assert_eq!(svc.verify_email("verify-alice", 1_099), Ok(id));
}

#[test]
fn verify_email_refuses_a_reset_token() {
    let mut svc = service();
    with_alice(&mut svc);
    assert!(svc.request_password_reset_with("alice@x.com", 2_000, "reset-1"));
    assert_eq!(svc.verify_email("reset-1", 2_001), Err(AuthError::InvalidToken));
    assert_eq!(svc.reset_password("reset-1", digest("newpass1"), 2_002), Ok(0));
}

#[test]
fn sign_in_gives_one_error_for_every_mismatch() {
    let mut svc = service();
    with_alice(&mut svc);
    let unknown = svc.sign_in_with("nobody@x.com", &digest("secret1"), 2_000, "a", "r");
    let wrong = svc.sign_in_with("alice@x.com", &digest("secret2"), 2_000, "a", "r");
    let empty_email = svc.sign_in_with("", &digest("secret1"), 2_000, "a", "r");
    let empty_password = svc.sign_in_with("alice@x.com", &digest(""), 2_000, "a", "r");
    assert_eq!(unknown, Err(AuthError::InvalidCredentials));
    assert_eq!(wrong, unknown);
    assert_eq!(empty_email, unknown);
    assert_eq!(empty_password, unknown);
    let dummy = PasswordDigest { length: 3, digest: Vec::new() };
    assert_eq!(
        svc.sign_in_with("nobody@x.com", &dummy, 2_000, "a", "r"),
        Err(AuthError::InvalidCredentials)
    );
    assert_eq!(svc.sign_in("nobody@x.com", &digest("secret1"), 2_000).unwrap_err(), AuthError::InvalidCredentials);
}

#[test]
fn sign_in_with_unusable_strings_is_transient() {
    let mut svc = service();
    with_alice(&mut svc);
    assert_eq!(
        svc.sign_in_with("alice@x.com", &digest("secret1"), 2_000, "same", "same"),
        Err(AuthError::Transient)
    );
    assert_eq!(svc.sign_in_with("alice@x.com", &digest("secret1"), 2_000, "a1", "r1"), Ok(0));
    assert_eq!(
        svc.sign_in_with("alice@x.com", &digest("secret1"), 2_000, "a1", "r2"),
        Err(AuthError::Transient)
    );
    assert_eq!(svc.refresh_token_with("r2", 2_001, "a3", "r3"), Err(AuthError::InvalidCredentials));
}

#[test]
fn refresh_rotates_once() {
    let mut svc = service();
    with_alice(&mut svc);
    assert_eq!(svc.sign_in_with("alice@x.com", &digest("secret1"), 2_000, "a1", "r1"), Ok(0));
    let mut wins = 0;
    let mut losses = 0;
    for k in 0..5 {
        let access = format!("a-new-{}", k);
        let refresh = format!("r-new-{}", k);
        match svc.refresh_token_with("r1", 2_001 + k, &access, &refresh) {
            Ok(id) => {
                assert_eq!(id, 0);
                wins += 1;
            }
            Err(e) => {
                assert_eq!(e, AuthError::InvalidCredentials);
                losses += 1;
            }
        }
    }
    assert_eq!(wins, 1);
    assert_eq!(losses, 4);
    assert_eq!(svc.authorize("a-new-0", 2_010), Ok(0));
    assert_eq!(svc.refresh_token_with("r-new-0", 2_011, "a9", "r9"), Ok(0));
}

#[test]
fn refresh_refuses_unknown_expired_and_access_tokens() {
    let mut svc = service();
    with_alice(&mut svc);
    assert_eq!(svc.sign_in_with("alice@x.com", &digest("secret1"), 2_000, "a1", "r1"), Ok(0));
    assert_eq!(svc.refresh_token_with("nope", 2_001, "a2", "r2"), Err(AuthError::InvalidCredentials));
    assert_eq!(svc.refresh_token_with("", 2_001, "a2", "r2"), Err(AuthError::InvalidCredentials));
    assert_eq!(svc.refresh_token_with("a1", 2_001, "a2", "r2"), Err(AuthError::InvalidCredentials));
    assert_eq!(svc.refresh_token_with("r1", 2_600, "a2", "r2"), Err(AuthError::InvalidCredentials));
    assert_eq!(svc.refresh_token_with("r1", 2_599, "a1", "r2"), Err(AuthError::Transient));
    assert_eq!(svc.refresh_token_with("r1", 2_599, "a2", "r2"), Ok(0));
    assert_eq!(svc.authorize("a1", 2_059), Ok(0));
    assert_eq!(svc.authorize("a1", 2_060), Err(AuthError::InvalidCredentials));
}

#[test]
fn password_reset_request_answers_alike() {
    let mut svc = service();
    with_alice(&mut svc);
    let known = svc.request_password_reset("alice@x.com", 2_000);
    let unknown = svc.request_password_reset("nobody@x.com", 2_000);
    assert_eq!(known.message.as_bytes(), unknown.message.as_bytes());
    assert_eq!(
        known.message,
        "If an account with that email exists, a password reset link has been sent."
    );
    assert!(unknown.reset_token.is_none());
    let token = known.reset_token.unwrap();
    assert_eq!(token.len(), 36);
    assert_eq!(svc.reset_password(&token, digest("newpass1"), 2_001), Ok(0));
}

#[test]
fn several_reset_tokens_are_each_good_once() {
    let mut svc = service();
    with_alice(&mut svc);
    assert!(svc.request_password_reset_with("alice@x.com", 2_000, "reset-1"));
    assert!(svc.request_password_reset_with("ALICE@x.com", 2_001, "reset-2"));
    assert!(!svc.request_password_reset_with("alice@x.com", 2_002, "reset-2"));
    assert!(!svc.request_password_reset_with("nobody@x.com", 2_002, "reset-3"));
    assert_eq!(svc.reset_password("reset-1", digest("newpass1"), 2_003), Ok(0));
    assert_eq!(svc.reset_password("reset-2", digest("newpass2"), 2_004), Ok(0));
    assert_eq!(
        svc.reset_password("reset-1", digest("newpass3"), 2_005),
        Err(AuthError::InvalidOrExpiredToken)
    );
    assert_eq!(svc.reset_password("reset-3", digest("newpass3"), 2_005), Err(AuthError::InvalidOrExpiredToken));
}

#[test]
fn reset_password_revokes_refresh_tokens_scenario() {
    let mut svc = service();
    with_alice(&mut svc);
    let bob = svc
        .sign_up_with("bob", "bob@x.com", digest("hunter22"), 1_500, "user-bob", "verify-bob")
        .unwrap();
    assert_eq!(svc.verify_email("verify-bob", 1_501), Ok(bob));
    assert_eq!(svc.sign_in_with("alice@x.com", &digest("secret1"), 2_000, "a1", "r1"), Ok(0));
    assert_eq!(svc.sign_in_with("alice@x.com", &digest("secret1"), 2_000, "a2", "r2"), Ok(0));
    assert_eq!(svc.sign_in_with("bob@x.com", &digest("hunter22"), 2_000, "a3", "r3"), Ok(bob));
    assert!(svc.request_password_reset_with("alice@x.com", 2_001, "reset-1"));
    assert_eq!(svc.reset_password("reset-1", digest("newpass1"), 2_002), Ok(0));
    assert_eq!(svc.refresh_token_with("r1", 2_003, "b1", "s1"), Err(AuthError::InvalidCredentials));
    assert_eq!(svc.refresh_token_with("r2", 2_003, "b2", "s2"), Err(AuthError::InvalidCredentials));
    assert_eq!(svc.refresh_token_with("r3", 2_003, "b3", "s3"), Ok(bob));
    assert_eq!(
        svc.sign_in_with("alice@x.com", &digest("secret1"), 2_004, "a4", "r4"),
        Err(AuthError::InvalidCredentials)
    );
    assert_eq!(svc.sign_in_with("alice@x.com", &digest("newpass1"), 2_004, "a4", "r4"), Ok(0));
}

#[test]
fn reset_password_checks_the_request_first() {
    let mut svc = service();
    with_alice(&mut svc);
    assert!(svc.request_password_reset_with("alice@x.com", 2_000, "reset-1"));
    assert_eq!(svc.reset_password("", digest("newpass1"), 2_001), Err(AuthError::InvalidResetRequest));
    assert_eq!(
        svc.reset_password("reset-1", digest("short"), 2_001),
        Err(AuthError::InvalidResetRequest)
    );
    assert_eq!(AuthError::InvalidResetRequest.class(), ErrorClass::Validation);
    assert_eq!(
        svc.reset_password("reset-1", digest("newpass1"), 2_050),
        Err(AuthError::InvalidOrExpiredToken)
    );
    assert_eq!(AuthError::InvalidOrExpiredToken.class(), ErrorClass::Authentication);
    assert_eq!(AuthError::InvalidToken.class(), ErrorClass::Authentication);
    assert_eq!(svc.reset_password("reset-1", digest("sixsix"), 2_049), Ok(0));
}

#[test]
fn reset_is_pending_until_consumed_or_expired() {
    let mut svc = service();
    let id = with_alice(&mut svc);
    assert!(!svc.reset_pending(id, 2_000));
    assert!(svc.request_password_reset_with("alice@x.com", 2_000, "reset-1"));
    assert!(svc.reset_pending(id, 2_049));
    assert!(!svc.reset_pending(id, 2_050));
    assert_eq!(svc.account_state(id), AccountState::Active);
    assert_eq!(svc.reset_password("reset-1", digest("newpass1"), 2_010), Ok(id));
    assert!(!svc.reset_pending(id, 2_011));
}

#[test]
fn sweep_drops_expired_tokens_and_keeps_accounts() {
    let mut svc = service();
    let id = with_alice(&mut svc);
    assert_eq!(svc.sign_in_with("alice@x.com", &digest("secret1"), 2_000, "a1", "r1"), Ok(id));
    assert!(svc.request_password_reset_with("alice@x.com", 2_000, "reset-1"));
    assert_eq!(svc.sweep(2_050), (0, 2));
    assert_eq!(svc.sweep(2_060), (1, 0));
    assert_eq!(svc.store().len(), 1);
    assert_eq!(svc.account_state(id), AccountState::Active);
    assert_eq!(svc.reset_password("reset-1", digest("newpass1"), 2_061), Err(AuthError::InvalidOrExpiredToken));
    assert_eq!(svc.refresh_token_with("r1", 2_061, "a2", "r2"), Ok(id));
    assert_eq!(svc.sweep(u64::MAX), (3, 0));
}

#[test]
fn default_service_has_the_default_lifetimes() {
    let mut svc = MyAuthService::default();
    assert_eq!(svc.store().len(), 0);
    let id = svc.sign_up_with("alice", "alice@x.com", digest("secret1"), 0, "u", "v").unwrap();
    assert_eq!(svc.verify_email("v", 86_400), Err(AuthError::ExpiredToken));
    assert_eq!(svc.verify_email("v", 86_399), Ok(id));
    assert!(svc.request_password_reset_with("alice@x.com", 0, "r"));
    assert!(svc.reset_pending(id, 3_599));
    assert!(!svc.reset_pending(id, 3_600));
    assert_eq!(svc.sign_in_with("alice@x.com", &digest("secret1"), 0, "a1", "r1"), Ok(id));
    assert_eq!(svc.authorize("a1", 899), Ok(id));
    assert_eq!(svc.authorize("a1", 900), Err(AuthError::InvalidCredentials));
    assert_eq!(svc.refresh_token_with("r1", 2_592_000, "a2", "r2"), Err(AuthError::InvalidCredentials));
    assert_eq!(svc.refresh_token_with("r1", 2_591_999, "a2", "r2"), Ok(id));
}

#[test]
fn sign_up_on_a_fresh_service_issues_a_user_id() {
    let mut svc = MyAuthService::default();
    let signed = svc.sign_up("alice", "alice@x.com", digest("secret1"), 1_000).unwrap();
    assert!(!signed.user_id.is_empty());
    assert_eq!(signed.user_id.chars().count(), 36);
    assert_eq!(signed.verification_token.chars().count(), 36);
    assert_eq!(svc.account_state(signed.account), AccountState::PendingVerification);
    let second = svc.sign_up("bob", "bob@x.com", digest("hunter22"), 1_001).unwrap();
    assert_eq!(second.account, 1);
    assert_ne!(second.user_id, signed.user_id);
}

#[test]
fn password_length_is_counted_in_bytes() {
    let mut svc = service();
    with_alice(&mut svc);
    assert_eq!(digest("ééé").length, 6);
    assert!(svc.request_password_reset_with("alice@x.com", 2_000, "reset-1"));
    assert_eq!(svc.reset_password("reset-1", digest("ééé"), 2_001), Ok(0));
    assert!(svc.request_password_reset_with("alice@x.com", 2_002, "reset-2"));
    assert_eq!(
        svc.reset_password("reset-2", digest("éé1"), 2_003),
        Err(AuthError::InvalidResetRequest)
    );
}

#[test]
fn requested_reset_completes_with_the_issued_token() {
    let mut svc = MyAuthService::default();
    let signed = svc.sign_up("alice", "alice@x.com", digest("secret1"), 0).unwrap();
    let accepted = svc.request_password_reset("alice@x.com", 10);
    let token = accepted.reset_token.unwrap();
    assert!(!token.is_empty());
    assert_eq!(svc.reset_password(&token, digest("newpass1"), 11), Ok(signed.account));
    assert_eq!(
        svc.reset_password(&token, digest("newpass2"), 12),
        Err(AuthError::InvalidOrExpiredToken)
    );
}
