//! The operations of the authentication service, composed from the
//! credential store, the token service and the verification flow.
//!
//! Sign-in is refused until the address of the account has been verified.

use crate::ident::fresh_identifier;
use crate::ledger::{
    bounded, distinct, has_live, holds, holds_length, lemma_held_has_length,
    lemma_unexpired_bounded, Scope,
};
use crate::store::{
    by_email, email_taken, id_length_taken, id_taken, lemma_taken_id_has_length, new_account,
    unique, username_taken, AccountView, CredentialStore,
};
use crate::text::{constant_time_eq, is_well_formed_email, well_formed_email};
use crate::tokens::{
    access_token_text, fresh_access_string, fresh_refresh_string, refresh_token_text, revoked, room_for_pair, rotated, rotation_check,
    rotation_outcome, usable_pair, with_pair, RotateError, TokenConfig, TokenService,
    TokenServiceView, Tokens, DEFAULT_ACCESS_TTL, DEFAULT_REFRESH_TTL,
};
use crate::verification::{
    consume_outcome, consumed, issued, ConsumeError, FlowView, Purpose, VerificationFlow,
    DEFAULT_RESET_TTL, DEFAULT_VERIFY_TTL,
};
use vstd::prelude::*;

verus! {

/// The fewest bytes that a new password may have.
pub const MIN_PASSWORD_LENGTH: usize = 6;

/// What the hashing collaborator hands over for a password: the number of
/// bytes of the plaintext and its digest. The plaintext itself never
/// enters the service.
#[derive(Debug)]
pub struct PasswordDigest {
    pub length: usize,
    pub digest: Vec<u8>,
}

/// The field that an availability check asks about.
#[derive(Clone, Copy, Debug, PartialEq, Eq, Structural)]
pub enum AvailabilityField {
    Unspecified,
    Username,
    Email,
}

/// Where an account stands in its life.
#[derive(Clone, Copy, Debug, PartialEq, Eq, Structural)]
pub enum AccountState {
    Unregistered,
    PendingVerification,
    Active,
}

/// The state of the account with the given id.
pub open spec fn state_of(v: ServiceView, id: usize) -> AccountState {
    if id >= v.accounts.len() {
        AccountState::Unregistered
    } else if v.accounts[id as int].verified {
        AccountState::Active
    } else {
        AccountState::PendingVerification
    }
}

/// Why an operation was refused.
#[derive(Clone, Copy, Debug, PartialEq, Eq, Structural)]
pub enum AuthError {
    /// A required field was empty.
    MissingField,
    /// The address holds no `@`.
    MalformedEmail,
    /// The reset token was empty or the new password too short.
    InvalidResetRequest,
    /// The user name or the address is taken.
    Duplicate,
    /// Unknown address, wrong password, unverified account, or a refresh
    /// token that is unknown, expired or used.
    InvalidCredentials,
    /// A verification token that is unknown, used, or issued for something
    /// else.
    InvalidToken,
    /// A verification token presented at or after its expiry.
    ExpiredToken,
    /// A reset token that is unknown, used or expired.
    InvalidOrExpiredToken,
    /// Nothing was changed and the caller may try again.
    Transient,
}

/// The classes of failure that callers are shown.
#[derive(Clone, Copy, Debug, PartialEq, Eq, Structural)]
pub enum ErrorClass {
    Validation,
    Duplicate,
    Authentication,
    Transient,
}

/// The class of each failure.
pub open spec fn class_of(e: AuthError) -> ErrorClass {
    match e {
        AuthError::MissingField | AuthError::MalformedEmail | AuthError::InvalidResetRequest =>
            ErrorClass::Validation,
        AuthError::Duplicate => ErrorClass::Duplicate,
        AuthError::InvalidCredentials
        | AuthError::InvalidToken
        | AuthError::ExpiredToken
        | AuthError::InvalidOrExpiredToken => ErrorClass::Authentication,
        AuthError::Transient => ErrorClass::Transient,
    }
}

impl AuthError {
    /// The class of the failure.
    pub fn class(&self) -> (r: ErrorClass)
        ensures
            r == class_of(*self),
    {
        match self {
            AuthError::MissingField => ErrorClass::Validation,
            AuthError::MalformedEmail => ErrorClass::Validation,
            AuthError::InvalidResetRequest => ErrorClass::Validation,
            AuthError::Duplicate => ErrorClass::Duplicate,
            AuthError::InvalidCredentials => ErrorClass::Authentication,
            AuthError::InvalidToken => ErrorClass::Authentication,
            AuthError::ExpiredToken => ErrorClass::Authentication,
            AuthError::InvalidOrExpiredToken => ErrorClass::Authentication,
            AuthError::Transient => ErrorClass::Transient,
        }
    }
}

/// What a successful sign-up hands back: the account, its identifier, and
/// the verification token that is to be sent to the address.
#[derive(Debug)]
pub struct SignedUp {
    pub account: usize,
    pub user_id: String,
    pub verification_token: String,
}

/// The answer to a request for a password reset. The message is the same
/// for every address; `reset_token` is what is to be sent to the address,
/// where there is an account to send it to.
#[derive(Debug)]
pub struct ResetAccepted {
    pub message: String,
    pub reset_token: Option<String>,
}

/// The mathematical content of a [`MyAuthService`].
pub struct ServiceView {
    pub accounts: Seq<AccountView>,
    pub sessions: TokenServiceView,
    pub flow: FlowView,
}

/// The invariant of the service: accounts are unique and their ids fit the
/// machine, token strings are distinct, and every token is bound to an
/// account that exists.
pub open spec fn valid(v: ServiceView) -> bool {
    &&& unique(v.accounts)
    &&& v.accounts.len() <= usize::MAX
    &&& distinct(v.sessions.tokens)
    &&& distinct(v.flow.tokens)
    &&& bounded(v.sessions.tokens, v.accounts.len())
    &&& bounded(v.flow.tokens, v.accounts.len())
}

/// The message that answers every request for a password reset.
pub open spec fn reset_request_message() -> Seq<char> {
    "If an account with that email exists, a password reset link has been sent."@
}

/// Whether a value is free for the field.
pub open spec fn available(v: ServiceView, field: AvailabilityField, value: Seq<char>) -> bool {
    match field {
        AvailabilityField::Username => !username_taken(v.accounts, value),
        AvailabilityField::Email => !email_taken(v.accounts, value),
        AvailabilityField::Unspecified => true,
    }
}

/// The reason against a sign-up that the fields alone give, if any.
pub open spec fn sign_up_refusal(
    v: ServiceView,
    username: Seq<char>,
    email: Seq<char>,
    password_length: usize,
) -> Option<AuthError> {
    if username.len() == 0 || email.len() == 0 || password_length == 0 {
        Some(AuthError::MissingField)
    } else if !well_formed_email(email) {
        Some(AuthError::MalformedEmail)
    } else if username_taken(v.accounts, username) || email_taken(v.accounts, email) {
        Some(AuthError::Duplicate)
    } else {
        None
    }
}

/// What a sign-up yields: the id of the new account, or the first reason
/// against it. An identifier or a token string that is in use is a
/// transient failure.
pub open spec fn sign_up_outcome(
    v: ServiceView,
    username: Seq<char>,
    email: Seq<char>,
    password_length: usize,
    user_id: Seq<char>,
    token: Seq<char>,
) -> Result<usize, AuthError> {
    match sign_up_refusal(v, username, email, password_length) {
        Some(e) => Err(e),
        None => if id_taken(v.accounts, user_id) || holds(v.flow.tokens, token) {
            Err(AuthError::Transient)
        } else {
            Ok(v.accounts.len() as usize)
        },
    }
}

/// The service after a sign-up: on success it holds the new, unverified
/// account and a verification token for it; otherwise nothing changes.
pub open spec fn signed_up(
    v: ServiceView,
    username: Seq<char>,
    email: Seq<char>,
    password_length: usize,
    digest: Seq<u8>,
    now: u64,
    user_id: Seq<char>,
    token: Seq<char>,
) -> ServiceView {
    match sign_up_outcome(v, username, email, password_length, user_id, token) {
        Ok(id) => ServiceView {
            accounts: v.accounts.push(new_account(user_id, username, email, digest, now)),
            flow: issued(v.flow, id, Purpose::VerifyEmail, now, token),
            ..v
        },
        Err(_) => v,
    }
}

/// What presenting an e-mail verification token yields.
pub open spec fn verify_outcome(v: ServiceView, token: Seq<char>, now: u64) -> Result<
    usize,
    AuthError,
> {
    match consume_outcome(v.flow, token, Purpose::VerifyEmail, now) {
        Ok(id) => Ok(id),
        Err(ConsumeError::Expired) => Err(AuthError::ExpiredToken),
        Err(_) => Err(AuthError::InvalidToken),
    }
}

/// The service after an e-mail verification token is presented: on success
/// the token is spent and its account is verified.
pub open spec fn email_verified(v: ServiceView, token: Seq<char>, now: u64) -> ServiceView {
    match verify_outcome(v, token, now) {
        Ok(id) => ServiceView {
            accounts: v.accounts.update(
                id as int,
                AccountView { verified: true, ..v.accounts[id as int] },
            ),
            flow: consumed(v.flow, token, Purpose::VerifyEmail, now),
            ..v
        },
        Err(_) => v,
    }
}

/// The account that the address and the digest authenticate: one that
/// exists, is verified and holds that digest.
pub open spec fn authenticates(
    v: ServiceView,
    email: Seq<char>,
    password_length: usize,
    digest: Seq<u8>,
) -> Option<usize> {
    if email.len() == 0 || password_length == 0 {
        None
    } else {
        match by_email(v.accounts, email) {
            None => None,
            Some(i) => if v.accounts[i].verified && v.accounts[i].password_hash == digest {
                Some(i as usize)
            } else {
                None
            },
        }
    }
}

/// What a sign-in yields. Every failure to authenticate gives the same
/// error.
pub open spec fn sign_in_outcome(
    v: ServiceView,
    email: Seq<char>,
    password_length: usize,
    digest: Seq<u8>,
    access: Seq<char>,
    refresh: Seq<char>,
) -> Result<usize, AuthError> {
    match authenticates(v, email, password_length, digest) {
        None => Err(AuthError::InvalidCredentials),
        Some(id) => if usable_pair(v.sessions, access, refresh) {
            Ok(id)
        } else {
            Err(AuthError::Transient)
        },
    }
}

/// The service after a sign-in: on success the pair is recorded.
pub open spec fn signed_in(
    v: ServiceView,
    email: Seq<char>,
    password_length: usize,
    digest: Seq<u8>,
    now: u64,
    access: Seq<char>,
    refresh: Seq<char>,
) -> ServiceView {
    match sign_in_outcome(v, email, password_length, digest, access, refresh) {
        Ok(id) => ServiceView { sessions: with_pair(v.sessions, id, now, access, refresh), ..v },
        Err(_) => v,
    }
}

/// What presenting a refresh token yields. An unknown, expired or used
/// token gives the same error.
pub open spec fn refresh_outcome(
    v: ServiceView,
    token: Seq<char>,
    now: u64,
    access: Seq<char>,
    refresh: Seq<char>,
) -> Result<usize, AuthError> {
    match rotation_outcome(v.sessions, token, now, access, refresh) {
        Ok(id) => Ok(id),
        Err(RotateError::Unavailable) => Err(AuthError::Transient),
        Err(_) => Err(AuthError::InvalidCredentials),
    }
}

/// The service after a refresh token is presented.
pub open spec fn refreshed(
    v: ServiceView,
    token: Seq<char>,
    now: u64,
    access: Seq<char>,
    refresh: Seq<char>,
) -> ServiceView {
    ServiceView { sessions: rotated(v.sessions, token, now, access, refresh), ..v }
}

/// The service after a password reset is requested for an address: a reset
/// token is issued where the address has an account.
pub open spec fn reset_requested(v: ServiceView, email: Seq<char>, now: u64, token: Seq<char>) -> ServiceView {
    match by_email(v.accounts, email) {
        None => v,
        Some(i) => ServiceView {
            flow: issued(v.flow, i as usize, Purpose::ResetPassword, now, token),
            ..v
        },
    }
}

/// What completing a password reset yields.
pub open spec fn reset_outcome(
    v: ServiceView,
    token: Seq<char>,
    password_length: usize,
    now: u64,
) -> Result<usize, AuthError> {
    if token.len() == 0 || password_length < MIN_PASSWORD_LENGTH {
        Err(AuthError::InvalidResetRequest)
    } else {
        match consume_outcome(v.flow, token, Purpose::ResetPassword, now) {
            Ok(id) => Ok(id),
            Err(_) => Err(AuthError::InvalidOrExpiredToken),
        }
    }
}

/// The service after a password reset: on success the token is spent, the
/// account holds the new digest, and its refresh tokens are revoked.
pub open spec fn password_reset(
    v: ServiceView,
    token: Seq<char>,
    password_length: usize,
    digest: Seq<u8>,
    now: u64,
) -> ServiceView {
    match reset_outcome(v, token, password_length, now) {
        Ok(id) => ServiceView {
            accounts: v.accounts.update(
                id as int,
                AccountView { password_hash: digest, ..v.accounts[id as int] },
            ),
            sessions: revoked(v.sessions, id),
            flow: consumed(v.flow, token, Purpose::ResetPassword, now),
        },
        Err(_) => v,
    }
}

/// The service after every token that expired at `now` or earlier is
/// dropped. Accounts are never dropped.
pub open spec fn swept(v: ServiceView, now: u64) -> ServiceView {
    ServiceView {
        sessions: crate::tokens::swept(v.sessions, now),
        flow: crate::verification::swept(v.flow, now),
        ..v
    }
}

/// The authentication service: its accounts, its session tokens and its
/// verification tokens.
#[derive(Debug)]
pub struct MyAuthService {
    store: CredentialStore,
    tokens: TokenService,
    flow: VerificationFlow,
}

impl View for MyAuthService {
    type V = ServiceView;

    closed spec fn view(&self) -> ServiceView {
        ServiceView { accounts: self.store@, sessions: self.tokens@, flow: self.flow@ }
    }
}

impl Default for MyAuthService {
    /// A service without accounts, with the default lifetimes.
    fn default() -> (r: MyAuthService)
        ensures
            r.wf(),
            r@.accounts == Seq::<AccountView>::empty(),
            r@.sessions == (TokenServiceView {
                tokens: Seq::empty(),
                config: TokenConfig {
                    access_ttl: DEFAULT_ACCESS_TTL,
                    refresh_ttl: DEFAULT_REFRESH_TTL,
                },
            }),
            r@.flow == (FlowView {
                tokens: Seq::empty(),
                verify_ttl: DEFAULT_VERIFY_TTL,
                reset_ttl: DEFAULT_RESET_TTL,
            }),
    {
        MyAuthService::new(
            TokenConfig { access_ttl: DEFAULT_ACCESS_TTL, refresh_ttl: DEFAULT_REFRESH_TTL },
            DEFAULT_VERIFY_TTL,
            DEFAULT_RESET_TTL,
        )
    }
}

impl MyAuthService {
    /// The invariant of the service.
    pub open spec fn wf(&self) -> bool {
        valid(self@)
    }

    /// A service without accounts, with its own lifetimes, in seconds.
    pub fn new(config: TokenConfig, verify_ttl: u64, reset_ttl: u64) -> (r: MyAuthService)
        ensures
            r.wf(),
            r@.accounts == Seq::<AccountView>::empty(),
            r@.sessions == (TokenServiceView { tokens: Seq::empty(), config }),
            r@.flow == (FlowView { tokens: Seq::empty(), verify_ttl, reset_ttl }),
    {
        MyAuthService {
            store: CredentialStore::new(),
            tokens: TokenService::new(config),
            flow: VerificationFlow::new(verify_ttl, reset_ttl),
        }
    }

    /// The credential store of the service.
    pub fn store(&self) -> (r: &CredentialStore)
        ensures
            r@ == self@.accounts,
    {
        &self.store
    }

    /// The state of the account with the given id.
    pub fn account_state(&self, id: usize) -> (r: AccountState)
        ensures
            r == state_of(self@, id),
    {
        if id >= self.store.len() {
            AccountState::Unregistered
        } else if self.store.get(id).verified {
            AccountState::Active
        } else {
            AccountState::PendingVerification
        }
    }

    /// Tells whether a password reset is pending for the account: it holds
    /// a reset token that could still be consumed at `now`.
    pub fn reset_pending(&self, id: usize, now: u64) -> (r: bool)
        ensures
            r == has_live(self@.flow.tokens, id, Scope::ResetPassword, now),
    {
        self.flow.pending(id, Purpose::ResetPassword, now)
    }

    /// Tells whether a user name or an address is free. The answer is a
    /// single bit and says nothing of why a value is not free.
    pub fn check_availability(&self, field: AvailabilityField, value: &str) -> (r: bool)
        requires
            self.wf(),
        ensures
            r == available(self@, field, value@),
    {
        match field {
            AvailabilityField::Username => self.store.find_by_username(value).is_none(),
            AvailabilityField::Email => self.store.find_by_email(value).is_none(),
            AvailabilityField::Unspecified => true,
        }
    }

    /// Signs up an account whose identifier is `user_id` and whose
    /// verification token is `token`.
    pub fn sign_up_with(
        &mut self,
        username: &str,
        email: &str,
        password: PasswordDigest,
        now: u64,
        user_id: &str,
        token: &str,
    ) -> (r: Result<usize, AuthError>)
        requires
            old(self).wf(),
        ensures
            final(self).wf(),
            r == sign_up_outcome(old(self)@, username@, email@, password.length, user_id@, token@),
            final(self)@ == signed_up(
                old(self)@,
                username@,
                email@,
                password.length,
                password.digest@,
                now,
                user_id@,
                token@,
            ),
    {
        if username.is_empty() || email.is_empty() || password.length == 0 {
            return Err(AuthError::MissingField);
        }
        if !is_well_formed_email(email) {
            return Err(AuthError::MalformedEmail);
        }
        if self.store.find_by_username(username).is_some() || self.store.find_by_email(
            email,
        ).is_some() {
            return Err(AuthError::Duplicate);
        }
        if self.store.has_id(user_id) {
            return Err(AuthError::Transient);
        }
        let id: usize = self.store.len();
        if !self.flow.issue_with(id, Purpose::VerifyEmail, now, token) {
            return Err(AuthError::Transient);
        }
        let created = self.store.create(user_id, username, email, password.digest, now);
        assert(created == Ok::<usize, crate::store::StoreError>(id));
        Ok(id)
    }

    /// Signs up an account with a random identifier and a random
    /// verification token, each of 36 characters. Whether the fields are
    /// accepted does not depend on the draw. Where they are, the sign-up
    /// succeeds unless the draw gave an identifier or a token that is in
    /// use, which cannot be where none of that length is held.
    pub fn sign_up(&mut self, username: &str, email: &str, password: PasswordDigest, now: u64) -> (r:
        Result<SignedUp, AuthError>)
        requires
            old(self).wf(),
        ensures
            final(self).wf(),
            match r {
                Ok(s) => s.user_id@.len() == 36 && s.verification_token@.len() == 36
                    && sign_up_outcome(
                    old(self)@,
                    username@,
                    email@,
                    password.length,
                    s.user_id@,
                    s.verification_token@,
                ) == Ok::<usize, AuthError>(s.account) && final(self)@ == signed_up(
                    old(self)@,
                    username@,
                    email@,
                    password.length,
                    password.digest@,
                    now,
                    s.user_id@,
                    s.verification_token@,
                ),
                Err(e) => final(self)@ == old(self)@ && if e == AuthError::Transient {
                    sign_up_refusal(old(self)@, username@, email@, password.length) is None && (
                    id_length_taken(old(self)@.accounts, 36) || holds_length(
                        old(self)@.flow.tokens,
                        36,
                    ))
                } else {
                    sign_up_refusal(old(self)@, username@, email@, password.length) == Some(e)
                },
            },
            sign_up_refusal(old(self)@, username@, email@, password.length) matches Some(e) ==> r
                == Err::<SignedUp, AuthError>(e),
            sign_up_refusal(old(self)@, username@, email@, password.length) is None
                && !holds_length(old(self)@.flow.tokens, 36) && !id_length_taken(
                old(self)@.accounts,
                36,
            ) ==> r is Ok,
    {
        let user_id: String = fresh_identifier();
        let token: String = fresh_identifier();
        proof {
            if id_taken(self@.accounts, user_id@) {
                lemma_taken_id_has_length(self@.accounts, user_id@);
            }
            if holds(self@.flow.tokens, token@) {
                lemma_held_has_length(self@.flow.tokens, token@);
            }
        }
        match self.sign_up_with(username, email, password, now, user_id.as_str(), token.as_str()) {
            Ok(account) => Ok(SignedUp { account, user_id, verification_token: token }),
            Err(e) => Err(e),
        }
    }

    /// Presents an e-mail verification token. On success the account is
    /// verified; a token that was accepted before is invalid and changes
    /// nothing.
    pub fn verify_email(&mut self, token: &str, now: u64) -> (r: Result<usize, AuthError>)
        requires
            old(self).wf(),
        ensures
            final(self).wf(),
            r == verify_outcome(old(self)@, token@, now),
            final(self)@ == email_verified(old(self)@, token@, now),
    {
        match self.flow.consume(token, Purpose::VerifyEmail, now) {
            Ok(id) => {
                self.store.mark_verified(id);
                Ok(id)
            },
            Err(ConsumeError::Expired) => Err(AuthError::ExpiredToken),
            Err(_) => Err(AuthError::InvalidToken),
        }
    }

    /// Signs in and records the pair whose strings are `access` and
    /// `refresh`. Every byte of the presented digest is visited whether or
    /// not the address has an account.
    pub fn sign_in_with(
        &mut self,
        email: &str,
        password: &PasswordDigest,
        now: u64,
        access: &str,
        refresh: &str,
    ) -> (r: Result<usize, AuthError>)
        requires
            old(self).wf(),
        ensures
            final(self).wf(),
            r == sign_in_outcome(
                old(self)@,
                email@,
                password.length,
                password.digest@,
                access@,
                refresh@,
            ),
            final(self)@ == signed_in(
                old(self)@,
                email@,
                password.length,
                password.digest@,
                now,
                access@,
                refresh@,
            ),
    {
        if email.is_empty() || password.length == 0 {
            return Err(AuthError::InvalidCredentials);
        }
        let found = self.store.find_by_email(email);
        let dummy: Vec<u8> = Vec::new();
        let (matches, verified) = match found {
            Some(id) => {
                let account = self.store.get(id);
                (constant_time_eq(&password.digest, &account.password_hash), account.verified)
            },
            None => (constant_time_eq(&password.digest, &dummy), false),
        };
        match found {
            Some(id) => {
                if matches && verified {
                    if self.tokens.issue_pair_with(id, now, access, refresh) {
                        Ok(id)
                    } else {
                        Err(AuthError::Transient)
                    }
                } else {
                    Err(AuthError::InvalidCredentials)
                }
            },
            None => Err(AuthError::InvalidCredentials),
        }
    }

    /// Signs in and issues a pair with new random strings. Whether the
    /// credentials are accepted does not depend on the draw. Where they
    /// are, the pair is issued unless the draw gave a string that is
    /// already held, which cannot be where there is room for a pair.
    pub fn sign_in(&mut self, email: &str, password: &PasswordDigest, now: u64) -> (r: Result<
        Tokens,
        AuthError,
    >)
        requires
            old(self).wf(),
        ensures
            final(self).wf(),
            match r {
                Ok(t) => access_token_text(t.access_token@) && refresh_token_text(
                    t.refresh_token@,
                ) && sign_in_outcome(
                    old(self)@,
                    email@,
                    password.length,
                    password.digest@,
                    t.access_token@,
                    t.refresh_token@,
                ) is Ok && final(self)@ == signed_in(
                    old(self)@,
                    email@,
                    password.length,
                    password.digest@,
                    now,
                    t.access_token@,
                    t.refresh_token@,
                ),
                Err(e) => final(self)@ == old(self)@ && if e == AuthError::Transient {
                    !room_for_pair(old(self)@.sessions)
                } else {
                    e == AuthError::InvalidCredentials
                },
            },
            authenticates(old(self)@, email@, password.length, password.digest@) is None <==> r
                == Err::<Tokens, AuthError>(AuthError::InvalidCredentials),
            authenticates(old(self)@, email@, password.length, password.digest@) is Some
                && room_for_pair(old(self)@.sessions) ==> r is Ok,
    {
        let access: String = fresh_access_string();
        let refresh: String = fresh_refresh_string();
        proof {
            if holds(self@.sessions.tokens, access@) {
                lemma_held_has_length(self@.sessions.tokens, access@);
            }
            if holds(self@.sessions.tokens, refresh@) {
                lemma_held_has_length(self@.sessions.tokens, refresh@);
            }
        }
        match self.sign_in_with(email, password, now, access.as_str(), refresh.as_str()) {
            Ok(_) => Ok(Tokens { access_token: access, refresh_token: refresh }),
            Err(e) => Err(e),
        }
    }

    /// Rotates a refresh token into the pair whose strings are `access` and
    /// `refresh`.
    pub fn refresh_token_with(&mut self, token: &str, now: u64, access: &str, refresh: &str) -> (r:
        Result<usize, AuthError>)
        requires
            old(self).wf(),
        ensures
            final(self).wf(),
            r == refresh_outcome(old(self)@, token@, now, access@, refresh@),
            final(self)@ == refreshed(old(self)@, token@, now, access@, refresh@),
    {
        match self.tokens.rotate_refresh_token_with(token, now, access, refresh) {
            Ok(id) => Ok(id),
            Err(RotateError::Unavailable) => Err(AuthError::Transient),
            Err(_) => Err(AuthError::InvalidCredentials),
        }
    }

    /// Rotates a refresh token into a pair with new random strings. Whether
    /// the token is accepted does not depend on the draw. Where it is, the
    /// pair is issued unless the draw gave a string that is already held,
    /// which cannot be where there is room for a pair.
    pub fn refresh_token(&mut self, token: &str, now: u64) -> (r: Result<Tokens, AuthError>)
        requires
            old(self).wf(),
        ensures
            final(self).wf(),
            match r {
                Ok(t) => access_token_text(t.access_token@) && refresh_token_text(
                    t.refresh_token@,
                ) && refresh_outcome(old(self)@, token@, now, t.access_token@, t.refresh_token@)
                    is Ok && final(self)@ == refreshed(
                    old(self)@,
                    token@,
                    now,
                    t.access_token@,
                    t.refresh_token@,
                ),
                Err(e) => final(self)@ == old(self)@ && if e == AuthError::Transient {
                    !room_for_pair(old(self)@.sessions)
                } else {
                    e == AuthError::InvalidCredentials
                },
            },
            rotation_check(old(self)@.sessions, token@, now) is Err <==> r == Err::<
                Tokens,
                AuthError,
            >(AuthError::InvalidCredentials),
            rotation_check(old(self)@.sessions, token@, now) is Ok && room_for_pair(
                old(self)@.sessions,
            ) ==> r is Ok,
    {
        let access: String = fresh_access_string();
        let refresh: String = fresh_refresh_string();
        proof {
            if holds(self@.sessions.tokens, access@) {
                lemma_held_has_length(self@.sessions.tokens, access@);
            }
            if holds(self@.sessions.tokens, refresh@) {
                lemma_held_has_length(self@.sessions.tokens, refresh@);
            }
        }
        match self.refresh_token_with(token, now, access.as_str(), refresh.as_str()) {
            Ok(_) => Ok(Tokens { access_token: access, refresh_token: refresh }),
            Err(e) => Err(e),
        }
    }

    /// Requests a password reset with the reset token `token`. Tells
    /// whether a token was issued: the address has an account and the
    /// string was not held.
    pub fn request_password_reset_with(&mut self, email: &str, now: u64, token: &str) -> (r: bool)
        requires
            old(self).wf(),
        ensures
            final(self).wf(),
            r == (by_email(old(self)@.accounts, email@) is Some && !holds(
                old(self)@.flow.tokens,
                token@,
            )),
            final(self)@ == reset_requested(old(self)@, email@, now, token@),
    {
        match self.store.find_by_email(email) {
            Some(id) => self.flow.issue_with(id, Purpose::ResetPassword, now, token),
            None => false,
        }
    }

    /// Requests a password reset with a random reset token of 36
    /// characters. The message is the same whether or not the address has
    /// an account. Where it has one, a token is issued unless the draw gave
    /// a string that is already held, which cannot be where none of that
    /// length is held.
    pub fn request_password_reset(&mut self, email: &str, now: u64) -> (r: ResetAccepted)
        requires
            old(self).wf(),
        ensures
            final(self).wf(),
            r.message@ == reset_request_message(),
            match r.reset_token {
                Some(t) => t@.len() == 36 && by_email(old(self)@.accounts, email@) is Some
                    && !holds(old(self)@.flow.tokens, t@) && final(self)@ == reset_requested(
                    old(self)@,
                    email@,
                    now,
                    t@,
                ),
                None => final(self)@ == old(self)@ && (by_email(old(self)@.accounts, email@)
                    is None || holds_length(old(self)@.flow.tokens, 36)),
            },
            by_email(old(self)@.accounts, email@) is None ==> r.reset_token is None,
            by_email(old(self)@.accounts, email@) is Some && !holds_length(
                old(self)@.flow.tokens,
                36,
            ) ==> r.reset_token is Some,
    {
        let token: String = fresh_identifier();
        proof {
            if holds(self@.flow.tokens, token@) {
                lemma_held_has_length(self@.flow.tokens, token@);
            }
        }
        let issued: bool = self.request_password_reset_with(email, now, token.as_str());
        let message: String =
            "If an account with that email exists, a password reset link has been sent.".to_owned();
        ResetAccepted { message, reset_token: if issued { Some(token) } else { None } }
    }

    /// Completes a password reset: the token is consumed, the account gets
    /// the new digest, and every refresh token of the account is revoked.
    pub fn reset_password(&mut self, token: &str, new_password: PasswordDigest, now: u64) -> (r:
        Result<usize, AuthError>)
        requires
            old(self).wf(),
        ensures
            final(self).wf(),
            r == reset_outcome(old(self)@, token@, new_password.length, now),
            final(self)@ == password_reset(
                old(self)@,
                token@,
                new_password.length,
                new_password.digest@,
                now,
            ),
    {
        if token.is_empty() || new_password.length < MIN_PASSWORD_LENGTH {
            return Err(AuthError::InvalidResetRequest);
        }
        match self.flow.consume(token, Purpose::ResetPassword, now) {
            Ok(id) => {
                self.store.update_password_hash(id, new_password.digest);
                self.tokens.revoke_refresh_tokens(id);
                Ok(id)
            },
            Err(_) => Err(AuthError::InvalidOrExpiredToken),
        }
    }

    /// Drops every token that expired at `now` or earlier, and returns how
    /// many were dropped.
    pub fn sweep(&mut self, now: u64) -> (dropped: (usize, usize))
        requires
            old(self).wf(),
        ensures
            final(self).wf(),
            final(self)@ == swept(old(self)@, now),
            dropped.0 == old(self)@.sessions.tokens.len() - final(self)@.sessions.tokens.len(),
            dropped.1 == old(self)@.flow.tokens.len() - final(self)@.flow.tokens.len(),
    {
        proof {
            lemma_unexpired_bounded(self@.sessions.tokens, now, self@.accounts.len());
            lemma_unexpired_bounded(self@.flow.tokens, now, self@.accounts.len());
        }
        let sessions: usize = self.tokens.sweep(now);
        let flow: usize = self.flow.sweep(now);
        (sessions, flow)
    }

    /// Checks an access token and returns the account it is bound to.
    pub fn authorize(&self, access_token: &str, now: u64) -> (r: Result<usize, AuthError>)
        requires
            self.wf(),
        ensures
            r == match crate::tokens::access_outcome(self@.sessions, access_token@, now) {
                Ok(id) => Ok::<usize, AuthError>(id),
                Err(_) => Err::<usize, AuthError>(AuthError::InvalidCredentials),
            },
    {
        match self.tokens.verify_access_token(access_token, now) {
            Ok(id) => Ok(id),
            Err(_) => Err(AuthError::InvalidCredentials),
        }
    }
}

} // verus!
