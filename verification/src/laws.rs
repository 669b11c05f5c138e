//! What holds of the service across several operations.

use crate::ledger::{
    all_spent, distinct, expiry_at, holds, index_of, lemma_index_of, lemma_unexpired_distinct,
    lemma_unexpired_members, spent_form, unexpired, Scope, TokenRecordView,
};
use crate::service::{
    authenticates, available, email_verified, reset_requested, password_reset, refresh_outcome, reset_outcome, sign_in_outcome,
    refreshed, sign_up_outcome, signed_up, state_of, valid, verify_outcome, AccountState, AuthError,
    AvailabilityField, ServiceView,
};
use crate::store::{
    by_email, email_taken, id_taken, lemma_by_email, new_account, unique, username_taken,
};
use crate::text::{same_ignoring_case, well_formed_email};
use crate::tokens::{
    access_outcome, usable_pair, rotated, rotation_check, rotation_outcome, RotateError, TokenError,
    TokenServiceView,
};
use crate::verification::{
    consume_outcome, consumed, issued, scope_of, ttl_of, ConsumeError, FlowView, Purpose,
};
use vstd::prelude::*;

verus! {

/// Spending a record keeps the token strings distinct and keeps every
/// token where it was.
pub proof fn lemma_spend_keeps_places(s: Seq<TokenRecordView>, i: int, token: Seq<char>)
    requires
        distinct(s),
        0 <= i < s.len(),
    ensures
        distinct(s.update(i, spent_form(s[i]))),
        index_of(s.update(i, spent_form(s[i])), token) == index_of(s, token),
{
    let t = s.update(i, spent_form(s[i]));
    assert forall|a: int, b: int| 0 <= a < t.len() && 0 <= b < t.len() && a != b implies (
    #[trigger] t[a]).token != (#[trigger] t[b]).token by {
        assert(t[a].token == s[a].token);
        assert(t[b].token == s[b].token);
    }
    if holds(s, token) {
        let k = choose|k: int| 0 <= k < s.len() && (#[trigger] s[k]).token == token;
        assert(t[k].token == token);
        lemma_index_of(t, token, k);
    } else if holds(t, token) {
        let k = choose|k: int| 0 <= k < t.len() && (#[trigger] t[k]).token == token;
        assert(s[k].token == token);
    }
}

/// A token that was just issued is accepted once, for its purpose and
/// before its expiry, and gives its account; presented again, at any time,
/// it is `AlreadyConsumed`.
pub proof fn law_issue_then_consume_once(
    v: FlowView,
    account: usize,
    purpose: Purpose,
    now: u64,
    token: Seq<char>,
    at: u64,
    later: u64,
)
    requires
        distinct(v.tokens),
        !holds(v.tokens, token),
        at < expiry_at(now, ttl_of(v, purpose)),
    ensures
        consume_outcome(issued(v, account, purpose, now, token), token, purpose, at) == Ok::<
            usize,
            ConsumeError,
        >(account),
        consume_outcome(
            consumed(issued(v, account, purpose, now, token), token, purpose, at),
            token,
            purpose,
            later,
        ) == Err::<usize, ConsumeError>(ConsumeError::AlreadyConsumed),
{
    let v1 = issued(v, account, purpose, now, token);
    let n = v.tokens.len() as int;
    assert(v1.tokens[n].token == token);
    assert(distinct(v1.tokens)) by {
        assert forall|a: int, b: int|
            0 <= a < v1.tokens.len() && 0 <= b < v1.tokens.len() && a != b implies (
        #[trigger] v1.tokens[a]).token != (#[trigger] v1.tokens[b]).token by {
            if a < n && b < n {
                assert(v.tokens[a].token != v.tokens[b].token);
            } else if a < n {
                assert(v.tokens[a].token != token);
            } else {
                assert(v.tokens[b].token != token);
            }
        }
    }
    lemma_index_of(v1.tokens, token, n);
    lemma_spend_keeps_places(v1.tokens, n, token);
}

/// A token that has been accepted is `AlreadyConsumed` ever after, and
/// presenting it changes nothing.
pub proof fn law_consumed_stays_consumed(
    v: FlowView,
    token: Seq<char>,
    purpose: Purpose,
    at: u64,
    later: u64,
)
    requires
        distinct(v.tokens),
        consume_outcome(v, token, purpose, at) is Ok,
    ensures
        consume_outcome(consumed(v, token, purpose, at), token, purpose, later) == Err::<
            usize,
            ConsumeError,
        >(ConsumeError::AlreadyConsumed),
        consumed(consumed(v, token, purpose, at), token, purpose, later) == consumed(
            v,
            token,
            purpose,
            at,
        ),
{
    let i = index_of(v.tokens, token).unwrap();
    lemma_spend_keeps_places(v.tokens, i, token);
}

/// Dropping expired tokens changes nothing for a token that would still be
/// accepted: at `now` or later, a token is accepted after the sweep exactly
/// when it would have been accepted without it, and gives the same account.
pub proof fn law_sweep_keeps_live_tokens(
    v: FlowView,
    now: u64,
    token: Seq<char>,
    purpose: Purpose,
    at: u64,
)
    requires
        distinct(v.tokens),
        now <= at,
    ensures
        consume_outcome(v, token, purpose, at) is Ok ==> consume_outcome(
            crate::verification::swept(v, now),
            token,
            purpose,
            at,
        ) == consume_outcome(v, token, purpose, at),
        consume_outcome(crate::verification::swept(v, now), token, purpose, at) is Ok
            ==> consume_outcome(v, token, purpose, at) is Ok,
{
    let s = v.tokens;
    let u = unexpired(s, now);
    lemma_unexpired_members(s, now);
    lemma_unexpired_distinct(s, now);
    if consume_outcome(v, token, purpose, at) is Ok {
        let i = index_of(s, token).unwrap();
        assert(s.contains(s[i]));
        assert(u.contains(s[i]));
        let k = choose|k: int| 0 <= k < u.len() && u[k] == s[i];
        lemma_index_of(u, token, k);
    }
    if consume_outcome(crate::verification::swept(v, now), token, purpose, at) is Ok {
        let k = index_of(u, token).unwrap();
        assert(u.contains(u[k]));
        let j = choose|j: int| 0 <= j < s.len() && s[j] == u[k];
        lemma_index_of(s, token, j);
    }
}

/// Expiry is exclusive: an unspent token presented for its purpose at
/// exactly its expiry instant is `Expired`, and stays unspent.
pub proof fn law_expiry_is_exclusive(v: FlowView, token: Seq<char>, purpose: Purpose, i: int)
    requires
        index_of(v.tokens, token) == Some(i),
        v.tokens[i].scope == scope_of(purpose),
        !v.tokens[i].spent,
    ensures
        consume_outcome(v, token, purpose, v.tokens[i].expiry) == Err::<usize, ConsumeError>(
            ConsumeError::Expired,
        ),
        consumed(v, token, purpose, v.tokens[i].expiry) == v,
{
}

/// A token presented at the expiry instant it was issued with is
/// `Expired`.
pub proof fn law_issued_token_expires(
    v: FlowView,
    account: usize,
    purpose: Purpose,
    now: u64,
    token: Seq<char>,
)
    requires
        distinct(v.tokens),
        !holds(v.tokens, token),
    ensures
        consume_outcome(
            issued(v, account, purpose, now, token),
            token,
            purpose,
            expiry_at(now, ttl_of(v, purpose)),
        ) == Err::<usize, ConsumeError>(ConsumeError::Expired),
{
    let v1 = issued(v, account, purpose, now, token);
    let n = v.tokens.len() as int;
    assert(v1.tokens[n].token == token);
    if holds(v1.tokens, token) {
        let k = choose|k: int| 0 <= k < v1.tokens.len() && (#[trigger] v1.tokens[k]).token == token;
        if k < n {
            assert(v.tokens[k].token == token);
        }
    }
}

/// A refresh token is rotated at most once: after a rotation that
/// succeeded, presenting the same token again, at any time and with any new
/// strings, is `Reused` and changes nothing.
pub proof fn law_rotation_wins_once(
    v: TokenServiceView,
    token: Seq<char>,
    now: u64,
    access: Seq<char>,
    refresh: Seq<char>,
    later: u64,
    access2: Seq<char>,
    refresh2: Seq<char>,
)
    requires
        distinct(v.tokens),
        rotation_outcome(v, token, now, access, refresh) is Ok,
    ensures
        distinct(rotated(v, token, now, access, refresh).tokens),
        rotation_outcome(rotated(v, token, now, access, refresh), token, later, access2, refresh2)
            == Err::<usize, RotateError>(RotateError::Reused),
        rotated(rotated(v, token, now, access, refresh), token, later, access2, refresh2)
            == rotated(v, token, now, access, refresh),
{
    let v1 = rotated(v, token, now, access, refresh);
    let i = index_of(v.tokens, token).unwrap();
    assert(v1.tokens[i].token == token);
    assert(v1.tokens[i].spent);
    assert(distinct(v1.tokens)) by {
        let n = v.tokens.len() as int;
        assert forall|a: int, b: int|
            0 <= a < v1.tokens.len() && 0 <= b < v1.tokens.len() && a != b implies (
        #[trigger] v1.tokens[a]).token != (#[trigger] v1.tokens[b]).token by {
            if a < n {
                assert(v1.tokens[a].token == v.tokens[a].token);
            }
            if b < n {
                assert(v1.tokens[b].token == v.tokens[b].token);
            }
        }
    }
    lemma_index_of(v1.tokens, token, i);
}

/// A rotation that fails changes nothing, so a token that is `Reused` once
/// is `Reused` on every later attempt.
pub proof fn law_failed_rotation_changes_nothing(
    v: TokenServiceView,
    token: Seq<char>,
    now: u64,
    access: Seq<char>,
    refresh: Seq<char>,
)
    requires
        rotation_outcome(v, token, now, access, refresh) is Err,
    ensures
        rotated(v, token, now, access, refresh) == v,
{
}

/// One attempt to refresh: the instant, and the strings of the new pair.
pub struct RefreshAttempt {
    pub now: u64,
    pub access: Seq<char>,
    pub refresh: Seq<char>,
}

/// How many of the attempts, made one after another with the same refresh
/// token, succeed.
pub open spec fn successes(v: TokenServiceView, token: Seq<char>, attempts: Seq<RefreshAttempt>) -> nat
    decreases attempts.len(),
{
    if attempts.len() == 0 {
        0
    } else {
        let c = attempts[0];
        let rest = successes(
            rotated(v, token, c.now, c.access, c.refresh),
            token,
            attempts.drop_first(),
        );
        if rotation_outcome(v, token, c.now, c.access, c.refresh) is Ok {
            1 + rest
        } else {
            rest
        }
    }
}

/// With a token that is spent, no attempt succeeds.
pub proof fn lemma_spent_token_never_wins(
    v: TokenServiceView,
    token: Seq<char>,
    attempts: Seq<RefreshAttempt>,
)
    requires
        rotation_check(v, token, 0) == Err::<int, RotateError>(RotateError::Reused),
    ensures
        successes(v, token, attempts) == 0,
    decreases attempts.len(),
{
    if attempts.len() > 0 {
        let c = attempts[0];
        assert(rotation_check(v, token, c.now) == Err::<int, RotateError>(RotateError::Reused));
        lemma_spent_token_never_wins(v, token, attempts.drop_first());
    }
}

/// However many attempts are made with the same refresh token, at most one
/// succeeds; and where the first succeeds, all the others fail.
pub proof fn law_one_refresh_wins(
    v: TokenServiceView,
    token: Seq<char>,
    attempts: Seq<RefreshAttempt>,
)
    requires
        distinct(v.tokens),
    ensures
        successes(v, token, attempts) <= 1,
        attempts.len() > 0 && rotation_outcome(
            v,
            token,
            attempts[0].now,
            attempts[0].access,
            attempts[0].refresh,
        ) is Ok ==> successes(v, token, attempts) == 1,
    decreases attempts.len(),
{
    if attempts.len() > 0 {
        let c = attempts[0];
        let v1 = rotated(v, token, c.now, c.access, c.refresh);
        if rotation_outcome(v, token, c.now, c.access, c.refresh) is Ok {
            law_rotation_wins_once(v, token, c.now, c.access, c.refresh, 0, c.access, c.refresh);
            lemma_spent_token_never_wins(v1, token, attempts.drop_first());
        } else {
            law_one_refresh_wins(v, token, attempts.drop_first());
        }
    }
}

/// A sign-up that succeeds keeps the accounts unique.
pub proof fn lemma_signed_up_unique(
    v: ServiceView,
    username: Seq<char>,
    email: Seq<char>,
    password_length: usize,
    digest: Seq<u8>,
    now: u64,
    user_id: Seq<char>,
    token: Seq<char>,
)
    requires
        valid(v),
        sign_up_outcome(v, username, email, password_length, user_id, token) is Ok,
    ensures
        unique(signed_up(v, username, email, password_length, digest, now, user_id, token).accounts),
{
    let v1 = signed_up(v, username, email, password_length, digest, now, user_id, token);
    let n = v.accounts.len() as int;
    assert forall|i: int, j: int| 0 <= i < j < v1.accounts.len() implies {
        &&& !same_ignoring_case(
            (#[trigger] v1.accounts[i]).username,
            (#[trigger] v1.accounts[j]).username,
        )
        &&& !same_ignoring_case(v1.accounts[i].email, v1.accounts[j].email)
        &&& v1.accounts[i].user_id != v1.accounts[j].user_id
    } by {
        if j < n {
            assert(v1.accounts[i] == v.accounts[i]);
            assert(v1.accounts[j] == v.accounts[j]);
        } else {
            assert(v1.accounts[i] == v.accounts[i]);
        }
    }
}

/// A new account is not verified, and until it is, no sign-in with its
/// address succeeds, whatever the password.
pub proof fn law_sign_in_waits_for_verification(
    v: ServiceView,
    username: Seq<char>,
    email: Seq<char>,
    password_length: usize,
    digest: Seq<u8>,
    now: u64,
    user_id: Seq<char>,
    token: Seq<char>,
    tried_length: usize,
    tried_digest: Seq<u8>,
    access: Seq<char>,
    refresh: Seq<char>,
)
    requires
        valid(v),
        sign_up_outcome(v, username, email, password_length, user_id, token) is Ok,
    ensures
        ({
            let id = sign_up_outcome(v, username, email, password_length, user_id, token)->Ok_0;
            let v1 = signed_up(v, username, email, password_length, digest, now, user_id, token);
            &&& v1.accounts[id as int] == new_account(user_id, username, email, digest, now)
            &&& state_of(v1, id) == AccountState::PendingVerification
            &&& authenticates(v1, email, tried_length, tried_digest) is None
            &&& sign_in_outcome(v1, email, tried_length, tried_digest, access, refresh) == Err::<
                usize,
                AuthError,
            >(AuthError::InvalidCredentials)
        }),
{
    let v1 = signed_up(v, username, email, password_length, digest, now, user_id, token);
    let n = v.accounts.len() as int;
    assert(v1.accounts[n].email == email);
    lemma_signed_up_unique(v, username, email, password_length, digest, now, user_id, token);
    lemma_by_email(v1.accounts, email, n);
}

/// After a sign-up, the verification token that was issued verifies the
/// account once, before its expiry; any other unknown token does not, and
/// the same token presented again is invalid.
pub proof fn law_verification_round_trip(
    v: ServiceView,
    username: Seq<char>,
    email: Seq<char>,
    password_length: usize,
    digest: Seq<u8>,
    now: u64,
    user_id: Seq<char>,
    token: Seq<char>,
    at: u64,
    later: u64,
)
    requires
        valid(v),
        sign_up_outcome(v, username, email, password_length, user_id, token) is Ok,
        at < expiry_at(now, v.flow.verify_ttl),
    ensures
        ({
            let id = sign_up_outcome(v, username, email, password_length, user_id, token)->Ok_0;
            let v1 = signed_up(v, username, email, password_length, digest, now, user_id, token);
            let v2 = email_verified(v1, token, at);
            &&& verify_outcome(v1, token, at) == Ok::<usize, AuthError>(id)
            &&& state_of(v2, id) == AccountState::Active
            &&& verify_outcome(v2, token, later) == Err::<usize, AuthError>(
                AuthError::InvalidToken,
            )
        }),
{
    let id = sign_up_outcome(v, username, email, password_length, user_id, token)->Ok_0;
    law_issue_then_consume_once(v.flow, id, Purpose::VerifyEmail, now, token, at, later);
}

/// After a password reset that succeeded, every refresh token that the
/// account held is refused, at any time and with any new strings.
pub proof fn law_reset_revokes_refresh_tokens(
    v: ServiceView,
    reset_token: Seq<char>,
    password_length: usize,
    digest: Seq<u8>,
    now: u64,
    refresh_token: Seq<char>,
    i: int,
    later: u64,
    access2: Seq<char>,
    refresh2: Seq<char>,
)
    requires
        valid(v),
        reset_outcome(v, reset_token, password_length, now) is Ok,
        0 <= i < v.sessions.tokens.len(),
        v.sessions.tokens[i].token == refresh_token,
        v.sessions.tokens[i].scope == Scope::Refresh,
        v.sessions.tokens[i].account == reset_outcome(v, reset_token, password_length, now)->Ok_0,
    ensures
        refresh_outcome(
            password_reset(v, reset_token, password_length, digest, now),
            refresh_token,
            later,
            access2,
            refresh2,
        ) == Err::<usize, AuthError>(AuthError::InvalidCredentials),
{
    let id = reset_outcome(v, reset_token, password_length, now)->Ok_0;
    let v1 = password_reset(v, reset_token, password_length, digest, now);
    let t = all_spent(v.sessions.tokens, id, Scope::Refresh);
    assert(v1.sessions.tokens == t);
    assert(t[i].token == refresh_token && t[i].spent);
    assert(distinct(t)) by {
        assert forall|a: int, b: int| 0 <= a < t.len() && 0 <= b < t.len() && a != b implies (
        #[trigger] t[a]).token != (#[trigger] t[b]).token by {
            assert(t[a].token == v.sessions.tokens[a].token);
            assert(t[b].token == v.sessions.tokens[b].token);
        }
    }
    lemma_index_of(t, refresh_token, i);
}

/// Once an account is signed up, its user name and its address are taken
/// in every spelling that differs by case only.
pub proof fn law_signed_up_names_are_taken(
    v: ServiceView,
    username: Seq<char>,
    email: Seq<char>,
    password_length: usize,
    digest: Seq<u8>,
    now: u64,
    user_id: Seq<char>,
    token: Seq<char>,
    spelling: Seq<char>,
)
    requires
        sign_up_outcome(v, username, email, password_length, user_id, token) is Ok,
    ensures
        ({
            let v1 = signed_up(v, username, email, password_length, digest, now, user_id, token);
            &&& same_ignoring_case(username, spelling) ==> !available(
                v1,
                AvailabilityField::Username,
                spelling,
            )
            &&& same_ignoring_case(email, spelling) ==> !available(
                v1,
                AvailabilityField::Email,
                spelling,
            )
        }),
{
    let v1 = signed_up(v, username, email, password_length, digest, now, user_id, token);
    let n = v.accounts.len() as int;
    assert(v1.accounts[n].username == username);
    assert(v1.accounts[n].email == email);
}

/// A string that the token service never issued is refused, as an access
/// token and as a refresh token: a verification token, which only the
/// verification flow holds, cannot stand in for either.
pub proof fn law_unknown_token_is_refused(
    v: ServiceView,
    token: Seq<char>,
    now: u64,
    access: Seq<char>,
    refresh: Seq<char>,
)
    requires
        !holds(v.sessions.tokens, token),
    ensures
        access_outcome(v.sessions, token, now) == Err::<usize, TokenError>(TokenError::Invalid),
        refresh_outcome(v, token, now, access, refresh) == Err::<usize, AuthError>(
            AuthError::InvalidCredentials,
        ),
        refreshed(v, token, now, access, refresh) == v,
{
}

/// How far along an account is.
pub open spec fn rank(state: AccountState) -> nat {
    match state {
        AccountState::Unregistered => 0,
        AccountState::PendingVerification => 1,
        AccountState::Active => 2,
    }
}

/// No account is further back in `after` than it is in `before`.
pub open spec fn never_back(before: ServiceView, after: ServiceView) -> bool {
    forall|id: usize| rank(state_of(before, id)) <= rank(#[trigger] state_of(after, id))
}

/// Accounts only advance: whatever a sign-up, an e-mail verification or a
/// password reset does, an account that exists still exists afterwards and
/// one that is active stays active.
pub proof fn law_accounts_never_go_back(
    v: ServiceView,
    username: Seq<char>,
    email: Seq<char>,
    password_length: usize,
    digest: Seq<u8>,
    now: u64,
    user_id: Seq<char>,
    token: Seq<char>,
)
    requires
        valid(v),
    ensures
        never_back(
            v,
            signed_up(v, username, email, password_length, digest, now, user_id, token),
        ),
        never_back(v, email_verified(v, token, now)),
        never_back(v, password_reset(v, token, password_length, digest, now)),
{
    let a = signed_up(v, username, email, password_length, digest, now, user_id, token);
    assert forall|id: usize| rank(state_of(v, id)) <= rank(#[trigger] state_of(a, id)) by {
        if id < v.accounts.len() && a != v {
            assert(a.accounts[id as int] == v.accounts[id as int]);
        }
    }
    let b = email_verified(v, token, now);
    assert forall|id: usize| rank(state_of(v, id)) <= rank(#[trigger] state_of(b, id)) by {
        if verify_outcome(v, token, now) is Ok {
            let i = index_of(v.flow.tokens, token).unwrap();
            assert(v.flow.tokens[i].account < v.accounts.len());
        }
    }
    let c = password_reset(v, token, password_length, digest, now);
    assert forall|id: usize| rank(state_of(v, id)) <= rank(#[trigger] state_of(c, id)) by {
        if reset_outcome(v, token, password_length, now) is Ok {
            let i = index_of(v.flow.tokens, token).unwrap();
            assert(v.flow.tokens[i].account < v.accounts.len());
        }
    }
}

/// A sign-up with fields that are filled in, a well-formed address, a user
/// name and an address that are free, and an identifier and a token that
/// are not in use succeeds, and the new account is pending verification.
pub proof fn law_valid_sign_up_succeeds(
    v: ServiceView,
    username: Seq<char>,
    email: Seq<char>,
    password_length: usize,
    digest: Seq<u8>,
    now: u64,
    user_id: Seq<char>,
    token: Seq<char>,
)
    requires
        valid(v),
        username.len() > 0,
        email.len() > 0,
        password_length > 0,
        well_formed_email(email),
        !username_taken(v.accounts, username),
        !email_taken(v.accounts, email),
        !id_taken(v.accounts, user_id),
        !holds(v.flow.tokens, token),
    ensures
        sign_up_outcome(v, username, email, password_length, user_id, token) == Ok::<
            usize,
            AuthError,
        >(v.accounts.len() as usize),
        state_of(
            signed_up(v, username, email, password_length, digest, now, user_id, token),
            v.accounts.len() as usize,
        ) == AccountState::PendingVerification,
{
}

/// After a sign-up and the verification of its token before expiry, a
/// sign-in with the address, the same digest and a usable pair of strings
/// succeeds for that account; with any other digest it is refused.
pub proof fn law_sign_in_after_verification(
    v: ServiceView,
    username: Seq<char>,
    email: Seq<char>,
    password_length: usize,
    digest: Seq<u8>,
    now: u64,
    user_id: Seq<char>,
    token: Seq<char>,
    at: u64,
    other_digest: Seq<u8>,
    access: Seq<char>,
    refresh: Seq<char>,
)
    requires
        valid(v),
        sign_up_outcome(v, username, email, password_length, user_id, token) is Ok,
        at < expiry_at(now, v.flow.verify_ttl),
        usable_pair(v.sessions, access, refresh),
        other_digest != digest,
    ensures
        ({
            let id = sign_up_outcome(v, username, email, password_length, user_id, token)->Ok_0;
            let v1 = signed_up(v, username, email, password_length, digest, now, user_id, token);
            let v2 = email_verified(v1, token, at);
            &&& sign_in_outcome(v2, email, password_length, digest, access, refresh) == Ok::<
                usize,
                AuthError,
            >(id)
            &&& sign_in_outcome(v2, email, password_length, other_digest, access, refresh)
                == Err::<usize, AuthError>(AuthError::InvalidCredentials)
        }),
{
    let id = sign_up_outcome(v, username, email, password_length, user_id, token)->Ok_0;
    let v1 = signed_up(v, username, email, password_length, digest, now, user_id, token);
    let v2 = email_verified(v1, token, at);
    let n = v.accounts.len() as int;
    law_issue_then_consume_once(v.flow, id, Purpose::VerifyEmail, now, token, at, at);
    lemma_signed_up_unique(v, username, email, password_length, digest, now, user_id, token);
    assert(v2.accounts[n].email == email);
    assert forall|i: int, j: int| 0 <= i < j < v2.accounts.len() implies {
        &&& !same_ignoring_case(
            (#[trigger] v2.accounts[i]).username,
            (#[trigger] v2.accounts[j]).username,
        )
        &&& !same_ignoring_case(v2.accounts[i].email, v2.accounts[j].email)
        &&& v2.accounts[i].user_id != v2.accounts[j].user_id
    } by {
        assert(v2.accounts[i].username == v1.accounts[i].username);
        assert(v2.accounts[j].username == v1.accounts[j].username);
        assert(v2.accounts[i].email == v1.accounts[i].email);
        assert(v2.accounts[j].email == v1.accounts[j].email);
        assert(v2.accounts[i].user_id == v1.accounts[i].user_id);
        assert(v2.accounts[j].user_id == v1.accounts[j].user_id);
    }
    lemma_by_email(v2.accounts, email, n);
}

/// A reset token that is held, unspent and not yet expired completes a
/// password reset for its account, given a password of the least length or
/// more. The token is not empty.
pub proof fn law_valid_reset_succeeds(
    v: ServiceView,
    token: Seq<char>,
    i: int,
    password_length: usize,
    now: u64,
)
    requires
        index_of(v.flow.tokens, token) == Some(i),
        token.len() > 0,
        v.flow.tokens[i].scope == Scope::ResetPassword,
        !v.flow.tokens[i].spent,
        now < v.flow.tokens[i].expiry,
        password_length >= 6,
    ensures
        reset_outcome(v, token, password_length, now) == Ok::<usize, AuthError>(
            v.flow.tokens[i].account,
        ),
{
}

/// A reset that was requested for an address with an account can be
/// completed once with the token that was issued, before its expiry.
pub proof fn law_requested_reset_completes(
    v: ServiceView,
    email: Seq<char>,
    now: u64,
    token: Seq<char>,
    password_length: usize,
    at: u64,
)
    requires
        valid(v),
        by_email(v.accounts, email) is Some,
        token.len() > 0,
        !holds(v.flow.tokens, token),
        at < expiry_at(now, v.flow.reset_ttl),
        password_length >= 6,
    ensures
        reset_outcome(reset_requested(v, email, now, token), token, password_length, at) == Ok::<
            usize,
            AuthError,
        >(by_email(v.accounts, email)->Some_0 as usize),
{
    let id = by_email(v.accounts, email)->Some_0 as usize;
    law_issue_then_consume_once(v.flow, id, Purpose::ResetPassword, now, token, at, at);
}

} // verus!
