//! Access and refresh tokens: issue, verification, and rotation of a
//! refresh token into a new pair.

use crate::ident::fresh_identifier;
use crate::ledger::{
    all_spent, distinct, expiry_after, expiry_at, holds, holds_length, index_of,
    lemma_held_has_length, lemma_holds_push, spent_form, unexpired, Scope, TokenLedger,
    TokenRecordView,
};
use vstd::prelude::*;
use vstd::string::*;

verus! {

/// Lifetimes of the two kinds of token, in seconds.
#[derive(Clone, Copy, Debug, PartialEq, Eq, Structural)]
pub struct TokenConfig {
    pub access_ttl: u64,
    pub refresh_ttl: u64,
}

/// An access token with the refresh token issued beside it.
#[derive(Debug)]
pub struct Tokens {
    pub access_token: String,
    pub refresh_token: String,
}

/// Why an access token was not accepted.
#[derive(Clone, Copy, Debug, PartialEq, Eq, Structural)]
pub enum TokenError {
    Expired,
    Invalid,
}

/// Why a refresh token was not rotated.
#[derive(Clone, Copy, Debug, PartialEq, Eq, Structural)]
pub enum RotateError {
    Expired,
    Invalid,
    /// The token was rotated or revoked before.
    Reused,
    /// A new token could not be recorded; nothing changed, and the caller
    /// may try again.
    Unavailable,
}

/// Seconds for which an access token is valid unless configured otherwise.
pub const DEFAULT_ACCESS_TTL: u64 = 900;

/// Seconds for which a refresh token is valid unless configured otherwise.
pub const DEFAULT_REFRESH_TTL: u64 = 2_592_000;

/// The mathematical content of a [`TokenService`].
pub struct TokenServiceView {
    pub tokens: Seq<TokenRecordView>,
    pub config: TokenConfig,
}

/// The lifetime of an access token, or else of a refresh token.
pub open spec fn ttl_for(config: TokenConfig, scope: Scope) -> u64 {
    if scope == Scope::Access {
        config.access_ttl
    } else {
        config.refresh_ttl
    }
}

/// The record of a token issued to `account` at `now`.
pub open spec fn session_record(
    config: TokenConfig,
    account: usize,
    scope: Scope,
    now: u64,
    token: Seq<char>,
) -> TokenRecordView {
    TokenRecordView {
        token,
        account,
        scope,
        expiry: expiry_at(now, ttl_for(config, scope)),
        spent: false,
    }
}

/// The service after a token with the given string is issued; a string that
/// is already held changes nothing.
pub open spec fn with_token(
    v: TokenServiceView,
    account: usize,
    scope: Scope,
    now: u64,
    token: Seq<char>,
) -> TokenServiceView {
    if holds(v.tokens, token) {
        v
    } else {
        TokenServiceView {
            tokens: v.tokens.push(session_record(v.config, account, scope, now, token)),
            ..v
        }
    }
}

/// What presenting an access token at `now` yields.
pub open spec fn access_outcome(v: TokenServiceView, token: Seq<char>, now: u64) -> Result<
    usize,
    TokenError,
> {
    match index_of(v.tokens, token) {
        None => Err(TokenError::Invalid),
        Some(i) => {
            let rec = v.tokens[i];
            if rec.scope != Scope::Access || rec.spent {
                Err(TokenError::Invalid)
            } else if now >= rec.expiry {
                Err(TokenError::Expired)
            } else {
                Ok(rec.account)
            }
        },
    }
}

/// Whether a refresh token may be rotated at `now`: the place of its
/// record, or the reason why not.
pub open spec fn rotation_check(v: TokenServiceView, token: Seq<char>, now: u64) -> Result<
    int,
    RotateError,
> {
    match index_of(v.tokens, token) {
        None => Err(RotateError::Invalid),
        Some(i) => {
            let rec = v.tokens[i];
            if rec.scope != Scope::Refresh {
                Err(RotateError::Invalid)
            } else if rec.spent {
                Err(RotateError::Reused)
            } else if now >= rec.expiry {
                Err(RotateError::Expired)
            } else {
                Ok(i)
            }
        },
    }
}

/// Whether the two new strings can be recorded beside what is held.
pub open spec fn usable_pair(v: TokenServiceView, access: Seq<char>, refresh: Seq<char>) -> bool {
    access != refresh && !holds(v.tokens, access) && !holds(v.tokens, refresh)
}

/// What rotating `token` into the pair (`access`, `refresh`) yields: the
/// account of the new pair, or the reason why nothing was issued.
pub open spec fn rotation_outcome(
    v: TokenServiceView,
    token: Seq<char>,
    now: u64,
    access: Seq<char>,
    refresh: Seq<char>,
) -> Result<usize, RotateError> {
    match rotation_check(v, token, now) {
        Err(e) => Err(e),
        Ok(i) => if usable_pair(v, access, refresh) {
            Ok(v.tokens[i].account)
        } else {
            Err(RotateError::Unavailable)
        },
    }
}

/// The service after the rotation: on success the presented token is spent
/// and the new pair is recorded, otherwise nothing changes.
pub open spec fn rotated(
    v: TokenServiceView,
    token: Seq<char>,
    now: u64,
    access: Seq<char>,
    refresh: Seq<char>,
) -> TokenServiceView {
    match rotation_outcome(v, token, now, access, refresh) {
        Err(_) => v,
        Ok(account) => {
            let i = index_of(v.tokens, token).unwrap();
            TokenServiceView {
                tokens: v.tokens.update(i, spent_form(v.tokens[i])).push(
                    session_record(v.config, account, Scope::Access, now, access),
                ).push(session_record(v.config, account, Scope::Refresh, now, refresh)),
                ..v
            }
        },
    }
}

/// The service after an access and a refresh token are issued together; a
/// pair that cannot be recorded changes nothing.
pub open spec fn with_pair(
    v: TokenServiceView,
    account: usize,
    now: u64,
    access: Seq<char>,
    refresh: Seq<char>,
) -> TokenServiceView {
    if usable_pair(v, access, refresh) {
        TokenServiceView {
            tokens: v.tokens.push(
                session_record(v.config, account, Scope::Access, now, access),
            ).push(session_record(v.config, account, Scope::Refresh, now, refresh)),
            ..v
        }
    } else {
        v
    }
}

/// The service after every refresh token of `account` is revoked.
pub open spec fn revoked(v: TokenServiceView, account: usize) -> TokenServiceView {
    TokenServiceView { tokens: all_spent(v.tokens, account, Scope::Refresh), ..v }
}

/// The service after the tokens that expired at `now` or earlier are
/// dropped.
pub open spec fn swept(v: TokenServiceView, now: u64) -> TokenServiceView {
    TokenServiceView { tokens: unexpired(v.tokens, now), ..v }
}

/// The text of an access token: `access_token_` and an identifier of 36
/// characters.
pub open spec fn access_token_text(s: Seq<char>) -> bool {
    s.len() == 49 && s.subrange(0, 13) == "access_token_"@
}

/// The text of a refresh token: `refresh_token_` and an identifier of 36
/// characters.
pub open spec fn refresh_token_text(s: Seq<char>) -> bool {
    s.len() == 50 && s.subrange(0, 14) == "refresh_token_"@
}

/// Whether the service holds no string of the length of an access token
/// nor of the length of a refresh token: then no new pair can clash with
/// what is held.
pub open spec fn room_for_pair(v: TokenServiceView) -> bool {
    !holds_length(v.tokens, 49) && !holds_length(v.tokens, 50)
}

/// A new access token string: the prefix and a random identifier.
pub fn fresh_access_string() -> (s: String)
    ensures
        access_token_text(s@),
{
    let id: String = fresh_identifier();
    let s: String = "access_token_".to_owned().concat(id.as_str());
    proof {
        reveal_strlit("access_token_");
        assert(s@.subrange(0, 13) =~= "access_token_"@);
    }
    s
}

/// A new refresh token string: the prefix and a random identifier.
pub fn fresh_refresh_string() -> (s: String)
    ensures
        refresh_token_text(s@),
{
    let id: String = fresh_identifier();
    let s: String = "refresh_token_".to_owned().concat(id.as_str());
    proof {
        reveal_strlit("refresh_token_");
        assert(s@.subrange(0, 14) =~= "refresh_token_"@);
    }
    s
}

/// Issues, checks and rotates access and refresh tokens, with lifetimes
/// that it is constructed with.
#[derive(Debug)]
pub struct TokenService {
    ledger: TokenLedger,
    config: TokenConfig,
}

impl View for TokenService {
    type V = TokenServiceView;

    closed spec fn view(&self) -> TokenServiceView {
        TokenServiceView { tokens: self.ledger@, config: self.config }
    }
}

impl TokenService {
    /// The invariant: no two tokens share a string.
    pub open spec fn wf(&self) -> bool {
        distinct(self@.tokens)
    }

    /// A service that has issued nothing, with its own configuration.
    pub fn new(config: TokenConfig) -> (r: TokenService)
        ensures
            r.wf(),
            r@ == (TokenServiceView { tokens: Seq::empty(), config }),
    {
        TokenService { ledger: TokenLedger::new(), config }
    }

    fn issue_with(&mut self, account: usize, scope: Scope, now: u64, token: &str) -> (r: bool)
        requires
            old(self).wf(),
            scope == Scope::Access || scope == Scope::Refresh,
        ensures
            final(self).wf(),
            r == !holds(old(self)@.tokens, token@),
            final(self)@ == with_token(old(self)@, account, scope, now, token@),
    {
        let ttl: u64 = if scope == Scope::Access {
            self.config.access_ttl
        } else {
            self.config.refresh_ttl
        };
        self.ledger.insert(token, account, scope, expiry_after(now, ttl))
    }

    /// Issues an access token whose string is `token`. Returns `false`, and
    /// changes nothing, where that string is already held.
    pub fn issue_access_token_with(&mut self, account: usize, now: u64, token: &str) -> (r: bool)
        requires
            old(self).wf(),
        ensures
            final(self).wf(),
            r == !holds(old(self)@.tokens, token@),
            final(self)@ == with_token(old(self)@, account, Scope::Access, now, token@),
    {
        self.issue_with(account, Scope::Access, now, token)
    }

    /// Issues a refresh token whose string is `token`. Returns `false`, and
    /// changes nothing, where that string is already held.
    pub fn issue_refresh_token_with(&mut self, account: usize, now: u64, token: &str) -> (r: bool)
        requires
            old(self).wf(),
        ensures
            final(self).wf(),
            r == !holds(old(self)@.tokens, token@),
            final(self)@ == with_token(old(self)@, account, Scope::Refresh, now, token@),
    {
        self.issue_with(account, Scope::Refresh, now, token)
    }

    /// Issues an access token with a new random string and returns the
    /// string, or `None` where the draw gave a string that is already held.
    /// A service that holds no string of that length cannot hold the draw,
    /// so there a token is always issued.
    pub fn issue_access_token(&mut self, account: usize, now: u64) -> (r: Option<String>)
        requires
            old(self).wf(),
        ensures
            final(self).wf(),
            match r {
                Some(t) => access_token_text(t@) && !holds(old(self)@.tokens, t@) && final(self)@
                    == with_token(old(self)@, account, Scope::Access, now, t@),
                None => holds_length(old(self)@.tokens, 49) && final(self)@ == old(self)@,
            },
            !holds_length(old(self)@.tokens, 49) ==> r is Some,
    {
        let token: String = fresh_access_string();
        proof {
            if holds(self@.tokens, token@) {
                lemma_held_has_length(self@.tokens, token@);
            }
        }
        if self.issue_with(account, Scope::Access, now, token.as_str()) {
            Some(token)
        } else {
            None
        }
    }

    /// Issues a refresh token with a new random string and returns the
    /// string, or `None` where the draw gave a string that is already held.
    /// A service that holds no string of that length cannot hold the draw,
    /// so there a token is always issued.
    pub fn issue_refresh_token(&mut self, account: usize, now: u64) -> (r: Option<String>)
        requires
            old(self).wf(),
        ensures
            final(self).wf(),
            match r {
                Some(t) => refresh_token_text(t@) && !holds(old(self)@.tokens, t@) && final(self)@
                    == with_token(old(self)@, account, Scope::Refresh, now, t@),
                None => holds_length(old(self)@.tokens, 50) && final(self)@ == old(self)@,
            },
            !holds_length(old(self)@.tokens, 50) ==> r is Some,
    {
        let token: String = fresh_refresh_string();
        proof {
            if holds(self@.tokens, token@) {
                lemma_held_has_length(self@.tokens, token@);
            }
        }
        if self.issue_with(account, Scope::Refresh, now, token.as_str()) {
            Some(token)
        } else {
            None
        }
    }

    /// Issues an access and a refresh token together, with the given
    /// strings: both are recorded, or, where the pair is not usable,
    /// neither.
    pub fn issue_pair_with(&mut self, account: usize, now: u64, access: &str, refresh: &str) -> (r:
        bool)
        requires
            old(self).wf(),
        ensures
            final(self).wf(),
            r == usable_pair(old(self)@, access@, refresh@),
            final(self)@ == with_pair(old(self)@, account, now, access@, refresh@),
    {
        if self.ledger.find(access).is_some() || self.ledger.find(refresh).is_some()
            || access.to_owned() == refresh.to_owned() {
            return false;
        }
        self.issue_with(account, Scope::Access, now, access);
        proof {
            lemma_holds_push(
                old(self)@.tokens,
                session_record(self.config, account, Scope::Access, now, access@),
                refresh@,
            );
        }
        self.issue_with(account, Scope::Refresh, now, refresh);
        true
    }

    /// Issues an access and a refresh token together, with new random
    /// strings, or nothing where the draw gave a string that is already
    /// held. The two strings differ in length, so a service with room for a
    /// pair always issues one.
    pub fn issue_pair(&mut self, account: usize, now: u64) -> (r: Option<Tokens>)
        requires
            old(self).wf(),
        ensures
            final(self).wf(),
            match r {
                Some(t) => access_token_text(t.access_token@) && refresh_token_text(
                    t.refresh_token@,
                ) && usable_pair(old(self)@, t.access_token@, t.refresh_token@) && final(self)@
                    == with_pair(old(self)@, account, now, t.access_token@, t.refresh_token@),
                None => !room_for_pair(old(self)@) && final(self)@ == old(self)@,
            },
            room_for_pair(old(self)@) ==> r is Some,
    {
        let access: String = fresh_access_string();
        let refresh: String = fresh_refresh_string();
        proof {
            if holds(self@.tokens, access@) {
                lemma_held_has_length(self@.tokens, access@);
            }
            if holds(self@.tokens, refresh@) {
                lemma_held_has_length(self@.tokens, refresh@);
            }
        }
        if self.issue_pair_with(account, now, access.as_str(), refresh.as_str()) {
            Some(Tokens { access_token: access, refresh_token: refresh })
        } else {
            None
        }
    }

    /// Checks an access token at `now` and returns the account it is bound
    /// to.
    pub fn verify_access_token(&self, token: &str, now: u64) -> (r: Result<usize, TokenError>)
        requires
            self.wf(),
        ensures
            r == access_outcome(self@, token@, now),
    {
        match self.ledger.find(token) {
            None => Err(TokenError::Invalid),
            Some(i) => {
                let (account, scope, expiry, spent) = self.ledger.get(i);
                if scope != Scope::Access || spent {
                    Err(TokenError::Invalid)
                } else if now >= expiry {
                    Err(TokenError::Expired)
                } else {
                    Ok(account)
                }
            },
        }
    }

    /// Rotates a refresh token into the pair whose strings are `access` and
    /// `refresh`: one step that spends the presented token and records the
    /// pair, or changes nothing.
    pub fn rotate_refresh_token_with(
        &mut self,
        token: &str,
        now: u64,
        access: &str,
        refresh: &str,
    ) -> (r: Result<usize, RotateError>)
        requires
            old(self).wf(),
        ensures
            final(self).wf(),
            r == rotation_outcome(old(self)@, token@, now, access@, refresh@),
            final(self)@ == rotated(old(self)@, token@, now, access@, refresh@),
    {
        match self.ledger.find(token) {
            None => Err(RotateError::Invalid),
            Some(i) => {
                let (account, scope, expiry, spent) = self.ledger.get(i);
                if scope != Scope::Refresh {
                    Err(RotateError::Invalid)
                } else if spent {
                    Err(RotateError::Reused)
                } else if now >= expiry {
                    Err(RotateError::Expired)
                } else if self.ledger.find(access).is_some() || self.ledger.find(
                    refresh,
                ).is_some() || access.to_owned() == refresh.to_owned() {
                    Err(RotateError::Unavailable)
                } else {
                    self.ledger.spend(i);
                    let ghost mid = self.ledger@;
                    assert(!holds(mid, access@) && !holds(mid, refresh@)) by {
                        if holds(mid, access@) {
                            let k = choose|k: int|
                                0 <= k < mid.len() && (#[trigger] mid[k]).token == access@;
                            assert(old(self)@.tokens[k].token == access@);
                        }
                        if holds(mid, refresh@) {
                            let k = choose|k: int|
                                0 <= k < mid.len() && (#[trigger] mid[k]).token == refresh@;
                            assert(old(self)@.tokens[k].token == refresh@);
                        }
                    }
                    self.issue_with(account, Scope::Access, now, access);
                    proof {
                        lemma_holds_push(
                            mid,
                            session_record(self.config, account, Scope::Access, now, access@),
                            refresh@,
                        );
                    }
                    self.issue_with(account, Scope::Refresh, now, refresh);
                    Ok(account)
                }
            },
        }
    }

    /// Rotates a refresh token into a pair with new random strings. Whether
    /// the token may be rotated does not depend on the draw; where it may,
    /// the pair is returned unless the draw gave a string that is already
    /// held, which a service with room for a pair never does.
    pub fn rotate_refresh_token(&mut self, token: &str, now: u64) -> (r: Result<
        Tokens,
        RotateError,
    >)
        requires
            old(self).wf(),
        ensures
            final(self).wf(),
            match r {
                Ok(t) => access_token_text(t.access_token@) && refresh_token_text(
                    t.refresh_token@,
                ) && rotation_outcome(old(self)@, token@, now, t.access_token@, t.refresh_token@)
                    is Ok && final(self)@ == rotated(
                    old(self)@,
                    token@,
                    now,
                    t.access_token@,
                    t.refresh_token@,
                ),
                Err(e) => final(self)@ == old(self)@ && if e == RotateError::Unavailable {
                    rotation_check(old(self)@, token@, now) is Ok && !room_for_pair(old(self)@)
                } else {
                    rotation_check(old(self)@, token@, now) == Err::<int, RotateError>(e)
                },
            },
            rotation_check(old(self)@, token@, now) is Ok && room_for_pair(old(self)@) ==> r is Ok,
    {
        let access: String = fresh_access_string();
        let refresh: String = fresh_refresh_string();
        proof {
            if holds(self@.tokens, access@) {
                lemma_held_has_length(self@.tokens, access@);
            }
            if holds(self@.tokens, refresh@) {
                lemma_held_has_length(self@.tokens, refresh@);
            }
        }
        match self.rotate_refresh_token_with(token, now, access.as_str(), refresh.as_str()) {
            Ok(_) => Ok(Tokens { access_token: access, refresh_token: refresh }),
            Err(e) => Err(e),
        }
    }

    /// Revokes every refresh token of `account`.
    pub fn revoke_refresh_tokens(&mut self, account: usize)
        requires
            old(self).wf(),
        ensures
            final(self).wf(),
            final(self)@ == revoked(old(self)@, account),
    {
        self.ledger.spend_all(account, Scope::Refresh);
    }

    /// Drops the tokens that expired at `now` or earlier, and returns how
    /// many were dropped.
    pub fn sweep(&mut self, now: u64) -> (dropped: usize)
        requires
            old(self).wf(),
        ensures
            final(self).wf(),
            final(self)@ == swept(old(self)@, now),
            dropped == old(self)@.tokens.len() - final(self)@.tokens.len(),
    {
        self.ledger.sweep(now)
    }
}

} // verus!
