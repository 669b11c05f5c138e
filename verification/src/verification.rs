//! Short-lived single-use tokens for e-mail verification and password
//! reset: issue, and one atomic check-and-mark on consumption.

use crate::ident::fresh_identifier;
use crate::ledger::{
    distinct, expiry_after, expiry_at, has_live, holds, holds_length, index_of,
    lemma_held_has_length, spent_form, unexpired, Scope, TokenLedger, TokenRecordView,
};
use vstd::prelude::*;

verus! {

/// What a verification token was issued for.
#[derive(Clone, Copy, Debug, PartialEq, Eq, Structural)]
pub enum Purpose {
    VerifyEmail,
    ResetPassword,
}

/// Why a token was not accepted.
#[derive(Clone, Copy, Debug, PartialEq, Eq, Structural)]
pub enum ConsumeError {
    /// Unknown token, or one issued for another purpose.
    Invalid,
    /// Presented at or after its expiry instant.
    Expired,
    /// Accepted once before.
    AlreadyConsumed,
}

/// Seconds for which an e-mail verification token is valid unless configured otherwise.
pub const DEFAULT_VERIFY_TTL: u64 = 86_400;

/// Seconds for which a password-reset token is valid unless configured otherwise.
pub const DEFAULT_RESET_TTL: u64 = 3_600;

/// The mathematical content of a [`VerificationFlow`].
pub struct FlowView {
    pub tokens: Seq<TokenRecordView>,
    pub verify_ttl: u64,
    pub reset_ttl: u64,
}

/// The scope under which tokens for a purpose are recorded.
pub open spec fn scope_of(purpose: Purpose) -> Scope {
    match purpose {
        Purpose::VerifyEmail => Scope::VerifyEmail,
        Purpose::ResetPassword => Scope::ResetPassword,
    }
}

/// The lifetime of tokens for a purpose.
pub open spec fn ttl_of(v: FlowView, purpose: Purpose) -> u64 {
    match purpose {
        Purpose::VerifyEmail => v.verify_ttl,
        Purpose::ResetPassword => v.reset_ttl,
    }
}

/// The record that `issue` writes.
pub open spec fn issued_record(
    v: FlowView,
    account: usize,
    purpose: Purpose,
    now: u64,
    token: Seq<char>,
) -> TokenRecordView {
    TokenRecordView {
        token,
        account,
        scope: scope_of(purpose),
        expiry: expiry_at(now, ttl_of(v, purpose)),
        spent: false,
    }
}

/// The flow after a token with the given string is issued; a string that is
/// already held changes nothing.
pub open spec fn issued(
    v: FlowView,
    account: usize,
    purpose: Purpose,
    now: u64,
    token: Seq<char>,
) -> FlowView {
    if holds(v.tokens, token) {
        v
    } else {
        FlowView { tokens: v.tokens.push(issued_record(v, account, purpose, now, token)), ..v }
    }
}

/// What presenting `token` for `purpose` at `now` yields.
pub open spec fn consume_outcome(v: FlowView, token: Seq<char>, purpose: Purpose, now: u64) -> Result<
    usize,
    ConsumeError,
> {
    match index_of(v.tokens, token) {
        None => Err(ConsumeError::Invalid),
        Some(i) => {
            let rec = v.tokens[i];
            if rec.scope != scope_of(purpose) {
                Err(ConsumeError::Invalid)
            } else if rec.spent {
                Err(ConsumeError::AlreadyConsumed)
            } else if now >= rec.expiry {
                Err(ConsumeError::Expired)
            } else {
                Ok(rec.account)
            }
        },
    }
}

/// The flow after `token` is presented: on success its record is spent,
/// otherwise nothing changes.
pub open spec fn consumed(v: FlowView, token: Seq<char>, purpose: Purpose, now: u64) -> FlowView {
    match consume_outcome(v, token, purpose, now) {
        Ok(_) => {
            let i = index_of(v.tokens, token).unwrap();
            FlowView { tokens: v.tokens.update(i, spent_form(v.tokens[i])), ..v }
        },
        Err(_) => v,
    }
}

/// The flow after the tokens that expired at `now` or earlier are dropped.
pub open spec fn swept(v: FlowView, now: u64) -> FlowView {
    FlowView { tokens: unexpired(v.tokens, now), ..v }
}

/// Issues and consumes verification tokens.
#[derive(Debug)]
pub struct VerificationFlow {
    ledger: TokenLedger,
    verify_ttl: u64,
    reset_ttl: u64,
}

impl View for VerificationFlow {
    type V = FlowView;

    closed spec fn view(&self) -> FlowView {
        FlowView { tokens: self.ledger@, verify_ttl: self.verify_ttl, reset_ttl: self.reset_ttl }
    }
}

impl VerificationFlow {
    /// The invariant: no two tokens share a string.
    pub open spec fn wf(&self) -> bool {
        distinct(self@.tokens)
    }

    /// An empty flow with the given lifetimes, in seconds.
    pub fn new(verify_ttl: u64, reset_ttl: u64) -> (r: VerificationFlow)
        ensures
            r.wf(),
            r@ == (FlowView { tokens: Seq::empty(), verify_ttl, reset_ttl }),
    {
        VerificationFlow { ledger: TokenLedger::new(), verify_ttl, reset_ttl }
    }

    /// Issues a token whose string is `token`. Returns `false`, and changes
    /// nothing, where that string is already held.
    pub fn issue_with(&mut self, account: usize, purpose: Purpose, now: u64, token: &str) -> (r:
        bool)
        requires
            old(self).wf(),
        ensures
            final(self).wf(),
            r == !holds(old(self)@.tokens, token@),
            final(self)@ == issued(old(self)@, account, purpose, now, token@),
    {
        let (scope, ttl) = match purpose {
            Purpose::VerifyEmail => (Scope::VerifyEmail, self.verify_ttl),
            Purpose::ResetPassword => (Scope::ResetPassword, self.reset_ttl),
        };
        self.ledger.insert(token, account, scope, expiry_after(now, ttl))
    }

    /// Issues a token with a random string of 36 characters and returns the
    /// string, or `None` where the draw gave a string that is already held.
    /// A flow that holds no string of that length cannot hold the draw, so
    /// there a token is always issued.
    pub fn issue(&mut self, account: usize, purpose: Purpose, now: u64) -> (r: Option<String>)
        requires
            old(self).wf(),
        ensures
            final(self).wf(),
            match r {
                Some(t) => t@.len() == 36 && !holds(old(self)@.tokens, t@) && final(self)@
                    == issued(old(self)@, account, purpose, now, t@),
                None => holds_length(old(self)@.tokens, 36) && final(self)@ == old(self)@,
            },
            !holds_length(old(self)@.tokens, 36) ==> r is Some,
    {
        let token: String = fresh_identifier();
        proof {
            if holds(self@.tokens, token@) {
                lemma_held_has_length(self@.tokens, token@);
            }
        }
        if self.issue_with(account, purpose, now, token.as_str()) {
            Some(token)
        } else {
            None
        }
    }

    /// Presents a token: one check-and-mark. The account it is bound to is
    /// returned once, before its expiry instant and for the purpose it was
    /// issued for.
    pub fn consume(&mut self, token: &str, purpose: Purpose, now: u64) -> (r: Result<
        usize,
        ConsumeError,
    >)
        requires
            old(self).wf(),
        ensures
            final(self).wf(),
            r == consume_outcome(old(self)@, token@, purpose, now),
            final(self)@ == consumed(old(self)@, token@, purpose, now),
    {
        let scope = match purpose {
            Purpose::VerifyEmail => Scope::VerifyEmail,
            Purpose::ResetPassword => Scope::ResetPassword,
        };
        match self.ledger.find(token) {
            None => Err(ConsumeError::Invalid),
            Some(i) => {
                let (account, held_scope, expiry, spent) = self.ledger.get(i);
                if held_scope != scope {
                    Err(ConsumeError::Invalid)
                } else if spent {
                    Err(ConsumeError::AlreadyConsumed)
                } else if now >= expiry {
                    Err(ConsumeError::Expired)
                } else {
                    self.ledger.spend(i);
                    Ok(account)
                }
            },
        }
    }

    /// Tells whether `account` holds a token for `purpose` that could still
    /// be consumed at `now`.
    pub fn pending(&self, account: usize, purpose: Purpose, now: u64) -> (r: bool)
        ensures
            r == has_live(self@.tokens, account, scope_of(purpose), now),
    {
        let scope = match purpose {
            Purpose::VerifyEmail => Scope::VerifyEmail,
            Purpose::ResetPassword => Scope::ResetPassword,
        };
        self.ledger.any_live(account, scope, now)
    }

    /// Drops the tokens that expired at `now` or earlier, spent or not, and
    /// returns how many were dropped.
    pub fn sweep(&mut self, now: u64) -> (dropped: usize)
        requires
            old(self).wf(),
        ensures
            final(self).wf(),
            final(self)@ == swept(old(self)@, now),
            dropped == old(self)@.tokens.len() - final(self)@.tokens.len(),
    {
        self.ledger.sweep(now)
    }
}

} // verus!
