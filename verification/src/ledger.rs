//! A table of issued tokens, found by their string. No two records hold the
//! same string, and a record that was spent stays spent.

use vstd::prelude::*;

verus! {

/// What a token may be presented for.
#[derive(Clone, Copy, Debug, PartialEq, Eq, Structural)]
pub enum Scope {
    VerifyEmail,
    ResetPassword,
    Access,
    Refresh,
}

/// One issued token: the account it is bound to, its scope, the instant at
/// which it stops being valid, and whether it has been used up or revoked.
#[derive(Debug)]
pub struct TokenRecord {
    pub token: String,
    pub account: usize,
    pub scope: Scope,
    pub expiry: u64,
    pub spent: bool,
}

/// The mathematical content of a [`TokenRecord`].
pub struct TokenRecordView {
    pub token: Seq<char>,
    pub account: usize,
    pub scope: Scope,
    pub expiry: u64,
    pub spent: bool,
}

impl View for TokenRecord {
    type V = TokenRecordView;

    open spec fn view(&self) -> TokenRecordView {
        TokenRecordView {
            token: self.token@,
            account: self.account,
            scope: self.scope,
            expiry: self.expiry,
            spent: self.spent,
        }
    }
}

/// No two records hold the same token string.
pub open spec fn distinct(s: Seq<TokenRecordView>) -> bool {
    forall|i: int, j: int|
        0 <= i < s.len() && 0 <= j < s.len() && i != j ==> (#[trigger] s[i]).token
            != (#[trigger] s[j]).token
}

/// Whether some record holds the token string.
pub open spec fn holds(s: Seq<TokenRecordView>, token: Seq<char>) -> bool {
    exists|i: int| 0 <= i < s.len() && (#[trigger] s[i]).token == token
}

/// Whether some record holds a token string of `n` characters.
pub open spec fn holds_length(s: Seq<TokenRecordView>, n: nat) -> bool {
    exists|i: int| 0 <= i < s.len() && (#[trigger] s[i]).token.len() == n
}

/// A token string that is held has the length of some held string.
pub proof fn lemma_held_has_length(s: Seq<TokenRecordView>, token: Seq<char>)
    requires
        holds(s, token),
    ensures
        holds_length(s, token.len()),
{
    let i = choose|i: int| 0 <= i < s.len() && (#[trigger] s[i]).token == token;
    assert(s[i].token.len() == token.len());
}

/// The place of the record that holds the token string, if there is one.
pub open spec fn index_of(s: Seq<TokenRecordView>, token: Seq<char>) -> Option<int> {
    if holds(s, token) {
        Some(choose|i: int| 0 <= i < s.len() && (#[trigger] s[i]).token == token)
    } else {
        None
    }
}

/// The record with its `spent` flag set.
pub open spec fn spent_form(r: TokenRecordView) -> TokenRecordView {
    TokenRecordView { spent: true, ..r }
}

/// The table after every unspent record of `account` in `scope` is spent.
pub open spec fn all_spent(s: Seq<TokenRecordView>, account: usize, scope: Scope) -> Seq<
    TokenRecordView,
> {
    Seq::new(
        s.len(),
        |i: int|
            if s[i].account == account && s[i].scope == scope {
                spent_form(s[i])
            } else {
                s[i]
            },
    )
}

/// The instant `ttl` after `now`, held at the largest instant there is.
pub open spec fn expiry_at(now: u64, ttl: u64) -> u64 {
    if now + ttl > u64::MAX {
        u64::MAX
    } else {
        (now + ttl) as u64
    }
}

/// Computes [`expiry_at`].
pub fn expiry_after(now: u64, ttl: u64) -> (r: u64)
    ensures
        r == expiry_at(now, ttl),
{
    if now > u64::MAX - ttl {
        u64::MAX
    } else {
        now + ttl
    }
}

/// In a table of distinct records, the place of a token is the one place
/// that holds it.
pub proof fn lemma_index_of(s: Seq<TokenRecordView>, token: Seq<char>, i: int)
    requires
        distinct(s),
        0 <= i < s.len(),
        s[i].token == token,
    ensures
        index_of(s, token) == Some(i),
{
    let k = choose|k: int| 0 <= k < s.len() && (#[trigger] s[k]).token == token;
    assert(s[k].token == s[i].token);
}

/// A token is held after a record is added if it was held before or is the
/// token of the new record.
pub proof fn lemma_holds_push(s: Seq<TokenRecordView>, rec: TokenRecordView, token: Seq<char>)
    ensures
        holds(s.push(rec), token) <==> holds(s, token) || rec.token == token,
{
    let t = s.push(rec);
    if holds(s, token) {
        let k = choose|k: int| 0 <= k < s.len() && (#[trigger] s[k]).token == token;
        assert(t[k].token == token);
    }
    if rec.token == token {
        assert(t[s.len() as int].token == token);
    }
    if holds(t, token) {
        let k = choose|k: int| 0 <= k < t.len() && (#[trigger] t[k]).token == token;
        if k < s.len() {
            assert(s[k].token == token);
        }
    }
}

/// Whether `account` holds a token in `scope` that is unspent and whose
/// expiry lies after `now`.
pub open spec fn has_live(s: Seq<TokenRecordView>, account: usize, scope: Scope, now: u64) -> bool {
    exists|i: int|
        0 <= i < s.len() && (#[trigger] s[i]).account == account && s[i].scope == scope
            && !s[i].spent && now < s[i].expiry
}

/// The records whose expiry instant lies after `now`, in their order.
pub open spec fn unexpired(s: Seq<TokenRecordView>, now: u64) -> Seq<TokenRecordView>
    decreases s.len(),
{
    if s.len() == 0 {
        Seq::empty()
    } else {
        let rest = unexpired(s.drop_last(), now);
        if now < s.last().expiry {
            rest.push(s.last())
        } else {
            rest
        }
    }
}

/// What is left when expired records are dropped: the records that were
/// held and whose expiry lies after `now`.
pub proof fn lemma_unexpired_members(s: Seq<TokenRecordView>, now: u64)
    ensures
        unexpired(s, now).len() <= s.len(),
        forall|r: TokenRecordView| #[trigger]
            unexpired(s, now).contains(r) <==> s.contains(r) && now < r.expiry,
    decreases s.len(),
{
    if s.len() > 0 {
        let head = s.drop_last();
        let rest = unexpired(head, now);
        let u = unexpired(s, now);
        let last = s.last();
        lemma_unexpired_members(head, now);
        assert forall|r: TokenRecordView| #[trigger]
            u.contains(r) <==> s.contains(r) && now < r.expiry by {
            if u.contains(r) {
                let k = choose|k: int| 0 <= k < u.len() && u[k] == r;
                if k < rest.len() {
                    assert(rest[k] == r);
                    assert(rest.contains(r));
                    let j = choose|j: int| 0 <= j < head.len() && head[j] == r;
                    assert(s[j] == r);
                } else {
                    assert(s[s.len() - 1] == r);
                }
            }
            if s.contains(r) && now < r.expiry {
                let j = choose|j: int| 0 <= j < s.len() && s[j] == r;
                if j < head.len() {
                    assert(head[j] == r);
                    assert(head.contains(r));
                    assert(rest.contains(r));
                    let k = choose|k: int| 0 <= k < rest.len() && rest[k] == r;
                    assert(u[k] == r);
                } else {
                    assert(u[u.len() - 1] == r);
                }
            }
        }
    }
}

/// Dropping expired records keeps the token strings distinct.
pub proof fn lemma_unexpired_distinct(s: Seq<TokenRecordView>, now: u64)
    requires
        distinct(s),
    ensures
        distinct(unexpired(s, now)),
    decreases s.len(),
{
    if s.len() > 0 {
        let head = s.drop_last();
        let rest = unexpired(head, now);
        let u = unexpired(s, now);
        assert(distinct(head)) by {
            assert forall|a: int, b: int|
                0 <= a < head.len() && 0 <= b < head.len() && a != b implies (
            #[trigger] head[a]).token != (#[trigger] head[b]).token by {
                assert(s[a].token != s[b].token);
            }
        }
        lemma_unexpired_distinct(head, now);
        lemma_unexpired_members(head, now);
        assert forall|a: int, b: int| 0 <= a < u.len() && 0 <= b < u.len() && a != b implies (
        #[trigger] u[a]).token != (#[trigger] u[b]).token by {
            if a < rest.len() && b < rest.len() {
                assert(rest[a].token != rest[b].token);
            } else {
                let inner = if a < rest.len() {
                    a
                } else {
                    b
                };
                assert(rest.contains(rest[inner]));
                assert(head.contains(rest[inner]));
                let j = choose|j: int| 0 <= j < head.len() && head[j] == rest[inner];
                assert(s[j].token != s[s.len() - 1].token);
            }
        }
    }
}

/// Every record is bound to one of the first `n` accounts.
pub open spec fn bounded(s: Seq<TokenRecordView>, n: nat) -> bool {
    forall|i: int| 0 <= i < s.len() ==> (#[trigger] s[i]).account < n
}

/// Dropping expired records keeps every record bound to an account that
/// exists.
pub proof fn lemma_unexpired_bounded(s: Seq<TokenRecordView>, now: u64, n: nat)
    requires
        bounded(s, n),
    ensures
        bounded(unexpired(s, now), n),
{
    let u = unexpired(s, now);
    lemma_unexpired_members(s, now);
    assert forall|k: int| 0 <= k < u.len() implies (#[trigger] u[k]).account < n by {
        assert(u.contains(u[k]));
        let j = choose|j: int| 0 <= j < s.len() && s[j] == u[k];
        assert(s[j].account < n);
    }
}

/// The issued tokens, in the order of their issue.
#[derive(Debug)]
pub struct TokenLedger {
    records: Vec<TokenRecord>,
}

impl View for TokenLedger {
    type V = Seq<TokenRecordView>;

    closed spec fn view(&self) -> Seq<TokenRecordView> {
        Seq::new(self.records@.len(), |i: int| self.records@[i]@)
    }
}

impl TokenLedger {
    /// The invariant of the table.
    pub open spec fn wf(&self) -> bool {
        distinct(self@)
    }

    /// A table that holds nothing.
    pub fn new() -> (r: TokenLedger)
        ensures
            r@ == Seq::<TokenRecordView>::empty(),
            r.wf(),
    {
        let r = TokenLedger { records: Vec::new() };
        assert(r@ =~= Seq::<TokenRecordView>::empty());
        r
    }

    /// The number of records held.
    pub fn len(&self) -> (n: usize)
        ensures
            n == self@.len(),
    {
        self.records.len()
    }

    /// Looks a token up by its string.
    pub fn find(&self, token: &str) -> (r: Option<usize>)
        requires
            self.wf(),
        ensures
            match r {
                Some(i) => index_of(self@, token@) == Some(i as int) && i < self@.len()
                    && self@[i as int].token == token@,
                None => index_of(self@, token@) is None && !holds(self@, token@),
            },
    {
        let key: String = token.to_owned();
        let n: usize = self.records.len();
        let mut i: usize = 0;
        while i < n
            invariant
                self.wf(),
                n == self@.len(),
                n == self.records@.len(),
                key@ == token@,
                i <= n,
                forall|j: int| 0 <= j < i ==> (#[trigger] self@[j]).token != token@,
            decreases n - i,
        {
            if self.records[i].token == key {
                proof {
                    lemma_index_of(self@, token@, i as int);
                }
                return Some(i);
            }
            i += 1;
        }
        None
    }

    /// The account, scope, expiry and spent flag of the record at `i`.
    pub fn get(&self, i: usize) -> (r: (usize, Scope, u64, bool))
        requires
            i < self@.len(),
        ensures
            r == (
                self@[i as int].account,
                self@[i as int].scope,
                self@[i as int].expiry,
                self@[i as int].spent,
            ),
    {
        let rec = &self.records[i];
        (rec.account, rec.scope, rec.expiry, rec.spent)
    }

    /// Records a new unspent token, unless its string is already held: then
    /// nothing changes and `false` is returned.
    pub fn insert(&mut self, token: &str, account: usize, scope: Scope, expiry: u64) -> (r: bool)
        requires
            old(self).wf(),
        ensures
            final(self).wf(),
            r == !holds(old(self)@, token@),
            r ==> final(self)@ == old(self)@.push(
                (TokenRecordView { token: token@, account, scope, expiry, spent: false }),
            ),
            !r ==> final(self)@ == old(self)@,
    {
        if self.find(token).is_some() {
            return false;
        }
        let rec = TokenRecord { token: token.to_owned(), account, scope, expiry, spent: false };
        self.records.push(rec);
        assert(self@ =~= old(self)@.push(
            (TokenRecordView { token: token@, account, scope, expiry, spent: false }),
        ));
        true
    }

    /// Marks the record at `i` as spent.
    pub fn spend(&mut self, i: usize)
        requires
            old(self).wf(),
            i < old(self)@.len(),
        ensures
            final(self).wf(),
            final(self)@ == old(self)@.update(i as int, spent_form(old(self)@[i as int])),
    {
        self.records[i].spent = true;
        assert(self@ =~= old(self)@.update(i as int, spent_form(old(self)@[i as int])));
    }

    /// Tells whether `account` holds a token in `scope` that could still be
    /// presented at `now`.
    pub fn any_live(&self, account: usize, scope: Scope, now: u64) -> (r: bool)
        ensures
            r == has_live(self@, account, scope, now),
    {
        let n: usize = self.records.len();
        let mut i: usize = 0;
        while i < n
            invariant
                n == self@.len(),
                n == self.records@.len(),
                i <= n,
                forall|j: int|
                    0 <= j < i ==> !((#[trigger] self@[j]).account == account && self@[j].scope
                        == scope && !self@[j].spent && now < self@[j].expiry),
            decreases n - i,
        {
            let rec = &self.records[i];
            if rec.account == account && rec.scope == scope && !rec.spent && now < rec.expiry {
                assert(self@[i as int].account == account);
                return true;
            }
            i += 1;
        }
        false
    }

    /// Drops every record whose expiry instant is `now` or earlier, and
    /// returns how many were dropped.
    pub fn sweep(&mut self, now: u64) -> (dropped: usize)
        requires
            old(self).wf(),
        ensures
            final(self).wf(),
            final(self)@ == unexpired(old(self)@, now),
            dropped == old(self)@.len() - final(self)@.len(),
    {
        let n: usize = self.records.len();
        let mut kept: Vec<TokenRecord> = Vec::new();
        let mut i: usize = 0;
        while i < n
            invariant
                n == self@.len(),
                n == self.records@.len(),
                i <= n,
                kept@.len() <= i,
                Seq::new(kept@.len(), |k: int| kept@[k]@) == unexpired(self@.take(i as int), now),
            decreases n - i,
        {
            let rec = &self.records[i];
            let ghost before = Seq::new(kept@.len(), |k: int| kept@[k]@);
            if now < rec.expiry {
                kept.push(
                    TokenRecord {
                        token: rec.token.clone(),
                        account: rec.account,
                        scope: rec.scope,
                        expiry: rec.expiry,
                        spent: rec.spent,
                    },
                );
                assert(Seq::new(kept@.len(), |k: int| kept@[k]@) =~= before.push(self@[i as int]));
            }
            proof {
                let next = self@.take(i + 1);
                assert(next.drop_last() =~= self@.take(i as int));
                assert(next.last() == self@[i as int]);
            }
            i += 1;
        }
        proof {
            assert(self@.take(n as int) =~= self@);
            lemma_unexpired_members(self@, now);
            lemma_unexpired_distinct(self@, now);
        }
        let dropped: usize = n - kept.len();
        self.records = kept;
        assert(self@ =~= unexpired(old(self)@, now));
        dropped
    }

    /// Spends every record of `account` in `scope`.
    pub fn spend_all(&mut self, account: usize, scope: Scope)
        requires
            old(self).wf(),
        ensures
            final(self).wf(),
            final(self)@ == all_spent(old(self)@, account, scope),
    {
        let n: usize = self.records.len();
        let mut i: usize = 0;
        while i < n
            invariant
                n == old(self)@.len(),
                self@.len() == n,
                i <= n,
                self.wf(),
                forall|j: int| 0 <= j < i ==> #[trigger] self@[j] == all_spent(old(self)@, account, scope)[j],
                forall|j: int| i <= j < n ==> #[trigger] self@[j] == old(self)@[j],
            decreases n - i,
        {
            let (a, s, _e, _sp) = self.get(i);
            if a == account && s == scope {
                self.spend(i);
            }
            i += 1;
        }
        assert(self@ =~= all_spent(old(self)@, account, scope));
    }
}

} // verus!
