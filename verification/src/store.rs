//! The credential store: identity records, unique by user name and by
//! e-mail address up to ASCII case.

use crate::text::{eq_ignore_case, same_ignoring_case};
use vstd::prelude::*;

verus! {

/// One identity. The password is held as a digest only.
#[derive(Debug)]
pub struct Account {
    pub user_id: String,
    pub username: String,
    pub email: String,
    pub password_hash: Vec<u8>,
    pub verified: bool,
    pub created_at: u64,
}

/// The mathematical content of an [`Account`].
pub struct AccountView {
    pub user_id: Seq<char>,
    pub username: Seq<char>,
    pub email: Seq<char>,
    pub password_hash: Seq<u8>,
    pub verified: bool,
    pub created_at: u64,
}

impl View for Account {
    type V = AccountView;

    open spec fn view(&self) -> AccountView {
        AccountView {
            user_id: self.user_id@,
            username: self.username@,
            email: self.email@,
            password_hash: self.password_hash@,
            verified: self.verified,
            created_at: self.created_at,
        }
    }
}

/// Why an account was not created.
#[derive(Clone, Copy, Debug, PartialEq, Eq, Structural)]
pub enum StoreError {
    /// The user name or the address belongs to an account already.
    Duplicate,
    /// The identifier belongs to an account already.
    IdInUse,
}

/// Whether an account has this user name, up to case.
pub open spec fn username_taken(s: Seq<AccountView>, username: Seq<char>) -> bool {
    exists|i: int| 0 <= i < s.len() && same_ignoring_case((#[trigger] s[i]).username, username)
}

/// Whether an account has this address, up to case.
pub open spec fn email_taken(s: Seq<AccountView>, email: Seq<char>) -> bool {
    exists|i: int| 0 <= i < s.len() && same_ignoring_case((#[trigger] s[i]).email, email)
}

/// Whether an account has this identifier.
pub open spec fn id_taken(s: Seq<AccountView>, user_id: Seq<char>) -> bool {
    exists|i: int| 0 <= i < s.len() && (#[trigger] s[i]).user_id == user_id
}

/// Whether some account has an identifier of `n` characters.
pub open spec fn id_length_taken(s: Seq<AccountView>, n: nat) -> bool {
    exists|i: int| 0 <= i < s.len() && (#[trigger] s[i]).user_id.len() == n
}

/// An identifier that is taken has the length of some account's identifier.
pub proof fn lemma_taken_id_has_length(s: Seq<AccountView>, user_id: Seq<char>)
    requires
        id_taken(s, user_id),
    ensures
        id_length_taken(s, user_id.len()),
{
    let i = choose|i: int| 0 <= i < s.len() && (#[trigger] s[i]).user_id == user_id;
    assert(s[i].user_id.len() == user_id.len());
}

/// The account with this user name, up to case.
pub open spec fn by_username(s: Seq<AccountView>, username: Seq<char>) -> Option<int> {
    if username_taken(s, username) {
        Some(
            choose|i: int|
                0 <= i < s.len() && same_ignoring_case((#[trigger] s[i]).username, username),
        )
    } else {
        None
    }
}

/// The account with this address, up to case.
pub open spec fn by_email(s: Seq<AccountView>, email: Seq<char>) -> Option<int> {
    if email_taken(s, email) {
        Some(choose|i: int| 0 <= i < s.len() && same_ignoring_case((#[trigger] s[i]).email, email))
    } else {
        None
    }
}

/// No two accounts share a user name or an address up to case, nor an
/// identifier.
pub open spec fn unique(s: Seq<AccountView>) -> bool {
    forall|i: int, j: int|
        0 <= i < j < s.len() ==> {
            &&& !same_ignoring_case((#[trigger] s[i]).username, (#[trigger] s[j]).username)
            &&& !same_ignoring_case(s[i].email, s[j].email)
            &&& s[i].user_id != s[j].user_id
        }
}

/// What `create` answers.
pub open spec fn create_outcome(
    s: Seq<AccountView>,
    user_id: Seq<char>,
    username: Seq<char>,
    email: Seq<char>,
) -> Result<usize, StoreError> {
    if username_taken(s, username) || email_taken(s, email) {
        Err(StoreError::Duplicate)
    } else if id_taken(s, user_id) {
        Err(StoreError::IdInUse)
    } else {
        Ok(s.len() as usize)
    }
}

/// The account that `create` writes: not yet verified.
pub open spec fn new_account(
    user_id: Seq<char>,
    username: Seq<char>,
    email: Seq<char>,
    password_hash: Seq<u8>,
    now: u64,
) -> AccountView {
    AccountView { user_id, username, email, password_hash, verified: false, created_at: now }
}

/// Two names that both agree with a third up to case agree with each other.
pub proof fn lemma_same_through(a: Seq<char>, b: Seq<char>, e: Seq<char>)
    requires
        same_ignoring_case(a, e),
        same_ignoring_case(b, e),
    ensures
        same_ignoring_case(a, b),
{
    assert forall|i: int| 0 <= i < a.len() implies crate::text::lower(#[trigger] a[i])
        == crate::text::lower(b[i]) by {
        assert(crate::text::lower(a[i]) == crate::text::lower(e[i]));
        assert(crate::text::lower(b[i]) == crate::text::lower(e[i]));
    }
}

/// Among unique accounts, the account found by an address is the one
/// account that has it.
pub proof fn lemma_by_email(s: Seq<AccountView>, email: Seq<char>, i: int)
    requires
        unique(s),
        0 <= i < s.len(),
        same_ignoring_case(s[i].email, email),
    ensures
        by_email(s, email) == Some(i),
{
    let k = choose|k: int| 0 <= k < s.len() && same_ignoring_case((#[trigger] s[k]).email, email);
    lemma_same_through(s[i].email, s[k].email, email);
    lemma_same_through(s[k].email, s[i].email, email);
}

/// Among unique accounts, the account found by a user name is the one
/// account that has it.
pub proof fn lemma_by_username(s: Seq<AccountView>, username: Seq<char>, i: int)
    requires
        unique(s),
        0 <= i < s.len(),
        same_ignoring_case(s[i].username, username),
    ensures
        by_username(s, username) == Some(i),
{
    let k = choose|k: int|
        0 <= k < s.len() && same_ignoring_case((#[trigger] s[k]).username, username);
    lemma_same_through(s[i].username, s[k].username, username);
    lemma_same_through(s[k].username, s[i].username, username);
}

/// The accounts, each at the place that is its id. None is ever removed.
#[derive(Debug)]
pub struct CredentialStore {
    accounts: Vec<Account>,
}

impl View for CredentialStore {
    type V = Seq<AccountView>;

    closed spec fn view(&self) -> Seq<AccountView> {
        Seq::new(self.accounts@.len(), |i: int| self.accounts@[i]@)
    }
}

impl CredentialStore {
    /// The invariant of the store.
    pub open spec fn wf(&self) -> bool {
        unique(self@) && self@.len() <= usize::MAX
    }

    /// A store without accounts.
    pub fn new() -> (r: CredentialStore)
        ensures
            r.wf(),
            r@ == Seq::<AccountView>::empty(),
    {
        let r = CredentialStore { accounts: Vec::new() };
        assert(r@ =~= Seq::<AccountView>::empty());
        r
    }

    /// The number of accounts.
    pub fn len(&self) -> (n: usize)
        ensures
            n == self@.len(),
    {
        self.accounts.len()
    }

    /// The account with the given id.
    pub fn get(&self, id: usize) -> (r: &Account)
        requires
            id < self@.len(),
        ensures
            r@ == self@[id as int],
    {
        &self.accounts[id]
    }

    /// Finds an account by its address, up to case.
    pub fn find_by_email(&self, email: &str) -> (r: Option<usize>)
        requires
            self.wf(),
        ensures
            match r {
                Some(i) => by_email(self@, email@) == Some(i as int) && i < self@.len()
                    && same_ignoring_case(self@[i as int].email, email@),
                None => by_email(self@, email@) is None && !email_taken(self@, email@),
            },
    {
        let n: usize = self.accounts.len();
        let mut i: usize = 0;
        while i < n
            invariant
                self.wf(),
                n == self@.len(),
                n == self.accounts@.len(),
                i <= n,
                forall|j: int| 0 <= j < i ==> !same_ignoring_case((#[trigger] self@[j]).email, email@),
            decreases n - i,
        {
            if eq_ignore_case(self.accounts[i].email.as_str(), email) {
                proof {
                    lemma_by_email(self@, email@, i as int);
                }
                return Some(i);
            }
            i += 1;
        }
        None
    }

    /// Finds an account by its user name, up to case.
    pub fn find_by_username(&self, username: &str) -> (r: Option<usize>)
        requires
            self.wf(),
        ensures
            match r {
                Some(i) => by_username(self@, username@) == Some(i as int) && i < self@.len()
                    && same_ignoring_case(self@[i as int].username, username@),
                None => by_username(self@, username@) is None && !username_taken(
                    self@,
                    username@,
                ),
            },
    {
        let n: usize = self.accounts.len();
        let mut i: usize = 0;
        while i < n
            invariant
                self.wf(),
                n == self@.len(),
                n == self.accounts@.len(),
                i <= n,
                forall|j: int|
                    0 <= j < i ==> !same_ignoring_case((#[trigger] self@[j]).username, username@),
            decreases n - i,
        {
            if eq_ignore_case(self.accounts[i].username.as_str(), username) {
                proof {
                    lemma_by_username(self@, username@, i as int);
                }
                return Some(i);
            }
            i += 1;
        }
        None
    }

    /// Tells whether an account has this identifier.
    pub fn has_id(&self, user_id: &str) -> (r: bool)
        ensures
            r == id_taken(self@, user_id@),
    {
        let key: String = user_id.to_owned();
        let n: usize = self.accounts.len();
        let mut i: usize = 0;
        while i < n
            invariant
                n == self@.len(),
                n == self.accounts@.len(),
                key@ == user_id@,
                i <= n,
                forall|j: int| 0 <= j < i ==> (#[trigger] self@[j]).user_id != user_id@,
            decreases n - i,
        {
            if self.accounts[i].user_id == key {
                assert(self@[i as int].user_id == user_id@);
                return true;
            }
            i += 1;
        }
        false
    }

    /// Creates an unverified account and returns its id, its place in the
    /// store. A user name or address that is taken, up to case, gives
    /// `Duplicate`; an identifier that is taken gives `IdInUse`. Then
    /// nothing changes.
    pub fn create(
        &mut self,
        user_id: &str,
        username: &str,
        email: &str,
        password_hash: Vec<u8>,
        now: u64,
    ) -> (r: Result<usize, StoreError>)
        requires
            old(self).wf(),
        ensures
            final(self).wf(),
            r == create_outcome(old(self)@, user_id@, username@, email@),
            r is Ok ==> final(self)@ == old(self)@.push(
                new_account(user_id@, username@, email@, password_hash@, now),
            ),
            r is Err ==> final(self)@ == old(self)@,
    {
        if self.find_by_username(username).is_some() || self.find_by_email(email).is_some() {
            return Err(StoreError::Duplicate);
        }
        if self.has_id(user_id) {
            return Err(StoreError::IdInUse);
        }
        let account = Account {
            user_id: user_id.to_owned(),
            username: username.to_owned(),
            email: email.to_owned(),
            password_hash,
            verified: false,
            created_at: now,
        };
        self.accounts.push(account);
        let count: usize = self.accounts.len();
        assert(self@ =~= old(self)@.push(
            new_account(user_id@, username@, email@, password_hash@, now),
        ));
        Ok(count - 1)
    }

    /// Marks the account as verified.
    pub fn mark_verified(&mut self, id: usize)
        requires
            old(self).wf(),
            id < old(self)@.len(),
        ensures
            final(self).wf(),
            final(self)@ == old(self)@.update(
                id as int,
                (AccountView { verified: true, ..old(self)@[id as int] }),
            ),
    {
        self.accounts[id].verified = true;
        assert(self@ =~= old(self)@.update(
            id as int,
            (AccountView { verified: true, ..old(self)@[id as int] }),
        ));
    }

    /// Replaces the password digest of the account.
    pub fn update_password_hash(&mut self, id: usize, new_hash: Vec<u8>)
        requires
            old(self).wf(),
            id < old(self)@.len(),
        ensures
            final(self).wf(),
            final(self)@ == old(self)@.update(
                id as int,
                (AccountView { password_hash: new_hash@, ..old(self)@[id as int] }),
            ),
    {
        self.accounts[id].password_hash = new_hash;
        assert(self@ =~= old(self)@.update(
            id as int,
            (AccountView { password_hash: new_hash@, ..old(self)@[id as int] }),
        ));
    }
}

} // verus!
