//! Text rules shared by the account store and the service: case folding,
//! the shape of an e-mail address, and comparison of password digests.

use vstd::prelude::*;
use vstd::string::*;

verus! {

/// The ASCII lower-case form of a character; others are left as they are.
pub open spec fn lower(c: char) -> char {
    if 'A' <= c && c <= 'Z' {
        ((c as u8 + 32) as u8) as char
    } else {
        c
    }
}

/// Two names are the same when they agree up to ASCII case.
pub open spec fn same_ignoring_case(a: Seq<char>, b: Seq<char>) -> bool {
    &&& a.len() == b.len()
    &&& forall|i: int| 0 <= i < a.len() ==> lower(#[trigger] a[i]) == lower(b[i])
}

/// An address is accepted when it holds an `@`.
pub open spec fn well_formed_email(s: Seq<char>) -> bool {
    s.contains('@')
}

/// Computes [`lower`].
pub fn to_lower(c: char) -> (r: char)
    ensures
        r == lower(c),
{
    if 'A' <= c && c <= 'Z' {
        let b: u8 = c as u8;
        (b + 32) as char
    } else {
        c
    }
}

/// Compares two strings up to ASCII case.
pub fn eq_ignore_case(a: &str, b: &str) -> (r: bool)
    ensures
        r == same_ignoring_case(a@, b@),
{
    let n: usize = a.unicode_len();
    if n != b.unicode_len() {
        return false;
    }
    let mut i: usize = 0;
    while i < n
        invariant
            n == a@.len(),
            n == b@.len(),
            i <= n,
            forall|j: int| 0 <= j < i ==> lower(#[trigger] a@[j]) == lower(b@[j]),
        decreases n - i,
    {
        if to_lower(a.get_char(i)) != to_lower(b.get_char(i)) {
            return false;
        }
        i += 1;
    }
    true
}

/// Tells whether the address holds an `@`.
pub fn is_well_formed_email(s: &str) -> (r: bool)
    ensures
        r == well_formed_email(s@),
{
    let n: usize = s.unicode_len();
    let mut i: usize = 0;
    while i < n
        invariant
            n == s@.len(),
            i <= n,
            forall|j: int| 0 <= j < i ==> s@[j] != '@',
        decreases n - i,
    {
        if s.get_char(i) == '@' {
            return true;
        }
        i += 1;
    }
    false
}

/// Compares two digests without stopping at the first difference: every
/// byte of `a` is visited whatever `b` holds.
pub fn constant_time_eq(a: &Vec<u8>, b: &Vec<u8>) -> (r: bool)
    ensures
        r == (a@ == b@),
{
    let n: usize = a.len();
    let same_len: bool = n == b.len();
    let mut diff: u8 = if same_len { 0 } else { 1 };
    let mut i: usize = 0;
    while i < n
        invariant
            n == a@.len(),
            same_len == (a@.len() == b@.len()),
            i <= n,
            !same_len ==> diff != 0,
            same_len ==> (diff == 0 <==> forall|j: int| 0 <= j < i ==> a@[j] == b@[j]),
        decreases n - i,
    {
        let x: u8 = a[i];
        let y: u8 = if i < b.len() { b[i] } else { 0 };
        let d: u8 = x ^ y;
        let next: u8 = diff | d;
        assert((next == 0) == (diff == 0 && x == y)) by (bit_vector)
            requires
                d == x ^ y,
                next == diff | d,
        ;
        diff = next;
        i += 1;
    }
    proof {
        if same_len && diff == 0 {
            assert(a@ =~= b@);
        }
    }
    diff == 0
}

} // verus!
