//! Syntactic rules for names, canonicalization of a qualified name to
//! its root, and the suffix allow-list check.
//!
//! A name is a byte string. A root name holds only ASCII lowercase
//! letters; a qualified name additionally holds exactly one interior
//! dot. The registry keys leases by the root alone, so `root_of` is the
//! canonical form every lookup goes through.

use vstd::prelude::*;
use crate::errors::Error;

verus! {

/// The separator between a subdomain label and its root.
pub const DOT: u8 = 46;

/// Shortest name accepted, in bytes.
pub const MIN_NAME_LEN: usize = 3;

/// Longest name accepted, in bytes.
pub const MAX_NAME_LEN: usize = 24;

/// An ASCII lowercase letter.
pub open spec fn is_lowercase_letter(c: u8) -> bool {
    97 <= c && c <= 122
}

/// Whether some byte of `s` is the separator.
pub open spec fn has_dot(s: Seq<u8>) -> bool {
    exists|i: int| 0 <= i < s.len() && s[i] == DOT
}

/// How many bytes of `s` are the separator.
pub open spec fn dot_count(s: Seq<u8>) -> nat
    decreases s.len(),
{
    if s.len() == 0 {
        0
    } else {
        dot_count(s.drop_last()) + if s.last() == DOT { 1nat } else { 0nat }
    }
}

/// A root name: within the length bounds and all lowercase letters.
pub open spec fn valid_root_name(s: Seq<u8>) -> bool {
    &&& MIN_NAME_LEN <= s.len() <= MAX_NAME_LEN
    &&& forall|i: int| 0 <= i < s.len() ==> is_lowercase_letter(#[trigger] s[i])
}

/// A name in subdomain-permitting form: within the length bounds, at
/// most one separator, the separator at neither end, and every other
/// byte a lowercase letter.
pub open spec fn valid_subdomain_name(s: Seq<u8>) -> bool {
    &&& MIN_NAME_LEN <= s.len() <= MAX_NAME_LEN
    &&& s[0] != DOT
    &&& s[s.len() - 1] != DOT
    &&& dot_count(s) <= 1
    &&& forall|i: int| 0 <= i < s.len() ==> s[i] == DOT || is_lowercase_letter(#[trigger] s[i])
}

/// The rule `validate_name` decides: root form, or subdomain form when
/// `allow_subdomain` is set.
pub open spec fn valid_name(s: Seq<u8>, allow_subdomain: bool) -> bool {
    if allow_subdomain {
        valid_subdomain_name(s)
    } else {
        valid_root_name(s)
    }
}

/// What stands strictly after the first separator of `s`.
pub open spec fn tail_after_first_dot(s: Seq<u8>) -> Seq<u8>
    decreases s.len(),
{
    if s.len() == 0 {
        s
    } else if s[0] == DOT {
        s.subrange(1, s.len() as int)
    } else {
        tail_after_first_dot(s.subrange(1, s.len() as int))
    }
}

/// The root of a name: the name itself when it holds no separator,
/// otherwise the bytes strictly after the first separator.
pub open spec fn root_of(s: Seq<u8>) -> Seq<u8> {
    if has_dot(s) {
        tail_after_first_dot(s)
    } else {
        s
    }
}

/// Whether the allow-list `tlds` holds `suffix`, byte for byte.
pub open spec fn tld_allowed(suffix: Seq<u8>, tlds: Seq<Seq<u8>>) -> bool {
    exists|i: int| 0 <= i < tlds.len() && tlds[i] == suffix
}

/// Byte-for-byte equality of two byte strings.
pub fn bytes_eq(a: &Vec<u8>, b: &Vec<u8>) -> (r: bool)
    ensures
        r <==> a@ == b@,
{
    let r = a == b;
    proof {
        if r {
            assert(a@ =~= b@);
        }
    }
    r
}

/// Checks the syntactic rules on `name`, with subdomains permitted only
/// when `allow_subdomain` is set.
pub fn validate_name(name: &Vec<u8>, allow_subdomain: bool) -> (r: Result<(), Error>)
    ensures
        r is Ok <==> valid_name(name@, allow_subdomain),
        r is Err ==> r == Err::<(), Error>(Error::NameInvalid),
{
    if name.len() < MIN_NAME_LEN {
        return Err(Error::NameInvalid);
    }
    if name.len() > MAX_NAME_LEN {
        return Err(Error::NameInvalid);
    }
    if !allow_subdomain {
        let mut i: usize = 0;
        while i < name.len()
            invariant
                !allow_subdomain,
                0 <= i <= name.len(),
                forall|j: int| 0 <= j < i ==> is_lowercase_letter(#[trigger] name@[j]),
            decreases name.len() - i,
        {
            let c = name[i];
            if !(97 <= c && c <= 122) {
                proof {
                    assert(!is_lowercase_letter(name@[i as int]));
                }
                return Err(Error::NameInvalid);
            }
            i += 1;
        }
        Ok(())
    } else {
        if name[0] == DOT || name[name.len() - 1] == DOT {
            return Err(Error::NameInvalid);
        }
        let mut dots: usize = 0;
        let mut i: usize = 0;
        while i < name.len()
            invariant
                allow_subdomain,
                0 <= i <= name.len(),
                dots == dot_count(name@.take(i as int)),
                dots <= 1,
                forall|j: int|
                    0 <= j < i ==> name@[j] == DOT || is_lowercase_letter(#[trigger] name@[j]),
            decreases name.len() - i,
        {
            let c = name[i];
            proof {
                assert(name@.take(i + 1).drop_last() =~= name@.take(i as int));
            }
            if c == DOT {
                if dots >= 1 {
                    proof {
                        lemma_dot_count_prefix_le(name@, i + 1);
                    }
                    return Err(Error::NameInvalid);
                }
                dots += 1;
            } else {
                if !(97 <= c && c <= 122) {
                    proof {
                        assert(name@[i as int] != DOT);
                        assert(!is_lowercase_letter(name@[i as int]));
                    }
                    return Err(Error::NameInvalid);
                }
            }
            i += 1;
        }
        proof {
            assert(name@.take(name@.len() as int) =~= name@);
        }
        Ok(())
    }
}

/// A prefix never holds more separators than the whole.
proof fn lemma_dot_count_prefix_le(s: Seq<u8>, n: int)
    requires
        0 <= n <= s.len(),
    ensures
        dot_count(s.take(n)) <= dot_count(s),
    decreases s.len() - n,
{
    if n < s.len() {
        assert(s.take(n + 1).drop_last() =~= s.take(n));
        lemma_dot_count_prefix_le(s, n + 1);
    } else {
        assert(s.take(n) =~= s);
    }
}

/// Whether the name holds a separator anywhere.
pub fn is_has_dot(name: &Vec<u8>) -> (r: bool)
    ensures
        r == has_dot(name@),
{
    let mut i: usize = 0;
    while i < name.len()
        invariant
            0 <= i <= name.len(),
            forall|j: int| 0 <= j < i ==> name@[j] != DOT,
        decreases name.len() - i,
    {
        if name[i] == DOT {
            return true;
        }
        i += 1;
    }
    false
}

/// `tail_after_first_dot` is the suffix after the first separator.
proof fn lemma_tail_after_first_dot(s: Seq<u8>, i: int)
    requires
        0 <= i < s.len(),
        s[i] == DOT,
        forall|j: int| 0 <= j < i ==> s[j] != DOT,
    ensures
        tail_after_first_dot(s) == s.subrange(i + 1, s.len() as int),
    decreases i,
{
    if i == 0 {
    } else {
        let t = s.subrange(1, s.len() as int);
        assert(t[i - 1] == DOT);
        assert(forall|j: int| 0 <= j < i - 1 ==> t[j] != DOT);
        lemma_tail_after_first_dot(t, i - 1);
        assert(t.subrange(i, t.len() as int) =~= s.subrange(i + 1, s.len() as int));
    }
}

/// Canonicalizes a name to its root: unchanged when it holds no
/// separator, otherwise the bytes strictly after the first separator.
pub fn get_root_name(name: &Vec<u8>) -> (r: Vec<u8>)
    ensures
        r@ == root_of(name@),
{
    let mut i: usize = 0;
    while i < name.len()
        invariant
            0 <= i <= name.len(),
            forall|j: int| 0 <= j < i ==> name@[j] != DOT,
        decreases name.len() - i,
    {
        if name[i] == DOT {
            let mut root: Vec<u8> = Vec::new();
            let mut k: usize = i + 1;
            while k < name.len()
                invariant
                    i + 1 <= k <= name.len(),
                    i < name.len(),
                    root@ =~= name@.subrange(i + 1, k as int),
                decreases name.len() - k,
            {
                root.push(name[k]);
                k += 1;
            }
            proof {
                assert(name@[i as int] == DOT);
                lemma_tail_after_first_dot(name@, i as int);
                assert(root@ =~= name@.subrange(i + 1, name@.len() as int));
            }
            return root;
        }
        i += 1;
    }
    let r = name.clone();
    proof {
        assert(!has_dot(name@));
    }
    r
}

/// Membership test of `suffix` in the configured allow-list, byte for
/// byte, with no case folding.
pub fn validate_tld(suffix: &Vec<u8>, tlds: &Vec<Vec<u8>>) -> (r: Result<(), Error>)
    ensures
        r is Ok <==> tld_allowed(suffix@, tlds.deep_view()),
        r is Err ==> r == Err::<(), Error>(Error::TLDNotSupported),
{
    let mut i: usize = 0;
    while i < tlds.len()
        invariant
            0 <= i <= tlds.len(),
            forall|j: int| 0 <= j < i ==> tlds.deep_view()[j] != suffix@,
        decreases tlds.len() - i,
    {
        if bytes_eq(&tlds[i], suffix) {
            proof {
                assert(tlds.deep_view()[i as int] == tlds@[i as int]@);
            }
            return Ok(());
        }
        proof {
            assert(tlds.deep_view()[i as int] == tlds@[i as int]@);
        }
        i += 1;
    }
    Err(Error::TLDNotSupported)
}

} // verus!
