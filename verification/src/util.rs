//! String-encoding policy and error-code translation.
//!
//! The backend takes NUL-terminated strings, so a value with an embedded
//! NUL character cannot be handed to it. Reads treat such a key as silently
//! absent; writes and filter registrations report the invalid-argument
//! error. Both policies are stated over [`nul_free`].

use vstd::prelude::*;
use vstd::string::*;

use crate::error::{from_errno, invalid_argument, Error, EINVAL};

verus! {

/// Whether a string can be encoded for the backend: no embedded NUL.
pub open spec fn nul_free(s: Seq<char>) -> bool {
    forall|i: int| 0 <= i < s.len() ==> s[i] != '\0'
}

/// Decides whether `s` has an embedded NUL character.
pub fn is_nul_free(s: &str) -> (r: bool)
    ensures
        r == nul_free(s@),
{
    let n = s.unicode_len();
    let mut i: usize = 0;
    while i < n
        invariant
            n == s@.len(),
            i <= n,
            forall|j: int| 0 <= j < i ==> s@[j] != '\0',
        decreases n - i,
    {
        if s.get_char(i) == '\0' {
            return false;
        }
        i += 1;
    }
    true
}

/// Checks the encoding policy for a write-side argument: an embedded NUL
/// is reported as the invalid-argument error.
pub fn check_encodable(s: &str) -> (r: Result<(), Error>)
    ensures
        r is Ok <==> nul_free(s@),
        r is Err ==> r->Err_0.errno == EINVAL,
{
    if is_nul_free(s) {
        Ok(())
    } else {
        Err(invalid_argument())
    }
}

/// Translates a native return code: zero is success, anything else is the
/// corresponding error.
pub fn errno_to_result(errno: i32) -> (r: Result<(), Error>)
    ensures
        r is Ok <==> errno == 0,
        r is Err ==> r->Err_0.errno == errno,
{
    if errno == 0 {
        Ok(())
    } else {
        Err(from_errno(errno))
    }
}

/// Decides whether two strings hold the same characters.
pub fn str_eq(a: &str, b: &str) -> (r: bool)
    ensures
        r == (a@ == b@),
{
    let sa = a.to_owned();
    let sb = b.to_owned();
    sa == sb
}

/// Whether `new` extends `prev` by exactly one element satisfying `ok`,
/// leaving the earlier elements as they were.
pub open spec fn seq_pushed<T>(new: Seq<T>, prev: Seq<T>, ok: spec_fn(T) -> bool) -> bool {
    &&& new.len() == prev.len() + 1
    &&& new.take(prev.len() as int) == prev
    &&& ok(new.last())
}

/// The view of an optional string.
pub open spec fn opt_view(o: Option<String>) -> Option<Seq<char>> {
    match o {
        Some(s) => Some(s@),
        None => None,
    }
}

/// Decides whether the optional string holds exactly the given characters.
pub fn opt_is(o: &Option<String>, s: &str) -> (r: bool)
    ensures
        r == (opt_view(*o) == Some(s@)),
{
    match o {
        Some(v) => str_eq(v.as_str(), s),
        None => false,
    }
}

/// A copy of an optional string, equal to the original.
pub fn clone_opt_string(o: &Option<String>) -> (r: Option<String>)
    ensures
        r == *o,
{
    match o {
        Some(s) => Some(s.clone()),
        None => None,
    }
}

/// A copy of a string vector, equal to the original.
pub fn clone_strings(v: &Vec<String>) -> (r: Vec<String>)
    ensures
        r@ == v@,
{
    let mut r: Vec<String> = Vec::new();
    let mut i: usize = 0;
    while i < v.len()
        invariant
            i <= v.len(),
            r@ == v@.take(i as int),
        decreases v.len() - i,
    {
        r.push(v[i].clone());
        proof {
            assert(v@.take(i + 1 as int) =~= v@.take(i as int).push(v@[i as int]));
        }
        i += 1;
    }
    proof {
        assert(v@.take(v.len() as int) =~= v@);
    }
    r
}

/// A copy of a name/value pair vector, equal to the original.
pub fn clone_pairs(v: &Vec<(String, String)>) -> (r: Vec<(String, String)>)
    ensures
        r@ == v@,
{
    let mut r: Vec<(String, String)> = Vec::new();
    let mut i: usize = 0;
    while i < v.len()
        invariant
            i <= v.len(),
            r@ == v@.take(i as int),
        decreases v.len() - i,
    {
        let p = &v[i];
        r.push((p.0.clone(), p.1.clone()));
        proof {
            assert(v@.take(i + 1 as int) =~= v@.take(i as int).push(v@[i as int]));
        }
        i += 1;
    }
    proof {
        assert(v@.take(v.len() as int) =~= v@);
    }
    r
}

/// A copy of an attribute pair vector, equal to the original.
pub fn clone_attr_pairs(v: &Vec<(String, Option<String>)>) -> (r: Vec<(String, Option<String>)>)
    ensures
        r@ == v@,
{
    let mut r: Vec<(String, Option<String>)> = Vec::new();
    let mut i: usize = 0;
    while i < v.len()
        invariant
            i <= v.len(),
            r@ == v@.take(i as int),
        decreases v.len() - i,
    {
        let p = &v[i];
        r.push((p.0.clone(), clone_opt_string(&p.1)));
        proof {
            assert(v@.take(i + 1 as int) =~= v@.take(i as int).push(v@[i as int]));
        }
        i += 1;
    }
    proof {
        assert(v@.take(v.len() as int) =~= v@);
    }
    r
}

} // verus!
