//! Identifier arithmetic: how generated struct and field names are formed.

use vstd::prelude::*;
use vstd::string::StringExecFns;

verus! {

/// The upper camel case form of an identifier, as `heck` computes it.
pub uninterp spec fn upper_camel_of(s: Seq<char>) -> Seq<char>;

/// Relies on `heck::ToUpperCamelCase::to_upper_camel_case` for `str`: the
/// result depends on the characters of `s` alone.
#[verifier::external_body]
fn to_upper_camel(s: &str) -> (r: String)
    ensures
        r@ == upper_camel_of(s@),
{
    heck::ToUpperCamelCase::to_upper_camel_case(s)
}

/// `a` followed by `b`, as a new string.
pub fn concat(a: &String, b: &String) -> (r: String)
    ensures
        r@ == a@ + b@,
{
    let mut r = a.clone();
    r.append(b.as_str());
    r
}

/// The upper camel case form of an identifier.
pub fn upper_camel(s: &String) -> (r: String)
    ensures
        r@ == upper_camel_of(s@),
{
    to_upper_camel(s.as_str())
}

/// `Some(x)` when given, else the default.
pub open spec fn or_default(o: Option<String>, d: Seq<char>) -> Seq<char> {
    match o {
        Some(s) => s@,
        None => d,
    }
}

/// The given name, or a copy of `default` when none is given.
pub fn name_or(o: &Option<String>, default: &str) -> (r: String)
    ensures
        r@ == or_default(*o, default@),
{
    match o {
        Some(s) => s.clone(),
        None => String::from_str(default),
    }
}

} // verus!
