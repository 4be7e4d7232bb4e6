//! The address of an instance.

use crate::text::same_str;
use vstd::prelude::*;

verus! {

/// The scheme and the path of the address that `text` spells, or `None`
/// where `text` spells no address.
pub uninterp spec fn scheme_and_path(text: Seq<char>) -> Option<(Seq<char>, Seq<char>)>;

/// `url::Url::parse`, with `Url::scheme` and `Url::path` read from the
/// address it gives: the result is the pair that [`scheme_and_path`] names
/// for the same text, and `None` exactly where the parser reports an error.
#[verifier::external_body]
fn parse_scheme_and_path(text: &str) -> (parts: Option<(String, String)>)
    ensures
        parts.deep_view() == scheme_and_path(text@),
{
    match url::Url::parse(text) {
        Ok(address) => Some((address.scheme().to_string(), address.path().to_string())),
        Err(_) => None,
    }
}

/// Whether an address with this scheme and this path can be that of an
/// instance: the scheme is `https` or `http`, and the path is the root.
pub open spec fn accepted(scheme: Seq<char>, path: Seq<char>) -> bool {
    (scheme == "https"@ || scheme == "http"@) && path == "/"@
}

/// Whether the parts of an address, if it has any, are those of an
/// instance.
pub open spec fn valid_parts(parts: Option<(Seq<char>, Seq<char>)>) -> bool {
    match parts {
        Some((scheme, path)) => accepted(scheme, path),
        None => false,
    }
}

/// Whether an address with this scheme and this path can be that of an
/// instance.
pub fn is_instance_address(scheme: &str, path: &str) -> (ok: bool)
    ensures
        ok == accepted(scheme@, path@),
{
    if !same_str(scheme, "https") && !same_str(scheme, "http") {
        return false;
    }
    same_str(path, "/")
}

/// Whether `instance` spells the address of an instance: an address with
/// the scheme `https` or `http` and nothing but the root as its path.
pub fn validate_url(instance: &String) -> (ok: bool)
    ensures
        ok == valid_parts(scheme_and_path(instance@)),
{
    match parse_scheme_and_path(instance.as_str()) {
        Some((scheme, path)) => is_instance_address(scheme.as_str(), path.as_str()),
        None => false,
    }
}

} // verus!
