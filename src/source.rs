//! Where the files to analyse come from: a local directory, or a remote
//! repository that is cloned first.

use vstd::prelude::*;
use crate::text::{starts_with, to_chars, begins_with};

verus! {

/// Whether `s` parses as an absolute URL, by the WHATWG URL rules that the
/// `url` crate implements.
pub uninterp spec fn url_parses(s: Seq<char>) -> bool;

/// Relies on `url::Url::parse`: whether the text parses as an absolute URL.
/// The answer depends on the text alone.
#[verifier::external_body]
fn is_url(s: &str) -> (r: bool)
    ensures
        r == url_parses(s@),
{
    url::Url::parse(s).is_ok()
}

/// Whether a repository argument names a remote repository, to be cloned:
/// a URL, or an address of the form `git@host:path`.
pub fn is_remote_repo(s: &str) -> (r: bool)
    ensures
        r == (url_parses(s@) || starts_with(s@, "git@"@)),
{
    is_url(s) || begins_with(&to_chars(s), "git@")
}

} // verus!
