//! Request-path helpers for the client: joining base and relative URL
//! parts, and rewriting path patterns through the regex engine.

use vstd::prelude::*;
use vstd::string::{StrSliceExecFns, StringExecFns};

use crate::errors::MoolahFrontendError;

verus! {

/// What joining yields: empty parts are rejected; otherwise the parts are
/// glued with exactly one `/` between them, reusing a slash either part
/// already brings.
pub open spec fn join_path_spec(
    base: Seq<char>,
    rel: Seq<char>,
    r: Result<String, MoolahFrontendError>,
) -> bool {
    if base.len() == 0 || rel.len() == 0 {
        r == Err::<String, MoolahFrontendError>(MoolahFrontendError::JoinPathError)
    } else if base.last() == '/' && rel.first() == '/' {
        r matches Ok(s) && s@ == base + rel.subrange(1, rel.len() as int)
    } else if base.last() == '/' || rel.first() == '/' {
        r matches Ok(s) && s@ == base + rel
    } else {
        r matches Ok(s) && s@ == base + seq!['/'] + rel
    }
}

/// Joins a base URL and a relative URL with exactly one `/` between them;
/// either part being empty is an error.
pub fn join_path(base_url: String, relative_url: String) -> (r: Result<
    String,
    MoolahFrontendError,
>)
    ensures
        join_path_spec(base_url@, relative_url@, r),
{
    let bn = base_url.as_str().unicode_len();
    let rn = relative_url.as_str().unicode_len();
    if bn == 0 || rn == 0 {
        return Err(MoolahFrontendError::JoinPathError);
    }
    let last = base_url.as_str().get_char(bn - 1);
    let first = relative_url.as_str().get_char(0);
    if last == '/' && first == '/' {
        let rest = relative_url.as_str().substring_char(1, rn);
        Ok(base_url.concat(rest))
    } else if last == '/' || first == '/' {
        Ok(base_url.concat(relative_url.as_str()))
    } else {
        let out = base_url.concat("/").concat(relative_url.as_str());
        proof {
            reveal_strlit("/");
            assert(out@ =~= base_url@ + seq!['/'] + relative_url@);
        }
        Ok(out)
    }
}

/// What a successful regex replacement returns: a function of the pattern,
/// the haystack and the replacement alone.
pub uninterp spec fn regex_replace_of(
    pattern: Seq<char>,
    base: Seq<char>,
    replacement: Seq<char>,
) -> Seq<char>;

/// Relies on `regex::Regex::new` and `regex::Regex::replace`: compiling
/// `pattern` fails only for a malformed pattern, and replacing the leftmost
/// match (if any) in `base` is deterministic in the three arguments.
#[verifier::external_body]
fn regex_replace(base: &str, pattern: &str, replacement: &str) -> (r: Result<String, regex::Error>)
    ensures
        r matches Ok(s) ==> s@ == regex_replace_of(pattern@, base@, replacement@),
{
    match regex::Regex::new(pattern) {
        Ok(re) => Ok(re.replace(base, replacement).into_owned()),
        Err(e) => Err(e),
    }
}

/// Relies on the `Display` impl of `regex::Error` for a user-facing
/// message.
#[verifier::external_body]
fn regex_error_message(e: &regex::Error) -> String {
    format!("{}", e)
}

/// The error regex compilation reports, declared so it can pass through
/// verified code.
#[verifier::external_type_specification]
#[verifier::external_body]
pub struct ExRegexError(regex::Error);

/// Replaces the leftmost match of `re_pattern` in `base` with `replace`; a
/// pattern that does not compile is reported as a regex error with its
/// message.
pub fn replace_pattern(base: &str, re_pattern: &str, replace: &str) -> (r: Result<
    String,
    MoolahFrontendError,
>)
    ensures
        r matches Ok(s) ==> s@ == regex_replace_of(re_pattern@, base@, replace@),
        r matches Err(e) ==> e is RegexError,
{
    match regex_replace(base, re_pattern, replace) {
        Result::Ok(s) => Ok(s),
        Result::Err(e) => Err(MoolahFrontendError::RegexError(regex_error_message(&e))),
    }
}

} // verus!
