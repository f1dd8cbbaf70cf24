//! Addresses of the remote service.

use vstd::prelude::*;
use vstd::string::*;

verus! {

/// `url::Url`, a parsed address. What it holds is told by `url_text`.
#[verifier::external_type_specification]
#[verifier::external_body]
pub struct ExUrl(url::Url);

/// `url::ParseError`. Nothing is known of what it holds.
#[verifier::external_type_specification]
#[verifier::external_body]
pub struct ExParseError(url::ParseError);

/// The text of a parsed address: its serialization.
pub uninterp spec fn url_text(address: url::Url) -> Seq<char>;

/// The text of the address that a text denotes when it is parsed on its
/// own. There is none where the text is no absolute address.
pub uninterp spec fn url_parsed(text: Seq<char>) -> Option<Seq<char>>;

/// The text of the address that a reference denotes when it is parsed
/// against the base address with the given text. There is none where no
/// address can be made of the two.
pub uninterp spec fn url_joined(base: Seq<char>, reference: Seq<char>) -> Option<Seq<char>>;

/// `url::Url::parse`: the address that the text denotes, or the error where
/// it denotes none.
#[verifier::external_body]
fn url_parse(text: &str) -> (parsed: Result<url::Url, url::ParseError>)
    ensures
        match parsed {
            Ok(address) => url_parsed(text@) == Some(url_text(address)),
            Err(_) => url_parsed(text@).is_none(),
        },
{
    url::Url::parse(text)
}

/// `url::Url::join`: the address that the reference denotes against the
/// base, or the error where it denotes none.
#[verifier::external_body]
fn url_join(base: &url::Url, reference: &str) -> (joined: Result<url::Url, url::ParseError>)
    ensures
        match joined {
            Ok(address) => url_joined(url_text(*base), reference@) == Some(url_text(address)),
            Err(_) => url_joined(url_text(*base), reference@).is_none(),
        },
{
    base.join(reference)
}

/// `url::Url::as_str`, as an owned text: the text of the address.
#[verifier::external_body]
fn url_string(address: &url::Url) -> (text: String)
    ensures
        text@ == url_text(*address),
{
    address.as_str().to_string()
}

/// The text of the address that a path denotes on the server at `base`.
pub open spec fn joined_address(base: Seq<char>, path: Seq<char>) -> Option<Seq<char>> {
    match url_parsed(base) {
        Some(parsed) => url_joined(parsed, path),
        None => None,
    }
}

/// The address of a path on the server at `base_url`. Fails where the base
/// is no absolute address, and where the path denotes no address against it.
pub fn join_url(base_url: &str, path: &str) -> (joined: Result<url::Url, url::ParseError>)
    ensures
        match joined {
            Ok(address) => joined_address(base_url@, path@) == Some(url_text(address)),
            Err(_) => joined_address(base_url@, path@).is_none(),
        },
{
    match url_parse(base_url) {
        Ok(parsed_base_url) => url_join(&parsed_base_url, path),
        Err(error) => Err(error),
    }
}

/// The text of the address of a path on the configured server. There is
/// none where no server is configured, and where `join_url` fails.
pub fn server_address(configured: Option<&str>, path: &str) -> (address: Option<String>)
    ensures
        match address {
            Some(text) => configured matches Some(base) && joined_address(base@, path@) == Some(
                text@,
            ),
            None => configured matches Some(base) ==> joined_address(base@, path@).is_none(),
        },
{
    match configured {
        Some(base) => match join_url(base, path) {
            Ok(joined) => Some(url_string(&joined)),
            Err(_) => None,
        },
        None => None,
    }
}

} // verus!
