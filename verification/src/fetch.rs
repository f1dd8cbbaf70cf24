//! Fetching the assets of a chapter: where each page image is kept.
//!
//! The remote service names the pages of a chapter by locators such as
//! `/api/v1/manga/7/chapter/3/page/12`. A page is kept in the directory of
//! its chapter, under its number and the extension that its media type gives.

use vstd::prelude::*;
use vstd::string::*;
use crate::error::{ErrorKind, ErrorView, StepError};
use crate::text::{concat3, decimal, decimal_string, find_last, last_index_of, starts_with};

verus! {

/// What the first capture group of a regular expression holds in the
/// leftmost match of the expression in a text. There is none where the
/// expression is not valid, where it matches nowhere in the text, and where
/// the group takes no part in the match.
pub uninterp spec fn regex_first_group(pattern: Seq<char>, text: Seq<char>) -> Option<Seq<char>>;

/// `regex::Regex::captures` of the expression that `regex::Regex::new` makes
/// of `pattern`, on `text`, and of what it finds `regex::Captures::get(1)`:
/// the text of the first capture group.
#[verifier::external_body]
fn first_group(pattern: &str, text: &str) -> (group: Option<String>)
    ensures
        match group {
            Some(g) => regex_first_group(pattern@, text@) == Some(g@),
            None => regex_first_group(pattern@, text@).is_none(),
        },
{
    match regex::Regex::new(pattern) {
        Ok(expression) => expression.captures(text).and_then(|found| found.get(1)).map(
            |group| group.as_str().to_string(),
        ),
        Err(_) => None,
    }
}

/// The form of a page locator; its group is the number of the page.
pub open spec fn page_pattern() -> Seq<char> {
    "/api/v1/manga/\\d+/chapter/\\d+/page/(\\d+)"@
}

/// The number of the page that a locator names, as the locator writes it.
pub fn page_of(locator: &str) -> (page: Option<String>)
    ensures
        match page {
            Some(p) => regex_first_group(page_pattern(), locator@) == Some(p@),
            None => regex_first_group(page_pattern(), locator@).is_none(),
        },
{
    first_group("/api/v1/manga/\\d+/chapter/\\d+/page/(\\d+)", locator)
}

/// Where a page image is to be kept: the number of the page, and the
/// directory of its chapter.
#[derive(Debug, PartialEq, Eq)]
pub struct AssetRequest {
    pub page: String,
    pub directory: String,
}

/// The directory in which the assets of a chapter are kept.
pub open spec fn chapter_directory(root: Seq<char>, chapter: int) -> Seq<char> {
    root + "/"@ + decimal(chapter)
}

/// The failure that a locator of another form causes.
pub open spec fn unparsed_locator() -> ErrorView {
    ErrorView { kind: ErrorKind::MissingUpstreamData, detail: "Couldn't parse image url"@ }
}

/// The failure that an asset which is no image causes.
pub open spec fn not_an_image(content_type: Seq<char>, locator: Seq<char>) -> ErrorView {
    ErrorView {
        kind: ErrorKind::MissingUpstreamData,
        detail: "Not an image: \""@ + content_type + "\" (downloading "@ + locator + ")"@,
    }
}

/// What follows the last slash of a media type.
pub open spec fn subtype_of(content_type: Seq<char>) -> Seq<char> {
    match last_index_of(content_type, '/') {
        Some(i) => content_type.skip(i + 1),
        None => content_type,
    }
}

/// The path of the file in which a page image is kept.
pub open spec fn asset_file(directory: Seq<char>, page: Seq<char>, content_type: Seq<char>) -> Seq<
    char,
> {
    directory + "/"@ + page + "."@ + subtype_of(content_type)
}

/// The directory in which the assets of a chapter are kept, under `root`.
pub fn asset_directory(root: &str, chapter: i64) -> (directory: String)
    ensures
        directory@ == chapter_directory(root@, chapter as int),
{
    let id_text = decimal_string(chapter);
    concat3(root, "/", id_text.as_str())
}

/// Decides, from the page number found in a locator, where the page is to
/// be kept. A locator in which no page number was found is refused.
pub fn request_for(page: Option<String>, root: &str, chapter: i64) -> (request: Result<
    AssetRequest,
    StepError,
>)
    ensures
        match request {
            Ok(r) => page matches Some(p) && r.page@ == p@ && r.directory@ == chapter_directory(
                root@,
                chapter as int,
            ),
            Err(e) => page.is_none() && e@ == unparsed_locator(),
        },
{
    match page {
        Some(p) => Ok(AssetRequest { page: p, directory: asset_directory(root, chapter) }),
        None => Err(StepError::new(ErrorKind::MissingUpstreamData, "Couldn't parse image url")),
    }
}

/// Decides where the page that a locator names is to be kept, before the
/// page is asked for.
pub fn asset_request(locator: &str, root: &str, chapter: i64) -> (request: Result<
    AssetRequest,
    StepError,
>)
    ensures
        match request {
            Ok(r) => regex_first_group(page_pattern(), locator@) == Some(r.page@) && r.directory@
                == chapter_directory(root@, chapter as int),
            Err(e) => regex_first_group(page_pattern(), locator@).is_none() && e@
                == unparsed_locator(),
        },
{
    request_for(page_of(locator), root, chapter)
}

/// The file in which a fetched page is to be kept, from the media type that
/// came with it. What is not an image is refused.
pub fn asset_path(request: &AssetRequest, content_type: &str, locator: &str) -> (path: Result<
    String,
    StepError,
>)
    ensures
        match path {
            Ok(p) => "image/"@.is_prefix_of(content_type@) && p@ == asset_file(
                request.directory@,
                request.page@,
                content_type@,
            ),
            Err(e) => !"image/"@.is_prefix_of(content_type@) && e@ == not_an_image(
                content_type@,
                locator@,
            ),
        },
{
    if !starts_with(content_type, "image/") {
        let mut detail = concat3("Not an image: \"", content_type, "\" (downloading ");
        detail.append(locator);
        detail.append(")");
        return Err(StepError { kind: ErrorKind::MissingUpstreamData, detail });
    }
    let n = content_type.unicode_len();
    let extension = match find_last(content_type, '/') {
        Some(i) => {
            proof {
                crate::text::lemma_last_index_of(content_type@, '/');
            }
            content_type.substring_char(i + 1, n)
        },
        None => content_type,
    };
    let mut path = concat3(request.directory.as_str(), "/", request.page.as_str());
    path.append(".");
    path.append(extension);
    Ok(path)
}

/// The first failure among outcomes, by position.
pub open spec fn first_failure(outcomes: Seq<Result<(), StepError>>, n: int) -> Option<ErrorView>
    decreases n,
{
    if 0 < n <= outcomes.len() {
        match first_failure(outcomes, n - 1) {
            Some(f) => Some(f),
            None => match outcomes[n - 1] {
                Ok(_) => None,
                Err(e) => Some(e@),
            },
        }
    } else {
        None
    }
}

/// A failure among the first `n` outcomes is the first failure of all.
pub proof fn lemma_first_failure(outcomes: Seq<Result<(), StepError>>, n: int, m: int)
    requires
        0 <= n <= m <= outcomes.len(),
    ensures
        first_failure(outcomes, n).is_some() ==> first_failure(outcomes, m) == first_failure(
            outcomes,
            n,
        ),
    decreases m,
{
    if n < m {
        lemma_first_failure(outcomes, n, m - 1);
    }
}

/// The outcome of fetching many assets: the first failure, if any asset failed.
pub fn fetch_outcome(outcomes: Vec<Result<(), StepError>>) -> (outcome: Result<(), StepError>)
    ensures
        match outcome {
            Ok(_) => first_failure(outcomes@, outcomes@.len() as int).is_none(),
            Err(e) => first_failure(outcomes@, outcomes@.len() as int) == Some(e@),
        },
{
    let mut rest = outcomes;
    let ghost all = rest@;
    let mut i: usize = 0;
    let n = rest.len();
    while i < n
        invariant
            i <= n,
            n == all.len(),
            all == outcomes@,
            rest@.len() == n - i,
            forall|j: int| 0 <= j < n - i ==> rest@[j] == all[i + j],
            first_failure(all, i as int).is_none(),
        decreases n - i,
    {
        let outcome = rest.remove(0);
        assert(outcome == all[i as int]);
        match outcome {
            Err(e) => {
                proof {
                    assert(first_failure(all, i + 1) == Some(e@));
                    lemma_first_failure(all, i + 1, n as int);
                }
                return Err(e);
            },
            Ok(_) => {},
        }
        i += 1;
    }
    Ok(())
}

} // verus!
