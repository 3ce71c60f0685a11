//! File names of downloaded images, taken from the image address.

use vstd::prelude::*;
use crate::text::{chars_of, lemma_split_nonempty, option_view, split_char, split_on, string_of_range, views};

verus! {

/// What `reqwest::Url::parse(s)` gives, read through `Url::path`: `None` when
/// `s` does not parse as a URL, otherwise the URL's path component.
pub uninterp spec fn parsed_url_path(s: Seq<char>) -> Option<Seq<char>>;

/// Parses `s` with `reqwest::Url::parse` and returns `Url::path` of the
/// result. The URL grammar is not spelled out: only that the result is the
/// named function of `s` is claimed.
#[verifier::external_body]
fn url_path(s: &str) -> (path: Option<String>)
    ensures
        option_view(path) == parsed_url_path(s@),
{
    match reqwest::Url::parse(s) {
        Ok(url) => Some(url.path().to_string()),
        Err(_) => None,
    }
}

/// The last `/`-separated segment of a URL path, as
/// `Url::path_segments().next_back()` gives it: the path without its leading
/// `/` is split at every `/`; a path that does not start with `/` (that of a
/// cannot-be-a-base URL) has no segments.
pub open spec fn last_path_segment(path: Seq<char>) -> Option<Seq<char>> {
    if path.len() > 0 && path[0] == '/' {
        Some(split_on(path.skip(1), '/').last())
    } else {
        None
    }
}

/// The file name a downloaded image is saved under: the last segment of the
/// path of its address.
pub open spec fn download_file_name_spec(url: Seq<char>) -> Option<Seq<char>> {
    match parsed_url_path(url) {
        Some(path) => last_path_segment(path),
        None => None,
    }
}

/// The last segment of a URL path.
pub fn path_last_segment(path: &str) -> (segment: Option<String>)
    ensures
        option_view(segment) == last_path_segment(path@),
{
    let cs = chars_of(path);
    if cs.len() == 0 || cs[0] != '/' {
        return None;
    }
    let rest = string_of_range(&cs, 1, cs.len());
    assert(rest@ =~= path@.skip(1));
    let mut parts = split_char(rest.as_str(), '/');
    proof {
        lemma_split_nonempty(rest@, '/');
    }
    let ghost all = parts@;
    match parts.pop() {
        Some(name) => {
            assert(views(all).last() == name@);
            Some(name)
        },
        None => None,
    }
}

/// The file name for the image at `url`, `None` when the address has no
/// path segments.
pub fn download_file_name(url: &str) -> (name: Option<String>)
    ensures
        option_view(name) == download_file_name_spec(url@),
{
    match url_path(url) {
        Some(path) => path_last_segment(path.as_str()),
        None => None,
    }
}

} // verus!
