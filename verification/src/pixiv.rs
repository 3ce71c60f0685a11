//! The Pixiv source: ranking pages fetched together, and the rewriting of a
//! ranking thumbnail address into the address of the original image.

use vstd::prelude::*;
use crate::collect::{at_most, concat_pages, concat_truncate, page_count, pages_needed};
use crate::source::ImageItem;
use crate::text::{option_view, decimal, decimal_string, replace_all, replace_all_spec, split_on, last_piece};

verus! {

/// The ranking page.
pub const PIXIV_BASE_URL: &'static str = "https://www.pixiv.net/ranking.php";

/// How many entries one ranking page holds.
pub const PIXIV_ITEMS_PER_PAGE: u32 = 50;

/// The query listing the monthly illustration ranking.
pub const PIXIV_LIST_QUERY: &'static str = "mode=monthly&content=illust&format=json";

/// The query listing the daily illustration ranking.
pub const PIXIV_RANDOM_QUERY: &'static str = "mode=daily&content=illust&format=json";

/// How many entries are gathered to draw a random wallpaper from.
pub const PIXIV_RANDOM_POOL: u32 = 50;

/// The part of a thumbnail address that names the resized copy.
pub const PIXIV_THUMBNAIL_PATTERN: &'static str = r"c/\d+x\d+/img-master";

/// What the resized-copy part is replaced with.
pub const PIXIV_ORIGINAL_PATH: &'static str = "img-original";

/// The size suffix of resized file names.
pub const PIXIV_MASTER_SUFFIX: &'static str = "_master1200";

/// One entry of a ranking page.
pub struct PixivContent {
    pub title: String,
    pub url: String,
    pub user_name: String,
    pub width: u32,
    pub height: u32,
}

impl ImageItem for PixivContent {
    open spec fn image_url(&self) -> Seq<char> {
        self.url@
    }

    fn image_url_string(&self) -> (url: String) {
        self.url.clone()
    }
}

/// The address of page `page` of the ranking selected by `query`.
pub open spec fn pixiv_page_url(query: Seq<char>, page: nat) -> Seq<char> {
    PIXIV_BASE_URL@ + "?"@ + query + "&p="@ + decimal(page)
}

/// What `regex::Regex::new(pattern)` and then `Regex::replace(haystack, rep)`
/// give: `None` when the pattern does not compile, otherwise the haystack with
/// its leftmost-first match replaced by the expansion of `rep`.
pub uninterp spec fn regex_replace_first(pattern: Seq<char>, haystack: Seq<char>, rep: Seq<char>) -> Option<Seq<char>>;

/// Compiles `pattern` with `regex::Regex::new` and replaces the first match in
/// `haystack` with `Regex::replace`. Only that the result is the named
/// function of the three strings is claimed: regex semantics are not spelled
/// out here.
#[verifier::external_body]
fn regex_replace(pattern: &str, haystack: &str, rep: &str) -> (r: Option<String>)
    ensures
        option_view(r) == regex_replace_first(pattern@, haystack@, rep@),
{
    match regex::Regex::new(pattern) {
        Ok(re) => Some(re.replace(haystack, rep).into_owned()),
        Err(_) => None,
    }
}

/// The original-image address for a thumbnail address whose resized-copy
/// part has already been rewritten: the size suffix is removed everywhere.
pub open spec fn without_master_suffix(s: Seq<char>) -> Seq<char> {
    replace_all_spec(s, PIXIV_MASTER_SUFFIX@, Seq::<char>::empty())
}

/// The address a ranking entry's image is downloaded from, `None` when the
/// rewriting pattern does not compile.
pub open spec fn original_image_url_spec(source: Seq<char>) -> Option<Seq<char>> {
    match regex_replace_first(PIXIV_THUMBNAIL_PATTERN@, source, PIXIV_ORIGINAL_PATH@) {
        Some(s) => Some(without_master_suffix(s)),
        None => None,
    }
}

/// The Pixiv wallpaper source.
pub struct Pixiv {}

impl Default for Pixiv {
    fn default() -> (p: Pixiv)
        ensures
            p == (Pixiv {}),
    {
        Pixiv::new()
    }
}

impl Pixiv {
    pub fn new() -> (p: Pixiv)
        ensures
            p == (Pixiv {}),
    {
        Pixiv {}
    }

    /// The addresses of the ranking pages needed for `limit` entries, pages
    /// numbered from one.
    pub fn page_urls(limit: u32, query: &str) -> (urls: Vec<String>)
        ensures
            urls@.len() == pages_needed(limit as nat, PIXIV_ITEMS_PER_PAGE as nat),
            forall|i: int| 0 <= i < urls@.len() ==> #[trigger] urls@[i]@ == pixiv_page_url(query@, (i + 1) as nat),
    {
        let count = page_count(limit as u64, PIXIV_ITEMS_PER_PAGE as u64);
        let mut urls: Vec<String> = Vec::new();
        let mut page: u64 = 1;
        while page <= count
            invariant
                count == pages_needed(limit as nat, PIXIV_ITEMS_PER_PAGE as nat),
                count <= limit,
                1 <= page <= count + 1,
                urls@.len() == page - 1,
                forall|i: int| 0 <= i < urls@.len() ==> #[trigger] urls@[i]@ == pixiv_page_url(query@, (i + 1) as nat),
            decreases count + 1 - page,
        {
            let mut url = String::from_str(PIXIV_BASE_URL);
            url.append("?");
            url.append(query);
            url.append("&p=");
            let page_text = decimal_string(page);
            url.append(page_text.as_str());
            urls.push(url);
            page = page + 1;
        }
        urls
    }

    /// The pages to fetch for a listing of `limit` wallpapers.
    pub fn list_requests(&self, limit: u32) -> (urls: Vec<String>)
        ensures
            urls@.len() == pages_needed(limit as nat, PIXIV_ITEMS_PER_PAGE as nat),
            forall|i: int| 0 <= i < urls@.len() ==> #[trigger] urls@[i]@ == pixiv_page_url(PIXIV_LIST_QUERY@, (i + 1) as nat),
    {
        Self::page_urls(limit, PIXIV_LIST_QUERY)
    }

    /// The pages to fetch to draw a random wallpaper.
    pub fn random_requests(&self) -> (urls: Vec<String>)
        ensures
            urls@.len() == pages_needed(PIXIV_RANDOM_POOL as nat, PIXIV_ITEMS_PER_PAGE as nat),
            forall|i: int| 0 <= i < urls@.len() ==> #[trigger] urls@[i]@ == pixiv_page_url(PIXIV_RANDOM_QUERY@, (i + 1) as nat),
    {
        Self::page_urls(PIXIV_RANDOM_POOL, PIXIV_RANDOM_QUERY)
    }

    /// The entries of the fetched pages, in the order given, at most `limit`.
    pub fn collect(pages: Vec<Vec<PixivContent>>, limit: u32) -> (items: Vec<PixivContent>)
        ensures
            items@ == at_most(concat_pages(pages@), limit as int),
    {
        concat_truncate(pages, limit as usize)
    }

    /// Removes the size suffix everywhere in an address.
    pub fn strip_master_suffix(url: &str) -> (r: String)
        ensures
            r@ == without_master_suffix(url@),
    {
        proof {
            reveal_strlit("_master1200");
            reveal_strlit("");
            assert(""@ =~= Seq::<char>::empty());
        }
        replace_all(url, PIXIV_MASTER_SUFFIX, "")
    }

    /// The address of the original image behind a ranking thumbnail address.
    pub fn original_image_url(source: &str) -> (r: Option<String>)
        ensures
            option_view(r) == original_image_url_spec(source@),
    {
        match regex_replace(PIXIV_THUMBNAIL_PATTERN, source, PIXIV_ORIGINAL_PATH) {
            Some(rewritten) => Some(Self::strip_master_suffix(rewritten.as_str())),
            None => None,
        }
    }

    /// The file name an image is saved under: what follows the last `/`.
    pub fn image_file_name(url: &str) -> (name: String)
        ensures
            name@ == split_on(url@, '/').last(),
    {
        last_piece(url, '/')
    }
}

} // verus!
