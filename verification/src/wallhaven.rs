//! The Wallhaven source: search pages filtered by the configured categories.

use vstd::prelude::*;
use crate::collect::{at_most, concat_pages, concat_truncate, page_count, pages_needed};
use crate::config::WallhavenConfig;
use crate::source::ImageItem;
use crate::text::{decimal, decimal_string, push_char};

verus! {

/// The search endpoint.
pub const WALLHAVEN_API_URL: &'static str = "https://wallhaven.cc/api/v1/search";

/// How many results one search page holds.
pub const WALLHAVEN_ITEMS_PER_PAGE: usize = 24;

/// How many results are gathered to draw a random wallpaper from.
pub const WALLHAVEN_RANDOM_POOL: usize = 100;

/// One search result.
pub struct WallhavenData {
    pub id: String,
    pub dimension_x: u32,
    pub dimension_y: u32,
    pub resolution: String,
    pub file_size: u32,
    pub file_type: String,
    pub path: String,
}

impl ImageItem for WallhavenData {
    open spec fn image_url(&self) -> Seq<char> {
        self.path@
    }

    fn image_url_string(&self) -> (url: String) {
        self.path.clone()
    }
}

/// `1` for an enabled category, `0` otherwise.
pub open spec fn flag_char(enabled: bool) -> char {
    if enabled {
        '1'
    } else {
        '0'
    }
}

/// The `categories` parameter: one flag per category, general, anime and
/// people in that order.
pub open spec fn category_flags(config: WallhavenConfig) -> Seq<char> {
    seq![
        flag_char(config.categories.general.value),
        flag_char(config.categories.anime.value),
        flag_char(config.categories.people.value),
    ]
}

/// The address of search page `page` for the given categories.
pub open spec fn wallhaven_page_url(page: nat, categories: Seq<char>) -> Seq<char> {
    WALLHAVEN_API_URL@ + "?page="@ + decimal(page) + "&categories="@ + categories
}

/// The Wallhaven wallpaper source.
pub struct Wallhaven {
    pub config: WallhavenConfig,
}

impl Wallhaven {
    pub fn new(config: WallhavenConfig) -> (w: Wallhaven)
        ensures
            w.config == config,
    {
        Wallhaven { config }
    }

    /// The `categories` parameter of the search.
    pub fn category_bits(&self) -> (bits: String)
        ensures
            bits@ == category_flags(self.config),
            bits@.len() == 3,
            bits@[0] == (if self.config.categories.general.value { '1' } else { '0' }),
            bits@[1] == (if self.config.categories.anime.value { '1' } else { '0' }),
            bits@[2] == (if self.config.categories.people.value { '1' } else { '0' }),
    {
        let mut bits = String::new();
        if self.config.categories.general.value {
            push_char(&mut bits, '1');
        } else {
            push_char(&mut bits, '0');
        }
        if self.config.categories.anime.value {
            push_char(&mut bits, '1');
        } else {
            push_char(&mut bits, '0');
        }
        if self.config.categories.people.value {
            push_char(&mut bits, '1');
        } else {
            push_char(&mut bits, '0');
        }
        assert(bits@ =~= category_flags(self.config));
        bits
    }

    /// The addresses of the search pages needed for `limit` results, pages
    /// numbered from one.
    pub fn page_urls(&self, limit: usize) -> (urls: Vec<String>)
        ensures
            urls@.len() == pages_needed(limit as nat, WALLHAVEN_ITEMS_PER_PAGE as nat),
            forall|i: int| 0 <= i < urls@.len() ==> #[trigger] urls@[i]@ == wallhaven_page_url((i + 1) as nat, category_flags(self.config)),
    {
        let count = page_count(limit as u64, WALLHAVEN_ITEMS_PER_PAGE as u64);
        let mut urls: Vec<String> = Vec::new();
        let mut page: u64 = 1;
        while page <= count
            invariant
                count == pages_needed(limit as nat, WALLHAVEN_ITEMS_PER_PAGE as nat),
                count <= limit,
                1 <= page <= count + 1,
                urls@.len() == page - 1,
                forall|i: int| 0 <= i < urls@.len() ==> #[trigger] urls@[i]@ == wallhaven_page_url((i + 1) as nat, category_flags(self.config)),
            decreases count + 1 - page,
        {
            let category = self.category_bits();
            let mut url = String::from_str(WALLHAVEN_API_URL);
            url.append("?page=");
            let page_text = decimal_string(page);
            url.append(page_text.as_str());
            url.append("&categories=");
            url.append(category.as_str());
            urls.push(url);
            page = page + 1;
        }
        urls
    }

    /// The pages to fetch to draw a random wallpaper.
    pub fn random_requests(&self) -> (urls: Vec<String>)
        ensures
            urls@.len() == pages_needed(WALLHAVEN_RANDOM_POOL as nat, WALLHAVEN_ITEMS_PER_PAGE as nat),
            forall|i: int| 0 <= i < urls@.len() ==> #[trigger] urls@[i]@ == wallhaven_page_url((i + 1) as nat, category_flags(self.config)),
    {
        self.page_urls(WALLHAVEN_RANDOM_POOL)
    }

    /// The results of the fetched pages, in page order, at most `limit`.
    pub fn collect(pages: Vec<Vec<WallhavenData>>, limit: usize) -> (items: Vec<WallhavenData>)
        ensures
            items@ == at_most(concat_pages(pages@), limit as int),
    {
        concat_truncate(pages, limit)
    }
}

/// The `categories` parameter has one flag per category, in the order
/// general, anime, people: a flag is `1` exactly when its category is
/// enabled, and `0` otherwise.
pub proof fn law_category_flags_follow_config(config: WallhavenConfig)
    ensures
        category_flags(config).len() == 3,
        (category_flags(config)[0] == '1') == config.categories.general.value,
        (category_flags(config)[1] == '1') == config.categories.anime.value,
        (category_flags(config)[2] == '1') == config.categories.people.value,
        forall|i: int| 0 <= i < 3 ==> #[trigger] category_flags(config)[i] == '0' || category_flags(config)[i] == '1',
{
}

} // verus!
