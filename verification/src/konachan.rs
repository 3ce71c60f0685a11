//! The Konachan source: paged `post.json` queries, with results rated other
//! than safe dropped unless the configuration allows explicit images.

use vstd::prelude::*;
use crate::config::KonachanConfig;
use crate::source::ImageItem;
use crate::text::{chars_of, decimal, decimal_string};

verus! {

/// The site queried for posts.
pub const KONACHAN_BASE_URL: &'static str = "https://konachan.net";

/// The largest page size requested from the site.
pub const KONACHAN_MAX_PAGE_SIZE: u32 = 100;

/// How many posts are gathered to draw a random wallpaper from.
pub const KONACHAN_RANDOM_POOL: u32 = 500;

/// One post of a `post.json` answer.
pub struct KonachanItem {
    pub id: u32,
    pub author: String,
    pub file_url: String,
    pub width: u32,
    pub height: u32,
    pub rating: String,
}

/// Whether a post is rated safe (`"s"`).
pub open spec fn is_safe(item: KonachanItem) -> bool {
    item.rating@ == seq!['s']
}

/// The posts of an answer that are kept: all of them when explicit posts are
/// allowed, otherwise those rated safe, in their order.
pub open spec fn kept_items(explicit: bool, items: Seq<KonachanItem>) -> Seq<KonachanItem> {
    if explicit {
        items
    } else {
        items.filter(safe_filter())
    }
}

/// `is_safe` as a filter predicate.
pub open spec fn safe_filter() -> spec_fn(KonachanItem) -> bool {
    |it: KonachanItem| is_safe(it)
}

/// The address of page `page` of the post listing for a request of `limit`
/// posts; the page size asked for is `limit`, capped at 100.
pub open spec fn konachan_page_url(limit: u32, page: u64) -> Seq<char> {
    let size: nat = if limit <= KONACHAN_MAX_PAGE_SIZE { limit as nat } else { KONACHAN_MAX_PAGE_SIZE as nat };
    KONACHAN_BASE_URL@ + "/post.json?limit="@ + decimal(size) + "&page="@ + decimal(page as nat)
}

impl ImageItem for KonachanItem {
    open spec fn image_url(&self) -> Seq<char> {
        self.file_url@
    }

    fn image_url_string(&self) -> (url: String) {
        self.file_url.clone()
    }
}

/// Whether the post's rating is exactly `s`.
fn rated_safe(item: &KonachanItem) -> (b: bool)
    ensures
        b == is_safe(*item),
{
    let cs = chars_of(item.rating.as_str());
    let safe = cs.len() == 1 && cs[0] == 's';
    assert(safe ==> cs@ =~= seq!['s']);
    safe
}

/// The Konachan wallpaper source.
pub struct Konachan {
    pub config: KonachanConfig,
}

impl Konachan {
    pub fn new(config: KonachanConfig) -> (k: Konachan)
        ensures
            k.config == config,
    {
        Konachan { config }
    }

    /// The address of one page of the listing.
    pub fn page_url(limit: u32, page: u64) -> (url: String)
        ensures
            url@ == konachan_page_url(limit, page),
    {
        let size: u32 = if limit <= KONACHAN_MAX_PAGE_SIZE { limit } else { KONACHAN_MAX_PAGE_SIZE };
        let mut url = String::from_str(KONACHAN_BASE_URL);
        url.append("/post.json?limit=");
        let size_text = decimal_string(size as u64);
        url.append(size_text.as_str());
        url.append("&page=");
        let page_text = decimal_string(page);
        url.append(page_text.as_str());
        url
    }

    /// Starts gathering `limit` posts, from the first page on.
    pub fn start_fetch(&self, limit: u32) -> (f: KonachanFetch)
        ensures
            f.wf(),
            f.explicit() == self.config.explicit.value,
            f.limit() == limit,
            f.page() == 1,
            f.collected() == Seq::<KonachanItem>::empty(),
    {
        KonachanFetch { explicit: self.config.explicit.value, limit, page: 1, collected: Vec::new() }
    }
}

/// The state of gathering posts page by page: the pages are requested one
/// after another until at least `limit` kept posts have come in.
pub struct KonachanFetch {
    explicit: bool,
    limit: u32,
    page: u64,
    collected: Vec<KonachanItem>,
}

impl KonachanFetch {
    /// Whether explicit posts are kept.
    pub closed spec fn explicit(&self) -> bool {
        self.explicit
    }

    /// How many posts are wanted.
    pub closed spec fn limit(&self) -> u32 {
        self.limit
    }

    /// The next page to request.
    pub closed spec fn page(&self) -> u64 {
        self.page
    }

    /// The kept posts so far, in the order they came in.
    pub closed spec fn collected(&self) -> Seq<KonachanItem> {
        self.collected@
    }

    /// Pages count from one, and without explicit posts allowed every
    /// collected post is rated safe.
    pub closed spec fn wf(&self) -> bool {
        &&& self.page >= 1
        &&& !self.explicit ==> forall|i: int| 0 <= i < self.collected@.len() ==> is_safe(#[trigger] self.collected@[i])
    }

    /// Enough posts have come in.
    pub open spec fn is_done(&self) -> bool {
        self.collected().len() >= self.limit()
    }

    /// The number of the next page to request.
    pub fn next_page(&self) -> (page: u64)
        ensures
            page == self.page(),
    {
        self.page
    }

    /// The page to request next, or `None` once enough posts have come in.
    pub fn next_request(&self) -> (url: Option<String>)
        ensures
            url is None <==> self.is_done(),
            url matches Some(u) ==> u@ == konachan_page_url(self.limit(), self.page()),
    {
        if self.collected.len() < self.limit as usize {
            Some(Konachan::page_url(self.limit, self.page))
        } else {
            None
        }
    }

    /// Takes in the answer for the page just requested: its kept posts are
    /// added after those already collected, and the next page is due.
    pub fn receive(&mut self, response: Vec<KonachanItem>)
        requires
            old(self).wf(),
            !old(self).is_done(),
            old(self).page() < u64::MAX,
        ensures
            final(self).wf(),
            final(self).explicit() == old(self).explicit(),
            final(self).limit() == old(self).limit(),
            final(self).page() == old(self).page() + 1,
            final(self).collected() == old(self).collected() + kept_items(old(self).explicit(), response@),
            old(self).explicit() ==> final(self).collected() == old(self).collected() + response@,
    {
        let ghost whole = response@;
        let mut rest = response;
        let mut kept: Vec<KonachanItem> = Vec::new();
        let ghost mut consumed: nat = 0;
        let ghost pred = safe_filter();
        assert(whole.take(0).filter(pred) =~= Seq::<KonachanItem>::empty()) by {
            reveal(Seq::filter);
        }
        while rest.len() > 0
            invariant
                pred == safe_filter(),
                consumed <= whole.len(),
                rest@ == whole.skip(consumed as int),
                kept@ == if self.explicit { whole.take(consumed as int) } else { whole.take(consumed as int).filter(pred) },
            decreases rest@.len(),
        {
            let item = rest.remove(0);
            assert(item == whole[consumed as int]);
            assert(whole.take(consumed + 1int) =~= whole.take(consumed as int).push(item));
            proof {
                whole.take(consumed as int).lemma_filter_push(item, pred);
            }
            let keep = self.explicit || rated_safe(&item);
            assert(pred(item) == is_safe(item));
            assert(!self.explicit ==> keep == is_safe(item));
            if keep {
                kept.push(item);
            }
            proof {
                consumed = consumed + 1;
            }
            assert(rest@ =~= whole.skip(consumed as int));
        }
        assert(whole.take(consumed as int) =~= whole);
        proof {
            if !self.explicit {
                assert forall|i: int| 0 <= i < kept@.len() implies is_safe(#[trigger] kept@[i]) by {
                    whole.lemma_filter_pred(pred, i);
                }
            }
        }
        let ghost before = self.collected@;
        let ghost added = kept@;
        self.collected.append(&mut kept);
        self.page = self.page + 1;
        assert(self.collected@ == before + kept_items(self.explicit, whole));
        assert(forall|i: int| 0 <= i < before.len() ==> self.collected@[i] == before[i]);
        assert(forall|i: int| before.len() <= i < self.collected@.len() ==> self.collected@[i] == added[i - before.len()]);
    }

    /// The gathered posts, cut down to exactly `limit`.
    pub fn finish(self) -> (items: Vec<KonachanItem>)
        requires
            self.wf(),
            self.is_done(),
        ensures
            items@ == self.collected().take(self.limit() as int),
            items@.len() == self.limit(),
            !self.explicit() ==> forall|i: int| 0 <= i < items@.len() ==> is_safe(#[trigger] items@[i]),
    {
        let mut items = self.collected;
        items.truncate(self.limit as usize);
        items
    }
}

/// The posts kept from an answer: when explicit posts are allowed, every
/// post, in order; otherwise only posts rated `s`, and every post rated `s`
/// is kept.
pub proof fn law_kept_items_are_the_allowed_posts(explicit: bool, items: Seq<KonachanItem>)
    ensures
        explicit ==> kept_items(explicit, items) == items,
        forall|i: int| 0 <= i < kept_items(explicit, items).len()
            ==> explicit || (#[trigger] kept_items(explicit, items)[i]).rating@ == seq!['s'],
        forall|j: int| 0 <= j < items.len() && (explicit || items[j].rating@ == seq!['s'])
            ==> kept_items(explicit, items).contains(#[trigger] items[j]),
        kept_items(explicit, items).len() <= items.len(),
{
    if !explicit {
        let pred = safe_filter();
        items.lemma_filter_len(pred);
        assert forall|i: int| 0 <= i < kept_items(explicit, items).len()
            implies (#[trigger] kept_items(explicit, items)[i]).rating@ == seq!['s'] by {
            items.lemma_filter_pred(pred, i);
        }
        assert forall|j: int| 0 <= j < items.len() && items[j].rating@ == seq!['s']
            implies kept_items(explicit, items).contains(#[trigger] items[j]) by {
            assert(pred(items[j]));
            items.lemma_filter_contains(pred, j);
        }
    } else {
        assert forall|j: int| 0 <= j < items.len() implies kept_items(explicit, items).contains(#[trigger] items[j]) by {
            assert(kept_items(explicit, items)[j] == items[j]);
        }
    }
}

} // verus!
