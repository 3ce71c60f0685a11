use wally::collect::concat_truncate;
use wally::config::{KdlBool, KonachanConfig, WallhavenCategories, WallhavenConfig};
use wally::konachan::{Konachan, KonachanItem};
use wally::pixiv::{Pixiv, PixivContent, PIXIV_LIST_QUERY, PIXIV_RANDOM_QUERY};
use wally::source::{image_urls, pick_image_url, random_image_url, WallpaperSource};
use wally::wallhaven::{Wallhaven, WallhavenData};

fn post(id: u32, rating: &str) -> KonachanItem {
    KonachanItem {
        id,
        author: "someone".to_string(),
        file_url: format!("https://konachan.net/image/{id}.jpg"),
        width: 1920,
        height: 1080,
        rating: rating.to_string(),
    }
}

fn entry(n: u32) -> PixivContent {
    PixivContent {
        title: format!("t{n}"),
        url: format!("https://i.pximg.net/{n}.jpg"),
        user_name: "u".to_string(),
        width: 1,
        height: 1,
    }
}

fn result(n: u32) -> WallhavenData {
    WallhavenData {
        id: format!("{n}"),
        dimension_x: 1,
        dimension_y: 1,
        resolution: "1x1".to_string(),
        file_size: 1,
        file_type: "image/png".to_string(),
        path: format!("https://w.wallhaven.cc/full/{n}.png"),
    }
}

fn konachan(explicit: bool) -> Konachan {
    Konachan::new(KonachanConfig { explicit: KdlBool { value: explicit } })
}

fn wallhaven(general: bool, anime: bool, people: bool) -> Wallhaven {
    Wallhaven::new(WallhavenConfig {
        categories: WallhavenCategories {
            general: KdlBool { value: general },
            anime: KdlBool { value: anime },
            people: KdlBool { value: people },
        },
    })
}

#[test]
fn konachan_page_url_caps_the_page_size() {
    assert_eq!(Konachan::page_url(50, 1), "https://konachan.net/post.json?limit=50&page=1");
    assert_eq!(Konachan::page_url(500, 3), "https://konachan.net/post.json?limit=100&page=3");
    assert_eq!(Konachan::page_url(100, 12), "https://konachan.net/post.json?limit=100&page=12");
    assert_eq!(Konachan::page_url(0, 1), "https://konachan.net/post.json?limit=0&page=1");
}

#[test]
fn konachan_fetch_requests_pages_until_enough_posts() {
    let k = konachan(false);
    let mut fetch = k.start_fetch(3);
    assert_eq!(fetch.next_request().as_deref(), Some("https://konachan.net/post.json?limit=3&page=1"));
    fetch.receive(vec![post(1, "s"), post(2, "e"), post(3, "q")]);
    assert_eq!(fetch.next_request().as_deref(), Some("https://konachan.net/post.json?limit=3&page=2"));
    fetch.receive(vec![]);
    assert_eq!(fetch.next_request().as_deref(), Some("https://konachan.net/post.json?limit=3&page=3"));
    fetch.receive(vec![post(4, "s"), post(5, "s"), post(6, "s")]);
    assert_eq!(fetch.next_request(), None);
    let items = fetch.finish();
    let ids: Vec<u32> = items.iter().map(|i| i.id).collect();
    assert_eq!(ids, vec![1, 4, 5]);
    assert!(items.iter().all(|i| i.rating == "s"));
}

#[test]
fn konachan_explicit_fetch_keeps_everything() {
    let k = konachan(true);
    let mut fetch = k.start_fetch(2);
    fetch.receive(vec![post(1, "e"), post(2, "q"), post(3, "s")]);
    assert_eq!(fetch.next_request(), None);
    let ids: Vec<u32> = fetch.finish().iter().map(|i| i.id).collect();
    assert_eq!(ids, vec![1, 2]);
}

#[test]
fn konachan_fetch_of_nothing_is_done_at_once() {
    let fetch = konachan(false).start_fetch(0);
    assert_eq!(fetch.next_request(), None);
    assert!(fetch.finish().is_empty());
}

#[test]
fn pixiv_page_urls_cover_the_limit() {
    assert!(Pixiv::page_urls(0, PIXIV_LIST_QUERY).is_empty());
    assert_eq!(Pixiv::page_urls(50, PIXIV_LIST_QUERY).len(), 1);
    assert_eq!(Pixiv::page_urls(51, PIXIV_LIST_QUERY).len(), 2);
    let urls = Pixiv::new().list_requests(120);
    assert_eq!(
        urls,
        vec![
            "https://www.pixiv.net/ranking.php?mode=monthly&content=illust&format=json&p=1",
            "https://www.pixiv.net/ranking.php?mode=monthly&content=illust&format=json&p=2",
            "https://www.pixiv.net/ranking.php?mode=monthly&content=illust&format=json&p=3",
        ]
    );
    assert_eq!(
        Pixiv::default().random_requests(),
        vec![format!("https://www.pixiv.net/ranking.php?{PIXIV_RANDOM_QUERY}&p=1")]
    );
}

#[test]
fn pixiv_collect_keeps_page_order_and_limit() {
    let pages = vec![vec![entry(1), entry(2)], vec![], vec![entry(3), entry(4)]];
    let items = Pixiv::collect(pages, 3);
    let titles: Vec<String> = items.iter().map(|i| i.title.clone()).collect();
    assert_eq!(titles, vec!["t1", "t2", "t3"]);
    let all = Pixiv::collect(vec![vec![entry(1)], vec![entry(2)]], 50);
    assert_eq!(all.len(), 2);
}

#[test]
fn pixiv_original_image_url_rewrites_thumbnails() {
    let thumb = "https://i.pximg.net/c/240x480/img-master/img/2024/01/02/03/04/05/12345_p0_master1200.jpg";
    assert_eq!(
        Pixiv::original_image_url(thumb).as_deref(),
        Some("https://i.pximg.net/img-original/img/2024/01/02/03/04/05/12345_p0.jpg")
    );
    let plain = "https://i.pximg.net/img-original/img/1.png";
    assert_eq!(Pixiv::original_image_url(plain).as_deref(), Some(plain));
    assert_eq!(Pixiv::strip_master_suffix("a_master1200b_master1200"), "ab");
}

#[test]
fn pixiv_image_file_name_is_the_last_segment() {
    assert_eq!(Pixiv::image_file_name("https://i.pximg.net/img-original/img/12345_p0.jpg"), "12345_p0.jpg");
    assert_eq!(Pixiv::image_file_name("no-slash"), "no-slash");
    assert_eq!(Pixiv::image_file_name("https://host/dir/"), "");
}

#[test]
fn wallhaven_category_bits_follow_the_config() {
    assert_eq!(wallhaven(true, true, true).category_bits(), "111");
    assert_eq!(wallhaven(true, false, true).category_bits(), "101");
    assert_eq!(wallhaven(false, false, false).category_bits(), "000");
    assert_eq!(wallhaven(false, true, false).category_bits(), "010");
}

#[test]
fn wallhaven_page_urls_cover_the_limit() {
    let w = wallhaven(true, false, true);
    assert!(w.page_urls(0).is_empty());
    assert_eq!(w.page_urls(24).len(), 1);
    assert_eq!(w.page_urls(25).len(), 2);
    assert_eq!(
        w.page_urls(50),
        vec![
            "https://wallhaven.cc/api/v1/search?page=1&categories=101",
            "https://wallhaven.cc/api/v1/search?page=2&categories=101",
            "https://wallhaven.cc/api/v1/search?page=3&categories=101",
        ]
    );
    assert_eq!(w.random_requests().len(), 5);
}

#[test]
fn wallhaven_collect_truncates_to_the_limit() {
    let pages = vec![vec![result(1), result(2)], vec![result(3)]];
    let items = Wallhaven::collect(pages, 2);
    let ids: Vec<String> = items.iter().map(|d| d.id.clone()).collect();
    assert_eq!(ids, vec!["1", "2"]);
}

#[test]
fn concat_truncate_of_empty_pages_is_empty() {
    let pages: Vec<Vec<u8>> = vec![vec![], vec![]];
    assert!(concat_truncate(pages, 10).is_empty());
    assert_eq!(concat_truncate(vec![vec![1u8, 2], vec![3]], 0), Vec::<u8>::new());
    assert_eq!(concat_truncate(vec![vec![1u8, 2], vec![3]], 3), vec![1, 2, 3]);
}

#[test]
fn image_urls_follow_the_items() {
    let posts = vec![post(1, "s"), post(2, "s")];
    assert_eq!(image_urls(&posts), vec!["https://konachan.net/image/1.jpg", "https://konachan.net/image/2.jpg"]);
    assert_eq!(pick_image_url(&posts, 1), "https://konachan.net/image/2.jpg");
    let entries = vec![entry(7)];
    assert_eq!(image_urls(&entries), vec!["https://i.pximg.net/7.jpg"]);
    let results = vec![result(9)];
    assert_eq!(pick_image_url(&results, 0), "https://w.wallhaven.cc/full/9.png");
}

#[test]
fn random_image_url_is_one_of_the_items() {
    let results = vec![result(1), result(2), result(3)];
    let urls = image_urls(&results);
    for _ in 0..50 {
        let picked = random_image_url(&results);
        assert!(urls.contains(&picked));
    }
    let single = vec![entry(5)];
    assert_eq!(random_image_url(&single), "https://i.pximg.net/5.jpg");
}

#[test]
fn sources_are_listed_and_selected() {
    assert_eq!(WallpaperSource::all(), vec![WallpaperSource::Wallhaven, WallpaperSource::Pixiv, WallpaperSource::Konachan]);
    assert_eq!(WallpaperSource::select(Some(WallpaperSource::Pixiv)), WallpaperSource::Pixiv);
    for _ in 0..20 {
        let s = WallpaperSource::select(None);
        assert!(WallpaperSource::all().contains(&s));
    }
}

#[test]
fn full_pages_fill_the_limit_exactly() {
    let w = wallhaven(true, true, true);
    let requests = w.page_urls(50);
    let pages: Vec<Vec<WallhavenData>> = (0..requests.len() as u32)
        .map(|p| (0..24).map(|i| result(p * 24 + i)).collect())
        .collect();
    let items = Wallhaven::collect(pages, 50);
    assert_eq!(items.len(), 50);
    assert_eq!(items[49].id, "49");

    let p = Pixiv::new();
    let requests = p.list_requests(120);
    let pages: Vec<Vec<PixivContent>> = (0..requests.len() as u32)
        .map(|page| (0..50).map(|i| entry(page * 50 + i)).collect())
        .collect();
    assert_eq!(Pixiv::collect(pages, 120).len(), 120);
}
