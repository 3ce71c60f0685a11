use wally::config::Command;
use wally::evict::{plan_eviction, wallpapers, WallpaperFile};
use wally::retry::{Retry, RetryDecision};
use wally::url::{download_file_name, path_last_segment};
use wally::wallpaper::{select_downloaded, set_command_parts, Metadata, METADATA_FILE_NAME};

fn file(path: &str, modified: i128) -> WallpaperFile {
    WallpaperFile { path: path.to_string(), modified }
}

fn paths(files: &[WallpaperFile]) -> Vec<String> {
    files.iter().map(|f| f.path.clone()).collect()
}

#[test]
fn eviction_removes_nothing_within_the_maximum() {
    let files = vec![file("a", 3), file("b", 1)];
    assert!(plan_eviction(files, 2).is_empty());
    assert!(plan_eviction(vec![], 0).is_empty());
}

#[test]
fn eviction_removes_the_oldest_first() {
    let files = vec![file("c", 30), file("a", 10), file("d", 40), file("b", 20), file("e", 50)];
    let evicted = plan_eviction(files, 2);
    assert_eq!(paths(&evicted), vec!["a", "b", "c"]);
}

#[test]
fn eviction_breaks_ties_in_listing_order() {
    let files = vec![file("x", 5), file("y", 5), file("z", 1), file("w", 5)];
    assert_eq!(paths(&plan_eviction(files, 1)), vec!["z", "x", "y"]);
}

#[test]
fn eviction_with_zero_maximum_removes_everything() {
    let files = vec![file("late", 100), file("early", -100)];
    assert_eq!(paths(&plan_eviction(files, 0)), vec!["early", "late"]);
}

#[test]
fn eviction_keeps_the_newest_and_no_evicted_file_is_newer() {
    let files: Vec<WallpaperFile> = (0..10).map(|i| file(&format!("f{i}"), ((i * 7) % 10) as i128)).collect();
    let all = paths(&files);
    let times: Vec<i128> = files.iter().map(|f| f.modified).collect();
    let evicted = plan_eviction(files, 4);
    assert_eq!(evicted.len(), 6);
    let kept: Vec<&String> = all.iter().filter(|p| !paths(&evicted).contains(p)).collect();
    assert_eq!(kept.len(), 4);
    let newest_evicted = evicted.iter().map(|f| f.modified).max().unwrap();
    for k in kept {
        let i = all.iter().position(|p| p == k).unwrap();
        assert!(times[i] >= newest_evicted);
    }
}

#[test]
fn retry_doubles_the_pause_and_gives_up_after_all_attempts() {
    let mut r = Retry::new(5, 1000);
    assert_eq!(r.on_failure(), RetryDecision::RetryAfter(1000));
    assert_eq!(r.on_failure(), RetryDecision::RetryAfter(2000));
    assert_eq!(r.on_failure(), RetryDecision::RetryAfter(4000));
    assert_eq!(r.on_failure(), RetryDecision::RetryAfter(8000));
    assert_eq!(r.on_failure(), RetryDecision::GiveUp);
    assert_eq!(r.on_failure(), RetryDecision::GiveUp);
}

#[test]
fn retry_with_one_or_no_attempt_gives_up_at_once() {
    assert_eq!(Retry::new(1, 5).on_failure(), RetryDecision::GiveUp);
    assert_eq!(Retry::new(0, 5).on_failure(), RetryDecision::GiveUp);
}

#[test]
fn download_file_name_is_the_last_path_segment() {
    assert_eq!(
        download_file_name("https://konachan.net/image/abc/Konachan.com%20-%201.jpg").as_deref(),
        Some("Konachan.com%20-%201.jpg")
    );
    assert_eq!(download_file_name("https://w.wallhaven.cc/full/x/wallhaven-x.png?size=1#top").as_deref(), Some("wallhaven-x.png"));
    assert_eq!(download_file_name("https://example.com").as_deref(), Some(""));
    assert_eq!(download_file_name("data:text/plain,HelloWorld"), None);
    assert_eq!(download_file_name("not a url"), None);
}

#[test]
fn path_last_segment_needs_a_leading_slash() {
    assert_eq!(path_last_segment("/a/b/c.jpg").as_deref(), Some("c.jpg"));
    assert_eq!(path_last_segment("/").as_deref(), Some(""));
    assert_eq!(path_last_segment("a/b"), None);
    assert_eq!(path_last_segment(""), None);
}

#[test]
fn set_command_parts_substitute_the_image_path() {
    let cmd = Command { command: "swww img {{path}}".to_string() };
    assert_eq!(set_command_parts(&cmd, "/pics/a.jpg"), vec!["swww", "img", "/pics/a.jpg"]);
    let twice = Command { command: "feh --bg-fill {{path}} --also {{path}}".to_string() };
    assert_eq!(set_command_parts(&twice, "p"), vec!["feh", "--bg-fill", "p", "--also", "p"]);
    let empty = Command { command: String::new() };
    assert_eq!(set_command_parts(&empty, "p"), vec![""]);
}

#[test]
fn default_metadata_has_no_active_wallpaper() {
    assert_eq!(Metadata::default().active_wallpaper, "");
}

#[test]
fn eviction_never_counts_or_deletes_the_metadata_file() {
    let files = vec![file("/w/a.jpg", 2), file("/w/b.jpg", 3), file("/w/.wally-meta", 1)];
    assert!(plan_eviction(files, 2).is_empty());
    let files = vec![file("/w/a.jpg", 2), file("/w/b.jpg", 3), file("/w/.wally-meta", 1)];
    assert_eq!(paths(&plan_eviction(files, 1)), vec!["/w/a.jpg"]);
    let files = vec![file("/w/.wally-meta", 0), file("/w/x.png", 9)];
    assert_eq!(paths(&plan_eviction(files, 0)), vec!["/w/x.png"]);
}

#[test]
fn wallpapers_leave_out_only_the_metadata_file() {
    let files = vec![
        file("/w/.wally-meta", 1),
        file("/w/.wally-meta.jpg", 2),
        file("/w/sub.wally-meta", 3),
        file("/w/c.jpg", 4),
    ];
    assert_eq!(paths(&wallpapers(files)), vec!["/w/.wally-meta.jpg", "/w/sub.wally-meta", "/w/c.jpg"]);
}

#[test]
fn select_downloaded_is_one_of_the_paths() {
    let all = vec!["/w/a.jpg".to_string(), "/w/b.jpg".to_string()];
    for _ in 0..20 {
        assert!(all.contains(&select_downloaded(&all)));
    }
    assert_eq!(select_downloaded(&vec!["/w/only.jpg".to_string()]), "/w/only.jpg");
    assert_eq!(METADATA_FILE_NAME, ".wally-meta");
}

#[test]
fn evicting_again_removes_nothing() {
    let files = vec![file("/w/c.jpg", 30), file("/w/.wally-meta", 1), file("/w/a.jpg", 10), file("/w/b.jpg", 20)];
    let all = paths(&files);
    let evicted = paths(&plan_eviction(files, 1));
    assert_eq!(evicted, vec!["/w/a.jpg", "/w/b.jpg"]);
    let times = [30, 1, 10, 20];
    let remaining: Vec<WallpaperFile> = all
        .iter()
        .zip(times)
        .filter(|(p, _)| !evicted.contains(p))
        .map(|(p, t)| file(p, t))
        .collect();
    assert_eq!(paths(&remaining), vec!["/w/c.jpg", "/w/.wally-meta"]);
    assert!(plan_eviction(remaining, 1).is_empty());
}
