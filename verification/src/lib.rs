//! Wallpaper scraping logic: configuration model, request planning for the
//! wallpaper sources, result collection, eviction of old downloads and the
//! retry policy used around network operations.

pub mod text;
pub mod config;
pub mod collect;
pub mod random;
pub mod konachan;
pub mod source;
pub mod pixiv;
pub mod wallhaven;
pub mod url;
pub mod evict;
pub mod retry;
pub mod wallpaper;
