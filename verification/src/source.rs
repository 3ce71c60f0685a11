//! What the sources have in common: the listed items carry an image address,
//! and a source is picked among the supported ones.

use vstd::prelude::*;
use crate::random::random_index;

verus! {

/// An item of a source listing that points at an image.
pub trait ImageItem {
    /// The address of the image.
    spec fn image_url(&self) -> Seq<char>;

    /// The address of the image, as a new string.
    fn image_url_string(&self) -> (url: String)
        ensures
            url@ == self.image_url();
}

/// The image addresses of the items, in order.
pub fn image_urls<T: ImageItem>(items: &Vec<T>) -> (urls: Vec<String>)
    ensures
        urls@.len() == items@.len(),
        forall|i: int| 0 <= i < items@.len() ==> #[trigger] urls@[i]@ == items@[i].image_url(),
{
    let mut urls: Vec<String> = Vec::new();
    let mut i: usize = 0;
    while i < items.len()
        invariant
            i <= items@.len(),
            urls@.len() == i,
            forall|j: int| 0 <= j < i ==> #[trigger] urls@[j]@ == items@[j].image_url(),
        decreases items@.len() - i,
    {
        urls.push(items[i].image_url_string());
        i = i + 1;
    }
    urls
}

/// The image address of the item at `index`.
pub fn pick_image_url<T: ImageItem>(items: &Vec<T>, index: usize) -> (url: String)
    requires
        index < items@.len(),
    ensures
        url@ == items@[index as int].image_url(),
{
    items[index].image_url_string()
}

/// The image address of an item drawn at random.
pub fn random_image_url<T: ImageItem>(items: &Vec<T>) -> (url: String)
    requires
        items@.len() > 0,
    ensures
        exists|i: int| 0 <= i < items@.len() && url@ == #[trigger] items@[i].image_url(),
{
    let index = random_index(items.len());
    pick_image_url(items, index)
}

/// The supported wallpaper sources.
#[derive(Debug, Clone, Copy, PartialEq, Eq, Structural)]
pub enum WallpaperSource {
    Wallhaven,
    Pixiv,
    Konachan,
}

/// The sources in their declared order.
pub open spec fn source_at(index: int) -> WallpaperSource {
    if index == 0 {
        WallpaperSource::Wallhaven
    } else if index == 1 {
        WallpaperSource::Pixiv
    } else {
        WallpaperSource::Konachan
    }
}

impl WallpaperSource {
    /// All sources, in their declared order.
    pub fn all() -> (sources: Vec<WallpaperSource>)
        ensures
            sources@.len() == 3,
            forall|i: int| 0 <= i < 3 ==> #[trigger] sources@[i] == source_at(i),
    {
        vec![WallpaperSource::Wallhaven, WallpaperSource::Pixiv, WallpaperSource::Konachan]
    }

    /// The source asked for, or else one of all sources drawn at random.
    pub fn select(requested: Option<WallpaperSource>) -> (source: WallpaperSource)
        ensures
            requested matches Some(r) ==> source == r,
    {
        match requested {
            Some(r) => r,
            None => {
                let all = Self::all();
                let index = random_index(all.len());
                all[index]
            },
        }
    }
}

} // verus!
