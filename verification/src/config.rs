//! The configuration model: the values read from the `wally.kdl` file.
//!
//! Each KDL node that carries a single argument is a wrapper struct with a
//! `value` field, mirroring the shape of the configuration document.

use vstd::prelude::*;

verus! {

/// A node whose single argument is a filesystem path.
pub struct KdlPath {
    pub value: String,
}

/// A node whose single argument is a boolean.
pub struct KdlBool {
    pub value: bool,
}

/// A node whose single argument is an unsigned 32-bit integer.
pub struct Kdlu32 {
    pub value: u32,
}

/// The command used to set the wallpaper; `{{path}}` stands for the image.
pub struct Command {
    pub command: String,
}

/// The `general` section.
pub struct GeneralConfig {
    /// The directory to save wallpapers to
    pub output_dir: KdlPath,
    /// command to set wallpaper
    pub set_command: Command,
    /// maximum number of wallpapers to keep downloaded in the output dir
    pub max_downloaded: Kdlu32,
}

/// The `konachan` section.
pub struct KonachanConfig {
    /// Whether results rated other than safe are kept.
    pub explicit: KdlBool,
}

/// The categories searched on Wallhaven.
pub struct WallhavenCategories {
    pub general: KdlBool,
    pub anime: KdlBool,
    pub people: KdlBool,
}

/// The `wallhaven` section.
pub struct WallhavenConfig {
    pub categories: WallhavenCategories,
}

/// The whole configuration document.
pub struct Config {
    pub general: GeneralConfig,
    pub wallhaven: WallhavenConfig,
    pub konachan: KonachanConfig,
}

} // verus!
