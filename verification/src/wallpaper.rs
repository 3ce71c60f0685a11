//! Setting and remembering the active wallpaper.

use vstd::prelude::*;
use crate::config::Command;
use crate::random::random_index;
use crate::text::{join_with, law_join_undoes_split, replace_all, replace_all_spec, split_char, split_on, views};

verus! {

/// The name of the file in the output directory that remembers the active
/// wallpaper; it is not a wallpaper.
pub const METADATA_FILE_NAME: &'static str = ".wally-meta";

/// The placeholder of the set command that stands for the image path.
pub const PATH_PLACEHOLDER: &'static str = "{{path}}";

/// The program and arguments that set `image_path` as the wallpaper: the
/// command with every placeholder replaced by the path, split at each space.
pub open spec fn set_command_argv(command: Seq<char>, image_path: Seq<char>) -> Seq<Seq<char>> {
    split_on(replace_all_spec(command, PATH_PLACEHOLDER@, image_path), ' ')
}

/// The program (first word) and arguments of the set command for an image.
/// There is always a first word, possibly empty.
pub fn set_command_parts(command: &Command, image_path: &str) -> (parts: Vec<String>)
    ensures
        views(parts@) == set_command_argv(command.command@, image_path@),
        parts@.len() >= 1,
        join_with(views(parts@), ' ') == replace_all_spec(command.command@, PATH_PLACEHOLDER@, image_path@),
        forall|i: int| 0 <= i < parts@.len() ==> !(#[trigger] parts@[i])@.contains(' '),
{
    proof {
        reveal_strlit("{{path}}");
    }
    let line = replace_all(command.command.as_str(), PATH_PLACEHOLDER, image_path);
    let parts = split_char(line.as_str(), ' ');
    proof {
        crate::text::lemma_split_nonempty(line@, ' ');
        law_set_command_is_the_replaced_line(command.command@, image_path@);
        assert forall|i: int| 0 <= i < parts@.len() implies !(#[trigger] parts@[i])@.contains(' ') by {
            assert(views(parts@)[i] == parts@[i]@);
        }
    }
    parts
}

/// The downloaded image to set as the wallpaper, drawn at random among
/// the downloaded ones.
pub fn select_downloaded(paths: &Vec<String>) -> (path: String)
    requires
        paths@.len() > 0,
    ensures
        exists|i: int| 0 <= i < paths@.len() && path@ == (#[trigger] paths@[i])@,
{
    let index = random_index(paths.len());
    paths[index].clone()
}

/// The set command's words put back together with single spaces are the
/// configured command with every `{{path}}` replaced by the image path, and
/// no word contains a space.
pub proof fn law_set_command_is_the_replaced_line(command: Seq<char>, image_path: Seq<char>)
    ensures
        join_with(set_command_argv(command, image_path), ' ') == replace_all_spec(command, PATH_PLACEHOLDER@, image_path),
        forall|i: int| 0 <= i < set_command_argv(command, image_path).len()
            ==> !(#[trigger] set_command_argv(command, image_path)[i]).contains(' '),
{
    law_join_undoes_split(replace_all_spec(command, PATH_PLACEHOLDER@, image_path), ' ');
}

/// What is remembered between runs: the wallpaper set last.
pub struct Metadata {
    pub active_wallpaper: String,
}

impl Default for Metadata {
    /// No wallpaper remembered: an empty path.
    fn default() -> (m: Metadata)
        ensures
            m.active_wallpaper@ == Seq::<char>::empty(),
    {
        Metadata { active_wallpaper: String::new() }
    }
}

} // verus!
