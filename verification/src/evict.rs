//! Choosing which saved wallpapers to delete so that at most
//! `max_downloaded` stay in the output directory: the oldest go first.

use vstd::prelude::*;
use vstd::multiset::Multiset;
use vstd::seq_lib::{group_to_multiset_ensures, lemma_multiset_commutative};
use crate::text::{last_piece, split_on, str_equal};
use crate::wallpaper::METADATA_FILE_NAME;

verus! {

/// A wallpaper file of the output directory and its modification time, in
/// nanoseconds after (or, when negative, before) the Unix epoch.
pub struct WallpaperFile {
    pub path: String,
    pub modified: i128,
}

/// The position of the oldest file, the earliest listed among equally old
/// ones.
pub open spec fn earliest_oldest(files: Seq<WallpaperFile>) -> int
    decreases files.len(),
{
    if files.len() <= 1 {
        0
    } else {
        let m = earliest_oldest(files.drop_last());
        if files.last().modified < files[m].modified {
            files.len() - 1
        } else {
            m
        }
    }
}

/// The earliest oldest position lies in the sequence, no file is older, and
/// every file listed before it is newer.
pub proof fn lemma_earliest_oldest(files: Seq<WallpaperFile>)
    requires
        files.len() > 0,
    ensures
        0 <= earliest_oldest(files) < files.len(),
        forall|j: int| 0 <= j < files.len() ==> files[earliest_oldest(files)].modified <= #[trigger] files[j].modified,
        forall|j: int| 0 <= j < earliest_oldest(files) ==> files[earliest_oldest(files)].modified < #[trigger] files[j].modified,
    decreases files.len(),
{
    if files.len() > 1 {
        let init = files.drop_last();
        lemma_earliest_oldest(init);
        assert(forall|j: int| 0 <= j < init.len() ==> init[j] == files[j]);
    }
}

/// The files ordered from oldest to newest, equally old files in the order
/// they were listed (a stable sort by modification time).
pub open spec fn oldest_first(files: Seq<WallpaperFile>) -> Seq<WallpaperFile>
    decreases files.len(),
{
    if files.len() == 0 {
        Seq::<WallpaperFile>::empty()
    } else {
        let m = earliest_oldest(files);
        proof {
            lemma_earliest_oldest(files);
        }
        seq![files[m]] + oldest_first(files.remove(m))
    }
}

/// The name of the file at `path`: what follows its last `/`.
pub open spec fn file_name_of(path: Seq<char>) -> Seq<char> {
    split_on(path, '/').last()
}

/// Whether a file is the metadata file of the output directory.
pub open spec fn is_metadata_file(file: WallpaperFile) -> bool {
    file_name_of(file.path@) == METADATA_FILE_NAME@
}

/// Being a wallpaper (any file but the metadata file), as a filter predicate.
pub open spec fn wallpaper_filter() -> spec_fn(WallpaperFile) -> bool {
    |file: WallpaperFile| !is_metadata_file(file)
}

/// The wallpapers among the files, in their order: the metadata file is left
/// out, it is neither counted nor deleted.
pub open spec fn wallpapers_only(files: Seq<WallpaperFile>) -> Seq<WallpaperFile> {
    files.filter(wallpaper_filter())
}

/// The files deleted when at most `max_downloaded` wallpapers may stay: the
/// oldest wallpapers, oldest first, as many as exceed the maximum.
pub open spec fn evicted_files(files: Seq<WallpaperFile>, max_downloaded: nat) -> Seq<WallpaperFile> {
    let wallpapers = wallpapers_only(files);
    if wallpapers.len() > max_downloaded {
        oldest_first(wallpapers).take(wallpapers.len() - max_downloaded)
    } else {
        Seq::<WallpaperFile>::empty()
    }
}

/// The wallpapers that stay.
pub open spec fn kept_files(files: Seq<WallpaperFile>, max_downloaded: nat) -> Seq<WallpaperFile> {
    oldest_first(wallpapers_only(files)).skip(evicted_files(files, max_downloaded).len() as int)
}

/// Whether the file is the metadata file.
fn is_metadata(file: &WallpaperFile) -> (b: bool)
    ensures
        b == is_metadata_file(*file),
{
    let name = last_piece(file.path.as_str(), '/');
    str_equal(name.as_str(), METADATA_FILE_NAME)
}

/// The wallpapers among the files, in their order, the metadata file left
/// out.
pub fn wallpapers(files: Vec<WallpaperFile>) -> (wallpapers: Vec<WallpaperFile>)
    ensures
        wallpapers@ == wallpapers_only(files@),
{
    let ghost whole = files@;
    let ghost pred = wallpaper_filter();
    let mut rest = files;
    let mut kept: Vec<WallpaperFile> = Vec::new();
    let ghost mut consumed: nat = 0;
    assert(whole.take(0).filter(pred) =~= Seq::<WallpaperFile>::empty()) by {
        reveal(Seq::filter);
    }
    while rest.len() > 0
        invariant
            pred == wallpaper_filter(),
            consumed <= whole.len(),
            rest@ == whole.skip(consumed as int),
            kept@ == whole.take(consumed as int).filter(pred),
        decreases rest@.len(),
    {
        let file = rest.remove(0);
        assert(file == whole[consumed as int]);
        assert(whole.take(consumed + 1int) =~= whole.take(consumed as int).push(file));
        proof {
            whole.take(consumed as int).lemma_filter_push(file, pred);
        }
        assert(pred(file) == !is_metadata_file(file));
        if !is_metadata(&file) {
            kept.push(file);
        }
        proof {
            consumed = consumed + 1;
        }
        assert(rest@ =~= whole.skip(consumed as int));
    }
    assert(whole.take(consumed as int) =~= whole);
    kept
}

/// The position of the earliest listed oldest file.
fn earliest_oldest_index(files: &Vec<WallpaperFile>) -> (m: usize)
    requires
        files@.len() > 0,
    ensures
        m == earliest_oldest(files@),
{
    let mut m: usize = 0;
    let mut i: usize = 1;
    assert(files@.take(1).len() == 1);
    while i < files.len()
        invariant
            1 <= i <= files@.len(),
            m == earliest_oldest(files@.take(i as int)),
        decreases files@.len() - i,
    {
        let ghost prefix = files@.take(i as int);
        let ghost next = files@.take(i + 1);
        proof {
            lemma_earliest_oldest(prefix);
            assert(next.drop_last() =~= prefix);
            assert(next.last() == files@[i as int]);
            assert(next[m as int] == files@[m as int]);
        }
        if files[i].modified < files[m].modified {
            m = i;
        }
        i = i + 1;
    }
    assert(files@.take(files@.len() as int) =~= files@);
    m
}

/// The files to delete so that at most `max_downloaded` wallpapers stay,
/// oldest first; the metadata file is never counted nor deleted.
pub fn plan_eviction(files: Vec<WallpaperFile>, max_downloaded: usize) -> (evicted: Vec<WallpaperFile>)
    ensures
        evicted@ == evicted_files(files@, max_downloaded as nat),
{
    let files = wallpapers(files);
    let n = files.len();
    if n <= max_downloaded {
        return Vec::new();
    }
    let count = n - max_downloaded;
    let ghost all = files@;
    let mut rest = files;
    let mut evicted: Vec<WallpaperFile> = Vec::new();
    assert(oldest_first(all) =~= evicted@ + oldest_first(rest@));
    while evicted.len() < count
        invariant
            count <= n,
            n == all.len(),
            evicted@.len() <= count,
            rest@.len() == n - evicted@.len(),
            oldest_first(all) == evicted@ + oldest_first(rest@),
        decreases count - evicted@.len(),
    {
        let ghost before = rest@;
        let m = earliest_oldest_index(&rest);
        proof {
            lemma_earliest_oldest(before);
        }
        let oldest = rest.remove(m);
        let ghost picked = oldest;
        assert(oldest_first(before) == seq![picked] + oldest_first(rest@));
        evicted.push(oldest);
        assert(oldest_first(all) =~= evicted@ + oldest_first(rest@));
    }
    assert(evicted@ =~= oldest_first(all).take(count as int));
    evicted
}

/// Ordering oldest first neither loses nor adds a file.
pub proof fn lemma_oldest_first_permutes(files: Seq<WallpaperFile>)
    ensures
        oldest_first(files).to_multiset() == files.to_multiset(),
        oldest_first(files).len() == files.len(),
    decreases files.len(),
{
    broadcast use group_to_multiset_ensures;

    if files.len() > 0 {
        let m = earliest_oldest(files);
        lemma_earliest_oldest(files);
        let rest = files.remove(m);
        lemma_oldest_first_permutes(rest);
        lemma_multiset_commutative(seq![files[m]], oldest_first(rest));
        assert(seq![files[m]].to_multiset() =~= Multiset::<WallpaperFile>::empty().insert(files[m])) by {
            assert(Seq::<WallpaperFile>::empty().push(files[m]) =~= seq![files[m]]);
        }
        assert(files.to_multiset() =~= rest.to_multiset().insert(files[m]));
    }
}

/// Ordering oldest first gives non-decreasing modification times.
pub proof fn lemma_oldest_first_sorted(files: Seq<WallpaperFile>)
    ensures
        forall|i: int, j: int|
            0 <= i <= j < oldest_first(files).len() ==> (#[trigger] oldest_first(files)[i]).modified <= (#[trigger] oldest_first(files)[j]).modified,
    decreases files.len(),
{
    broadcast use group_to_multiset_ensures;

    if files.len() > 0 {
        let m = earliest_oldest(files);
        lemma_earliest_oldest(files);
        let rest = files.remove(m);
        let tail = oldest_first(rest);
        lemma_oldest_first_sorted(rest);
        lemma_oldest_first_permutes(rest);
        let whole = oldest_first(files);
        assert(whole == seq![files[m]] + tail);
        assert forall|j: int| 0 <= j < tail.len() implies files[m].modified <= (#[trigger] tail[j]).modified by {
            assert(tail.to_multiset().count(tail[j]) > 0);
            assert(rest.contains(tail[j]));
            let k = choose|k: int| 0 <= k < rest.len() && rest[k] == tail[j];
            if k < m {
                assert(rest[k] == files[k]);
            } else {
                assert(rest[k] == files[k + 1]);
            }
        }
        assert forall|i: int, j: int| 0 <= i <= j < whole.len() implies (#[trigger] whole[i]).modified <= (#[trigger] whole[j]).modified by {
            if i == 0 {
                if j > 0 {
                    assert(whole[j] == tail[j - 1]);
                }
            } else {
                assert(whole[i] == tail[i - 1]);
                assert(whole[j] == tail[j - 1]);
            }
        }
    }
}

/// Eviction leaves `min(wallpapers, max_downloaded)` wallpapers: it deletes
/// exactly as many wallpapers as exceed the maximum, the metadata file not
/// counted.
pub proof fn law_eviction_leaves_at_most_max(files: Seq<WallpaperFile>, max_downloaded: nat)
    ensures
        evicted_files(files, max_downloaded).len() == if wallpapers_only(files).len() > max_downloaded {
            wallpapers_only(files).len() - max_downloaded
        } else {
            0
        },
        kept_files(files, max_downloaded).len() == if wallpapers_only(files).len() > max_downloaded {
            max_downloaded
        } else {
            wallpapers_only(files).len()
        },
{
    lemma_oldest_first_permutes(wallpapers_only(files));
}

/// Eviction deletes the oldest wallpapers: the deleted and the kept files
/// together are exactly the wallpapers of the directory, and no deleted
/// wallpaper is newer than a kept one.
pub proof fn law_eviction_deletes_oldest(files: Seq<WallpaperFile>, max_downloaded: nat)
    ensures
        evicted_files(files, max_downloaded).to_multiset().add(kept_files(files, max_downloaded).to_multiset())
            == wallpapers_only(files).to_multiset(),
        forall|i: int, j: int|
            0 <= i < evicted_files(files, max_downloaded).len() && 0 <= j < kept_files(files, max_downloaded).len()
                ==> (#[trigger] evicted_files(files, max_downloaded)[i]).modified <= (#[trigger] kept_files(files, max_downloaded)[j]).modified,
{
    let w = wallpapers_only(files);
    lemma_oldest_first_permutes(w);
    lemma_oldest_first_sorted(w);
    let sorted = oldest_first(w);
    let e = evicted_files(files, max_downloaded);
    let k = kept_files(files, max_downloaded);
    let c = e.len() as int;
    assert(e =~= sorted.take(c));
    assert(sorted =~= e + k);
    lemma_multiset_commutative(e, k);
    assert forall|i: int, j: int| 0 <= i < e.len() && 0 <= j < k.len() implies (#[trigger] e[i]).modified <= (#[trigger] k[j]).modified by {
        assert(e[i] == sorted[i]);
        assert(k[j] == sorted[c + j]);
    }
}

/// The metadata file is never deleted, nor counted among the kept
/// wallpapers.
pub proof fn law_eviction_spares_metadata(files: Seq<WallpaperFile>, max_downloaded: nat)
    ensures
        forall|i: int| 0 <= i < evicted_files(files, max_downloaded).len()
            ==> !is_metadata_file(#[trigger] evicted_files(files, max_downloaded)[i]),
        forall|i: int| 0 <= i < kept_files(files, max_downloaded).len()
            ==> !is_metadata_file(#[trigger] kept_files(files, max_downloaded)[i]),
{
    broadcast use group_to_multiset_ensures;

    let w = wallpapers_only(files);
    let pred = wallpaper_filter();
    lemma_oldest_first_permutes(w);
    let sorted = oldest_first(w);
    let e = evicted_files(files, max_downloaded);
    let k = kept_files(files, max_downloaded);
    let c = e.len() as int;
    assert(e =~= sorted.take(c));
    assert(sorted =~= e + k);
    assert forall|i: int| 0 <= i < sorted.len() implies !is_metadata_file(#[trigger] sorted[i]) by {
        assert(sorted.to_multiset().count(sorted[i]) > 0);
        assert(w.contains(sorted[i]));
        let j = choose|j: int| 0 <= j < w.len() && w[j] == sorted[i];
        files.lemma_filter_pred(pred, j);
    }
    assert forall|i: int| 0 <= i < e.len() implies !is_metadata_file(#[trigger] e[i]) by {
        assert(e[i] == sorted[i]);
    }
    assert forall|i: int| 0 <= i < k.len() implies !is_metadata_file(#[trigger] k[i]) by {
        assert(k[i] == sorted[c + i]);
    }
}

/// Evicting again removes nothing: once the planned files are deleted, the
/// wallpapers left are the kept ones (listed in any order, next to the
/// metadata file if there is one), and planning on them deletes nothing.
pub proof fn law_eviction_is_idempotent(files: Seq<WallpaperFile>, remaining: Seq<WallpaperFile>, max_downloaded: nat)
    requires
        wallpapers_only(remaining).to_multiset() == kept_files(files, max_downloaded).to_multiset(),
    ensures
        evicted_files(remaining, max_downloaded) == Seq::<WallpaperFile>::empty(),
{
    broadcast use group_to_multiset_ensures;

    law_eviction_leaves_at_most_max(files, max_downloaded);
    wallpapers_only(remaining).to_multiset_ensures();
    kept_files(files, max_downloaded).to_multiset_ensures();
    assert(wallpapers_only(remaining).len() == kept_files(files, max_downloaded).len());
}

} // verus!
