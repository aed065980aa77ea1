use vstd::prelude::*;
use rand::seq::SliceRandom;
use crate::error::GalleryError;
use crate::paths::{ends_with, has_suffix};

verus! {

/// A directory of images on disk, and the extension (without its dot) that
/// tells image files from the rest.
#[derive(Debug, Clone)]
pub struct ImageDir {
    /// The directory's path.
    pub path: String,
    /// The extension of image files, e.g. `png`.
    pub file_extension: String,
}

/// One entry that a walk of a directory yielded: its path, and whether it is a
/// regular file.
#[derive(Debug, Clone)]
pub struct WalkEntry {
    pub path: String,
    pub is_file: bool,
}

/// Each entry as its path's text and its regular-file flag.
pub open spec fn entry_views(s: Seq<WalkEntry>) -> Seq<(Seq<char>, bool)> {
    s.map_values(|e: WalkEntry| (e.path@, e.is_file))
}

/// The text of each path.
pub open spec fn path_views(s: Seq<String>) -> Seq<Seq<char>> {
    s.map_values(|p: String| p@)
}

/// A path names an image when it ends with `.` followed by the extension.
pub open spec fn is_image(ext: Seq<char>, p: Seq<char>) -> bool {
    has_suffix(p, seq!['.'] + ext)
}

/// The paths of the regular files of `entries` that name images, in the order
/// of `entries`.
pub open spec fn images_in(ext: Seq<char>, entries: Seq<(Seq<char>, bool)>) -> Seq<Seq<char>>
    decreases entries.len(),
{
    if entries.len() == 0 {
        Seq::empty()
    } else {
        let rest = images_in(ext, entries.drop_last());
        if entries.last().1 && is_image(ext, entries.last().0) {
            rest.push(entries.last().0)
        } else {
            rest
        }
    }
}

/// A path is among the images of `entries` exactly when it is the path of a
/// regular file among the entries and names an image.
pub proof fn lemma_images_in_contains(ext: Seq<char>, entries: Seq<(Seq<char>, bool)>)
    ensures
        forall|p: Seq<char>|
            #[trigger] images_in(ext, entries).contains(p) <==> entries.contains((p, true))
                && is_image(ext, p),
    decreases entries.len(),
{
    if entries.len() > 0 {
        let init = entries.drop_last();
        lemma_images_in_contains(ext, init);
        assert(entries =~= init.push(entries.last()));
        let last = entries.last();
        assert forall|x: (Seq<char>, bool)| entries.contains(x) <==> init.contains(x) || x == last by {
            if entries.contains(x) {
                let j = choose|j: int| 0 <= j < entries.len() && entries[j] == x;
                if j < init.len() {
                    assert(init[j] == x);
                }
            }
            if init.contains(x) {
                let j = choose|j: int| 0 <= j < init.len() && init[j] == x;
                assert(entries[j] == x);
            }
            if x == last {
                assert(entries[entries.len() - 1] == x);
            }
        }
        let rest = images_in(ext, init);
        if last.1 && is_image(ext, last.0) {
            assert forall|p: Seq<char>| rest.push(last.0).contains(p) <==> rest.contains(p) || p
                == last.0 by {
                let r2 = rest.push(last.0);
                if r2.contains(p) {
                    let j = choose|j: int| 0 <= j < r2.len() && r2[j] == p;
                    if j < rest.len() {
                        assert(rest[j] == p);
                    }
                }
                if rest.contains(p) {
                    let j = choose|j: int| 0 <= j < rest.len() && rest[j] == p;
                    assert(r2[j] == p);
                }
                if p == last.0 {
                    assert(r2[rest.len() as int] == p);
                }
            }
        }
        assert forall|p: Seq<char>| #[trigger] images_in(ext, entries).contains(p)
            <==> entries.contains((p, true)) && is_image(ext, p) by {
            assert(rest.contains(p) <==> init.contains((p, true)) && is_image(ext, p));
            assert(entries.contains((p, true)) <==> init.contains((p, true)) || (p, true) == last);
            if last.1 && is_image(ext, last.0) {
                assert(rest.push(last.0).contains(p) <==> rest.contains(p) || p == last.0);
            }
        }
    } else {
        assert forall|p: Seq<char>| #[trigger] images_in(ext, entries).contains(p)
            <==> entries.contains((p, true)) && is_image(ext, p) by {
            if entries.contains((p, true)) {
                let j = choose|j: int| 0 <= j < entries.len() && entries[j] == (p, true);
            }
        }
    }
}

/// Two listings of an unchanged directory hold the same entries, perhaps walked
/// in another order: the images found in them are then the same set of paths.
pub proof fn lemma_scan_same_set(
    dir: ImageDir,
    a: Seq<(Seq<char>, bool)>,
    b: Seq<(Seq<char>, bool)>,
)
    requires
        a.to_set() == b.to_set(),
    ensures
        images_in(dir.file_extension@, a).to_set() == images_in(dir.file_extension@, b).to_set(),
{
    let ext = dir.file_extension@;
    lemma_images_in_contains(ext, a);
    lemma_images_in_contains(ext, b);
    assert forall|x: (Seq<char>, bool)| a.contains(x) <==> b.contains(x) by {
        assert(a.to_set().contains(x) == a.contains(x));
        assert(b.to_set().contains(x) == b.contains(x));
    }
    assert(images_in(ext, a).to_set() =~= images_in(ext, b).to_set());
}

/// A walk that yields the same listing twice finds the same images, in the
/// same order.
pub proof fn lemma_scan_same_listing(dir: ImageDir, a: Seq<(Seq<char>, bool)>, b: Seq<(Seq<char>, bool)>)
    requires
        a == b,
    ensures
        images_in(dir.file_extension@, a) == images_in(dir.file_extension@, b),
{
}

/// Each path occurs among the images of `entries` as often as it occurs as a
/// regular file among the entries, when it names an image, and never otherwise.
pub proof fn lemma_images_in_count(ext: Seq<char>, entries: Seq<(Seq<char>, bool)>)
    ensures
        forall|p: Seq<char>|
            #[trigger] images_in(ext, entries).to_multiset().count(p) == if is_image(ext, p) {
                entries.to_multiset().count((p, true))
            } else {
                0
            },
    decreases entries.len(),
{
    broadcast use vstd::seq_lib::group_to_multiset_ensures;
    broadcast use vstd::multiset::group_multiset_axioms;

    if entries.len() == 0 {
        assert forall|p: Seq<char>| #[trigger] images_in(ext, entries).to_multiset().count(p) == 0
            && entries.to_multiset().count((p, true)) == 0 by {
            assert(!images_in(ext, entries).contains(p));
            assert(!entries.contains((p, true)));
        }
    } else {
        let init = entries.drop_last();
        let last = entries.last();
        lemma_images_in_count(ext, init);
        assert(entries =~= init.push(last));
        assert(entries.to_multiset() =~= init.to_multiset().insert(last));
        let rest = images_in(ext, init);
        if last.1 && is_image(ext, last.0) {
            assert(images_in(ext, entries).to_multiset() =~= rest.to_multiset().insert(last.0));
        }
        assert forall|p: Seq<char>| #[trigger] images_in(ext, entries).to_multiset().count(p) == if is_image(ext, p) {
            entries.to_multiset().count((p, true))
        } else {
            0
        } by {
            assert(rest.to_multiset().count(p) == if is_image(ext, p) {
                init.to_multiset().count((p, true))
            } else {
                0
            });
        }
    }
}

/// Two listings of an unchanged directory that hold the same entries as often,
/// in any order, find the same images as often: in particular as many of them.
pub proof fn lemma_scan_reordered(
    dir: ImageDir,
    a: Seq<(Seq<char>, bool)>,
    b: Seq<(Seq<char>, bool)>,
)
    requires
        a.to_multiset() == b.to_multiset(),
    ensures
        images_in(dir.file_extension@, a).to_multiset() == images_in(dir.file_extension@, b).to_multiset(),
        images_in(dir.file_extension@, a).len() == images_in(dir.file_extension@, b).len(),
{
    broadcast use vstd::seq_lib::group_to_multiset_ensures;

    let ext = dir.file_extension@;
    lemma_images_in_count(ext, a);
    lemma_images_in_count(ext, b);
    assert(images_in(ext, a).to_multiset() =~= images_in(ext, b).to_multiset());
    assert(images_in(ext, a).to_multiset().len() == images_in(ext, b).to_multiset().len());
}

/// Relies on rand's `SliceRandom::shuffle`, driven by `rand::thread_rng`: it
/// swaps items in place, so the same items remain, in an order left to chance.
#[verifier::external_body]
fn shuffle_paths(v: &mut Vec<String>)
    ensures
        final(v)@.to_multiset() == old(v)@.to_multiset(),
{
    v.shuffle(&mut rand::thread_rng());
}

impl ImageDir {
    /// The image files among `entries`, what a walk of `self.path` yielded: the
    /// paths of the regular files that end with `.` and the extension, in the
    /// walk's order.
    pub fn find_images(&self, entries: &Vec<WalkEntry>) -> (r: Vec<String>)
        ensures
            path_views(r@) == images_in(self.file_extension@, entry_views(entries@)),
    {
        let ext = self.file_extension.as_str();
        let mut suffix = String::from_str(".");
        suffix.append(ext);
        proof {
            reveal_strlit(".");
        }
        let ghost all = entry_views(entries@);
        let mut found: Vec<String> = Vec::new();
        let mut i: usize = 0;
        while i < entries.len()
            invariant
                i <= entries@.len(),
                all == entry_views(entries@),
                suffix@ == seq!['.'] + self.file_extension@,
                path_views(found@) == images_in(self.file_extension@, all.subrange(0, i as int)),
            decreases entries@.len() - i,
        {
            let p = &entries[i].path;
            proof {
                assert(all.subrange(0, i + 1).drop_last() =~= all.subrange(0, i as int));
            }
            if entries[i].is_file && ends_with(p.as_str(), suffix.as_str()) {
                let c = p.clone();
                found.push(c);
                proof {
                    assert(path_views(found@) =~= images_in(
                        self.file_extension@,
                        all.subrange(0, i + 1),
                    ));
                }
            } else {
                proof {
                    assert(path_views(found@) =~= images_in(
                        self.file_extension@,
                        all.subrange(0, i + 1),
                    ));
                }
            }
            i = i + 1;
        }
        assert(all.subrange(0, entries@.len() as int) =~= all);
        found
    }

    /// One image of `entries` (see `find_images`), picked at random; `NoImages`
    /// when there is none.
    pub fn get_random_image(&self, entries: &Vec<WalkEntry>) -> (r: Result<String, GalleryError>)
        ensures
            r is Err <==> images_in(self.file_extension@, entry_views(entries@)).len() == 0,
            r matches Err(e) ==> e is NoImages,
            r matches Ok(p) ==> images_in(self.file_extension@, entry_views(entries@)).contains(p@),
    {
        let mut imgs = self.find_images(entries);
        if imgs.len() == 0 {
            return Err(GalleryError::NoImages);
        }
        let ghost before = imgs@;
        shuffle_paths(&mut imgs);
        proof {
            broadcast use vstd::seq_lib::group_to_multiset_ensures;

            assert(imgs@.to_multiset().len() == before.to_multiset().len());
            assert(imgs@.len() == before.len());
            let x = imgs@[0];
            assert(imgs@.contains(x));
            assert(imgs@.to_multiset().count(x) > 0);
            assert(before.to_multiset().count(x) > 0);
            assert(before.contains(x));
            let j = choose|j: int| 0 <= j < before.len() && before[j] == imgs@[0];
            assert(path_views(before)[j] == imgs@[0]@);
        }
        let p = imgs[0].clone();
        Ok(p)
    }

    /// The image of `entries` (see `find_images`) at place `choice`, counted
    /// round the list (`choice % n` for `n` images), for a choice made by the
    /// caller; `NoImages` when there is none.
    pub fn pick_image(&self, entries: &Vec<WalkEntry>, choice: usize) -> (r: Result<
        String,
        GalleryError,
    >)
        ensures
            r is Err <==> images_in(self.file_extension@, entry_views(entries@)).len() == 0,
            r matches Err(e) ==> e is NoImages,
            r matches Ok(p) ==> p@ == images_in(self.file_extension@, entry_views(entries@))[choice
                as int % images_in(self.file_extension@, entry_views(entries@)).len() as int],
    {
        let imgs = self.find_images(entries);
        if imgs.len() == 0 {
            return Err(GalleryError::NoImages);
        }
        let i = choice % imgs.len();
        let p = imgs[i].clone();
        assert(path_views(imgs@)[i as int] == imgs@[i as int]@);
        Ok(p)
    }
}

/// Serves a random image of a directory at each request.
#[derive(Clone)]
pub struct RandomFileServer(pub ImageDir);

impl RandomFileServer {
    /// A server of random images of `image_dir`.
    pub fn new(image_dir: ImageDir) -> (r: Self)
        ensures
            r.0 == image_dir,
    {
        RandomFileServer(image_dir)
    }
}

} // verus!
