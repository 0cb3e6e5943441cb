//! The gallery listing: which directory entries count as images, and the
//! order they are shown in — newest first. The surrounding binary reads
//! the directory and each file's creation time and hands the entries in.

use vstd::prelude::*;

use vstd::multiset::Multiset;
use vstd::seq_lib::group_to_multiset_ensures;

use crate::models::{GeneratedImage, GeneratedImageModel};
use crate::strutil::{eq_ignore_ascii_case, eq_ignore_case, extension, extension_of};

verus! {

broadcast use group_to_multiset_ensures;

/// One directory entry as the surrounding binary reports it: name, full
/// path, creation time in epoch milliseconds, and whether it is a file.
#[derive(Debug, Clone, PartialEq, Eq)]
pub struct GalleryEntry {
    pub filename: String,
    pub path: String,
    pub created_at: u64,
    pub is_file: bool,
}

/// Mathematical model of a [`GalleryEntry`].
pub struct GalleryEntryModel {
    pub filename: Seq<char>,
    pub path: Seq<char>,
    pub created_at: u64,
    pub is_file: bool,
}

impl View for GalleryEntry {
    type V = GalleryEntryModel;

    open spec fn view(&self) -> GalleryEntryModel {
        GalleryEntryModel {
            filename: self.filename@,
            path: self.path@,
            created_at: self.created_at,
            is_file: self.is_file,
        }
    }
}

/// The models of a sequence of entries.
pub open spec fn gallery_entry_models(s: Seq<GalleryEntry>) -> Seq<GalleryEntryModel> {
    Seq::new(s.len(), |i: int| s[i]@)
}

/// The models of a sequence of gallery images.
pub open spec fn image_models(s: Seq<GeneratedImage>) -> Seq<GeneratedImageModel> {
    Seq::new(s.len(), |i: int| s[i]@)
}

/// A name counts as a gallery image when its extension, without regard to
/// ASCII case, is png, jpg, jpeg or webp.
pub open spec fn is_image_name(name: Seq<char>) -> bool {
    match extension_of(name) {
        Some(e) => eq_ignore_case(e, "png"@) || eq_ignore_case(e, "jpg"@) || eq_ignore_case(
            e,
            "jpeg"@,
        ) || eq_ignore_case(e, "webp"@),
        None => false,
    }
}

/// Whether one entry belongs in the gallery: a file with an image name.
pub open spec fn spec_keeps(e: GalleryEntryModel) -> bool {
    e.is_file && is_image_name(e.filename)
}

/// The gallery records the entries yield, in directory order, before
/// sorting: entries that are not files, and names with other extensions,
/// are left out.
pub open spec fn spec_gallery_of(entries: Seq<GalleryEntryModel>) -> Seq<GeneratedImageModel>
    decreases entries.len(),
{
    if entries.len() == 0 {
        seq![]
    } else {
        spec_gallery_of(entries.drop_last()) + (if spec_keeps(entries.last()) {
            seq![
                GeneratedImageModel {
                    filename: entries.last().filename,
                    path: entries.last().path,
                    created_at: entries.last().created_at,
                },
            ]
        } else {
            seq![]
        })
    }
}

/// Newest first: creation times never increase along the sequence.
pub open spec fn sorted_newest_first(s: Seq<GeneratedImageModel>) -> bool {
    forall|i: int, j: int| 0 <= i < j < s.len() ==> s[i].created_at >= s[j].created_at
}

/// Does this entry belong in the gallery?
fn keeps_entry(e: &GalleryEntry) -> (r: bool)
    ensures
        r == spec_keeps(e@),
{
    if !e.is_file {
        return false;
    }
    match extension(e.filename.as_str()) {
        None => false,
        Some(ext) => eq_ignore_ascii_case(ext.as_str(), "png") || eq_ignore_ascii_case(
            ext.as_str(),
            "jpg",
        ) || eq_ignore_ascii_case(ext.as_str(), "jpeg") || eq_ignore_ascii_case(
            ext.as_str(),
            "webp",
        ),
    }
}

/// Sort gallery images newest first. The result is a permutation of the
/// input; among equal creation times the earlier input comes first.
fn sort_newest_first(images: Vec<GeneratedImage>) -> (r: Vec<GeneratedImage>)
    ensures
        r@.to_multiset() == images@.to_multiset(),
        sorted_newest_first(image_models(r@)),
{
    let ghost orig = images@;
    let mut rest = images;
    let mut out: Vec<GeneratedImage> = Vec::new();
    proof {
        assert(out@.to_multiset().add(rest@.to_multiset()) =~= orig.to_multiset());
    }
    while rest.len() > 0
        invariant
            out@.to_multiset().add(rest@.to_multiset()) == orig.to_multiset(),
            sorted_newest_first(image_models(out@)),
            forall|a: int, b: int|
                0 <= a < out@.len() && 0 <= b < rest@.len() ==> out@[a].created_at
                    >= rest@[b].created_at,
        decreases rest@.len(),
    {
        let n = rest.len();
        let mut best: usize = 0;
        let mut k: usize = 1;
        while k < n
            invariant
                n == rest@.len(),
                n > 0,
                best < k,
                k <= n,
                forall|t: int| 0 <= t < k ==> rest@[best as int].created_at
                    >= rest@[t].created_at,
            decreases n - k,
        {
            if rest[k].created_at > rest[best].created_at {
                best = k;
            }
            k += 1;
        }
        let ghost old_out = out@;
        let ghost old_rest = rest@;
        let x = rest.remove(best);
        out.push(x);
        proof {
            assert(rest@.to_multiset() =~= old_rest.to_multiset().remove(old_rest[best as int]));
            assert(out@.to_multiset() =~= old_out.to_multiset().insert(old_rest[best as int]));
            assert(out@.to_multiset().add(rest@.to_multiset()) =~= orig.to_multiset());
            assert forall|a: int, b: int|
                0 <= a < out@.len() && 0 <= b < rest@.len() implies out@[a].created_at
                >= rest@[b].created_at by {
                if a < old_out.len() {
                    if b < best {
                        assert(rest@[b] == old_rest[b]);
                    } else {
                        assert(rest@[b] == old_rest[b + 1]);
                    }
                } else {
                    assert(out@[a] == old_rest[best as int]);
                    if b < best {
                        assert(rest@[b] == old_rest[b]);
                    } else {
                        assert(rest@[b] == old_rest[b + 1]);
                    }
                }
            }
            assert forall|i: int, j: int|
                0 <= i < j < out@.len() implies image_models(out@)[i].created_at >= image_models(
                out@,
            )[j].created_at by {
                assert(image_models(out@)[i] == out@[i]@);
                assert(image_models(out@)[j] == out@[j]@);
                if j < old_out.len() {
                    assert(out@[i] == old_out[i]);
                    assert(out@[j] == old_out[j]);
                    assert(image_models(old_out)[i] == old_out[i]@);
                    assert(image_models(old_out)[j] == old_out[j]@);
                } else {
                    assert(out@[j] == old_rest[best as int]);
                    assert(out@[i] == old_out[i]);
                }
            }
            assert(sorted_newest_first(image_models(out@)));
        }
    }
    proof {
        assert(rest@.to_multiset() =~= Multiset::<GeneratedImage>::empty());
        assert(out@.to_multiset() =~= orig.to_multiset());
    }
    out
}

/// List the gallery: keep the entries that are image files, and return
/// their records sorted by creation time, newest first. The result is a
/// permutation of exactly the kept entries.
pub fn list_gallery_images(entries: &Vec<GalleryEntry>) -> (r: Vec<GeneratedImage>)
    ensures
        image_models(r@).to_multiset() == spec_gallery_of(gallery_entry_models(entries@))
            .to_multiset(),
        sorted_newest_first(image_models(r@)),
{
    let ghost em = gallery_entry_models(entries@);
    let mut kept: Vec<GeneratedImage> = Vec::new();
    let n = entries.len();
    let mut i: usize = 0;
    proof {
        assert(em.subrange(0, 0) =~= Seq::<GalleryEntryModel>::empty());
        assert(image_models(kept@) =~= spec_gallery_of(em.subrange(0, 0)));
    }
    while i < n
        invariant
            n == entries@.len(),
            em == gallery_entry_models(entries@),
            i <= n,
            image_models(kept@) == spec_gallery_of(em.subrange(0, i as int)),
        decreases n - i,
    {
        let ghost old_kept = kept@;
        let e = &entries[i];
        proof {
            assert(em[i as int] == entries@[i as int]@);
        }
        if keeps_entry(e) {
            kept.push(
                GeneratedImage {
                    filename: e.filename.clone(),
                    path: e.path.clone(),
                    created_at: e.created_at,
                },
            );
        }
        proof {
            assert(em.subrange(0, i + 1).drop_last() =~= em.subrange(0, i as int));
            assert(em.subrange(0, i + 1).last() == em[i as int]);
            assert(image_models(kept@) =~= spec_gallery_of(em.subrange(0, i + 1)));
        }
        i += 1;
    }
    proof {
        assert(em.subrange(0, n as int) =~= em);
    }
    let ghost kept_seq = kept@;
    let r = sort_newest_first(kept);
    proof {
        lemma_models_multiset(r@, kept_seq);
    }
    r
}

/// Sequences with the same multiset have model sequences with the same
/// multiset.
proof fn lemma_models_multiset(a: Seq<GeneratedImage>, b: Seq<GeneratedImage>)
    requires
        a.to_multiset() == b.to_multiset(),
    ensures
        image_models(a).to_multiset() == image_models(b).to_multiset(),
    decreases a.len(),
{
    if a.len() == 0 {
        assert(a.to_multiset().len() == 0);
        assert(b.to_multiset().len() == 0);
        assert(b.len() == 0);
        assert(image_models(a) =~= Seq::<GeneratedImageModel>::empty());
        assert(image_models(b) =~= Seq::<GeneratedImageModel>::empty());
    } else {
        let x = a.last();
        assert(a.to_multiset().contains(x)) by {
            assert(a.contains(x));
        }
        assert(b.to_multiset().contains(x));
        assert(b.contains(x));
        let j = choose|j: int| 0 <= j < b.len() && b[j] == x;
        let a1 = a.drop_last();
        let b1 = b.remove(j);
        assert(a.to_multiset() =~= a1.to_multiset().insert(x)) by {
            assert(a1.push(x) =~= a);
        }
        assert(b1.to_multiset() =~= b.to_multiset().remove(x));
        assert(a1.to_multiset() =~= b1.to_multiset()) by {
            assert(a1.to_multiset() =~= a.to_multiset().remove(x));
        }
        lemma_models_multiset(a1, b1);
        assert(image_models(a) =~= image_models(a1).push(x@));
        assert(image_models(b) =~= image_models(b1).insert(j, x@));
        assert(image_models(b1).insert(j, x@).to_multiset() =~= image_models(
            b1,
        ).to_multiset().insert(x@)) by {
            lemma_insert_multiset(image_models(b1), j, x@);
        }
        assert(image_models(a1).push(x@).to_multiset() =~= image_models(
            a1,
        ).to_multiset().insert(x@));
    }
}

/// Inserting anywhere adds one occurrence to the multiset.
proof fn lemma_insert_multiset(s: Seq<GeneratedImageModel>, j: int, x: GeneratedImageModel)
    requires
        0 <= j <= s.len(),
    ensures
        s.insert(j, x).to_multiset() == s.to_multiset().insert(x),
    decreases s.len() - j,
{
    if j == s.len() {
        assert(s.insert(j, x) =~= s.push(x));
    } else {
        let t = s.insert(j, x);
        assert(t.len() == s.len() + 1);
        assert(t.last() == s.last());
        assert(t.drop_last() =~= s.drop_last().insert(j, x));
        lemma_insert_multiset(s.drop_last(), j, x);
        assert(t.drop_last().push(t.last()) =~= t);
        assert(s.drop_last().push(s.last()) =~= s);
        assert(t.to_multiset() =~= t.drop_last().to_multiset().insert(t.last()));
        assert(s.to_multiset() =~= s.drop_last().to_multiset().insert(s.last()));
        assert(t.to_multiset() =~= s.to_multiset().insert(x));
    }
}

} // verus!
