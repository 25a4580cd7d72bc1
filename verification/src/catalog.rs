//! The image catalog: recognising image files by their extension and
//! keeping exactly those out of a list of discovered files.
//!
//! A file qualifies when the extension of its last path component,
//! case-folded, is one of: jpg, jpeg, png, gif, bmp, webp, tiff, tif.

use vstd::prelude::*;
use crate::bytes::{copy_bytes, views_of};

verus! {

/// ASCII lower-casing of one byte; other bytes are left unchanged.
pub open spec fn lower_byte(b: u8) -> u8 {
    if 65 <= b <= 90 {
        (b + 32) as u8
    } else {
        b
    }
}

/// ASCII lower-casing of a byte sequence.
pub open spec fn lower_seq(s: Seq<u8>) -> Seq<u8> {
    Seq::new(s.len(), |i: int| lower_byte(s[i]))
}

/// The index of the dot that starts the extension: the last `.` of the
/// path that comes after its last `/`, found by scanning from the end.
pub open spec fn ext_dot_index(p: Seq<u8>) -> Option<int>
    decreases p.len(),
{
    if p.len() == 0 {
        None
    } else if p.last() == 47u8 {
        None
    } else if p.last() == 46u8 {
        Some(p.len() - 1)
    } else {
        ext_dot_index(p.drop_last())
    }
}

/// The extension of a path: what follows the dot found by
/// `ext_dot_index`, unless that dot begins the file name (a leading-dot
/// name such as a hidden file has no extension).
pub open spec fn extension_of(p: Seq<u8>) -> Option<Seq<u8>> {
    match ext_dot_index(p) {
        None => None,
        Some(j) => if j == 0 || p[j - 1] == 47u8 {
            None
        } else {
            Some(p.subrange(j + 1, p.len() as int))
        },
    }
}

/// The recognised image extensions, already lower-case.
pub open spec fn image_extensions() -> Seq<Seq<u8>> {
    seq![
        seq![106u8, 112u8, 103u8],        // jpg
        seq![106u8, 112u8, 101u8, 103u8], // jpeg
        seq![112u8, 110u8, 103u8],        // png
        seq![103u8, 105u8, 102u8],        // gif
        seq![98u8, 109u8, 112u8],         // bmp
        seq![119u8, 101u8, 98u8, 112u8],  // webp
        seq![116u8, 105u8, 102u8, 102u8], // tiff
        seq![116u8, 105u8, 102u8],        // tif
    ]
}

/// Whether an extension, case-folded, is a recognised image extension.
pub open spec fn is_image_ext(e: Seq<u8>) -> bool {
    image_extensions().contains(lower_seq(e))
}

/// Whether a path names an image file, judged by its extension alone.
pub open spec fn is_image_path(p: Seq<u8>) -> bool {
    match extension_of(p) {
        Some(e) => is_image_ext(e),
        None => false,
    }
}

/// The image files among a sequence of files, in their original order.
pub open spec fn image_files_of(s: Seq<Seq<u8>>) -> Seq<Seq<u8>>
    decreases s.len(),
{
    if s.len() == 0 {
        Seq::empty()
    } else {
        let rest = image_files_of(s.drop_last());
        if is_image_path(s.last()) {
            rest.push(s.last())
        } else {
            rest
        }
    }
}

/// ASCII lower-casing of one byte.
fn lower_byte_exec(b: u8) -> (r: u8)
    ensures
        r == lower_byte(b),
{
    if 65 <= b && b <= 90 {
        b + 32
    } else {
        b
    }
}

/// The index of the dot that starts the extension, as `ext_dot_index`
/// gives it.
fn ext_dot_exec(path: &Vec<u8>) -> (r: Option<usize>)
    ensures
        match r {
            Some(j) => j < path@.len() && ext_dot_index(path@) == Some(j as int),
            None => ext_dot_index(path@) is None,
        },
{
    let n = path.len();
    let mut i: usize = n;
    proof {
        assert(path@.subrange(0, n as int) =~= path@);
    }
    while i > 0
        invariant
            i <= n,
            n == path@.len(),
            ext_dot_index(path@) == ext_dot_index(path@.subrange(0, i as int)),
        decreases i,
    {
        let b = path[i - 1];
        proof {
            assert(path@.subrange(0, i as int).last() == path@[i - 1]);
            assert(path@.subrange(0, i as int).drop_last() =~= path@.subrange(0, i as int - 1));
        }
        if b == 47u8 {
            return None;
        }
        if b == 46u8 {
            return Some(i - 1);
        }
        i = i - 1;
    }
    proof {
        assert(path@.subrange(0, 0) =~= Seq::<u8>::empty());
    }
    None
}

/// The extension of a path, as `extension_of` gives it.
pub fn extension_bytes(path: &Vec<u8>) -> (r: Option<Vec<u8>>)
    ensures
        match r {
            Some(e) => extension_of(path@) == Some(e@),
            None => extension_of(path@) is None,
        },
{
    let n = path.len();
    match ext_dot_exec(path) {
        None => None,
        Some(j) => {
            if j == 0 || path[j - 1] == 47u8 {
                None
            } else {
                let mut e: Vec<u8> = Vec::new();
                let mut k: usize = j + 1;
                while k < n
                    invariant
                        j + 1 <= k <= n,
                        n == path@.len(),
                        e@ == path@.subrange(j + 1, k as int),
                    decreases n - k,
                {
                    e.push(path[k]);
                    k = k + 1;
                    proof {
                        assert(e@ =~= path@.subrange(j + 1, k as int));
                    }
                }
                Some(e)
            }
        },
    }
}

/// Whether a path names an image file, judged by its extension alone.
pub fn is_image_file(path: &Vec<u8>) -> (r: bool)
    ensures
        r == is_image_path(path@),
{
    let ext = match extension_bytes(path) {
        Some(e) => e,
        None => {
            return false;
        },
    };
    let n = ext.len();
    let mut low: Vec<u8> = Vec::new();
    let mut i: usize = 0;
    while i < n
        invariant
            i <= n,
            n == ext@.len(),
            low@ == lower_seq(ext@).subrange(0, i as int),
        decreases n - i,
    {
        low.push(lower_byte_exec(ext[i]));
        i = i + 1;
        proof {
            assert(low@ =~= lower_seq(ext@).subrange(0, i as int));
        }
    }
    proof {
        assert(low@ =~= lower_seq(ext@));
    }
    let r = if n == 3 {
        (low[0] == 106 && low[1] == 112 && low[2] == 103)  // jpg
        || (low[0] == 112 && low[1] == 110 && low[2] == 103)  // png
        || (low[0] == 103 && low[1] == 105 && low[2] == 102)  // gif
        || (low[0] == 98 && low[1] == 109 && low[2] == 112)  // bmp
        || (low[0] == 116 && low[1] == 105 && low[2] == 102)  // tif
    } else if n == 4 {
        (low[0] == 106 && low[1] == 112 && low[2] == 101 && low[3] == 103)  // jpeg
        || (low[0] == 119 && low[1] == 101 && low[2] == 98 && low[3] == 112)  // webp
        || (low[0] == 116 && low[1] == 105 && low[2] == 102 && low[3] == 102)  // tiff
    } else {
        false
    };
    proof {
        let l = lower_seq(ext@);
        if r {
            assert(image_extensions().contains(l)) by {
                if l.len() == 3 {
                    if l[0] == 106 && l[1] == 112 && l[2] == 103 {
                        assert(l =~= image_extensions()[0]);
                    } else if l[0] == 112 && l[1] == 110 && l[2] == 103 {
                        assert(l =~= image_extensions()[2]);
                    } else if l[0] == 103 && l[1] == 105 && l[2] == 102 {
                        assert(l =~= image_extensions()[3]);
                    } else if l[0] == 98 && l[1] == 109 && l[2] == 112 {
                        assert(l =~= image_extensions()[4]);
                    } else {
                        assert(l =~= image_extensions()[7]);
                    }
                } else {
                    if l[0] == 106 && l[1] == 112 && l[2] == 101 && l[3] == 103 {
                        assert(l =~= image_extensions()[1]);
                    } else if l[0] == 119 && l[1] == 101 && l[2] == 98 && l[3] == 112 {
                        assert(l =~= image_extensions()[5]);
                    } else {
                        assert(l =~= image_extensions()[6]);
                    }
                }
            }
        } else {
            assert(!image_extensions().contains(l)) by {
                assert forall|k: int| 0 <= k < image_extensions().len() implies image_extensions()[k] != l by {
                    if image_extensions()[k].len() == l.len() {
                        assert(image_extensions()[k] == l ==> forall|m: int|
                            0 <= m < l.len() ==> image_extensions()[k][m] == l[m]);
                    }
                }
            }
        }
    }
    r
}

/// Keep exactly the image files out of a list of discovered files,
/// in their discovery order.
pub fn discover_images(files: &Vec<Vec<u8>>) -> (r: Vec<Vec<u8>>)
    ensures
        views_of(r@) == image_files_of(views_of(files@)),
{
    let mut r: Vec<Vec<u8>> = Vec::new();
    let mut i: usize = 0;
    while i < files.len()
        invariant
            i <= files@.len(),
            views_of(r@) == image_files_of(views_of(files@).subrange(0, i as int)),
        decreases files@.len() - i,
    {
        proof {
            assert(views_of(files@).subrange(0, i as int + 1).drop_last()
                =~= views_of(files@).subrange(0, i as int));
            assert(views_of(files@).subrange(0, i as int + 1).last() == files@[i as int]@);
        }
        if is_image_file(&files[i]) {
            let ghost pre = views_of(r@);
            r.push(copy_bytes(&files[i]));
            proof {
                assert(views_of(r@) =~= pre.push(files@[i as int]@));
            }
        }
        i = i + 1;
    }
    proof {
        assert(views_of(files@).subrange(0, files@.len() as int) =~= views_of(files@));
    }
    r
}

/// Every member of the discovered catalog is a member of the input that
/// names an image file, and every such input member is in the catalog:
/// files with unrecognised extensions never contribute, however many
/// there are, and files with recognised ones are never dropped.
pub proof fn lemma_image_files_membership(s: Seq<Seq<u8>>)
    ensures
        forall|p: Seq<u8>| #[trigger] image_files_of(s).contains(p) <==> (s.contains(p)
            && is_image_path(p)),
    decreases s.len(),
{
    if s.len() > 0 {
        lemma_image_files_membership(s.drop_last());
        let rest = image_files_of(s.drop_last());
        assert forall|p: Seq<u8>| #[trigger] image_files_of(s).contains(p) implies (s.contains(p)
            && is_image_path(p)) by {
            let k = choose|k: int|
                0 <= k < image_files_of(s).len() && image_files_of(s)[k] == p;
            if k < rest.len() {
                assert(rest.contains(p));
                let i = choose|i: int| 0 <= i < s.drop_last().len() && s.drop_last()[i] == p;
                assert(s[i] == p);
                assert(s.contains(p));
            } else {
                assert(p == s.last());
                assert(s[s.len() - 1] == p);
                assert(s.contains(p));
            }
        }
        assert forall|p: Seq<u8>| s.contains(p) && is_image_path(p) implies #[trigger]
            image_files_of(s).contains(p) by {
            let i = choose|i: int| 0 <= i < s.len() && s[i] == p;
            if i < s.len() - 1 {
                assert(s.drop_last()[i] == p);
                assert(s.drop_last().contains(p));
                assert(rest.contains(p));
                let j = choose|j: int| 0 <= j < rest.len() && rest[j] == p;
                assert(image_files_of(s)[j] == p);
            } else {
                if is_image_path(s.last()) {
                    assert(image_files_of(s).last() == p);
                }
            }
        }
    }
}

/// Discovery is per-root: the catalog of two lists of files laid end to
/// end is the catalog of the first followed by the catalog of the
/// second, so an empty or missing root never hinders another root's
/// contribution.
pub proof fn lemma_image_files_append(a: Seq<Seq<u8>>, b: Seq<Seq<u8>>)
    ensures
        image_files_of(a + b) == image_files_of(a) + image_files_of(b),
    decreases b.len(),
{
    if b.len() == 0 {
        assert(a + b =~= a);
        assert(image_files_of(a) + image_files_of(b) =~= image_files_of(a));
    } else {
        lemma_image_files_append(a, b.drop_last());
        assert((a + b).drop_last() =~= a + b.drop_last());
        assert((a + b).last() == b.last());
        assert(image_files_of(a + b) =~= image_files_of(a) + image_files_of(b));
    }
}

/// A file with an unrecognised extension leaves the catalog untouched,
/// however many such files the walk hands over.
pub proof fn lemma_non_image_ignored(s: Seq<Seq<u8>>, p: Seq<u8>)
    requires
        !is_image_path(p),
    ensures
        image_files_of(s.push(p)) == image_files_of(s),
{
    assert(s.push(p).drop_last() =~= s);
    assert(s.push(p).last() == p);
}

/// A file with a recognised extension always joins the catalog, at its
/// end: together with `lemma_non_image_ignored`, the catalog holds one
/// entry for each recognised file and none for any other.
pub proof fn lemma_image_appended(s: Seq<Seq<u8>>, p: Seq<u8>)
    requires
        is_image_path(p),
    ensures
        image_files_of(s.push(p)) == image_files_of(s).push(p),
{
    assert(s.push(p).drop_last() =~= s);
    assert(s.push(p).last() == p);
}

} // verus!
