//! The avoid-repeat selection policy: pick a random catalog entry,
//! keeping away from the one currently on show whenever another entry
//! exists.

use vstd::prelude::*;
use crate::bytes::{bytes_eq, copy_bytes, views_of};

verus! {

/// Relies on rand::random_range over `0..n`: the result lies in the
/// given range.  Which index comes back is chance; nothing more is
/// assumed of it.
#[verifier::external_body]
fn random_index(n: usize) -> (r: usize)
    requires
        n > 0,
    ensures
        r < n,
{
    rand::random_range(0..n)
}

/// Pick a random image from the catalog, avoiding the current one.
///
/// The pick is a catalog entry, and there is one exactly when the
/// catalog is not empty.  A catalog of one entry always yields that
/// entry.  Whenever the current image is known and some entry differs
/// from it, the pick differs from it too; only a catalog whose every
/// entry equals the current image yields the current image back.
pub fn select_random_image(images: &Vec<Vec<u8>>, current: Option<&Vec<u8>>) -> (r: Option<
    Vec<u8>,
>)
    ensures
        (r is Some) == (images@.len() > 0),
        r matches Some(x) ==> views_of(images@).contains(x@),
        images@.len() == 1 ==> (r matches Some(x) && x@ == images@[0]@),
        (current matches Some(c) && (exists|i: int|
            0 <= i < images@.len() && images@[i]@ != c@)) ==> (r matches Some(x) && (
        current matches Some(c) ==> x@ != c@)),
{
    let n = images.len();
    if n == 0 {
        return None;
    }
    let cur = match current {
        Some(c) => c,
        None => {
            let k = random_index(n);
            proof {
                assert(views_of(images@)[k as int] == images@[k as int]@);
            }
            return Some(copy_bytes(&images[k]));
        },
    };
    if n == 1 {
        proof {
            assert(views_of(images@)[0] == images@[0]@);
        }
        return Some(copy_bytes(&images[0]));
    }
    let mut candidates: Vec<Vec<u8>> = Vec::new();
    let mut i: usize = 0;
    while i < n
        invariant
            n == images@.len(),
            i <= n,
            forall|j: int| 0 <= j < candidates@.len() ==> #[trigger] candidates@[j]@ != cur@,
            forall|j: int|
                0 <= j < candidates@.len() ==> views_of(images@).contains(
                    #[trigger] candidates@[j]@,
                ),
            (exists|j: int| 0 <= j < i && images@[j]@ != cur@) ==> candidates@.len() > 0,
        decreases n - i,
    {
        if !bytes_eq(&images[i], cur) {
            proof {
                assert(views_of(images@)[i as int] == images@[i as int]@);
            }
            candidates.push(copy_bytes(&images[i]));
        }
        i = i + 1;
    }
    if candidates.len() == 0 {
        proof {
            assert(forall|j: int| 0 <= j < images@.len() ==> images@[j]@ == cur@);
            assert(views_of(images@)[0] == images@[0]@);
        }
        return Some(copy_bytes(cur));
    }
    let k = random_index(candidates.len());
    Some(copy_bytes(&candidates[k]))
}

} // verus!
