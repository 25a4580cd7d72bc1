//! The rotation scheduler's decisions: what one rotation cycle does,
//! and how the belief about the current wallpaper changes with it.
//!
//! The loop itself — the timer, the external trigger, the calls into
//! the display tool — runs outside the library; it feeds each probe
//! report and each apply outcome back in here and performs the action
//! that `plan_cycle` decides.

use vstd::prelude::*;
use crate::bytes::{bytes_eq, copy_bytes, views_of};
use crate::select::select_random_image;

verus! {

/// What a rotation cycle does once the current wallpaper is known:
/// apply a newly chosen image, skip because no change is
/// distinguishable, or report that the catalog holds no image at all.
#[derive(Debug)]
pub enum CycleAction {
    Apply(Vec<u8>),
    SkipUnchanged,
    NoImages,
}

/// The two events that can end a cycle's wait: the interval timer ran
/// out, or the external rotate-now trigger arrived.
#[derive(Debug)]
pub enum WaitEvent {
    TimerExpired,
    TriggerReceived,
}

/// The scheduler's transition out of the wait: every wait outcome —
/// the timer no less than the external trigger — starts a rotation
/// cycle at once.
pub fn starts_rotation(event: &WaitEvent) -> (r: bool)
    ensures
        r,
{
    match event {
        WaitEvent::TimerExpired => true,
        WaitEvent::TriggerReceived => true,
    }
}

/// Decide one rotation cycle, given the catalog and the probed current
/// image.
///
/// The cycle applies some catalog entry that differs from the probed
/// image; it skips exactly when an image is on show and every catalog
/// entry equals it, so that no change would be visible; and it reports
/// an empty catalog as such.
pub fn plan_cycle(images: &Vec<Vec<u8>>, current: Option<&Vec<u8>>) -> (r: CycleAction)
    ensures
        (r is NoImages) == (images@.len() == 0),
        (r is SkipUnchanged) ==> (current matches Some(c) && images@.len() > 0 && (forall|i: int|
            0 <= i < images@.len() ==> images@[i]@ == c@)),
        (current matches Some(c) && images@.len() > 0 && (forall|i: int|
            0 <= i < images@.len() ==> images@[i]@ == c@)) ==> r is SkipUnchanged,
        r matches CycleAction::Apply(x) ==> (exists|i: int|
            0 <= i < images@.len() && images@[i]@ == x@) && (current matches Some(c) ==> x@
            != c@),
{
    match select_random_image(images, current) {
        None => CycleAction::NoImages,
        Some(img) => {
            let same = match current {
                Some(c) => bytes_eq(&img, c),
                None => false,
            };
            proof {
                let vs = views_of(images@);
                let j = choose|j: int| 0 <= j < vs.len() && vs[j] == img@;
                assert(images@[j]@ == img@);
            }
            if same {
                CycleAction::SkipUnchanged
            } else {
                CycleAction::Apply(img)
            }
        },
    }
}

/// The scheduler's belief about the image currently on show.  It is
/// advisory: it only biases the next selection away from an immediate
/// repeat.
#[derive(Debug)]
pub struct RotationState {
    pub current: Option<Vec<u8>>,
}

impl RotationState {
    /// A scheduler that has observed nothing yet.
    pub fn new() -> (s: Self)
        ensures
            s.current is None,
    {
        RotationState { current: None }
    }

    /// Take over what the prober reported; a failed or silent probe
    /// reports nothing and leaves the belief unknown.
    pub fn record_probe(&mut self, probed: Option<Vec<u8>>)
        ensures
            final(self).current == probed,
    {
        self.current = probed;
    }

    /// Record an apply's outcome.  A successful apply makes the applied
    /// image the believed current one; a failed apply leaves the belief
    /// exactly as it was.
    pub fn record_apply(&mut self, image: &Vec<u8>, applied: bool)
        ensures
            applied ==> (final(self).current matches Some(c) && c@ == image@),
            !applied ==> *final(self) == *old(self),
    {
        if applied {
            self.current = Some(copy_bytes(image));
        }
    }
}

} // verus!
