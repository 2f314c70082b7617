//! The motion decision: difference the smoothed frame against the
//! reference, binarize, dilate twice to merge nearby fragments, and ask
//! whether any connected region exceeds the minimum area.

use vstd::prelude::*;
use crate::frame::Frame;
use crate::frame::FrameView;
use crate::frame::absdiff;
use crate::frame::absdiff_view;
use crate::frame::absdiff_val;
use crate::frame::dilate;
use crate::frame::dilate_val;
use crate::frame::dilate_view;
use crate::frame::lemma_dilate_view_pix;
use crate::frame::lemma_flat_index_bounds;
use crate::frame::threshold;
use crate::frame::threshold_view;
use crate::region::has_blob;
use crate::region::lemma_all_off_no_blob;
use crate::region::lemma_blob_monotone;
use crate::region::mask_has_blob;

verus! {

/// The binary mask whose regions decide motion between `reference` and the
/// newly smoothed `frame`.
pub open spec fn motion_mask(reference: FrameView, frame: FrameView) -> FrameView {
    dilate_view(dilate_view(threshold_view(absdiff_view(frame, reference))))
}

/// Motion is declared between `reference` and `frame` at gate `min_area`.
pub open spec fn spec_motion(reference: FrameView, frame: FrameView, min_area: int) -> bool {
    has_blob(motion_mask(reference, frame), min_area)
}

/// One detection step.
///
/// Takes the previous reference frame and the newly captured, smoothed
/// single-channel frame; returns the motion decision together with the new
/// reference frame, which is exactly the incoming frame (the sliding
/// baseline).
pub fn step(reference: &Frame, frame: Frame, min_area: u32) -> (r: (bool, Frame))
    requires
        reference.wf(),
        frame.wf(),
        frame@.same_dims(reference@),
    ensures
        r.0 == spec_motion(reference@, frame@, min_area as int),
        r.1 == frame,
{
    let d = absdiff(&frame, reference);
    let t = threshold(&d);
    let m1 = dilate(&t);
    let m2 = dilate(&m1);
    let motion = mask_has_blob(&m2, min_area);
    (motion, frame)
}

/// A dilation of a mask with no set cell has no set cell.
proof fn lemma_dilate_all_off(m: FrameView)
    requires
        m.wf(),
        m.all_off(),
    ensures
        dilate_view(m).all_off(),
        dilate_view(m).wf(),
{
    let out = dilate_view(m);
    assert forall|r: int, c: int| !out.on(r, c) by {
        if out.in_bounds(r, c) {
            lemma_dilate_view_pix(m, r, c);
            assert(out.pix(r, c) == dilate_val(m, r, c));
        }
    }
}

/// Two frames that are pixel-identical after smoothing never yield motion:
/// their difference is zero everywhere, so no pixel survives the threshold
/// and no region exists at all.
pub proof fn lemma_identical_frames_no_motion(
    reference: FrameView,
    frame: FrameView,
    min_area: int,
)
    requires
        reference.wf(),
        frame == reference,
        min_area >= 0,
    ensures
        !spec_motion(reference, frame, min_area),
{
    let d = absdiff_view(frame, reference);
    let t = threshold_view(d);
    assert(t.wf());
    assert forall|r: int, c: int| !t.on(r, c) by {
        if t.in_bounds(r, c) {
            lemma_flat_index_bounds(t.width, t.height, r, c);
            let i = r * t.width + c;
            assert(d.data[i] == absdiff_val(frame.data[i], reference.data[i]));
            assert(t.pix(r, c) == 0);
        }
    }
    lemma_dilate_all_off(t);
    lemma_dilate_all_off(dilate_view(t));
    lemma_all_off_no_blob(motion_mask(reference, frame), min_area);
}

/// Raising the minimum area while holding both frames fixed can only turn
/// a positive decision negative, never the other way round.
pub proof fn lemma_min_area_monotone(
    reference: FrameView,
    frame: FrameView,
    a1: int,
    a2: int,
)
    requires
        a1 <= a2,
        spec_motion(reference, frame, a2),
    ensures
        spec_motion(reference, frame, a1),
{
    lemma_blob_monotone(motion_mask(reference, frame), a1, a2);
}

} // verus!
