use crate::config::DetectionConfig;
use vstd::arithmetic::div_mod::lemma_fundamental_div_mod;
use vstd::prelude::*;

verus! {

/// Mask value of a pixel inside the band.
pub const MASK_ON: u8 = 255;

/// Mask value of a pixel outside the band.
pub const MASK_OFF: u8 = 0;

/// Mask value of pixel `i` of a packed three-bytes-per-pixel HSV image.
pub open spec fn mask_value(config: DetectionConfig, hsv: Seq<u8>, i: int) -> u8 {
    if config.spec_in_band(hsv[3 * i], hsv[3 * i + 1], hsv[3 * i + 2]) {
        MASK_ON
    } else {
        MASK_OFF
    }
}

/// The binary mask of a packed HSV image: one byte per whole pixel, on
/// exactly where all three channels lie within the configured bounds.
pub open spec fn is_mask_of(mask: Seq<u8>, config: DetectionConfig, hsv: Seq<u8>) -> bool {
    &&& mask.len() == hsv.len() / 3
    &&& forall|i: int| 0 <= i < mask.len() ==> #[trigger] mask[i] == mask_value(config, hsv, i)
}

/// Threshold a packed HSV image (three bytes per pixel, row-major) against
/// the configured band. A trailing incomplete pixel is ignored.
pub fn threshold_mask(hsv: &Vec<u8>, config: &DetectionConfig) -> (r: Vec<u8>)
    ensures
        is_mask_of(r@, *config, hsv@),
{
    let n = hsv.len() / 3;
    let mut out: Vec<u8> = Vec::with_capacity(n);
    let mut i: usize = 0;
    proof {
        let len = hsv@.len() as int;
        lemma_fundamental_div_mod(len, 3);
    }
    while i < n
        invariant
            n == hsv@.len() / 3,
            3 * n <= hsv@.len(),
            hsv@.len() <= usize::MAX,
            0 <= i <= n,
            out@.len() == i,
            forall|j: int| 0 <= j < i ==> #[trigger] out@[j] == mask_value(*config, hsv@, j),
        decreases n - i,
    {
        let base = 3 * i;
        let on = config.in_band(hsv[base], hsv[base + 1], hsv[base + 2]);
        out.push(if on { MASK_ON } else { MASK_OFF });
        i = i + 1;
    }
    out
}

/// A band with some lower bound above its upper bound masks nothing in.
pub proof fn lemma_inverted_band_masks_nothing(
    mask: Seq<u8>,
    config: DetectionConfig,
    hsv: Seq<u8>,
)
    requires
        config.is_inverted(),
        is_mask_of(mask, config, hsv),
    ensures
        forall|i: int| 0 <= i < mask.len() ==> #[trigger] mask[i] == MASK_OFF,
{
}

/// An image with no pixel inside the band gives a mask that is entirely off.
pub proof fn lemma_no_pixel_in_band_masks_nothing(
    mask: Seq<u8>,
    config: DetectionConfig,
    hsv: Seq<u8>,
)
    requires
        is_mask_of(mask, config, hsv),
        forall|i: int|
            0 <= i < hsv.len() / 3 ==> !config.spec_in_band(
                #[trigger] hsv[3 * i],
                hsv[3 * i + 1],
                hsv[3 * i + 2],
            ),
    ensures
        forall|i: int| 0 <= i < mask.len() ==> #[trigger] mask[i] == MASK_OFF,
{
    assert forall|i: int| 0 <= i < mask.len() implies #[trigger] mask[i] == MASK_OFF by {
        assert(mask[i] == mask_value(config, hsv, i));
        assert(!config.spec_in_band(hsv[3 * i], hsv[3 * i + 1], hsv[3 * i + 2]));
    }
}

} // verus!
