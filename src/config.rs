use vstd::prelude::*;

verus! {

/// Largest hue value of an 8-bit HSV image (hue is stored halved).
pub const HUE_MAX: u8 = 180;

/// Inclusive lower and upper bound for each of the hue, saturation and value
/// channels. Bounds need not be ordered: a lower bound above its upper bound
/// simply lets no pixel through.
#[derive(Clone, Copy, Debug, PartialEq, Eq, Structural)]
pub struct DetectionConfig {
    pub lower_h: u8,
    pub lower_s: u8,
    pub lower_v: u8,
    pub upper_h: u8,
    pub upper_s: u8,
    pub upper_v: u8,
}

impl DetectionConfig {
    /// Every hue bound lies in the hue range; saturation and value bounds
    /// span the whole byte range, so they always lie in theirs.
    pub open spec fn is_valid(&self) -> bool {
        self.lower_h <= HUE_MAX && self.upper_h <= HUE_MAX
    }

    /// The starting band, which brackets green: hue 40 to 70, saturation and
    /// value 100 to 255.
    pub fn new() -> (r: DetectionConfig)
        ensures
            r.is_valid(),
            r == (DetectionConfig {
                lower_h: 40,
                lower_s: 100,
                lower_v: 100,
                upper_h: 70,
                upper_s: 255,
                upper_v: 255,
            }),
    {
        DetectionConfig {
            lower_h: 40,
            lower_s: 100,
            lower_v: 100,
            upper_h: 70,
            upper_s: 255,
            upper_v: 255,
        }
    }

    /// Whether a pixel lies inside the band on every channel, bounds
    /// included.
    pub open spec fn spec_in_band(&self, h: u8, s: u8, v: u8) -> bool {
        &&& self.lower_h <= h <= self.upper_h
        &&& self.lower_s <= s <= self.upper_s
        &&& self.lower_v <= v <= self.upper_v
    }

    /// Whether a pixel lies inside the band on every channel, bounds
    /// included.
    pub fn in_band(&self, h: u8, s: u8, v: u8) -> (r: bool)
        ensures
            r == self.spec_in_band(h, s, v),
    {
        self.lower_h <= h && h <= self.upper_h && self.lower_s <= s && s <= self.upper_s
            && self.lower_v <= v && v <= self.upper_v
    }

    /// Whether some channel has its lower bound above its upper bound.
    pub open spec fn is_inverted(&self) -> bool {
        self.lower_h > self.upper_h || self.lower_s > self.upper_s || self.lower_v > self.upper_v
    }
}

} // verus!
