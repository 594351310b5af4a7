//! Size, area and aspect-ratio thresholds for extracted assets.
use vstd::prelude::*;

use crate::models::{area, area_of, MediaItem, MediaItemView, MediaType};

verus! {

/// Thresholds for dimension, area and aspect ratio checks. Aspect ratios
/// (width divided by height) are given in thousandths, so that 150 stands
/// for a ratio of 0.15.
#[derive(Debug, Clone)]
pub struct DimensionFilterConfig {
    /// Smallest width allowed.
    pub min_width: usize,
    /// Smallest height allowed.
    pub min_height: usize,
    /// Smallest area (width times height).
    pub min_area: usize,
    /// Smallest width-to-height ratio, in thousandths (rejects thin vertical stripes).
    pub min_aspect_ratio_milli: u64,
    /// Largest width-to-height ratio, in thousandths (rejects banner ribbons).
    pub max_aspect_ratio_milli: u64,
    /// Whether assets of unknown dimensions are kept.
    pub keep_unprobed: bool,
}

impl Default for DimensionFilterConfig {
    fn default() -> (c: Self)
        ensures
            c == default_dimension_config(),
    {
        Self {
            min_width: 200,
            min_height: 200,
            min_area: 60_000,
            min_aspect_ratio_milli: 150,
            max_aspect_ratio_milli: 6500,
            keep_unprobed: true,
        }
    }
}

/// The default thresholds: 200 x 200 pixels, an area of 60,000, a ratio
/// between 0.15 and 6.5, unprobed assets kept.
pub open spec fn default_dimension_config() -> DimensionFilterConfig {
    DimensionFilterConfig {
        min_width: 200,
        min_height: 200,
        min_area: 60_000,
        min_aspect_ratio_milli: 150,
        max_aspect_ratio_milli: 6500,
        keep_unprobed: true,
    }
}

/// Whether an item passes the size checks. A video passes unless its known
/// dimensions are under 120 pixels on a side. An image of known dimensions
/// passes when neither side is zero and width, height, area and ratio meet
/// the thresholds; one of unknown dimensions passes when the configuration
/// keeps unprobed assets.
pub open spec fn valid_size(item: MediaItemView, c: DimensionFilterConfig) -> bool {
    if item.media_type == MediaType::Video {
        match item.dimensions {
            Some(d) => d.width >= 120 && d.height >= 120,
            None => true,
        }
    } else {
        match item.dimensions {
            Some(d) => {
                &&& d.width != 0
                &&& d.height != 0
                &&& d.width >= c.min_width
                &&& d.height >= c.min_height
                &&& area_of(item.dimensions) >= c.min_area
                &&& d.width * 1000 >= c.min_aspect_ratio_milli * d.height
                &&& d.width * 1000 <= c.max_aspect_ratio_milli * d.height
            },
            None => c.keep_unprobed,
        }
    }
}

/// Checks whether a media item passes dimension, area and aspect ratio
/// constraints.
pub fn is_valid_size(item: &MediaItem, config: &DimensionFilterConfig) -> (r: bool)
    ensures
        r == valid_size(item@, *config),
{
    if item.media_type == MediaType::Video {
        return match &item.dimensions {
            Some(d) => d.width >= 120 && d.height >= 120,
            None => true,
        };
    }
    match &item.dimensions {
        Some(d) => {
            if d.width == 0 || d.height == 0 {
                return false;
            }
            let width_ok = d.width >= config.min_width;
            let height_ok = d.height >= config.min_height;
            let area_ok = area(&item.dimensions) >= config.min_area as u128;
            let w = d.width as u128;
            let h = d.height as u128;
            let lo = config.min_aspect_ratio_milli as u128;
            let hi = config.max_aspect_ratio_milli as u128;
            assert(w * 1000 <= u64::MAX as int * 1000) by (nonlinear_arith)
                requires
                    w <= u64::MAX,
            ;
            assert(lo * h <= u64::MAX as int * u64::MAX as int) by (nonlinear_arith)
                requires
                    lo <= u64::MAX,
                    h <= u64::MAX,
            ;
            assert(hi * h <= u64::MAX as int * u64::MAX as int) by (nonlinear_arith)
                requires
                    hi <= u64::MAX,
                    h <= u64::MAX,
            ;
            let ratio_ok = w * 1000 >= lo * h && w * 1000 <= hi * h;
            width_ok && height_ok && area_ok && ratio_ok
        },
        None => config.keep_unprobed,
    }
}

} // verus!
