//! Dimensions from raw width and height readings, and the short labels that
//! name a rendition by its width ("640w") or its size ("1280x720").
use vstd::prelude::*;

use crate::models::MediaDimensions;
use crate::text::{concat, concat3, decimal, decimal_string};

verus! {

/// Dimensions when both sides are known (non-zero), nothing otherwise.
pub open spec fn dims_of(w: usize, h: usize) -> Option<MediaDimensions> {
    if w > 0 && h > 0 {
        Some(MediaDimensions { width: w, height: h })
    } else {
        None
    }
}

/// Computes `dims_of`.
pub fn dimensions_if_known(w: usize, h: usize) -> (r: Option<MediaDimensions>)
    ensures
        r == dims_of(w, h),
{
    if w > 0 && h > 0 {
        Some(MediaDimensions { width: w, height: h })
    } else {
        None
    }
}

/// The label `{w}w`.
pub open spec fn width_label(w: usize) -> Seq<char> {
    decimal(w as nat) + "w"@
}

/// The label `{w}x{h}`.
pub open spec fn size_label(w: usize, h: usize) -> Seq<char> {
    decimal(w as nat) + "x"@ + decimal(h as nat)
}

/// Computes `width_label`.
pub fn width_label_of(w: usize) -> (r: String)
    ensures
        r@ == width_label(w),
{
    let d = decimal_string(w as u64);
    concat(d.as_str(), "w")
}

/// Computes `size_label`.
pub fn size_label_of(w: usize, h: usize) -> (r: String)
    ensures
        r@ == size_label(w, h),
{
    let dw = decimal_string(w as u64);
    let dh = decimal_string(h as u64);
    concat3(dw.as_str(), "x", dh.as_str())
}

/// The label of optional dimensions: `{w}w` or `{w}x{h}`.
pub open spec fn dims_label(d: Option<MediaDimensions>, by_size: bool) -> Option<Seq<char>> {
    match d {
        Some(d) => Some(
            if by_size {
                size_label(d.width, d.height)
            } else {
                width_label(d.width)
            },
        ),
        None => None,
    }
}

/// Computes `dims_label`.
pub fn dims_label_of(d: Option<MediaDimensions>, by_size: bool) -> (r: Option<String>)
    ensures
        r.deep_view() == dims_label(d, by_size),
{
    match d {
        Some(d) => Some(
            if by_size {
                size_label_of(d.width, d.height)
            } else {
                width_label_of(d.width)
            },
        ),
        None => None,
    }
}

} // verus!
