//! The China bounding box that gates the GCJ02 obfuscation.
//!
//! The box is the open rectangle 72.004 < lon < 135.05, 3.86 < lat < 53.55,
//! a coarse rectangle around mainland China that the GCJ02 ecosystem uses.
//! Coordinates are the encodings of doubles, and each edge is the double
//! nearest to its decimal.
use crate::binary64::{is_less, is_nan, precedes, value};
use vstd::prelude::*;

verus! {

/// The western edge, the double nearest to 72.004.
pub const LON_MIN: u64 = 0x4052_0041_8937_4bc7;

/// The eastern edge, the double nearest to 135.05.
pub const LON_MAX: u64 = 0x4060_e199_9999_999a;

/// The southern edge, the double nearest to 3.86.
pub const LAT_MIN: u64 = 0x400e_e147_ae14_7ae1;

/// The northern edge, the double nearest to 53.55.
pub const LAT_MAX: u64 = 0x404a_c666_6666_6666;

/// The point lies strictly inside the box. A NaN coordinate lies nowhere.
pub open spec fn in_china_box(lon: u64, lat: u64) -> bool {
    &&& precedes(LON_MIN, lon)
    &&& precedes(lon, LON_MAX)
    &&& precedes(LAT_MIN, lat)
    &&& precedes(lat, LAT_MAX)
}

/// The point is outside mainland China, so no obfuscation applies to it:
/// true unless it lies strictly inside the box.
pub fn is_out_of_china(lon: u64, lat: u64) -> (r: bool)
    ensures
        r == !in_china_box(lon, lat),
{
    !(is_less(LON_MIN, lon) && is_less(lon, LON_MAX) && is_less(LAT_MIN, lat) && is_less(
        lat,
        LAT_MAX,
    ))
}

/// The result of a geodetic-to-GCJ02 step: `moved`, the obfuscated point,
/// when `(lon, lat)` lies inside the box, else the input itself, bit for bit.
pub fn keep_outside_china(lon: u64, lat: u64, moved: (u64, u64)) -> (r: (u64, u64))
    ensures
        r == (if in_china_box(lon, lat) {
            moved
        } else {
            (lon, lat)
        }),
        !in_china_box(lon, lat) ==> r.0 == lon && r.1 == lat,
{
    if is_out_of_china(lon, lat) {
        (lon, lat)
    } else {
        moved
    }
}

/// A point on an edge of the box is outside it: the box is open, and the
/// guard classifies its boundary as out of China.
pub proof fn lemma_boundary_is_outside(lon: u64, lat: u64)
    requires
        value(lon) == value(LON_MIN) || value(lon) == value(LON_MAX) || value(lat) == value(
            LAT_MIN,
        ) || value(lat) == value(LAT_MAX),
    ensures
        !in_china_box(lon, lat),
{
}

/// The box is convex: a point whose coordinates lie between those of two
/// points inside the box, axis by axis, is inside it too.
pub proof fn lemma_box_convex(lo_lon: u64, lo_lat: u64, hi_lon: u64, hi_lat: u64, lon: u64, lat: u64)
    requires
        in_china_box(lo_lon, lo_lat),
        in_china_box(hi_lon, hi_lat),
        !is_nan(lon),
        !is_nan(lat),
        value(lo_lon) <= value(lon) <= value(hi_lon),
        value(lo_lat) <= value(lat) <= value(hi_lat),
    ensures
        in_china_box(lon, lat),
{
}

} // verus!
