use vstd::prelude::*;

use crate::display_info::valid_rotation;

verus! {

/// Scale factor of an ordinary output: 1.0, in thousandths.
pub const DEFAULT_SCALE_MILLI: u32 = 1000;

/// The reference DPI baseline shared by all platforms in this model.
pub const BASELINE_DPI: u32 = 96;

/// Any rotation outside the four-way scheme collapses to 0 degrees
/// (documented lossy fallback for unrecognized native rotation codes).
pub open spec fn spec_normalize_degrees(deg: i32) -> u32 {
    if deg == 90 {
        90
    } else if deg == 180 {
        180
    } else if deg == 270 {
        270
    } else {
        0
    }
}

pub fn normalize_degrees(deg: i32) -> (r: u32)
    ensures
        r == spec_normalize_degrees(deg),
        valid_rotation(r),
{
    if deg == 90 {
        90
    } else if deg == 180 {
        180
    } else if deg == 270 {
        270
    } else {
        0
    }
}

/// RandR encodes the current rotation as a single set bit:
/// 1, 2, 4, 8 for 0, 90, 180, 270 degrees.
pub open spec fn spec_rotation_from_randr(bits: u16) -> u32 {
    if bits == 2 {
        90
    } else if bits == 4 {
        180
    } else if bits == 8 {
        270
    } else {
        0
    }
}

pub fn rotation_from_randr(bits: u16) -> (r: u32)
    ensures
        r == spec_rotation_from_randr(bits),
        valid_rotation(r),
{
    if bits == 2 {
        90
    } else if bits == 4 {
        180
    } else if bits == 8 {
        270
    } else {
        0
    }
}

/// The GDI display orientation codes 0..=3 stand for 0, 90, 180, 270 degrees.
pub open spec fn spec_rotation_from_orientation(code: u32) -> u32 {
    if code == 1 {
        90
    } else if code == 2 {
        180
    } else if code == 3 {
        270
    } else {
        0
    }
}

pub fn rotation_from_orientation(code: u32) -> (r: u32)
    ensures
        r == spec_rotation_from_orientation(code),
        valid_rotation(r),
{
    if code == 1 {
        90
    } else if code == 2 {
        180
    } else if code == 3 {
        270
    } else {
        0
    }
}

/// The Wayland output transform codes: 0..=3 are rotations of 0, 90, 180,
/// 270 degrees, 4..=7 the same rotations of the flipped output. Flipping is
/// not part of this model, so only the rotation is kept.
pub open spec fn spec_rotation_from_transform(code: u32) -> u32 {
    if code == 1 || code == 5 {
        90
    } else if code == 2 || code == 6 {
        180
    } else if code == 3 || code == 7 {
        270
    } else {
        0
    }
}

pub fn rotation_from_transform(code: u32) -> (r: u32)
    ensures
        r == spec_rotation_from_transform(code),
        valid_rotation(r),
{
    if code == 1 || code == 5 {
        90
    } else if code == 2 || code == 6 {
        180
    } else if code == 3 || code == 7 {
        270
    } else {
        0
    }
}

/// A DPI measured in thousandths of a dot per inch, normalized against the
/// 96-DPI baseline: 96000 milli-DPI is scale 1000 (that is, 1.0). A DPI too
/// small to yield a positive scale is rejected, so the caller falls through
/// to the next strategy.
pub open spec fn spec_scale_from_dpi_milli(dpi_milli: u32) -> Option<u32> {
    if dpi_milli / BASELINE_DPI > 0 {
        Some((dpi_milli / BASELINE_DPI) as u32)
    } else {
        None
    }
}

pub fn scale_from_dpi_milli(dpi_milli: u32) -> (r: Option<u32>)
    ensures
        r == spec_scale_from_dpi_milli(dpi_milli),
        r matches Some(v) ==> v > 0,
{
    let s = dpi_milli / BASELINE_DPI;
    if s > 0 {
        Some(s)
    } else {
        None
    }
}

/// The ratio of a physical pixel measure to a logical one, in thousandths,
/// truncated. A zero divisor, a zero ratio and a ratio beyond `u32` all
/// reject, so the caller falls through to the next strategy.
pub open spec fn spec_scale_from_ratio(physical: u32, logical: u32) -> Option<u32> {
    if logical == 0 {
        None
    } else {
        let r = physical * 1000 / logical as int;
        if 0 < r <= u32::MAX {
            Some(r as u32)
        } else {
            None
        }
    }
}

pub fn scale_from_ratio(physical: u32, logical: u32) -> (r: Option<u32>)
    ensures
        r == spec_scale_from_ratio(physical, logical),
        r matches Some(v) ==> v > 0,
{
    if logical == 0 {
        None
    } else {
        let q: u64 = physical as u64 * 1000 / logical as u64;
        if q == 0 || q > u32::MAX as u64 {
            None
        } else {
            Some(q as u32)
        }
    }
}

/// The scale-factor fallback chain, first success wins:
/// a per-output DPI query against the 96-DPI baseline; the ratio of the
/// active mode's pixel width to the output's logical width; the ratio of
/// the device context's desktop resolution to its logical resolution; and
/// finally the constant 1.0. Every result is positive.
pub open spec fn spec_compute_scale_milli(
    dpi_milli: Option<u32>,
    mode_pixel_width: Option<u32>,
    logical_width: u32,
    caps: Option<(u32, u32)>,
) -> u32 {
    let from_dpi = match dpi_milli {
        Some(d) => spec_scale_from_dpi_milli(d),
        None => None,
    };
    let from_mode = match mode_pixel_width {
        Some(pw) => spec_scale_from_ratio(pw, logical_width),
        None => None,
    };
    let from_caps = match caps {
        Some((phys, logi)) => spec_scale_from_ratio(phys, logi),
        None => None,
    };
    match from_dpi {
        Some(v) => v,
        None => match from_mode {
            Some(v) => v,
            None => match from_caps {
                Some(v) => v,
                None => DEFAULT_SCALE_MILLI,
            },
        },
    }
}

pub fn compute_scale_milli(
    dpi_milli: Option<u32>,
    mode_pixel_width: Option<u32>,
    logical_width: u32,
    caps: Option<(u32, u32)>,
) -> (r: u32)
    ensures
        r == spec_compute_scale_milli(dpi_milli, mode_pixel_width, logical_width, caps),
        r > 0,
{
    if let Some(d) = dpi_milli {
        if let Some(v) = scale_from_dpi_milli(d) {
            return v;
        }
    }
    if let Some(pw) = mode_pixel_width {
        if let Some(v) = scale_from_ratio(pw, logical_width) {
            return v;
        }
    }
    if let Some((phys, logi)) = caps {
        if let Some(v) = scale_from_ratio(phys, logi) {
            return v;
        }
    }
    DEFAULT_SCALE_MILLI
}

/// `v` scaled by 1000 and divided by `scale_milli`, truncated toward zero
/// as the native conversions truncate.
pub open spec fn spec_div_scale(v: int, scale_milli: int) -> int {
    if v >= 0 {
        v * 1000 / scale_milli
    } else {
        -((-v) * 1000 / scale_milli)
    }
}

pub open spec fn spec_clamp_i32(v: int) -> i32 {
    if v > i32::MAX {
        i32::MAX
    } else if v < i32::MIN {
        i32::MIN
    } else {
        v as i32
    }
}

pub open spec fn spec_clamp_u32(v: int) -> u32 {
    if v > u32::MAX {
        u32::MAX
    } else {
        v as u32
    }
}

/// A raw pixel coordinate converted to the logical coordinate space:
/// divided by the scale factor and truncated toward zero (clamped at the
/// `i32` range, which raw positions never reach in practice).
pub open spec fn spec_normalize_coord(v: i32, scale_milli: u32) -> i32 {
    spec_clamp_i32(spec_div_scale(v as int, scale_milli as int))
}

pub fn normalize_coord(v: i32, scale_milli: u32) -> (r: i32)
    requires
        scale_milli > 0,
    ensures
        r == spec_normalize_coord(v, scale_milli),
{
    if v >= 0 {
        let q: u64 = v as u64 * 1000 / scale_milli as u64;
        if q > i32::MAX as u64 {
            i32::MAX
        } else {
            q as i32
        }
    } else {
        let mag: u64 = (-(v as i64)) as u64;
        let q: u64 = mag * 1000 / scale_milli as u64;
        if q > 2147483648u64 {
            i32::MIN
        } else {
            (-(q as i64)) as i32
        }
    }
}

/// A raw pixel length converted to the logical coordinate space.
pub open spec fn spec_normalize_len(v: u32, scale_milli: u32) -> u32 {
    spec_clamp_u32(v * 1000 / scale_milli as int)
}

pub fn normalize_len(v: u32, scale_milli: u32) -> (r: u32)
    requires
        scale_milli > 0,
    ensures
        r == spec_normalize_len(v, scale_milli),
{
    let q: u64 = v as u64 * 1000 / scale_milli as u64;
    if q > u32::MAX as u64 {
        u32::MAX
    } else {
        q as u32
    }
}

} // verus!
