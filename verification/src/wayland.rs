use vstd::prelude::*;

use crate::display_info::{
    all_well_formed, at_most_one_primary, di_eq, di_seq_eq, well_formed, Backend, DisplayInfo,
    ScreenRawHandle,
};
use crate::error::{DIError, DIResult};
use crate::names::{spec_unknown_display_name, unknown_display_name};
use crate::resolver::{
    get_from_point_in, spec_contains_point, spec_no_containing, spec_resolves_point,
};
use crate::normalize::{
    normalize_coord, normalize_len, rotation_from_transform, spec_clamp_u32, spec_normalize_coord,
    spec_normalize_len, spec_rotation_from_transform, DEFAULT_SCALE_MILLI,
};

verus! {

/// One mode of a Wayland output.
#[derive(Debug, Clone, Copy, PartialEq, Eq, Structural)]
pub struct WaylandMode {
    /// Refresh rate in millihertz, as the protocol reports it.
    pub refresh_millihertz: i32,
    /// Whether this is the output's current mode.
    pub current: bool,
    /// Whether this is the output's preferred mode.
    pub preferred: bool,
}

/// Everything the compositor reported about one output, as plain values.
pub struct WaylandOutput {
    /// The output's registry name.
    pub id: u32,
    /// The output's name; `None` when the compositor sent none.
    pub name: Option<String>,
    /// The protocol transform code: 0..=3 rotations, 4..=7 flipped rotations.
    pub transform: u32,
    /// The compositor's integer scale factor.
    pub scale_factor: i32,
    /// Position within the global compositor space, raw pixels.
    pub location: (i32, i32),
    /// Logical position, when the compositor exposes one.
    pub logical_position: Option<(i32, i32)>,
    /// Size of the output, raw pixels; doubles as its physical size in
    /// millimeters, as the protocol reports the latter in this field pair.
    pub physical_size: (i32, i32),
    /// Logical size, when the compositor exposes one.
    pub logical_size: Option<(i32, i32)>,
    /// The advertised modes.
    pub modes: Vec<WaylandMode>,
}

/// A compositor scale factor in thousandths; a nonpositive report (which a
/// well-behaved compositor never sends) degrades to 1.0 so descriptors keep
/// a positive scale.
pub open spec fn spec_wayland_scale_milli(sf: i32) -> u32 {
    if sf >= 1 {
        spec_clamp_u32(sf * 1000)
    } else {
        DEFAULT_SCALE_MILLI
    }
}

pub fn wayland_scale_milli(sf: i32) -> (r: u32)
    ensures
        r == spec_wayland_scale_milli(sf),
        r > 0,
{
    if sf >= 1 {
        let q: u64 = sf as u64 * 1000;
        if q > u32::MAX as u64 {
            u32::MAX
        } else {
            q as u32
        }
    } else {
        DEFAULT_SCALE_MILLI
    }
}

/// The first mode that is current or preferred.
pub open spec fn spec_find_active_mode(ms: Seq<WaylandMode>) -> Option<WaylandMode>
    decreases ms.len(),
{
    if ms.len() == 0 {
        None
    } else if ms[0].current || ms[0].preferred {
        Some(ms[0])
    } else {
        spec_find_active_mode(ms.skip(1))
    }
}

/// The refresh rate of the current (else preferred) mode, in millihertz;
/// 0 when no mode is flagged or the report is negative.
pub open spec fn spec_wayland_frequency(ms: Seq<WaylandMode>) -> u32 {
    match spec_find_active_mode(ms) {
        Some(m) => if m.refresh_millihertz > 0 {
            m.refresh_millihertz as u32
        } else {
            0
        },
        None => 0,
    }
}

proof fn lemma_find_active_mode_step(ms: Seq<WaylandMode>, i: int)
    requires
        0 <= i <= ms.len(),
        forall|j: int|
            0 <= j < i ==> !(#[trigger] ms[j]).current && !ms[j].preferred,
    ensures
        spec_find_active_mode(ms) == spec_find_active_mode(ms.skip(i)),
    decreases i,
{
    if i > 0 {
        assert forall|j: int| 0 <= j < i - 1 implies !(#[trigger] ms.skip(1)[j]).current && !ms.skip(
            1,
        )[j].preferred by {
            assert(!ms[j + 1].current && !ms[j + 1].preferred);
        }
        lemma_find_active_mode_step(ms.skip(1), i - 1);
        assert(ms.skip(1).skip(i - 1) =~= ms.skip(i));
    } else {
        assert(ms.skip(0) =~= ms);
    }
}

pub fn wayland_frequency(modes: &Vec<WaylandMode>) -> (r: u32)
    ensures
        r == spec_wayland_frequency(modes@),
{
    let n = modes.len();
    let mut i: usize = 0;
    while i < n
        invariant
            n == modes@.len(),
            i <= n,
            forall|j: int| 0 <= j < i ==> !(#[trigger] modes@[j]).current && !modes@[j].preferred,
        decreases n - i,
    {
        let m = modes[i];
        if m.current || m.preferred {
            proof {
                lemma_find_active_mode_step(modes@, i as int);
                assert(modes@.skip(i as int)[0] == modes@[i as int]);
            }
            return if m.refresh_millihertz > 0 {
                m.refresh_millihertz as u32
            } else {
                0
            };
        }
        i = i + 1;
    }
    proof {
        lemma_find_active_mode_step(modes@, n as int);
        assert(modes@.skip(n as int).len() == 0);
    }
    0
}

/// A raw length clamped below at 0, as the conversion to an unsigned size
/// must.
pub open spec fn spec_nonneg(v: i32) -> u32 {
    if v < 0 {
        0
    } else {
        v as u32
    }
}

/// What the descriptor of one Wayland output holds. The logical position
/// and size are preferred over the raw ones; both are divided by the
/// output's scale; the physical-size pair doubles as millimeters; no output
/// is primary, since the protocol designates none.
pub open spec fn spec_is_wayland_descriptor(d: DisplayInfo, o: WaylandOutput) -> bool {
    let scale = spec_wayland_scale_milli(o.scale_factor);
    let pos = match o.logical_position {
        Some(p) => p,
        None => o.location,
    };
    let size = match o.logical_size {
        Some(s) => s,
        None => o.physical_size,
    };
    &&& d.id == o.id
    &&& match o.name {
        Some(n) => d.name@ == n@ && d.friendly_name@ == n@,
        None => d.name@ == Seq::<char>::empty() && d.friendly_name@ == spec_unknown_display_name(
            o.id,
        ),
    }
    &&& d.raw_handle == (ScreenRawHandle { backend: Backend::Wayland, value: o.id as u64 })
    &&& d.x == spec_normalize_coord(pos.0, scale)
    &&& d.y == spec_normalize_coord(pos.1, scale)
    &&& d.width == spec_normalize_len(spec_nonneg(size.0), scale)
    &&& d.height == spec_normalize_len(spec_nonneg(size.1), scale)
    &&& d.width_mm == o.physical_size.0
    &&& d.height_mm == o.physical_size.1
    &&& d.rotation == spec_rotation_from_transform(o.transform)
    &&& d.scale_factor_milli == scale
    &&& d.frequency_millihertz == spec_wayland_frequency(o.modes@)
    &&& d.is_primary == false
}

fn nonneg(v: i32) -> (r: u32)
    ensures
        r == spec_nonneg(v),
{
    if v < 0 {
        0
    } else {
        v as u32
    }
}

/// The normalized descriptor of one Wayland output.
pub fn from_output(o: &WaylandOutput) -> (r: DisplayInfo)
    ensures
        spec_is_wayland_descriptor(r, *o),
        well_formed(r),
{
    let scale = wayland_scale_milli(o.scale_factor);
    let (name, friendly) = match &o.name {
        Some(n) => (n.clone(), n.clone()),
        None => (String::new(), unknown_display_name(o.id)),
    };
    let pos = match o.logical_position {
        Some(p) => p,
        None => o.location,
    };
    let size = match o.logical_size {
        Some(s) => s,
        None => o.physical_size,
    };
    DisplayInfo {
        id: o.id,
        name,
        friendly_name: friendly,
        raw_handle: ScreenRawHandle { backend: Backend::Wayland, value: o.id as u64 },
        x: normalize_coord(pos.0, scale),
        y: normalize_coord(pos.1, scale),
        width: normalize_len(nonneg(size.0), scale),
        height: normalize_len(nonneg(size.1), scale),
        width_mm: o.physical_size.0,
        height_mm: o.physical_size.1,
        rotation: rotation_from_transform(o.transform),
        scale_factor_milli: scale,
        frequency_millihertz: wayland_frequency(&o.modes),
        is_primary: false,
    }
}

/// What a Wayland enumeration returns: one descriptor per output, in
/// registry order. An output whose information could not be obtained fails
/// the whole call, as the compositor's registry is then out of step.
pub open spec fn spec_is_wayland_enumeration(
    ds: Seq<DisplayInfo>,
    os: Seq<Option<WaylandOutput>>,
) -> bool {
    &&& ds.len() == os.len()
    &&& forall|i: int|
        0 <= i < ds.len() ==> (#[trigger] os[i]) is Some && spec_is_wayland_descriptor(
            ds[i],
            os[i]->0,
        )
}

/// All displays of the captured compositor state, normalized. Each entry is
/// the information of one bound output, `None` where the compositor did not
/// answer for it.
pub fn get_all(outputs: &Vec<Option<WaylandOutput>>) -> (r: DIResult<Vec<DisplayInfo>>)
    ensures
        match r {
            Ok(v) => spec_is_wayland_enumeration(v@, outputs@) && all_well_formed(v@)
                && at_most_one_primary(v@),
            Err(e) => e is QueryFailed && exists|i: int|
                0 <= i < outputs@.len() && (#[trigger] outputs@[i]) is None,
        },
{
    let n = outputs.len();
    let mut out: Vec<DisplayInfo> = Vec::new();
    let mut i: usize = 0;
    while i < n
        invariant
            n == outputs@.len(),
            i <= n,
            out@.len() == i,
            forall|k: int|
                0 <= k < i ==> (#[trigger] outputs@[k]) is Some && spec_is_wayland_descriptor(
                    out@[k],
                    outputs@[k]->0,
                ) && well_formed(out@[k]),
        decreases n - i,
    {
        match &outputs[i] {
            Some(o) => {
                let d = from_output(o);
                out.push(d);
            },
            None => {
                return Err(DIError::new("cannot get info from a bound output"));
            },
        }
        i = i + 1;
    }
    proof {
        assert forall|k: int| 0 <= k < out@.len() implies well_formed(#[trigger] out@[k]) && !out@[
            k
        ].is_primary by {
            assert(spec_is_wayland_descriptor(out@[k], outputs@[k]->0));
        }
    }
    Ok(out)
}

/// The display of the captured compositor state under the given point: the
/// first descriptor whose half-open logical bounds contain it.
pub fn get_from_point(outputs: &Vec<Option<WaylandOutput>>, x: i32, y: i32) -> (r: DIResult<
    DisplayInfo,
>)
    ensures
        match r {
            Ok(d) => spec_contains_point(d, x, y) && exists|ds: Seq<DisplayInfo>|
                #[trigger] spec_is_wayland_enumeration(ds, outputs@) && spec_resolves_point(
                    ds,
                    x,
                    y,
                    d,
                ),
            Err(e) => match e {
                DIError::NotFound => exists|ds: Seq<DisplayInfo>|
                    #[trigger] spec_is_wayland_enumeration(ds, outputs@) && spec_no_containing(
                        ds,
                        x,
                        y,
                    ),
                DIError::QueryFailed(_) => exists|i: int|
                    0 <= i < outputs@.len() && (#[trigger] outputs@[i]) is None,
                _ => false,
            },
        },
{
    let displays = match get_all(outputs) {
        Ok(v) => v,
        Err(e) => {
            return Err(e);
        },
    };
    let r = get_from_point_in(&displays, x, y);
    match r {
        Ok(d) => {
            proof {
                let i = choose|i: int|
                    0 <= i < displays@.len() && di_eq(d, #[trigger] displays@[i])
                        && spec_contains_point(displays@[i], x, y);
                assert(spec_contains_point(d, x, y));
            }
            Ok(d)
        },
        Err(e) => Err(e),
    }
}

/// Two enumerations of one captured compositor state agree on every field
/// of every descriptor.
pub proof fn lemma_wayland_enumeration_deterministic(
    a: Seq<DisplayInfo>,
    b: Seq<DisplayInfo>,
    os: Seq<Option<WaylandOutput>>,
)
    requires
        spec_is_wayland_enumeration(a, os),
        spec_is_wayland_enumeration(b, os),
    ensures
        di_seq_eq(a, b),
{
    assert forall|i: int| 0 <= i < a.len() implies di_eq(#[trigger] a[i], b[i]) by {
        assert(spec_is_wayland_descriptor(a[i], os[i]->0));
        assert(spec_is_wayland_descriptor(b[i], os[i]->0));
    }
}

} // verus!
