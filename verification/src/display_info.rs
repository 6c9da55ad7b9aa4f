use vstd::prelude::*;

verus! {

/// Which native windowing backend produced a raw handle.
#[derive(Debug, Clone, Copy, PartialEq, Eq, Structural)]
pub enum Backend {
    Xorg,
    Wayland,
    Gdi,
    CoreGraphics,
}

/// Opaque native screen handle: a backend tag and the platform's integer
/// payload (an output XID, a registry name, an HMONITOR value, a
/// CGDirectDisplayID). The core carries it through and never interprets it.
#[derive(Debug, Clone, Copy, PartialEq, Eq, Structural)]
pub struct ScreenRawHandle {
    pub backend: Backend,
    pub value: u64,
}

/// One display, in the normalized logical model.
///
/// All fractional quantities of the native APIs are carried as integers:
/// `scale_factor_milli` is the physical-to-logical pixel ratio in
/// thousandths (1000 means 1.0, 2000 means a "2x" output), and
/// `frequency_millihertz` is the refresh rate in thousandths of a hertz
/// (0 when the platform does not expose it). Positions and sizes are in
/// logical coordinates: raw pixels divided by the scale factor, so that
/// displays of different scales tile without gaps.
#[derive(Debug, Clone)]
pub struct DisplayInfo {
    /// Platform-scoped identifier, unique within one enumeration.
    pub id: u32,
    /// Raw device name; empty when the platform gave none that could be read.
    pub name: String,
    /// Human-readable label; synthesized from `id` when unresolvable.
    pub friendly_name: String,
    /// Native handle, carried through for callers needing native interop.
    pub raw_handle: ScreenRawHandle,
    /// Logical x coordinate of the origin.
    pub x: i32,
    /// Logical y coordinate of the origin.
    pub y: i32,
    /// Logical width.
    pub width: u32,
    /// Logical height.
    pub height: u32,
    /// Physical width in millimeters; 0 when unavailable.
    pub width_mm: i32,
    /// Physical height in millimeters; 0 when unavailable.
    pub height_mm: i32,
    /// Clockwise rotation in degrees: one of 0, 90, 180, 270.
    pub rotation: u32,
    /// Physical-to-logical pixel ratio, in thousandths; always positive.
    pub scale_factor_milli: u32,
    /// Refresh rate in millihertz; 0 when undeterminable.
    pub frequency_millihertz: u32,
    /// Whether this is the platform's main display.
    pub is_primary: bool,
}

/// The four-way rotation scheme every descriptor is normalized to.
pub open spec fn valid_rotation(deg: u32) -> bool {
    deg == 0 || deg == 90 || deg == 180 || deg == 270
}

/// Invariant of every descriptor the enumerators return.
pub open spec fn well_formed(d: DisplayInfo) -> bool {
    &&& d.scale_factor_milli > 0
    &&& valid_rotation(d.rotation)
}

pub open spec fn all_well_formed(s: Seq<DisplayInfo>) -> bool {
    forall|i: int| 0 <= i < s.len() ==> well_formed(#[trigger] s[i])
}

/// No two descriptors of one enumeration claim to be the primary display.
pub open spec fn at_most_one_primary(s: Seq<DisplayInfo>) -> bool {
    forall|i: int, j: int|
        0 <= i < s.len() && 0 <= j < s.len() && #[trigger] s[i].is_primary && #[trigger] s[j].is_primary
            ==> i == j
}

/// Descriptor equality, with the string fields compared by contents.
pub open spec fn di_eq(a: DisplayInfo, b: DisplayInfo) -> bool {
    &&& a.id == b.id
    &&& a.name@ == b.name@
    &&& a.friendly_name@ == b.friendly_name@
    &&& a.raw_handle == b.raw_handle
    &&& same_geometry(a, b)
}

pub open spec fn di_seq_eq(a: Seq<DisplayInfo>, b: Seq<DisplayInfo>) -> bool {
    &&& a.len() == b.len()
    &&& forall|i: int| 0 <= i < a.len() ==> di_eq(#[trigger] a[i], b[i])
}

/// Equality of everything an unchanged system reproduces on every
/// enumeration: placement, size, physical size, rotation, scale, refresh
/// rate and the primary flag. Identifiers and names are not included: on
/// platforms without a persistent handle they may legitimately differ.
pub open spec fn same_geometry(a: DisplayInfo, b: DisplayInfo) -> bool {
    &&& a.x == b.x
    &&& a.y == b.y
    &&& a.width == b.width
    &&& a.height == b.height
    &&& a.width_mm == b.width_mm
    &&& a.height_mm == b.height_mm
    &&& a.rotation == b.rotation
    &&& a.scale_factor_milli == b.scale_factor_milli
    &&& a.frequency_millihertz == b.frequency_millihertz
    &&& a.is_primary == b.is_primary
}

/// The same descriptor with its primary flag replaced.
pub open spec fn with_primary(d: DisplayInfo, p: bool) -> DisplayInfo {
    DisplayInfo { is_primary: p, ..d }
}

/// Whether `s[i]` is the first descriptor flagged primary.
pub open spec fn spec_first_primary_at(s: Seq<DisplayInfo>, i: int) -> bool {
    &&& s[i].is_primary
    &&& forall|j: int| 0 <= j < i ==> !(#[trigger] s[j]).is_primary
}

/// What the primary-flag discipline makes of `s[i]`: every primary flag
/// after the first one is cleared.
pub open spec fn spec_retained(s: Seq<DisplayInfo>, i: int) -> DisplayInfo {
    if s[i].is_primary && !spec_first_primary_at(s, i) {
        with_primary(s[i], false)
    } else {
        s[i]
    }
}

/// Reconciles inconsistent native primary flags: only the first descriptor
/// flagged primary keeps the flag, so one enumeration never reports two
/// primary displays.
pub fn retain_first_primary(displays: &Vec<DisplayInfo>) -> (r: Vec<DisplayInfo>)
    ensures
        r@.len() == displays@.len(),
        forall|i: int| 0 <= i < r@.len() ==> di_eq(#[trigger] r@[i], spec_retained(displays@, i)),
        at_most_one_primary(r@),
{
    let n = displays.len();
    let mut out: Vec<DisplayInfo> = Vec::new();
    let mut seen: bool = false;
    let mut i: usize = 0;
    while i < n
        invariant
            n == displays@.len(),
            i <= n,
            out@.len() == i,
            seen == exists|j: int| 0 <= j < i && (#[trigger] displays@[j]).is_primary,
            forall|k: int| 0 <= k < i ==> di_eq(#[trigger] out@[k], spec_retained(displays@, k)),
        decreases n - i,
    {
        let mut d = displays[i].duplicate();
        if d.is_primary {
            if seen {
                d.is_primary = false;
            } else {
                seen = true;
            }
        }
        out.push(d);
        i = i + 1;
    }
    proof {
        assert forall|i: int, j: int|
            0 <= i < out@.len() && 0 <= j < out@.len() && #[trigger] out@[i].is_primary
                && #[trigger] out@[j].is_primary implies i == j by {
            assert(di_eq(out@[i], spec_retained(displays@, i)));
            assert(di_eq(out@[j], spec_retained(displays@, j)));
            assert(spec_first_primary_at(displays@, i));
            assert(spec_first_primary_at(displays@, j));
        }
    }
    out
}

impl DisplayInfo {
    /// A field-for-field copy (`clone` is derived for callers, but Verus
    /// learns nothing from a derived clone, so verified code copies here).
    pub fn duplicate(&self) -> (r: DisplayInfo)
        ensures
            di_eq(r, *self),
    {
        DisplayInfo {
            id: self.id,
            name: self.name.clone(),
            friendly_name: self.friendly_name.clone(),
            raw_handle: self.raw_handle,
            x: self.x,
            y: self.y,
            width: self.width,
            height: self.height,
            width_mm: self.width_mm,
            height_mm: self.height_mm,
            rotation: self.rotation,
            scale_factor_milli: self.scale_factor_milli,
            frequency_millihertz: self.frequency_millihertz,
            is_primary: self.is_primary,
        }
    }
}

} // verus!
