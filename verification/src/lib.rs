//! Enumerates the displays attached to a machine and reports their
//! geometry, scale, rotation, refresh rate and identity in one normalized
//! logical model, with a point-to-display lookup.
//!
//! The native display subsystems (an X server, a Wayland compositor, GDI,
//! CoreGraphics) are queried once per call by a thin platform layer that
//! hands their answers over as plain values — a [`PlatformSnapshot`]. This
//! crate holds the normalization core: everything from the snapshot to the
//! descriptor list is verified.

use vstd::prelude::*;

pub mod display_info;
pub mod error;
pub mod macos;
pub mod names;
pub mod normalize;
pub mod resolver;
pub mod session;
pub mod wayland;
pub mod windows;
pub mod xorg;

pub use display_info::{Backend, DisplayInfo, ScreenRawHandle};
pub use error::{DIError, DIResult};

use crate::display_info::{all_well_formed, at_most_one_primary, di_eq, same_geometry};
use crate::resolver::{
    from_name_in, get_from_point_in, spec_contains_point, spec_no_containing, spec_no_named,
    spec_resolves_name, spec_resolves_point,
};

verus! {

/// One platform's display state, captured by the platform layer at the
/// start of a call and handed over as plain values.
pub enum PlatformSnapshot {
    Xorg(xorg::XorgScreenSnapshot),
    Wayland(Vec<Option<wayland::WaylandOutput>>),
    Gdi(windows::WinSnapshot),
    CoreGraphics(macos::MacSnapshot),
}

/// What an enumeration of the captured state returns, whichever backend
/// captured it.
pub open spec fn spec_is_enumeration(ds: Seq<DisplayInfo>, snap: PlatformSnapshot) -> bool {
    match snap {
        PlatformSnapshot::Xorg(s) => xorg::spec_is_xorg_enumeration(
            ds,
            s.monitors@,
            s.modes@,
            s.resource_manager,
        ),
        PlatformSnapshot::Wayland(os) => wayland::spec_is_wayland_enumeration(ds, os@),
        PlatformSnapshot::Gdi(s) => windows::spec_is_win_enumeration(ds, s.monitors@, s.paths@),
        PlatformSnapshot::CoreGraphics(s) => macos::spec_is_mac_enumeration(
            ds,
            s.displays@,
            s.screens@,
        ),
    }
}

/// Whether enumerating the captured state fails as a whole: only a Wayland
/// capture with an unanswered output does.
pub open spec fn spec_enumeration_failed(snap: PlatformSnapshot) -> bool {
    match snap {
        PlatformSnapshot::Wayland(os) => exists|i: int|
            0 <= i < os@.len() && (#[trigger] os@[i]) is None,
        _ => false,
    }
}

impl DisplayInfo {
    /// All displays of the captured platform state, in native enumeration
    /// order, normalized: every descriptor has a positive scale factor and
    /// a four-way rotation, and at most one is primary.
    pub fn all(snap: &PlatformSnapshot) -> (r: DIResult<Vec<DisplayInfo>>)
        ensures
            match r {
                Ok(v) => spec_is_enumeration(v@, *snap) && all_well_formed(v@)
                    && at_most_one_primary(v@),
                Err(e) => spec_enumeration_failed(*snap) && e is QueryFailed,
            },
    {
        match snap {
            PlatformSnapshot::Xorg(s) => xorg::get_all(s),
            PlatformSnapshot::Wayland(os) => wayland::get_all(os),
            PlatformSnapshot::Gdi(s) => windows::get_all(s),
            PlatformSnapshot::CoreGraphics(s) => macos::get_all(s),
        }
    }

    /// The display under the given point: the first descriptor of the
    /// enumeration whose half-open logical bounds contain it. `NotFound`
    /// when no display contains the point; an enumeration failure
    /// propagates.
    pub fn from_point(snap: &PlatformSnapshot, x: i32, y: i32) -> (r: DIResult<DisplayInfo>)
        ensures
            match r {
                Ok(d) => spec_contains_point(d, x, y) && exists|ds: Seq<DisplayInfo>|
                    #[trigger] spec_is_enumeration(ds, *snap) && spec_resolves_point(ds, x, y, d),
                Err(e) => match e {
                    DIError::NotFound => exists|ds: Seq<DisplayInfo>|
                        #[trigger] spec_is_enumeration(ds, *snap) && spec_no_containing(ds, x, y),
                    DIError::QueryFailed(_) => spec_enumeration_failed(*snap),
                    _ => false,
                },
            },
    {
        let displays = Self::all(snap)?;
        let r = get_from_point_in(&displays, x, y);
        proof {
            assert(spec_is_enumeration(displays@, *snap));
        }
        match r {
            Ok(d) => {
                proof {
                    let i = choose|i: int|
                        0 <= i < displays@.len() && di_eq(d, #[trigger] displays@[i])
                            && spec_contains_point(displays@[i], x, y) && (forall|j: int|
                            0 <= j < i ==> !spec_contains_point(#[trigger] displays@[j], x, y));
                    assert(spec_contains_point(d, x, y));
                }
                Ok(d)
            },
            Err(e) => Err(e),
        }
    }

    /// The first descriptor of the enumeration carrying the given device
    /// name. `NotFound` when no display does; an enumeration failure
    /// propagates.
    pub fn from_name(snap: &PlatformSnapshot, name: &str) -> (r: DIResult<DisplayInfo>)
        ensures
            match r {
                Ok(d) => exists|ds: Seq<DisplayInfo>|
                    #[trigger] spec_is_enumeration(ds, *snap) && spec_resolves_name(ds, name@, d),
                Err(e) => match e {
                    DIError::NotFound => exists|ds: Seq<DisplayInfo>|
                        #[trigger] spec_is_enumeration(ds, *snap) && spec_no_named(ds, name@),
                    DIError::QueryFailed(_) => spec_enumeration_failed(*snap),
                    _ => false,
                },
            },
    {
        let displays = Self::all(snap)?;
        proof {
            assert(spec_is_enumeration(displays@, *snap));
        }
        from_name_in(&displays, name)
    }
}

/// Point containment is a property of the captured state, not of one
/// enumeration of it: when no descriptor of one enumeration contains a
/// point, none of any other enumeration of the same state does, since the
/// two agree in geometry.
pub proof fn lemma_not_found_is_stable(
    snap: PlatformSnapshot,
    a: Seq<DisplayInfo>,
    b: Seq<DisplayInfo>,
    x: i32,
    y: i32,
)
    requires
        spec_is_enumeration(a, snap),
        spec_is_enumeration(b, snap),
        spec_no_containing(a, x, y),
    ensures
        spec_no_containing(b, x, y),
{
    lemma_enumeration_idempotent(snap, a, b);
    assert forall|i: int| 0 <= i < b.len() implies !spec_contains_point(#[trigger] b[i], x, y) by {
        assert(same_geometry(a[i], b[i]));
        assert(!spec_contains_point(a[i], x, y));
    }
}

/// Idempotence of enumeration: two enumerations of one captured platform
/// state agree in count and, descriptor by descriptor, in position, size,
/// physical size, rotation, scale, refresh rate and primary flag.
/// Identifiers are left out: on one backend they are hashes that are stable
/// only within a process, as the descriptor model documents.
pub proof fn lemma_enumeration_idempotent(
    snap: PlatformSnapshot,
    a: Seq<DisplayInfo>,
    b: Seq<DisplayInfo>,
)
    requires
        spec_is_enumeration(a, snap),
        spec_is_enumeration(b, snap),
    ensures
        a.len() == b.len(),
        forall|i: int| 0 <= i < a.len() ==> same_geometry(#[trigger] a[i], b[i]),
{
    match snap {
        PlatformSnapshot::Xorg(s) => {
            xorg::lemma_xorg_enumeration_deterministic(
                a,
                b,
                s.monitors@,
                s.modes@,
                s.resource_manager,
            );
            assert forall|i: int| 0 <= i < a.len() implies same_geometry(#[trigger] a[i], b[i]) by {
                assert(di_eq(a[i], b[i]));
            }
        },
        PlatformSnapshot::Wayland(os) => {
            wayland::lemma_wayland_enumeration_deterministic(a, b, os@);
            assert forall|i: int| 0 <= i < a.len() implies same_geometry(#[trigger] a[i], b[i]) by {
                assert(di_eq(a[i], b[i]));
            }
        },
        PlatformSnapshot::Gdi(s) => {
            windows::lemma_win_enumeration_deterministic(a, b, s.monitors@, s.paths@);
        },
        PlatformSnapshot::CoreGraphics(s) => {
            macos::lemma_mac_enumeration_deterministic(a, b, s.displays@, s.screens@);
            assert forall|i: int| 0 <= i < a.len() implies same_geometry(#[trigger] a[i], b[i]) by {
                assert(di_eq(a[i], b[i]));
            }
        },
    }
}

} // verus!
