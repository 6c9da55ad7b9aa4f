use vstd::prelude::*;

use crate::display_info::{di_eq, DisplayInfo};
use crate::error::{DIError, DIResult};
use crate::names::str_eq;

verus! {

/// Containment of a point in a descriptor's logical bounds. The interval is
/// half-open on the right and bottom, so that edge pixels shared by two
/// adjacent displays belong to exactly one of them.
pub open spec fn spec_contains_point(d: DisplayInfo, x: i32, y: i32) -> bool {
    &&& d.x <= x < d.x + d.width
    &&& d.y <= y < d.y + d.height
}

pub fn contains_point(d: &DisplayInfo, x: i32, y: i32) -> (r: bool)
    ensures
        r == spec_contains_point(*d, x, y),
{
    let xl: i64 = x as i64;
    let yl: i64 = y as i64;
    (d.x as i64) <= xl && xl < d.x as i64 + d.width as i64 && (d.y as i64) <= yl && yl < d.y as i64
        + d.height as i64
}

/// Whether `d` is (a copy of) the first descriptor of `ds` whose bounds
/// contain the point.
pub open spec fn spec_resolves_point(ds: Seq<DisplayInfo>, x: i32, y: i32, d: DisplayInfo) -> bool {
    exists|i: int|
        0 <= i < ds.len() && di_eq(d, #[trigger] ds[i]) && spec_contains_point(ds[i], x, y) && (
        forall|j: int| 0 <= j < i ==> !spec_contains_point(#[trigger] ds[j], x, y))
}

/// Whether no descriptor of `ds` contains the point.
pub open spec fn spec_no_containing(ds: Seq<DisplayInfo>, x: i32, y: i32) -> bool {
    forall|i: int| 0 <= i < ds.len() ==> !spec_contains_point(#[trigger] ds[i], x, y)
}

/// The first descriptor, in enumeration order, whose bounds contain the
/// point; `NotFound` when no descriptor does.
pub fn get_from_point_in(displays: &Vec<DisplayInfo>, x: i32, y: i32) -> (r: DIResult<
    DisplayInfo,
>)
    ensures
        match r {
            Ok(d) => spec_resolves_point(displays@, x, y, d),
            Err(e) => e is NotFound && spec_no_containing(displays@, x, y),
        },
{
    let n = displays.len();
    let mut i: usize = 0;
    while i < n
        invariant
            n == displays@.len(),
            i <= n,
            forall|j: int| 0 <= j < i ==> !spec_contains_point(#[trigger] displays@[j], x, y),
        decreases n - i,
    {
        if contains_point(&displays[i], x, y) {
            return Ok(displays[i].duplicate());
        }
        i = i + 1;
    }
    Err(DIError::NotFound)
}

/// Whether `d` is (a copy of) the first descriptor of `ds` named `name`.
pub open spec fn spec_resolves_name(ds: Seq<DisplayInfo>, name: Seq<char>, d: DisplayInfo) -> bool {
    exists|i: int|
        0 <= i < ds.len() && di_eq(d, #[trigger] ds[i]) && ds[i].name@ == name && (forall|j: int|
            0 <= j < i ==> (#[trigger] ds[j]).name@ != name)
}

/// Whether no descriptor of `ds` is named `name`.
pub open spec fn spec_no_named(ds: Seq<DisplayInfo>, name: Seq<char>) -> bool {
    forall|i: int| 0 <= i < ds.len() ==> (#[trigger] ds[i]).name@ != name
}

/// The first descriptor whose device name is the given one; `NotFound` when
/// no descriptor carries that name.
pub fn from_name_in(displays: &Vec<DisplayInfo>, name: &str) -> (r: DIResult<DisplayInfo>)
    ensures
        match r {
            Ok(d) => spec_resolves_name(displays@, name@, d),
            Err(e) => e is NotFound && spec_no_named(displays@, name@),
        },
{
    let n = displays.len();
    let mut i: usize = 0;
    while i < n
        invariant
            n == displays@.len(),
            i <= n,
            forall|j: int| 0 <= j < i ==> (#[trigger] displays@[j]).name@ != name@,
        decreases n - i,
    {
        if str_eq(displays[i].name.as_str(), name) {
            return Ok(displays[i].duplicate());
        }
        i = i + 1;
    }
    Err(DIError::NotFound)
}

/// The half-open containment convention at the edges: the top-left corner of
/// a non-empty display resolves to it, while the point one past its right
/// edge (at the same height) never does.
pub proof fn lemma_containment_boundary(d: DisplayInfo, x: i32, y: i32)
    ensures
        x == d.x + d.width && d.y <= y < d.y + d.height ==> !spec_contains_point(d, x, y),
        x == d.x && y == d.y && d.width > 0 && d.height > 0 ==> spec_contains_point(d, x, y),
{
}

} // verus!
