use display_info::xorg::{XorgModeInfo, XorgMonitor, XorgScreenSnapshot};
use display_info::{DIError, DisplayInfo, PlatformSnapshot};

fn monitor(x: i16, y: i16, w: u16, h: u16, primary: bool, output: u32) -> XorgMonitor {
    XorgMonitor {
        name: Some(format!("OUT-{}", output)),
        primary,
        x,
        y,
        width: w,
        height: h,
        width_mm: 600,
        height_mm: 340,
        outputs: vec![output],
        crtc_rotation: Some(1),
        mode_id: Some(10),
    }
}

fn mode_60hz() -> XorgModeInfo {
    XorgModeInfo {
        id: 10,
        dot_clock: 148500000,
        htotal: 2200,
        vtotal: 1125,
        double_scan: false,
        interlace: false,
    }
}

fn single_display_snapshot() -> PlatformSnapshot {
    PlatformSnapshot::Xorg(XorgScreenSnapshot {
        resource_manager: None,
        monitors: vec![monitor(0, 0, 1920, 1080, true, 42)],
        modes: vec![mode_60hz()],
    })
}

#[test]
fn single_display_fields() {
    let snap = single_display_snapshot();
    let all = DisplayInfo::all(&snap).unwrap();
    assert_eq!(all.len(), 1);
    let d = &all[0];
    assert_eq!(d.id, 42);
    assert_eq!(d.x, 0);
    assert_eq!(d.y, 0);
    assert_eq!(d.width, 1920);
    assert_eq!(d.height, 1080);
    assert_eq!(d.scale_factor_milli, 1000);
    assert_eq!(d.rotation, 0);
    assert_eq!(d.frequency_millihertz, 60000);
    assert_eq!(d.width_mm, 600);
    assert_eq!(d.height_mm, 340);
    assert!(d.is_primary);
    assert_eq!(d.name, "OUT-42");
    assert_eq!(d.friendly_name, "OUT-42");
}

#[test]
fn single_display_point_inside() {
    let snap = single_display_snapshot();
    let d = DisplayInfo::from_point(&snap, 100, 100).unwrap();
    assert_eq!(d.id, 42);
}

#[test]
fn single_display_point_outside() {
    let snap = single_display_snapshot();
    let r = DisplayInfo::from_point(&snap, 3000, 100);
    assert!(matches!(r, Err(DIError::NotFound)));
}

fn two_display_snapshot() -> PlatformSnapshot {
    PlatformSnapshot::Xorg(XorgScreenSnapshot {
        resource_manager: None,
        monitors: vec![
            monitor(0, 0, 1920, 1080, true, 1),
            monitor(1920, 0, 2560, 1440, false, 2),
        ],
        modes: vec![mode_60hz()],
    })
}

#[test]
fn shared_edge_belongs_to_the_right_display() {
    let snap = two_display_snapshot();
    let b = DisplayInfo::from_point(&snap, 1920, 0).unwrap();
    assert_eq!(b.id, 2);
}

#[test]
fn last_column_belongs_to_the_left_display() {
    let snap = two_display_snapshot();
    let a = DisplayInfo::from_point(&snap, 1919, 0).unwrap();
    assert_eq!(a.id, 1);
}

#[test]
fn top_left_corner_resolves() {
    let snap = two_display_snapshot();
    let a = DisplayInfo::from_point(&snap, 0, 0).unwrap();
    assert_eq!(a.id, 1);
}

#[test]
fn one_past_right_edge_of_last_display_is_not_found() {
    let snap = two_display_snapshot();
    let r = DisplayInfo::from_point(&snap, 1920 + 2560, 0);
    assert!(matches!(r, Err(DIError::NotFound)));
}

#[test]
fn unrecognized_rotation_code_normalizes_to_zero() {
    let mut m = monitor(0, 0, 1920, 1080, true, 5);
    m.crtc_rotation = Some(16);
    let snap = PlatformSnapshot::Xorg(XorgScreenSnapshot {
        resource_manager: None,
        monitors: vec![m],
        modes: vec![],
    });
    let all = DisplayInfo::all(&snap).unwrap();
    assert_eq!(all[0].rotation, 0);
}

#[test]
fn recognized_rotation_codes_map() {
    for (bits, deg) in [(1u16, 0u32), (2, 90), (4, 180), (8, 270)] {
        let mut m = monitor(0, 0, 1920, 1080, true, 5);
        m.crtc_rotation = Some(bits);
        let snap = PlatformSnapshot::Xorg(XorgScreenSnapshot {
            resource_manager: None,
            monitors: vec![m],
            modes: vec![],
        });
        let all = DisplayInfo::all(&snap).unwrap();
        assert_eq!(all[0].rotation, deg);
    }
}

#[test]
fn enumeration_is_idempotent_on_an_unchanged_snapshot() {
    let snap = two_display_snapshot();
    let a = DisplayInfo::all(&snap).unwrap();
    let b = DisplayInfo::all(&snap).unwrap();
    assert_eq!(a.len(), b.len());
    for (da, db) in a.iter().zip(b.iter()) {
        assert_eq!(da.id, db.id);
        assert_eq!(da.x, db.x);
        assert_eq!(da.y, db.y);
        assert_eq!(da.width, db.width);
        assert_eq!(da.height, db.height);
        assert_eq!(da.width_mm, db.width_mm);
        assert_eq!(da.height_mm, db.height_mm);
        assert_eq!(da.rotation, db.rotation);
        assert_eq!(da.scale_factor_milli, db.scale_factor_milli);
        assert_eq!(da.frequency_millihertz, db.frequency_millihertz);
        assert_eq!(da.is_primary, db.is_primary);
    }
}

#[test]
fn only_the_first_primary_flag_is_kept() {
    let snap = PlatformSnapshot::Xorg(XorgScreenSnapshot {
        resource_manager: None,
        monitors: vec![
            monitor(0, 0, 100, 100, true, 1),
            monitor(100, 0, 100, 100, true, 2),
            monitor(200, 0, 100, 100, true, 3),
        ],
        modes: vec![],
    });
    let all = DisplayInfo::all(&snap).unwrap();
    assert_eq!(all.len(), 3);
    assert!(all[0].is_primary);
    assert!(!all[1].is_primary);
    assert!(!all[2].is_primary);
    assert_eq!(all.iter().filter(|d| d.is_primary).count(), 1);
}

#[test]
fn monitor_without_outputs_is_skipped_not_fatal() {
    let mut orphan = monitor(0, 0, 100, 100, false, 9);
    orphan.outputs = vec![];
    let snap = PlatformSnapshot::Xorg(XorgScreenSnapshot {
        resource_manager: None,
        monitors: vec![orphan, monitor(100, 0, 100, 100, true, 2)],
        modes: vec![],
    });
    let all = DisplayInfo::all(&snap).unwrap();
    assert_eq!(all.len(), 1);
    assert_eq!(all[0].id, 2);
}

#[test]
fn missing_name_degrades_to_synthesized_label() {
    let mut m = monitor(0, 0, 100, 100, true, 7);
    m.name = None;
    let snap = PlatformSnapshot::Xorg(XorgScreenSnapshot {
        resource_manager: None,
        monitors: vec![m],
        modes: vec![],
    });
    let all = DisplayInfo::all(&snap).unwrap();
    assert_eq!(all[0].name, "");
    assert_eq!(all[0].friendly_name, "Unknown Display 7");
}

#[test]
fn xft_dpi_scales_the_coordinate_space() {
    let snap = PlatformSnapshot::Xorg(XorgScreenSnapshot {
        resource_manager: Some(String::from("Xft.dpi:\t192\n")),
        monitors: vec![monitor(0, 0, 3840, 2160, true, 1)],
        modes: vec![],
    });
    let all = DisplayInfo::all(&snap).unwrap();
    assert_eq!(all[0].scale_factor_milli, 2000);
    assert_eq!(all[0].width, 1920);
    assert_eq!(all[0].height, 1080);
}

#[test]
fn negative_positions_normalize_toward_zero() {
    let snap = PlatformSnapshot::Xorg(XorgScreenSnapshot {
        resource_manager: Some(String::from("Xft.dpi:\t192\n")),
        monitors: vec![monitor(-1920, -1, 1920, 1080, true, 1)],
        modes: vec![],
    });
    let all = DisplayInfo::all(&snap).unwrap();
    assert_eq!(all[0].x, -960);
    assert_eq!(all[0].y, 0);
}

#[test]
fn from_name_finds_the_named_display() {
    let snap = two_display_snapshot();
    let d = DisplayInfo::from_name(&snap, "OUT-2").unwrap();
    assert_eq!(d.id, 2);
    let r = DisplayInfo::from_name(&snap, "OUT-3");
    assert!(matches!(r, Err(DIError::NotFound)));
}
