use display_info::macos::{MacDisplay, MacDisplayMode, MacScreenName, MacSnapshot};
use display_info::names::{decode_device_name, display_name, u32_to_string, unknown_display_name};
use display_info::resolver::get_from_point_in;
use display_info::wayland::{WaylandMode, WaylandOutput};
use display_info::windows::{build_monitor, WinDevMode, WinDisplayPath, WinMonitor, WinSnapshot};
use display_info::{Backend, DIError, DisplayInfo, PlatformSnapshot, ScreenRawHandle};

fn utf16_padded(s: &str, len: usize) -> Vec<u16> {
    let mut v: Vec<u16> = s.encode_utf16().collect();
    while v.len() < len {
        v.push(0);
    }
    v
}

fn wl_output(id: u32) -> WaylandOutput {
    WaylandOutput {
        id,
        name: Some(format!("WL-{}", id)),
        transform: 0,
        scale_factor: 1,
        location: (0, 0),
        logical_position: None,
        physical_size: (1920, 1080),
        logical_size: None,
        modes: vec![],
    }
}

fn win_monitor(name: &str) -> WinMonitor {
    WinMonitor {
        handle: 77,
        device_name: utf16_padded(name, 32),
        dev_mode: Some(WinDevMode {
            position: (0, 0),
            pels_width: 1920,
            pels_height: 1080,
            orientation: 0,
            frequency_hertz: 60,
        }),
        width_mm: 600,
        height_mm: 340,
        dpi: None,
        caps: None,
        is_primary_flag: true,
        device_string: None,
    }
}

fn mac_display(id: u32) -> MacDisplay {
    MacDisplay {
        id,
        origin: (0, 0),
        size: (1920, 1080),
        rotation_degrees: 0,
        mode: None,
        size_mm: (600, 340),
        is_main: true,
    }
}

#[test]
fn wayland_output_converts_with_integer_scale() {
    let mut o = wl_output(7);
    o.scale_factor = 2;
    o.logical_position = Some((100, 50));
    o.logical_size = Some((1920, 1080));
    o.transform = 1;
    o.modes = vec![
        WaylandMode { refresh_millihertz: 59999, current: false, preferred: true },
        WaylandMode { refresh_millihertz: 60000, current: true, preferred: false },
    ];
    let snap = PlatformSnapshot::Wayland(vec![Some(o)]);
    let all = DisplayInfo::all(&snap).unwrap();
    let d = &all[0];
    assert_eq!(d.id, 7);
    assert_eq!(d.scale_factor_milli, 2000);
    assert_eq!(d.x, 50);
    assert_eq!(d.y, 25);
    assert_eq!(d.width, 960);
    assert_eq!(d.height, 540);
    assert_eq!(d.width_mm, 1920);
    assert_eq!(d.height_mm, 1080);
    assert_eq!(d.rotation, 90);
    assert_eq!(d.frequency_millihertz, 59999);
    assert!(!d.is_primary);
    assert_eq!(d.name, "WL-7");
    assert_eq!(d.raw_handle, ScreenRawHandle { backend: Backend::Wayland, value: 7 });
}

#[test]
fn wayland_nameless_output_gets_a_synthesized_label() {
    let mut o = wl_output(9);
    o.name = None;
    let snap = PlatformSnapshot::Wayland(vec![Some(o)]);
    let all = DisplayInfo::all(&snap).unwrap();
    assert_eq!(all[0].name, "");
    assert_eq!(all[0].friendly_name, "Unknown Display 9");
}

#[test]
fn wayland_missing_output_info_fails_the_call() {
    let snap = PlatformSnapshot::Wayland(vec![Some(wl_output(1)), None]);
    let r = DisplayInfo::all(&snap);
    assert!(matches!(r, Err(DIError::QueryFailed(_))));
    let r2 = DisplayInfo::from_point(&snap, 0, 0);
    assert!(matches!(r2, Err(DIError::QueryFailed(_))));
}

#[test]
fn wayland_falls_back_to_raw_location_and_physical_size() {
    let o = wl_output(3);
    let snap = PlatformSnapshot::Wayland(vec![Some(o)]);
    let all = DisplayInfo::all(&snap).unwrap();
    assert_eq!(all[0].x, 0);
    assert_eq!(all[0].width, 1920);
    assert_eq!(all[0].height, 1080);
    assert_eq!(all[0].frequency_millihertz, 0);
}

#[test]
fn windows_monitor_id_is_the_fxhash_of_its_device_name() {
    let snap = WinSnapshot { monitors: vec![win_monitor("\\\\.\\DISPLAY1")], paths: vec![] };
    let all = display_info::windows::get_all(&snap).unwrap();
    let d = &all[0];
    assert_eq!(d.name, "\\\\.\\DISPLAY1");
    assert_eq!(d.id, fxhash::hash32("\\\\.\\DISPLAY1".as_bytes()));
    assert_eq!(d.raw_handle, ScreenRawHandle { backend: Backend::Gdi, value: 77 });
}

#[test]
fn windows_dpi_beats_the_caps_ratio() {
    let mut m = win_monitor("\\\\.\\DISPLAY1");
    m.dpi = Some(144);
    m.caps = Some((3840, 1920));
    let snap = WinSnapshot { monitors: vec![m], paths: vec![] };
    let all = display_info::windows::get_all(&snap).unwrap();
    assert_eq!(all[0].scale_factor_milli, 1500);
}

#[test]
fn windows_caps_ratio_applies_without_dpi() {
    let mut m = win_monitor("\\\\.\\DISPLAY1");
    m.caps = Some((3840, 1920));
    let snap = WinSnapshot { monitors: vec![m], paths: vec![] };
    let all = display_info::windows::get_all(&snap).unwrap();
    assert_eq!(all[0].scale_factor_milli, 2000);
    assert_eq!(all[0].width, 960);
    assert_eq!(all[0].height, 540);
}

#[test]
fn windows_friendly_name_comes_from_the_matching_path() {
    let m = win_monitor("\\\\.\\DISPLAY1");
    let paths = vec![
        WinDisplayPath {
            source_device: utf16_padded("\\\\.\\DISPLAY2", 32),
            friendly_name: utf16_padded("Other Monitor", 64),
        },
        WinDisplayPath {
            source_device: utf16_padded("\\\\.\\DISPLAY1", 32),
            friendly_name: utf16_padded("Dell U2720Q", 64),
        },
    ];
    let snap = WinSnapshot { monitors: vec![m], paths };
    let all = display_info::windows::get_all(&snap).unwrap();
    assert_eq!(all[0].friendly_name, "Dell U2720Q");
}

#[test]
fn windows_empty_friendly_name_falls_back_to_the_device_string() {
    let mut m = win_monitor("\\\\.\\DISPLAY1");
    m.device_string = Some(utf16_padded("Generic PnP Monitor", 128));
    let paths = vec![WinDisplayPath {
        source_device: utf16_padded("\\\\.\\DISPLAY1", 32),
        friendly_name: utf16_padded("", 64),
    }];
    let snap = WinSnapshot { monitors: vec![m], paths };
    let all = display_info::windows::get_all(&snap).unwrap();
    assert_eq!(all[0].friendly_name, "Generic PnP Monitor");
}

#[test]
fn windows_without_any_name_source_synthesizes_the_label() {
    let m = win_monitor("\\\\.\\DISPLAY1");
    let id = fxhash::hash32("\\\\.\\DISPLAY1".as_bytes());
    let snap = WinSnapshot { monitors: vec![m], paths: vec![] };
    let all = display_info::windows::get_all(&snap).unwrap();
    assert_eq!(all[0].friendly_name, format!("Unknown Display {}", id));
}

#[test]
fn windows_monitor_without_settings_is_skipped() {
    let mut broken = win_monitor("\\\\.\\DISPLAY1");
    broken.dev_mode = None;
    let snap = WinSnapshot {
        monitors: vec![broken, win_monitor("\\\\.\\DISPLAY2")],
        paths: vec![],
    };
    let all = display_info::windows::get_all(&snap).unwrap();
    assert_eq!(all.len(), 1);
    assert_eq!(all[0].name, "\\\\.\\DISPLAY2");
}

#[test]
fn windows_undecodable_device_name_is_an_encoding_error() {
    let mut m = win_monitor("");
    m.device_name = vec![0xD800, 0x0041, 0];
    let r = build_monitor(&m, &vec![]);
    assert!(matches!(r, Err(DIError::EncodingError(_))));
    let snap = WinSnapshot { monitors: vec![m], paths: vec![] };
    let all = display_info::windows::get_all(&snap).unwrap();
    assert_eq!(all.len(), 0);
}

#[test]
fn windows_orientation_and_frequency_convert() {
    let mut m = win_monitor("\\\\.\\DISPLAY1");
    if let Some(dm) = m.dev_mode.as_mut() {
        dm.orientation = 1;
        dm.frequency_hertz = 60;
    }
    let snap = WinSnapshot { monitors: vec![m], paths: vec![] };
    let all = display_info::windows::get_all(&snap).unwrap();
    assert_eq!(all[0].rotation, 90);
    assert_eq!(all[0].frequency_millihertz, 60000);
}

#[test]
fn mac_scale_comes_from_the_mode_pixel_ratio() {
    let mut d = mac_display(5);
    d.mode = Some(MacDisplayMode { pixel_width: 3840, refresh_millihertz: 120000 });
    d.origin = (100, 0);
    let snap = PlatformSnapshot::CoreGraphics(MacSnapshot {
        displays: vec![d],
        screens: vec![],
    });
    let all = DisplayInfo::all(&snap).unwrap();
    assert_eq!(all[0].scale_factor_milli, 2000);
    assert_eq!(all[0].x, 50);
    assert_eq!(all[0].width, 960);
    assert_eq!(all[0].frequency_millihertz, 120000);
}

#[test]
fn mac_without_a_mode_defaults_to_scale_one() {
    let snap = PlatformSnapshot::CoreGraphics(MacSnapshot {
        displays: vec![mac_display(5)],
        screens: vec![],
    });
    let all = DisplayInfo::all(&snap).unwrap();
    assert_eq!(all[0].scale_factor_milli, 1000);
    assert_eq!(all[0].frequency_millihertz, 0);
    assert_eq!(all[0].name, "Display 5");
    assert_eq!(all[0].friendly_name, "Unknown Display 5");
    assert!(all[0].is_primary);
}

#[test]
fn mac_friendly_name_matches_the_screen_number() {
    let snap = PlatformSnapshot::CoreGraphics(MacSnapshot {
        displays: vec![mac_display(5)],
        screens: vec![
            MacScreenName { screen_number: 4, localized_name: String::from("Other") },
            MacScreenName { screen_number: 5, localized_name: String::from("Built-in Retina Display") },
        ],
    });
    let all = DisplayInfo::all(&snap).unwrap();
    assert_eq!(all[0].friendly_name, "Built-in Retina Display");
}

#[test]
fn mac_unrecognized_rotation_normalizes_to_zero() {
    let mut d = mac_display(5);
    d.rotation_degrees = 45;
    let snap = PlatformSnapshot::CoreGraphics(MacSnapshot { displays: vec![d], screens: vec![] });
    let all = DisplayInfo::all(&snap).unwrap();
    assert_eq!(all[0].rotation, 0);
    let mut d2 = mac_display(5);
    d2.rotation_degrees = 270;
    let snap2 = PlatformSnapshot::CoreGraphics(MacSnapshot { displays: vec![d2], screens: vec![] });
    assert_eq!(DisplayInfo::all(&snap2).unwrap()[0].rotation, 270);
}

#[test]
fn decimal_rendering_matches_std() {
    assert_eq!(u32_to_string(0), "0");
    assert_eq!(u32_to_string(42), "42");
    assert_eq!(u32_to_string(1000), "1000");
    assert_eq!(u32_to_string(u32::MAX), u32::MAX.to_string());
    assert_eq!(unknown_display_name(7), "Unknown Display 7");
    assert_eq!(display_name(123), "Display 123");
}

#[test]
fn device_names_truncate_at_the_first_nul() {
    let units: Vec<u16> = vec![0x41, 0x42, 0, 0x43];
    assert_eq!(decode_device_name(&units).unwrap(), "AB");
    let empty: Vec<u16> = vec![0, 0x41];
    assert_eq!(decode_device_name(&empty).unwrap(), "");
    let none: Vec<u16> = vec![];
    assert_eq!(decode_device_name(&none).unwrap(), "");
    let bad: Vec<u16> = vec![0xD800, 0];
    assert!(decode_device_name(&bad).is_none());
}

#[test]
fn error_messages_carry_their_text() {
    assert_eq!(DIError::new("boom").message(), "boom");
    assert_eq!(DIError::NotFound.message(), "no matching display");
    assert_eq!(DIError::SubsystemUnavailable(String::from("no X server")).message(), "no X server");
}

fn plain_display(x: i32, y: i32, w: u32, h: u32) -> DisplayInfo {
    DisplayInfo {
        id: 1,
        name: String::from("D"),
        friendly_name: String::from("D"),
        raw_handle: ScreenRawHandle { backend: Backend::Xorg, value: 1 },
        x,
        y,
        width: w,
        height: h,
        width_mm: 0,
        height_mm: 0,
        rotation: 0,
        scale_factor_milli: 1000,
        frequency_millihertz: 0,
        is_primary: false,
    }
}

#[test]
fn containment_is_half_open_on_both_axes() {
    let ds = vec![plain_display(0, 0, 100, 100)];
    assert!(get_from_point_in(&ds, 0, 0).is_ok());
    assert!(get_from_point_in(&ds, 99, 99).is_ok());
    assert!(matches!(get_from_point_in(&ds, 100, 0), Err(DIError::NotFound)));
    assert!(matches!(get_from_point_in(&ds, 0, 100), Err(DIError::NotFound)));
    assert!(matches!(get_from_point_in(&ds, -1, 0), Err(DIError::NotFound)));
}

#[test]
fn wayland_nonpositive_scale_report_degrades_to_one() {
    let mut o = wl_output(2);
    o.scale_factor = 0;
    let snap = PlatformSnapshot::Wayland(vec![Some(o)]);
    let all = DisplayInfo::all(&snap).unwrap();
    assert_eq!(all[0].scale_factor_milli, 1000);
    let mut o2 = wl_output(2);
    o2.scale_factor = -3;
    let snap2 = PlatformSnapshot::Wayland(vec![Some(o2)]);
    assert_eq!(DisplayInfo::all(&snap2).unwrap()[0].scale_factor_milli, 1000);
}

#[test]
fn wayland_negative_refresh_report_degrades_to_zero() {
    let mut o = wl_output(2);
    o.modes = vec![WaylandMode { refresh_millihertz: -5, current: true, preferred: false }];
    let snap = PlatformSnapshot::Wayland(vec![Some(o)]);
    assert_eq!(DisplayInfo::all(&snap).unwrap()[0].frequency_millihertz, 0);
}

#[test]
fn windows_extreme_frequency_saturates() {
    let mut m = win_monitor("\\\\.\\DISPLAY1");
    if let Some(dm) = m.dev_mode.as_mut() {
        dm.frequency_hertz = u32::MAX;
    }
    let snap = WinSnapshot { monitors: vec![m], paths: vec![] };
    let all = display_info::windows::get_all(&snap).unwrap();
    assert_eq!(all[0].frequency_millihertz, u32::MAX);
}

#[test]
fn the_first_containing_display_wins_on_overlap() {
    let mut a = plain_display(0, 0, 100, 100);
    a.id = 1;
    let mut b = plain_display(50, 0, 100, 100);
    b.id = 2;
    let hit = get_from_point_in(&vec![a, b], 75, 10).unwrap();
    assert_eq!(hit.id, 1);
}
