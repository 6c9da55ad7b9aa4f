use display_info::xorg::{
    current_millihertz, mode_millihertz, parse_dpi_milli, xft_dpi_milli, XorgModeInfo,
};
use display_info::normalize::{
    compute_scale_milli, normalize_coord, normalize_len, rotation_from_orientation,
    rotation_from_randr, rotation_from_transform, scale_from_dpi_milli, scale_from_ratio,
};
use display_info::session::is_wayland_session;

#[test]
fn dpi_integer_parses_to_milli() {
    assert_eq!(parse_dpi_milli("144"), Some(144000));
    assert_eq!(parse_dpi_milli("96"), Some(96000));
    assert_eq!(parse_dpi_milli("0"), Some(0));
}

#[test]
fn dpi_fraction_parses_to_milli() {
    assert_eq!(parse_dpi_milli("96.5"), Some(96500));
    assert_eq!(parse_dpi_milli("1.25"), Some(1250));
    assert_eq!(parse_dpi_milli("12.3456"), Some(12345));
    assert_eq!(parse_dpi_milli("144."), Some(144000));
}

#[test]
fn dpi_garbage_is_rejected() {
    assert_eq!(parse_dpi_milli(""), None);
    assert_eq!(parse_dpi_milli("abc"), None);
    assert_eq!(parse_dpi_milli(".5"), None);
    assert_eq!(parse_dpi_milli("9 6"), None);
    assert_eq!(parse_dpi_milli("96.5.1"), None);
    assert_eq!(parse_dpi_milli("99999999999999"), None);
}

#[test]
fn xft_dpi_line_is_found_among_other_entries() {
    let resource = "Xcursor.size:\t24\nXft.dpi:\t192\nXft.antialias:\t1\n";
    assert_eq!(xft_dpi_milli(resource), Some(192000));
}

#[test]
fn xft_dpi_line_at_the_start_is_found() {
    assert_eq!(xft_dpi_milli("Xft.dpi:\t144"), Some(144000));
}

#[test]
fn xft_dpi_requires_the_exact_prefix() {
    assert_eq!(xft_dpi_milli("Xft.dpi: 96\n"), None);
    assert_eq!(xft_dpi_milli("aXft.dpi:\t96\n"), None);
    assert_eq!(xft_dpi_milli("Xcursor.size:\t24\n"), None);
    assert_eq!(xft_dpi_milli(""), None);
}

#[test]
fn scale_chain_prefers_dpi() {
    assert_eq!(compute_scale_milli(Some(144000), Some(3840), 1920, Some((3840, 1920))), 1500);
}

#[test]
fn scale_chain_falls_back_to_mode_ratio() {
    assert_eq!(compute_scale_milli(None, Some(3840), 1920, None), 2000);
}

#[test]
fn scale_chain_falls_back_to_caps_ratio() {
    assert_eq!(compute_scale_milli(None, None, 0, Some((3840, 1920))), 2000);
}

#[test]
fn scale_chain_exhausted_defaults_to_one() {
    assert_eq!(compute_scale_milli(None, None, 0, None), 1000);
    assert_eq!(compute_scale_milli(None, Some(3840), 0, None), 1000);
    assert_eq!(compute_scale_milli(Some(10), None, 0, None), 1000);
}

#[test]
fn dpi_below_the_baseline_still_scales() {
    assert_eq!(scale_from_dpi_milli(48000), Some(500));
    assert_eq!(scale_from_dpi_milli(96000), Some(1000));
    assert_eq!(scale_from_dpi_milli(0), None);
}

#[test]
fn ratio_rejects_zero_division_and_zero_scale() {
    assert_eq!(scale_from_ratio(3840, 1920), Some(2000));
    assert_eq!(scale_from_ratio(1920, 3840), Some(500));
    assert_eq!(scale_from_ratio(1920, 0), None);
    assert_eq!(scale_from_ratio(0, 1920), None);
    assert_eq!(scale_from_ratio(1, 2000), None);
}

#[test]
fn coordinates_divide_by_the_scale_truncating_toward_zero() {
    assert_eq!(normalize_coord(1919, 2000), 959);
    assert_eq!(normalize_coord(-1919, 2000), -959);
    assert_eq!(normalize_coord(0, 2000), 0);
    assert_eq!(normalize_coord(100, 1000), 100);
    assert_eq!(normalize_len(3840, 2000), 1920);
    assert_eq!(normalize_len(1081, 2000), 540);
}

#[test]
fn normalization_saturates_at_the_type_bounds() {
    assert_eq!(normalize_len(u32::MAX, 1), u32::MAX);
    assert_eq!(normalize_coord(i32::MAX, 1), i32::MAX);
    assert_eq!(normalize_coord(i32::MIN, 1), i32::MIN);
    assert_eq!(normalize_coord(i32::MIN, 1000), i32::MIN);
}

#[test]
fn mode_frequency_follows_the_dot_clock() {
    let m = XorgModeInfo {
        id: 1,
        dot_clock: 148500000,
        htotal: 2200,
        vtotal: 1125,
        double_scan: false,
        interlace: false,
    };
    assert_eq!(mode_millihertz(&m), 60000);
}

#[test]
fn double_scan_halves_and_interlace_doubles_the_rate() {
    let base = XorgModeInfo {
        id: 1,
        dot_clock: 40000000,
        htotal: 1000,
        vtotal: 500,
        double_scan: false,
        interlace: false,
    };
    assert_eq!(mode_millihertz(&base), 80000);
    let ds = XorgModeInfo { double_scan: true, ..base };
    assert_eq!(mode_millihertz(&ds), 40000);
    let il = XorgModeInfo { interlace: true, ..base };
    assert_eq!(mode_millihertz(&il), 160000);
}

#[test]
fn degenerate_mode_totals_give_zero_frequency() {
    let m = XorgModeInfo {
        id: 1,
        dot_clock: 40000000,
        htotal: 0,
        vtotal: 500,
        double_scan: false,
        interlace: false,
    };
    assert_eq!(mode_millihertz(&m), 0);
    let m2 = XorgModeInfo { htotal: 1000, vtotal: 0, ..m };
    assert_eq!(mode_millihertz(&m2), 0);
    let m3 = XorgModeInfo { htotal: 1000, vtotal: 1, interlace: true, ..m };
    assert_eq!(mode_millihertz(&m3), 0);
}

#[test]
fn the_first_matching_mode_decides_the_frequency() {
    let a = XorgModeInfo {
        id: 7,
        dot_clock: 40000000,
        htotal: 1000,
        vtotal: 500,
        double_scan: false,
        interlace: false,
    };
    let b = XorgModeInfo { dot_clock: 80000000, ..a };
    assert_eq!(current_millihertz(&vec![a, b], 7), 80000);
    assert_eq!(current_millihertz(&vec![a, b], 8), 0);
}

#[test]
fn rotation_mappers_cover_the_four_way_scheme() {
    assert_eq!(rotation_from_randr(1), 0);
    assert_eq!(rotation_from_randr(2), 90);
    assert_eq!(rotation_from_randr(4), 180);
    assert_eq!(rotation_from_randr(8), 270);
    assert_eq!(rotation_from_randr(3), 0);
    assert_eq!(rotation_from_orientation(0), 0);
    assert_eq!(rotation_from_orientation(1), 90);
    assert_eq!(rotation_from_orientation(2), 180);
    assert_eq!(rotation_from_orientation(3), 270);
    assert_eq!(rotation_from_orientation(9), 0);
    assert_eq!(rotation_from_transform(0), 0);
    assert_eq!(rotation_from_transform(1), 90);
    assert_eq!(rotation_from_transform(2), 180);
    assert_eq!(rotation_from_transform(3), 270);
    assert_eq!(rotation_from_transform(5), 90);
    assert_eq!(rotation_from_transform(6), 180);
    assert_eq!(rotation_from_transform(7), 270);
    assert_eq!(rotation_from_transform(11), 0);
}

#[test]
fn wayland_session_is_detected_case_insensitively() {
    assert!(is_wayland_session(Some("wayland-0"), None));
    assert!(is_wayland_session(None, Some("Wayland")));
    assert!(is_wayland_session(None, Some("WAYLAND")));
    assert!(!is_wayland_session(None, Some("x11")));
    assert!(!is_wayland_session(None, None));
    assert!(!is_wayland_session(Some("way"), None));
}

#[test]
fn the_wayland_display_value_takes_precedence() {
    assert!(!is_wayland_session(Some("foo"), Some("wayland")));
    assert!(is_wayland_session(Some("wayland-1"), Some("x11")));
}
