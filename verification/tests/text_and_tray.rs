use phonemike::devices::{contains_str, select_virtual_cable};
use phonemike::tray::{icon_rgba, tray_events, TrayEvents, TrayInput};
use phonemike::update::{newer_release, parse_version, release_tag, trim, CURRENT_VERSION};
use phonemike::wide::{encode_utf16, to_wide};

fn names(v: &[&str]) -> Vec<String> {
    v.iter().map(|s| s.to_string()).collect()
}

#[test]
fn prefers_vb_cable() {
    let n = names(&["Speakers", "VoiceMeeter Input (VB-Audio)", "CABLE Input (VB-Audio Virtual Cable)"]);
    assert_eq!(select_virtual_cable(&n), Some("CABLE Input (VB-Audio Virtual Cable)".to_string()));
}

#[test]
fn first_vb_cable_wins() {
    let n = names(&["vb-cable A", "CABLE INPUT B"]);
    assert_eq!(select_virtual_cable(&n), Some("vb-cable A".to_string()));
}

#[test]
fn last_voicemeeter_is_the_fallback() {
    let n = names(&["VoiceMeeter Input", "Speakers", "Voice Meeter Input Aux"]);
    assert_eq!(select_virtual_cable(&n), Some("Voice Meeter Input Aux".to_string()));
}

#[test]
fn no_cable_found() {
    assert_eq!(select_virtual_cable(&names(&["Speakers", "Headphones", "Cable"])), None);
    assert_eq!(select_virtual_cable(&vec![]), None);
}

#[test]
fn lowercases_unicode_names() {
    // U+0130 lowercases to "i̇" and U+212A (Kelvin sign) to "k".
    let n = names(&["\u{212A}VB-CABLE"]);
    assert_eq!(select_virtual_cable(&n), Some("\u{212A}VB-CABLE".to_string()));
}

#[test]
fn substring_search() {
    assert!(contains_str("abc", ""));
    assert!(contains_str("abc", "abc"));
    assert!(contains_str("xxabcxx", "bc"));
    assert!(!contains_str("ab", "abc"));
    assert!(!contains_str("aXbc", "abc"));
    assert!(contains_str("hé llo", "é l"));
}

#[test]
fn utf16_encoding() {
    assert_eq!(encode_utf16("A\u{e9}\u{1F600}"), vec![0x41, 0xe9, 0xD83D, 0xDE00]);
    assert_eq!(to_wide("Hi"), vec![0x48, 0x69, 0]);
    assert_eq!(to_wide(""), vec![0]);
    let s = "C:\\x \u{10FFFF}";
    assert_eq!(encode_utf16(s), s.encode_utf16().collect::<Vec<u16>>());
}

#[test]
fn trims_unicode_white_space() {
    assert_eq!(trim("  v1.2.0\r\n"), "v1.2.0");
    assert_eq!(trim("\u{3000}\u{a0}x y\u{2029}"), "x y");
    assert_eq!(trim(" \t "), "");
    assert_eq!(trim(""), "");
    let odd = "\u{85}\u{1680}a\u{205f}";
    assert_eq!(trim(odd), odd.trim());
}

#[test]
fn release_tags() {
    assert_eq!(release_tag("v1.3.0\r\n"), Some("v1.3.0".to_string()));
    assert_eq!(release_tag("\r\n"), None);
    assert_eq!(release_tag("1.3.0"), None);
    assert_eq!(release_tag("  V1"), None);
}

#[test]
fn newer_releases() {
    assert_eq!(newer_release(Some("v1.3.0".to_string())), Some("v1.3.0".to_string()));
    assert_eq!(newer_release(Some(CURRENT_VERSION.to_string())), None);
    assert_eq!(newer_release(None), None);
}

#[test]
fn tray_requests() {
    let ev = tray_events(&[TrayInput::IconOther, TrayInput::IconLeftClick, TrayInput::MenuQuit]);
    assert_eq!(ev, TrayEvents { toggle: true, connect: false, disconnect: false, quit: true });
    let ev = tray_events(&[TrayInput::MenuShow, TrayInput::MenuConnect, TrayInput::MenuDisconnect, TrayInput::MenuOther]);
    assert_eq!(ev, TrayEvents { toggle: true, connect: true, disconnect: true, quit: false });
    let ev = tray_events(&[]);
    assert_eq!(ev, TrayEvents { toggle: false, connect: false, disconnect: false, quit: false });
}

#[test]
fn icon_matches_the_float_drawing() {
    let rgba = icon_rgba();
    assert_eq!(rgba.len(), 32 * 32 * 4);
    for y in 0..32u32 {
        for x in 0..32u32 {
            let dx = x as f32 + 0.5 - 16.0;
            let dy = y as f32 + 0.5 - 16.0;
            let dist = (dx * dx + dy * dy).sqrt();
            let idx = ((y * 32 + x) * 4) as usize;
            let expected: [u8; 4] = if dist <= 14.0 && dist >= 8.0 {
                [50, 200, 80, 255]
            } else if dist < 8.0 {
                [30, 30, 35, 255]
            } else {
                [0, 0, 0, 0]
            };
            assert_eq!(&rgba[idx..idx + 4], &expected, "pixel {x},{y}");
        }
    }
}

#[test]
fn older_releases_are_not_announced() {
    assert_eq!(newer_release(Some("v1.0.0".to_string())), None);
    assert_eq!(newer_release(Some("v1.1.0".to_string())), None);
    assert_eq!(newer_release(Some("v0.9.9".to_string())), None);
    assert_eq!(newer_release(Some("v1.0.99".to_string())), None);
}

#[test]
fn later_releases_are_announced() {
    for t in ["v1.1.2", "v1.1.10", "v1.2.0", "v2.0.0", "v10.0.0", "v1.01.2"] {
        assert_eq!(newer_release(Some(t.to_string())), Some(t.to_string()), "{t}");
    }
    let huge = "v1.1.99999999999999999999999".to_string();
    assert_eq!(newer_release(Some(huge.clone())), Some(huge));
}

#[test]
fn tags_that_are_not_versions_are_ignored() {
    for t in ["1.2.0", "v1.2", "v1.2.0-beta", "v1..2", "v.1.2", "V2.0.0", "", "v1.2.3.4", "latest"] {
        assert_eq!(newer_release(Some(t.to_string())), None, "{t}");
    }
}

#[test]
fn parses_version_tags() {
    assert_eq!(parse_version("v1.1.1"), Some((1, 1, 1)));
    assert_eq!(parse_version("v12.0.345"), Some((12, 0, 345)));
    assert_eq!(parse_version("v007.08.9"), Some((7, 8, 9)));
    assert_eq!(parse_version("v1.2.99999999999999999999"), Some((1, 2, u64::MAX)));
    assert_eq!(parse_version("v1.2.x"), None);
    assert_eq!(parse_version("v1.2."), None);
    assert_eq!(parse_version(CURRENT_VERSION), Some((1, 1, 1)));
}
