use breadlock::text;
use breadlock::ui::config::{config_root, Appearance, BackgroundMode, ConfigRoot};
use breadlock::ui::desktop_entry::{
    is_runnable, is_searched, parse, required_command, scan_dir, DesktopFile,
};
use breadlock::ui::frame::Frame;
use breadlock::ui::painter::{
    blend_over, blend_pixel, draw_glyph_pixel, ink_span, resolve_family, FamilyChoice,
};
use breadlock::ui::theme::parse_hex;

#[test]
fn character_classes_agree_with_std() {
    for n in 0..=0x10ffffu32 {
        if let Some(c) = char::from_u32(n) {
            assert_eq!(text::char_is_space(c), c.is_whitespace(), "U+{n:04X}");
            assert_eq!(text::char_is_control(c), c.is_control(), "U+{n:04X}");
            assert_eq!(text::char_ascii_lower(c), c.to_ascii_lowercase(), "U+{n:04X}");
            assert_eq!(text::char_width(c), c.len_utf8(), "U+{n:04X}");
        }
    }
}

const SAMPLES: [&str; 16] = [
    "",
    " ",
    "\n",
    "a",
    "a\n",
    "a\r\n",
    "a\r",
    "a\n\nb",
    "\r\n\r\n",
    "  a  b\t c\n ",
    "a:b::c:",
    ":",
    "x=y=z",
    "é — ü",
    "\u{3000}wide\u{2028}",
    "tail\r\nno end",
];

#[test]
fn lines_words_and_pieces_agree_with_std() {
    for s in SAMPLES {
        assert_eq!(text::lines_of(s), s.lines().collect::<Vec<_>>(), "{s:?}");
        assert_eq!(text::words_of(s), s.split_whitespace().collect::<Vec<_>>(), "{s:?}");
        assert_eq!(text::split_at_char(s, ':'), s.split(':').collect::<Vec<_>>(), "{s:?}");
        assert_eq!(text::trimmed(s), s.trim(), "{s:?}");
        assert_eq!(text::str_bytes(s), s.len(), "{s:?}");
        assert_eq!(text::strip_front(s, "a"), s.strip_prefix("a").map(str::to_string), "{s:?}");
        assert_eq!(text::has_ending(s, "b"), s.ends_with("b"), "{s:?}");
        assert_eq!(text::has_char(s, '='), s.contains('='), "{s:?}");
    }
}

#[test]
fn comparisons_agree_with_std() {
    for a in SAMPLES {
        for b in SAMPLES {
            assert_eq!(text::same(a, b), a == b);
            assert_eq!(text::str_ordered(a, b), a <= b);
            assert_eq!(text::same_ignoring_case(a, b), a.eq_ignore_ascii_case(b));
        }
    }
    assert!(text::same_ignoring_case("SANS-Serif", "sans-serif"));
    assert!(!text::same_ignoring_case("É", "é"));
}

#[test]
fn numbers_agree_with_std() {
    for s in ["", "0", "7", "+12", "-1", "+", "++1", "4294967295", "4294967296", "1000 ", "00012"] {
        assert_eq!(text::parse_number(s), s.parse::<u32>().ok(), "{s:?}");
    }
    for n in [0u32, 9, 10, 99, 100, 12345, u32::MAX] {
        assert_eq!(text::number_text(n), n.to_string());
        assert_eq!(text::parse_number(&text::number_text(n)), Some(n));
    }
}

#[test]
fn joining_and_escaping() {
    let parts = vec!["a".to_string(), "b".to_string(), "c".to_string()];
    assert_eq!(text::join_with(&parts, ", "), "a, b, c");
    assert_eq!(text::join_with(&Vec::new(), ", "), "");
    assert_eq!(text::joined("ab", "cd"), "abcd");
    assert_eq!(text::escape(r#"a"b\c"#), r#"a\"b\\c"#);
}

#[test]
fn defaults_match_design_system() {
    let a = Appearance::default();
    assert_eq!(a.background.mode, BackgroundMode::Color);
    assert!(
        !a.background.ken_burns,
        "Ken Burns must be opt-in (CPU cost)"
    );
    assert_eq!(a.clock.format, "%H:%M");
    assert_eq!(a.clock.date_format, "%A · %b %d");
    assert_eq!(a.font.family, "Varela Round");
}

#[test]
fn settings_are_looked_for_in_xdg_then_home_then_here() {
    assert_eq!(config_root(true, true), ConfigRoot::Xdg);
    assert_eq!(config_root(true, false), ConfigRoot::Xdg);
    assert_eq!(config_root(false, true), ConfigRoot::Home);
    assert_eq!(config_root(false, false), ConfigRoot::Current);
}

#[test]
fn parses_known_hex() {
    assert_eq!(parse_hex("#1e1e2e"), (0x1e, 0x1e, 0x2e));
    assert_eq!(parse_hex("89b4fa"), (0x89, 0xb4, 0xfa));
}

#[test]
fn malformed_hex_falls_back_to_black() {
    assert_eq!(parse_hex("nope"), (0, 0, 0));
}

#[test]
fn anything_but_six_hex_digits_is_black() {
    for s in [
        "", "#", "##ff", "#ff0", "+a+b+c", "-1-2-3", "zz10zz", "#ffzz00", "#ffff0g", "é1234",
        "12é34", "#12345", "#1234567", "a+b+c+", "#ff ff0", "ffffff#",
    ] {
        assert_eq!(parse_hex(s), (0, 0, 0), "{s:?}");
    }
    assert_eq!(parse_hex("#FfEeDd"), (0xff, 0xee, 0xdd));
    assert_eq!(parse_hex("##0a9f10"), (0x0a, 0x9f, 0x10));
}

const HYPRLAND_DESKTOP: &str = "[Desktop Entry]\n\
    Name=Hyprland\n\
    Comment=An intelligent dynamic tiling Wayland compositor\n\
    Exec=Hyprland\n\
    Type=Application\n";

#[test]
fn parses_name_exec_type() {
    let e = parse(HYPRLAND_DESKTOP).unwrap();
    assert_eq!(e.name, "Hyprland");
    assert_eq!(e.command, "Hyprland");
    assert_eq!(e.entry_type, "Application");
    assert_eq!(e.try_exec, None);
}

#[test]
fn what_is_not_read_can_be_appended() {
    let entry = parse(HYPRLAND_DESKTOP);
    assert!(entry.is_some());
    for extra in [
        "",
        "\n\n# Name=Other\n",
        "Name[de]=Anders\nActions=new;quit;",
        "[Desktop Action new]\nName=New\nExec=new\nHidden=true",
    ] {
        assert_eq!(parse(&format!("{HYPRLAND_DESKTOP}\n{extra}")), entry, "{extra:?}");
        let unended = HYPRLAND_DESKTOP.trim_end();
        assert_eq!(parse(&format!("{unended}\r\n{extra}")), entry, "{extra:?}");
    }
    let hidden = parse(&format!("{HYPRLAND_DESKTOP}\n[Desktop Entry]\nHidden=true"));
    assert!(hidden.is_none());
}

#[test]
fn ignores_keys_outside_desktop_entry_section() {
    let contents = "[Desktop Action foo]\nName=Not this one\n\
        [Desktop Entry]\nName=Real\nExec=real-cmd\n";
    let e = parse(contents).unwrap();
    assert_eq!(e.name, "Real");
    assert_eq!(e.command, "real-cmd");
}

#[test]
fn missing_exec_returns_none() {
    assert!(parse("[Desktop Entry]\nName=Broken\n").is_none());
}

#[test]
fn missing_type_defaults_to_application() {
    let e = parse("[Desktop Entry]\nName=X\nExec=x\n").unwrap();
    assert_eq!(e.entry_type, "Application");
}

#[test]
fn hidden_or_nodisplay_returns_none() {
    assert!(parse("[Desktop Entry]\nName=X\nExec=x\nHidden=true\n").is_none());
    assert!(parse("[Desktop Entry]\nName=X\nExec=x\nNoDisplay=true\n").is_none());
    assert!(parse("[Desktop Entry]\nName=X\nExec=x\nHidden=false\n").is_some());
    assert!(parse("[Desktop Entry]\nName=X\nExec=x\nNoDisplay=false\n").is_some());
}

#[test]
fn last_value_wins_and_empty_try_exec_is_ignored() {
    let e = parse(
        "[Desktop Entry]\nName=First\n  Name = Second \nExec=a=b\nTryExec=probe\nTryExec=\n\
         # Name=Comment\nHidden=TRUE\nHidden=no\n[Other]\nName=Third\n",
    )
    .unwrap();
    assert_eq!(e.name, "Second");
    assert_eq!(e.command, "a=b");
    assert_eq!(e.try_exec.as_deref(), Some("probe"));
    assert_eq!(required_command("[Desktop Entry]\nName=A\nExec=a\nTryExec=x\n").as_deref(), Some("x"));
    assert_eq!(required_command("nothing"), None);
}

fn file(name: &str, contents: &str, command_missing: bool) -> DesktopFile {
    let path = std::path::Path::new(name);
    DesktopFile {
        stem: path.file_stem().and_then(|s| s.to_str()).map(str::to_string),
        extension: path.extension().and_then(|s| s.to_str()).map(str::to_string),
        contents: Some(contents.to_string()),
        command_missing,
    }
}

#[test]
fn scan_dir_on_missing_directory_returns_empty() {
    assert!(scan_dir(&None).is_empty());
}

#[test]
fn scan_dir_finds_and_sorts_desktop_files() {
    let found = scan_dir(&Some(vec![
        file("zzz.desktop", HYPRLAND_DESKTOP, false),
        file("aaa.desktop", "[Desktop Entry]\nName=A\nExec=a\n", false),
        file("not-a-session.txt", "ignored", false),
    ]));
    assert_eq!(found.len(), 2);
    assert_eq!(found[0].0, "aaa");
    assert_eq!(found[1].0, "zzz");
}

#[test]
fn scan_dir_skips_hidden_nodisplay_and_missing_tryexec() {
    let found = scan_dir(&Some(vec![
        file("hidden.desktop", "[Desktop Entry]\nName=Hidden\nExec=hidden\nHidden=true\n", false),
        file("nodisp.desktop", "[Desktop Entry]\nName=NoDisp\nExec=nodisp\nNoDisplay=true\n", false),
        file(
            "gone.desktop",
            "[Desktop Entry]\nName=Gone\nExec=gone\nTryExec=/no/such/breadlock-tryexec\n",
            true,
        ),
        file("ok.desktop", "[Desktop Entry]\nName=Ok\nExec=ok\n", false),
    ]));
    assert_eq!(found.len(), 1);
    assert_eq!(found[0].0, "ok");
}

#[test]
fn scan_dir_skips_files_that_cannot_be_read() {
    let mut unreadable = file("a.desktop", "", false);
    unreadable.contents = None;
    let mut unnamed = file("b.desktop", HYPRLAND_DESKTOP, false);
    unnamed.stem = None;
    assert!(scan_dir(&Some(vec![unreadable, unnamed])).is_empty());
}

#[test]
fn commands_with_a_slash_are_not_searched() {
    assert!(is_searched("Hyprland"));
    assert!(!is_searched("/usr/bin/Hyprland"));
    assert!(!is_searched("./x"));
    assert!(is_runnable(true, 0o755));
    assert!(is_runnable(true, 0o001));
    assert!(!is_runnable(true, 0o644));
    assert!(!is_runnable(false, 0o755));
}

#[test]
fn frames_have_pixels() {
    assert!(Frame::new(0, 4).is_none());
    assert!(Frame::new(4, 0).is_none());
    assert!(Frame::new(usize::MAX, 2).is_none());
    assert!(Frame::new(usize::MAX / 4, 2).is_none());
    let mut f = Frame::new(2, 3).unwrap();
    assert_eq!(f.data, vec![0u8; 24]);
    f.fill(1, 2, 3, 4);
    assert!(f.data.chunks(4).all(|p| p == [1, 2, 3, 4]));
}

#[test]
fn unknown_families_fall_back_to_sans_serif() {
    let installed = vec!["DejaVu Sans".to_string(), "Varela Round".to_string()];
    assert_eq!(resolve_family("varela round", &installed), FamilyChoice::Named);
    assert_eq!(resolve_family("Missing", &installed), FamilyChoice::SansSerif);
    assert_eq!(resolve_family("", &installed), FamilyChoice::SansSerif);
    let generic = vec!["sans-serif".to_string()];
    assert_eq!(resolve_family("Sans-Serif", &generic), FamilyChoice::SansSerif);
}

#[test]
fn blending_keeps_opaque_pixels_opaque() {
    // (200 * 100 + 10 * 155) / 255 = 84, and so on.
    assert_eq!(blend_pixel((200, 100, 0, 100), (10, 20, 30, 255)), (84, 51, 18, 255));
    assert_eq!(blend_pixel((9, 8, 7, 255), (10, 20, 30, 255)), (9, 8, 7, 255));
}

#[test]
fn blending_onto_transparency_keeps_real_alpha() {
    assert_eq!(blend_pixel((255, 255, 255, 128), (0, 0, 0, 0)), (128, 128, 128, 128));
    // 255 * 128 / 255 + 64 * 127 / 255 = 128 + 31.
    assert_eq!(blend_pixel((255, 0, 0, 128), (64, 64, 0, 64)), (159, 31, 0, 159));
}

#[test]
fn blending_leaves_a_pixel_that_is_not_premultiplied() {
    // The outcome would have a colour above its alpha, which is refused.
    let odd = (255, 255, 255, 10);
    assert_eq!(blend_pixel((0, 0, 0, 0), odd), odd);
}

#[test]
fn transparent_and_opaque_sources_are_the_two_extremes() {
    for dst in [(10, 20, 30, 40), (0, 0, 0, 0), (50, 60, 70, 255)] {
        assert_eq!(blend_pixel((200, 201, 202, 0), dst), dst);
        assert_eq!(blend_pixel((200, 201, 202, 255), dst), (200, 201, 202, 255));
    }
}

#[test]
fn glyph_pixels_are_clipped_and_folded() {
    let mut f = Frame::new(2, 2).unwrap();
    f.fill(0, 0, 0, 255);
    let before = f.data.clone();
    draw_glyph_pixel(&mut f, -1, 0, (255, 255, 255, 255), 255);
    draw_glyph_pixel(&mut f, 0, 2, (255, 255, 255, 255), 255);
    draw_glyph_pixel(&mut f, 2, 0, (255, 255, 255, 255), 255);
    draw_glyph_pixel(&mut f, 0, 0, (255, 255, 255, 0), 255);
    draw_glyph_pixel(&mut f, 0, 0, (255, 255, 255, 255), 0);
    assert_eq!(f.data, before);
    // A tenth of the alpha must not come out near white.
    draw_glyph_pixel(&mut f, 1, 1, (255, 255, 255, 255), 26);
    assert_eq!(&f.data[12..16], &[26, 26, 26, 255]);
    blend_over(&mut f, 0, 7, 255, 255, 255, 255);
    assert_eq!(&f.data[0..12], &before[0..12]);
}

#[test]
fn ink_span_finds_the_first_and_last_row() {
    let mut f = Frame::new(3, 5).unwrap();
    assert_eq!(ink_span(&f), None);
    f.data[(1 * 3 + 2) * 4 + 3] = 1;
    assert_eq!(ink_span(&f), Some((1, 1)));
    f.data[(3 * 3) * 4 + 3] = 255;
    assert_eq!(ink_span(&f), Some((1, 3)));
}
