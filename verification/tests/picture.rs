use breadlock::lock::background::{
    blit_translate, Background, ImageBg, Prepared, ScaledBg, SCALED_CACHE_SLOTS,
};
use breadlock::lock::render::{
    blit_to_shm, buffer_fits, caret_is_on, ink_of_dot, plan_chrome, shm_layout, staggered_t,
    unit_progress, DotInk, FrameInputs, PillTint, Progress, CLOCK_DELAY_MS, PILL_DELAY_MS,
    STATUS_DELAY_MS,
};
use breadlock::ui::config;
use breadlock::ui::frame::Frame;
use std::f32::consts::TAU;
use tiny_skia::{Pixmap, PixmapPaint, Transform};

/// A frame whose pixel at (x, y) is `(x * 63, y * 63, 0, 255)`.
fn source_grid() -> Frame {
    let mut f = Frame::new(4, 4).unwrap();
    for y in 0..4 {
        for x in 0..4 {
            let at = (y * 4 + x) * 4;
            f.data[at..at + 4].copy_from_slice(&[(x * 63) as u8, (y * 63) as u8, 0, 255]);
        }
    }
    f
}

fn fixed(v: f32) -> i64 {
    (v * 65536.0) as i64
}

fn red(f: &Frame, i: usize) -> u8 {
    f.data[i * 4]
}

fn green(f: &Frame, i: usize) -> u8 {
    f.data[i * 4 + 1]
}

#[test]
fn blit_translate_copies_shifted_region() {
    let src = source_grid();
    let mut dst = Frame::new(2, 2).unwrap();
    // Shift the 4x4 source by (-1, -1): the visible region is src[1..3, 1..3].
    blit_translate(&mut dst, &src, fixed(-1.0), fixed(-1.0), false);
    assert_eq!(red(&dst, 0), 63, "(0,0) should be src(1,1) red");
    assert_eq!(green(&dst, 0), 63, "(0,0) should be src(1,1) green");
    assert_eq!(red(&dst, 1), 126, "(1,0) should be src(2,1) red");
    assert_eq!(green(&dst, 1), 63);
    assert_eq!(red(&dst, 2), 63, "(0,1) should be src(1,2) red");
    assert_eq!(green(&dst, 2), 126);
    assert_eq!(red(&dst, 3), 126, "(1,1) should be src(2,2)");
    assert_eq!(green(&dst, 3), 126);
}

#[test]
fn blit_translate_clamps_within_source() {
    // An offset larger than the overhang must clamp, not read out of
    // bounds or leave uninitialized rows.
    let src = source_grid();
    let mut dst = Frame::new(2, 2).unwrap();
    blit_translate(&mut dst, &src, fixed(-99.0), fixed(-99.0), false);
    // Clamped to the bottom-right 2x2 of the source.
    assert_eq!(red(&dst, 0), 126);
    assert_eq!(green(&dst, 0), 126);
    assert_eq!(red(&dst, 3), 189);
    assert_eq!(green(&dst, 3), 189);
    blit_translate(&mut dst, &src, i64::MAX, i64::MIN, true);
    assert_eq!((red(&dst, 0), green(&dst, 0)), (0, 126));
}

#[test]
fn bilinear_shift_matches_fractional_position() {
    // A row of (0..255, 0, 0, 255): a half-pixel right shift should give
    // the exact average of each adjacent pair.
    let mut src = Frame::new(8, 1).unwrap();
    for x in 0..8 {
        src.data[x * 4..x * 4 + 4].copy_from_slice(&[(x * 32) as u8, 0, 0, 255]);
    }
    let mut dst = Frame::new(6, 1).unwrap();
    // Shift by (-0.5, 0): visible region starts at src 0.5 → each output
    // pixel averages src[x] and src[x + 1].
    blit_translate(&mut dst, &src, fixed(-0.5), fixed(0.0), true);
    assert_eq!(red(&dst, 0), 16, "0.5px shift averages neighbors");
    assert_eq!(red(&dst, 1), ((32 + 64) / 2) as u8);
    assert_eq!(red(&dst, 5), ((160 + 192) / 2) as u8);
    // Without the filter the fraction is dropped.
    blit_translate(&mut dst, &src, fixed(-0.5), fixed(0.0), false);
    assert_eq!(red(&dst, 5), 160);
}

#[test]
fn bilinear_shift_mixes_four_pixels() {
    let src = source_grid();
    let mut dst = Frame::new(3, 3).unwrap();
    blit_translate(&mut dst, &src, fixed(-0.25), fixed(-0.75), true);
    // Red goes from 0 to 63 by a quarter, green by three quarters, rounded down.
    assert_eq!((red(&dst, 0), green(&dst, 0)), (15, 47));
}

/// Draws as the program around the library does: the scaled copy and the drift
/// are computed in floating point.
fn paint(bg: &mut Background, target: &mut Frame, t_secs: f32, smooth: bool) {
    let (tw, th) = (target.width as f32, target.height as f32);
    let ready = bg.prepare(target.width, target.height);
    let mut shift = (0.0f32, 0.0f32);
    if let Background::Image(image) = bg {
        if ready == Prepared::NeedsScaling {
            let (sw, sh) = (image.source.width as f32, image.source.height as f32);
            let cover = (tw / sw).max(th / sh);
            let scale = cover * if image.ken_burns { 1.06 } else { 1.0 };
            let w = (sw * scale).round().max(1.0) as u32;
            let h = (sh * scale).round().max(1.0) as u32;
            let size = tiny_skia::IntSize::from_wh(
                image.source.width as u32,
                image.source.height as u32,
            )
            .unwrap();
            let source = Pixmap::from_vec(image.source.data.clone(), size).unwrap();
            let mut pixmap = Pixmap::new(w, h).unwrap();
            pixmap.fill(tiny_skia::Color::BLACK);
            let mut quality = PixmapPaint::default();
            quality.quality = tiny_skia::FilterQuality::Bilinear;
            pixmap.draw_pixmap(
                0,
                0,
                source.as_ref(),
                &quality,
                Transform::from_scale(scale, scale),
                None,
            );
            image.remember(ScaledBg {
                frame: Frame { width: w as usize, height: h as usize, data: pixmap.take() },
                target_w: target.width,
                target_h: target.height,
            });
        }
        if image.ken_burns {
            let copy = &image.cache[image.cache.len() - 1].frame;
            let phase = t_secs * TAU / 90.0;
            shift = (
                -(copy.width as f32 - tw) * (0.5 + 0.5 * phase.sin()),
                -(copy.height as f32 - th) * (0.5 + 0.5 * phase.cos()),
            );
        }
    }
    bg.paint(target, fixed(shift.0), fixed(shift.1), smooth);
}

fn red_wallpaper(ken_burns: bool) -> Background {
    let mut source = Frame::new(80, 40).unwrap();
    source.fill(200, 30, 30, 255);
    Background::Image(ImageBg::new(source, ken_burns))
}

fn all_red(f: &Frame) -> bool {
    f.data.chunks(4).all(|p| p[0] == 200 && p[1] == 30)
}

#[test]
fn ken_burns_pan_never_exposes_edges() {
    // A small solid-color image panned through a full cycle must cover
    // the whole target at every phase — no black borders.
    let mut bg = red_wallpaper(true);
    let mut target = Frame::new(60, 30).unwrap();
    for i in 0..90 {
        paint(&mut bg, &mut target, i as f32, true);
        assert!(all_red(&target), "frame {i} exposed an edge");
    }
    assert!(bg.ken_burns());
}

#[test]
fn static_image_keeps_cover_fit() {
    // Without Ken Burns the image is cover-fit exactly: still no edges.
    let mut bg = red_wallpaper(false);
    let mut target = Frame::new(60, 30).unwrap();
    paint(&mut bg, &mut target, 0.0, true);
    assert!(all_red(&target));
    assert!(!bg.ken_burns());
}

#[test]
fn scaled_cache_keeps_a_slot_per_target_size() {
    // Two output sizes (two monitors) must not thrash a single slot.
    let mut bg = red_wallpaper(false);
    let mut a = Frame::new(60, 30).unwrap();
    let mut b = Frame::new(40, 20).unwrap();
    paint(&mut bg, &mut a, 0.0, false);
    paint(&mut bg, &mut b, 0.0, false);
    paint(&mut bg, &mut a, 0.0, false);
    let Background::Image(image) = &bg else {
        panic!("expected image background");
    };
    assert_eq!(
        image.cache.len(),
        2,
        "two target sizes should occupy two slots, got {} slots",
        image.cache.len()
    );
    assert!(image.cache.iter().any(|c| c.target_w == 60 && c.target_h == 30));
    assert!(image.cache.iter().any(|c| c.target_w == 40 && c.target_h == 20));
}

#[test]
fn the_copy_drawn_longest_ago_goes_first() {
    let mut source = Frame::new(1, 1).unwrap();
    source.fill(1, 2, 3, 255);
    let mut image = ImageBg::new(source, false);
    let copy = |w: usize| ScaledBg { frame: Frame::new(w, 1).unwrap(), target_w: w, target_h: 1 };
    for w in 1..=4 {
        assert!(!image.recall(w, 1));
        image.remember(copy(w));
    }
    assert!(image.recall(1, 1));
    image.remember(copy(5));
    assert_eq!(image.cache.len(), SCALED_CACHE_SLOTS);
    let sizes: Vec<usize> = image.cache.iter().map(|c| c.target_w).collect();
    assert_eq!(sizes, [3, 4, 1, 5]);
    assert!(!image.recall(2, 1));
}

fn image_settings(path: &str) -> config::Background {
    let mut cfg = config::Background::default();
    cfg.mode = config::BackgroundMode::Image;
    cfg.path = path.to_string();
    cfg.ken_burns = true;
    cfg
}

#[test]
fn background_falls_back_to_the_palette() {
    let is_color = |bg: Background| matches!(bg, Background::Color(0x1e, 0x1e, 0x2e));
    let color = config::Background::default();
    assert!(!Background::wants_image(&color));
    assert!(is_color(Background::load(&color, "#1e1e2e", None)));
    assert!(!Background::wants_image(&image_settings("")));
    assert!(Background::wants_image(&image_settings("a.png")));
    assert!(is_color(Background::load(&image_settings("a.png"), "#1e1e2e", None)));
    assert!(is_color(Background::load(
        &image_settings("a.png"),
        "#1e1e2e",
        Some(b"not a picture".to_vec())
    )));
}

#[test]
fn background_decodes_its_picture() {
    let mut p = Pixmap::new(3, 2).unwrap();
    p.fill(tiny_skia::Color::from_rgba8(10, 20, 30, 255));
    let png = p.encode_png().unwrap();
    match Background::load(&image_settings("a.png"), "#000000", Some(png.clone())) {
        Background::Image(bg) => {
            assert_eq!((bg.source.width, bg.source.height), (3, 2));
            assert!(bg.source.data.chunks(4).all(|p| p == [10, 20, 30, 255]));
            assert!(bg.ken_burns);
            assert!(bg.cache.is_empty());
        }
        other => panic!("{other:?}"),
    }
    let color = config::Background::default();
    assert!(matches!(Background::load(&color, "#000000", Some(png)), Background::Color(0, 0, 0)));
    let frame = Frame::new(1, 1).unwrap();
    assert!(matches!(
        Background::from_decoded(&image_settings("a.png"), "#000000", Some(frame)),
        Background::Image(_)
    ));
}

#[test]
fn files_without_a_picture_fall_back_to_the_palette() {
    let mut p = Pixmap::new(3, 2).unwrap();
    p.fill(tiny_skia::Color::from_rgba8(10, 20, 30, 255));
    let mut huge = p.encode_png().unwrap();
    huge[16..24].copy_from_slice(&[0xff; 8]);
    let cfg = image_settings("a.png");
    for file in [vec![b'a'; 24], vec![0xff; 23], vec![0; 24], Vec::new(), huge] {
        assert!(matches!(
            Background::load(&cfg, "#010203", Some(file)),
            Background::Color(1, 2, 3)
        ));
    }
    assert!(matches!(
        Background::load(&cfg, "malformed", Some(vec![b'a'; 64])),
        Background::Color(0, 0, 0)
    ));
}

fn checksum(bytes: &[u8]) -> u32 {
    let mut crc = u32::MAX;
    for b in bytes {
        crc ^= *b as u32;
        for _ in 0..8 {
            crc = (crc >> 1) ^ (0xedb8_8320 & (crc & 1).wrapping_neg());
        }
    }
    !crc
}

fn chunk(kind: &[u8; 4], data: &[u8]) -> Vec<u8> {
    let mut named = kind.to_vec();
    named.extend_from_slice(data);
    let mut out = (data.len() as u32).to_be_bytes().to_vec();
    out.extend_from_slice(&named);
    out.extend_from_slice(&checksum(&named).to_be_bytes());
    out
}

fn header(width: u32, height: u32, color: u8) -> Vec<u8> {
    let mut data = width.to_be_bytes().to_vec();
    data.extend_from_slice(&height.to_be_bytes());
    data.extend_from_slice(&[8, color, 0, 0, 0]);
    chunk(b"IHDR", &data)
}

/// A file of one pixel, whose bytes are `pixel`.
fn one_pixel(before: &[Vec<u8>], pixel: &[u8]) -> Vec<u8> {
    let mut out = b"\x89PNG\r\n\x1a\n".to_vec();
    out.extend(before.concat());
    let n = pixel.len() as u16 + 1;
    let mut data = vec![0x78, 0x01, 0x01];
    data.extend_from_slice(&n.to_le_bytes());
    data.extend_from_slice(&(!n).to_le_bytes());
    data.push(0);
    data.extend_from_slice(pixel);
    data.extend_from_slice(&[0; 4]);
    out.extend(chunk(b"IDAT", &data));
    out.extend(chunk(b"IEND", &[]));
    out
}

fn shown(file: Vec<u8>) -> Option<Vec<u8>> {
    match Background::load(&image_settings("a.png"), "#010203", Some(file)) {
        Background::Image(bg) => Some(bg.source.data),
        Background::Color(r, g, b) => {
            assert_eq!((r, g, b), (1, 2, 3));
            None
        }
    }
}

#[test]
fn indexed_pictures_need_a_whole_palette() {
    let indexed = |palette: &[u8], i: u8| {
        one_pixel(&[header(1, 1, 3), chunk(b"PLTE", palette)], &[i])
    };
    assert_eq!(shown(indexed(&[9, 8, 7, 30, 20, 10], 1)), Some(vec![30, 20, 10, 255]));
    assert_eq!(shown(indexed(&[5; 768], 255)), Some(vec![5, 5, 5, 255]));
    for length in [1, 2, 4, 5, 767, 769, 770, 771, 772, 1536] {
        assert_eq!(shown(indexed(&vec![5; length], 0)), None, "{length} bytes");
    }
    assert_eq!(shown(one_pixel(&[header(1, 1, 3)], &[0])), None);
    assert_eq!(shown(indexed(&[], 0)), None);
    // A truncated file, and one with a palette after the picture.
    let mut cut = indexed(&[5; 4], 0);
    cut.truncate(41);
    assert_eq!(shown(cut), None);
    let mut late = indexed(&[5; 3], 0);
    let end = late.len() - 12;
    late.splice(end..end, chunk(b"PLTE", &[5; 4]));
    assert_eq!(shown(late), Some(vec![5, 5, 5, 255]));
}

#[test]
fn other_pictures_may_have_any_palette() {
    let file = one_pixel(&[header(1, 1, 2), chunk(b"PLTE", &[5; 4])], &[10, 20, 30]);
    assert_eq!(shown(file), Some(vec![10, 20, 30, 255]));
}

#[test]
fn headers_without_data_hide_nothing() {
    let empty = chunk(b"IHDR", &[]);
    let indexed = |palette: &[u8]| {
        let before = [empty.clone(), empty.clone(), header(1, 1, 3), chunk(b"PLTE", palette)];
        one_pixel(&before, &[0])
    };
    assert_eq!(shown(indexed(&[7, 8, 9])), Some(vec![7, 8, 9, 255]));
    assert_eq!(shown(indexed(&[7, 8, 9, 10])), None);
    assert_eq!(shown(one_pixel(&[empty, header(u32::MAX, u32::MAX, 2)], &[0])), None);
}

#[test]
fn an_animation_larger_than_memory_is_not_decoded() {
    let mut frame = vec![0, 0, 0, 0];
    frame.extend_from_slice(&[0, 0, 0, 1, 0, 0, 0, 1]);
    frame.extend_from_slice(&[0; 14]);
    let before = |side: u32| {
        [
            header(side, side, 6),
            chunk(b"acTL", &[0, 0, 0, 1, 0, 0, 0, 0]),
            chunk(b"fcTL", &frame),
        ]
    };
    assert_eq!(shown(one_pixel(&before(1), &[1, 2, 3, 255])), Some(vec![1, 2, 3, 255]));
    assert_eq!(shown(one_pixel(&before(0x7fff_ffff), &[1, 2, 3, 255])), None);
}

#[test]
fn a_still_wallpaper_is_not_shifted() {
    for (ken_burns, expected) in [(true, 63), (false, 0)] {
        let mut image = ImageBg::new(source_grid(), ken_burns);
        image.remember(ScaledBg { frame: source_grid(), target_w: 2, target_h: 2 });
        let mut target = Frame::new(2, 2).unwrap();
        Background::Image(image).paint(&mut target, fixed(-1.0), fixed(-1.0), true);
        assert_eq!((red(&target, 0), green(&target, 0)), (expected, expected));
    }
}

#[test]
fn color_background_fills() {
    let mut bg = Background::Color(1, 2, 3);
    let mut target = Frame::new(2, 2).unwrap();
    assert_eq!(bg.prepare(2, 2), Prepared::Ready);
    bg.paint(&mut target, 0, 0, true);
    assert!(target.data.chunks(4).all(|p| p == [1, 2, 3, 255]));
}

#[test]
fn blit_swizzles_rgba_to_bgra() {
    let mut frame = Frame::new(1, 1).unwrap();
    frame.fill(10, 20, 30, 255);
    let mut shm = vec![0u8; 4];
    blit_to_shm(&frame, &mut shm);
    assert_eq!(shm, vec![30, 20, 10, 255]);
}

#[test]
fn blit_copies_what_both_have() {
    let mut frame = Frame::new(2, 1).unwrap();
    frame.fill(1, 2, 3, 4);
    let mut long = vec![9u8; 11];
    blit_to_shm(&frame, &mut long);
    assert_eq!(long, vec![3, 2, 1, 4, 3, 2, 1, 4, 9, 9, 9]);
    let mut short = vec![9u8; 6];
    blit_to_shm(&frame, &mut short);
    assert_eq!(short, vec![3, 2, 1, 4, 9, 9]);
}

#[test]
fn shm_layouts_are_bounded() {
    let l = shm_layout(3, 2).unwrap();
    assert_eq!((l.width, l.height, l.stride, l.len), (3, 2, 12, 24));
    assert!(shm_layout(0, 2).is_none());
    assert!(shm_layout(2, 0).is_none());
    assert!(shm_layout(0x2000_0000, 1).is_none());
    assert!(shm_layout(1, 0x8000_0000).is_none());
    assert!(buffer_fits(&l, 2, 12));
    assert!(!buffer_fits(&l, 3, 12));
    assert!(!buffer_fits(&l, 2, 16));
}

const APPEAR_OF: u64 = 450_000_000;

fn at(tenths: u64) -> Progress {
    Progress { done: APPEAR_OF * tenths / 10, of: APPEAR_OF }
}

#[test]
fn staggered_t_spreads_elements_across_the_window() {
    // Clock (delay 0) starts immediately; pill (delay 100ms of 450ms)
    // only begins after ~22% of the window.
    assert!(!staggered_t(at(0), CLOCK_DELAY_MS).is_begun());
    assert!(!staggered_t(at(0), PILL_DELAY_MS).is_begun());
    assert!(staggered_t(at(1), CLOCK_DELAY_MS).is_begun());
    assert!(!staggered_t(at(1), PILL_DELAY_MS).is_begun());
    assert!(staggered_t(at(10), PILL_DELAY_MS).is_full());
    // Monotonic: later raw progress never regresses an element.
    let mut prev = 0;
    for i in 0..=20 {
        let t = staggered_t(
            Progress { done: APPEAR_OF * i / 20, of: APPEAR_OF },
            STATUS_DELAY_MS,
        );
        assert!(t.done >= prev, "staggered progress regressed: {} < {prev}", t.done);
        prev = t.done;
    }
    assert_eq!(staggered_t(at(5), 450), at(5));
    let half = staggered_t(at(5), PILL_DELAY_MS);
    assert_eq!((half.done, half.of), (125_000_000, 350_000_000));
}

#[test]
fn parts_of_a_motion_are_not_rounded() {
    // 22% of two steps lie between the first and the second.
    let half = staggered_t(Progress { done: 1, of: 2 }, PILL_DELAY_MS);
    assert_eq!(half.done * 14, half.of * 5);
    assert!(half.is_begun());
    let mut f = still();
    f.failed = true;
    f.failed_t = Progress { done: 0, of: 1 };
    match plan_chrome(&f, 10).tint {
        PillTint::Reddening(t) => assert!(!t.is_begun() && !t.is_full()),
        other => panic!("{other:?}"),
    }
    f.failed_t = Progress { done: 1, of: 4 };
    match plan_chrome(&f, 10).tint {
        PillTint::Reddening(t) => assert_eq!(t.done * 150 * 4, t.of * 380),
        other => panic!("{other:?}"),
    }
    f.failed = false;
    f.password_len = 1;
    f.unlock_t = Progress { done: 1, of: 4 };
    match ink_of_dot(&f, 1, 0) {
        DotInk::Brightening(t) => assert_eq!(t.done * 250 * 4, t.of * 650),
        other => panic!("{other:?}"),
    }
}

#[test]
fn progress_is_kept_between_nothing_and_all() {
    assert_eq!(unit_progress(5, 10, 1), Progress { done: 0, of: 1_000_000 });
    assert_eq!(unit_progress(10 + 250_000, 10, 1), Progress { done: 250_000, of: 1_000_000 });
    assert_eq!(unit_progress(u64::MAX, 10, 1), Progress { done: 1_000_000, of: 1_000_000 });
    assert!(unit_progress(0, 0, 0).is_full());
}

#[test]
fn caret_is_solid_then_blinks() {
    assert!(caret_is_on(Some(0), 0));
    assert!(caret_is_on(Some(499_999_999), 0));
    // After half a second, a period of 5/9 s: on in its first half.
    assert!(caret_is_on(Some(500_000_000), 0));
    assert!(!caret_is_on(Some(800_000_000), 0));
    assert!(caret_is_on(Some(1_100_000_000), 0));
    assert!(caret_is_on(None, 200_000_000));
    assert!(!caret_is_on(None, 500_000_000));
}

fn still() -> FrameInputs {
    let full = Progress::full();
    FrameInputs {
        width: 400,
        height: 300,
        clock_text: "12:34".into(),
        date_text: "Friday · Aug 21".into(),
        clock_old: None,
        password_len: 0,
        reveal: false,
        caps_lock: false,
        layout_index: 0,
        idle_dim: Progress::none(),
        failed: false,
        failed_t: Progress::none(),
        dot_pop_t: full,
        keystroke_age: None,
        time: 0,
        breathe: None,
        status_t: full,
        status_text: None,
        info_text: String::new(),
        appear_t: full,
        unlock_t: Progress::none(),
        smooth_pan: true,
    }
}

#[test]
fn resting_pill_shows_the_hint() {
    let c = plan_chrome(&still(), 10);
    assert!(c.visible && c.hint && c.border && c.pops && c.date);
    assert!(!c.caret && !c.status && !c.shakes && !c.breath_ring && !c.crossfade && !c.info);
    assert_eq!(c.tint, PillTint::Surface);
    assert_eq!(c.dots, 0);
    assert_eq!(c.flash, None);
}

#[test]
fn typing_shows_dots_and_the_caret() {
    let mut f = still();
    f.password_len = 40;
    f.dot_pop_t = Progress { done: 1, of: 5 };
    f.keystroke_age = Some(0);
    f.breathe = Some(Progress { done: 1, of: 2 });
    let c = plan_chrome(&f, 10);
    assert_eq!(c.dots, 10);
    assert!(c.newest_pops && c.caret && !c.caret_white && !c.hint && c.breath_ring);
    assert_eq!(ink_of_dot(&f, c.dots, 3), DotInk::Accent);
    assert!(!c.revealed && !c.caps_chip && !c.layout_chip);
    f.reveal = true;
    f.caps_lock = true;
    f.layout_index = 1;
    let c = plan_chrome(&f, 10);
    assert!(c.revealed && c.caps_chip && c.layout_chip);
    f.password_len = 0;
    assert!(!plan_chrome(&f, 10).revealed);
}

#[test]
fn failure_reddens_and_shakes() {
    let mut f = still();
    f.password_len = 4;
    f.failed = true;
    f.failed_t = Progress { done: 75, of: 380 };
    f.status_text = Some("Wrong password".into());
    let c = plan_chrome(&f, 10);
    assert_eq!(c.tint, PillTint::Reddening(Progress { done: 75, of: 150 }));
    assert!(c.shakes && !c.border && c.status && c.status_red && c.caret_white);
    assert_eq!(ink_of_dot(&f, 4, 0), DotInk::White);
    f.failed_t = Progress { done: 300, of: 380 };
    assert_eq!(
        plan_chrome(&f, 10).tint,
        PillTint::Reddening(Progress { done: 150, of: 150 })
    );
}

#[test]
fn success_flashes_and_fades() {
    let mut f = still();
    f.password_len = 4;
    f.unlock_t = Progress { done: 125, of: 650 };
    let c = plan_chrome(&f, 10);
    assert_eq!(c.tint, PillTint::Success);
    assert_eq!(c.flash, Some(Progress { done: 125, of: 250 }));
    assert!(!c.border && !c.pops);
    // Half of the flash: the first two of four dots are white.
    let ink = |i| ink_of_dot(&f, 4, i);
    assert_eq!(ink(0), DotInk::Brightening(Progress { done: 250, of: 250 }));
    assert_eq!(ink(1), DotInk::Brightening(Progress { done: 250, of: 250 }));
    assert_eq!(ink(2), DotInk::Brightening(Progress { done: 0, of: 250 }));
    f.unlock_t = Progress { done: 400, of: 650 };
    assert_eq!(plan_chrome(&f, 10).flash, None);
    f.unlock_t = Progress { done: 650, of: 650 };
    assert!(!plan_chrome(&f, 10).visible);
    f.unlock_t = Progress::none();
    f.appear_t = Progress::none();
    assert!(!plan_chrome(&f, 10).visible);
}
