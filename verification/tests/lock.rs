use breadlock::lock::auth::{
    cstr_to_username, first_buffer, next_buffer, pick_username, timed_outcome, typed_password, Attempt,
    AuthError,
};
use breadlock::lock::bread_events::{
    enter_lock_process, handle_command, honor_lock_command, honor_lock_command_with,
    honor_unlock_command, lock_started, locker_is_running, singleton_held, Acquire, LockStep, Notice,
    Verb, UNLOCK_REFUSED_WHILE_LOCKED,
};
use breadlock::lock::config::Config;
use breadlock::lock::gpu::{after_gpu, upload_region, Extent, Present, Region};
use breadlock::lock::keyboard::{
    backspace, password_char_count, push_within, try_push_password, type_within, KeyboardSeat,
    PASSWORD_CAP,
};
use breadlock::lock::mode::{
    display_wait, listener_start, locker_start, parse_mode, Mode, Start, Wait,
};
use breadlock::lock::palettes::{PaletteCache, PaletteSource};
use breadlock::lock::session::DispatchErrors;
use breadlock::lock::status::{
    battery_line, format_battery, format_now_playing, is_player, join_artists, settle, snapshot,
    truncate_chars, wants_poller, Playback, Player, Scan, StatusInfo, MPRIS_FIELD_MAX, MPRIS_LINE_MAX,
};
use breadlock::lock::surface::{buffer_side, BufferSize, Surfaces};
use breadlock::lock::theme_watch::{is_palette_change, ChangeKind};
use notify::event::{CreateKind, ModifyKind, RemoveKind, RenameMode};
use std::cell::Cell;

#[test]
fn default_config_has_expected_fail_timeout() {
    assert_eq!(Config::default().input.fail_timeout_ms, 800);
}

#[test]
fn default_animation_breathe_is_on() {
    assert!(Config::default().animation.breathe);
}

#[test]
fn default_status_shows_both_parts_and_dimming_is_off() {
    let c = Config::default();
    assert!(c.status.now_playing && c.status.battery);
    assert!(c.input.reveal_hold);
    assert_eq!(c.animation.idle_dim_after_secs, 0);
    assert_eq!(c.appearance.font.family, "Varela Round");
}

#[test]
fn pick_username_prefers_passwd_then_user_then_logname() {
    assert_eq!(
        pick_username(Some("from-pw"), Some("from-user"), Some("from-log")),
        Some("from-pw".into())
    );
    assert_eq!(
        pick_username(None, Some("from-user"), Some("from-log")),
        Some("from-user".into())
    );
    assert_eq!(
        pick_username(None, None, Some("from-log")),
        Some("from-log".into())
    );
    assert_eq!(pick_username(Some(""), Some(""), Some("")), None);
    assert_eq!(pick_username(None, None, None), None);
}

#[test]
fn cstr_to_username_copies_nul_terminated_name() {
    assert_eq!(cstr_to_username(Some(b"breadway\0rest")), Some("breadway".to_string()));
    assert_eq!(cstr_to_username(Some("jos\u{e9}".as_bytes())), Some("jos\u{e9}".to_string()));
}

#[test]
fn cstr_to_username_rejects_empty_and_null() {
    assert_eq!(cstr_to_username(Some(b"\0")), None);
    assert_eq!(cstr_to_username(Some(b"")), None);
    assert_eq!(cstr_to_username(None), None);
    assert_eq!(cstr_to_username(Some(b"\xff\xfe\0")), None);
}

#[test]
fn lookup_buffers_grow() {
    assert_eq!(first_buffer(-1), 1024);
    assert_eq!(first_buffer(0), 1024);
    assert_eq!(first_buffer(4096), 4096);
    assert_eq!(next_buffer(0), Some(1024));
    assert_eq!(next_buffer(1000), Some(2024));
    assert_eq!(next_buffer(4096), Some(8192));
    assert_eq!(next_buffer(usize::MAX - 1024), Some(usize::MAX));
    assert_eq!(next_buffer(usize::MAX - 1023), None);
}

#[test]
fn attempts_fail_at_the_step_that_failed() {
    let run = |a, b, c| Attempt::Starting.advance(a).advance(b).advance(c);
    assert_eq!(run(true, true, true), Attempt::Done(Ok(())));
    assert_eq!(run(false, true, true), Attempt::Done(Err(AuthError::ContextInit)));
    assert_eq!(run(true, false, true), Attempt::Done(Err(AuthError::Authenticate)));
    assert_eq!(run(true, true, false), Attempt::Done(Err(AuthError::AccountInvalid)));
    assert_eq!(timed_outcome(None), Err(AuthError::Authenticate));
    assert_eq!(timed_outcome(Some(Ok(()))), Ok(()));
    assert_eq!(AuthError::Authenticate.message(), "PAM authentication failed");
    assert_eq!(
        AuthError::AccountInvalid.message(),
        "PAM account validation failed (expired, locked, etc.)"
    );
    assert_eq!(AuthError::ContextInit.message(), "failed to initialize PAM context");
}

#[test]
fn typed_passwords_lose_their_line_end() {
    let typed = |line: &str| {
        let mut line = line.to_string();
        let password = typed_password(&mut line);
        assert_eq!(line, "");
        password
    };
    assert_eq!(typed("hunter2\n"), "hunter2");
    assert_eq!(typed(" a\nb \r\n\r\n"), " a\nb ");
    assert_eq!(typed("\n"), "");
    assert_eq!(typed("é"), "é");
}

#[test]
fn handle_command_ignores_unrecognized_verb() {
    assert_eq!(handle_command("bread.command.lock.pin"), Verb::Unknown);
    assert_eq!(handle_command("bread.command.clip.clear"), Verb::Unknown);
    assert_eq!(handle_command("bread.lock.locked"), Verb::Unknown);
}

#[test]
fn handle_command_dispatches_only_lock_and_unlock() {
    let seen: Vec<Verb> =
        ["bread.command.lock.lock", "bread.command.lock.unlock", "bread.command.lock.pin"]
            .iter()
            .map(|e| handle_command(e))
            .collect();
    assert_eq!(seen.iter().filter(|v| **v == Verb::Lock).count(), 1);
    assert_eq!(seen.iter().filter(|v| **v == Verb::Unlock).count(), 1);
    assert_eq!(handle_command("bread.command.lock.lock.now"), Verb::Unknown);
}

#[test]
fn honor_lock_command_with_failed_start_runs_start() {
    let started = Cell::new(false);
    let notice = honor_lock_command_with(false, || {
        started.set(true);
        Err("boom".into())
    });
    assert!(started.get());
    assert_eq!(notice, Notice::LockFailed("boom".into()));
    assert_eq!(notice.event(), "bread.lock.lock.failed");
    assert_eq!(notice.error().as_deref(), Some("boom"));
}

#[test]
fn honor_lock_command_with_successful_start_runs_start() {
    let started = Cell::new(false);
    let notice = honor_lock_command_with(false, || {
        started.set(true);
        Ok(())
    });
    assert!(started.get());
    assert_eq!(notice, Notice::LockDone);
    assert_eq!(lock_started(Ok(())), Notice::LockDone);
}

#[test]
fn honor_lock_command_already_locked_does_not_start() {
    let started = Cell::new(false);
    let notice = honor_lock_command_with(true, || {
        started.set(true);
        Ok(())
    });
    assert!(!started.get());
    assert_eq!(notice, Notice::LockDone);
    assert_eq!(honor_lock_command(true), LockStep::Announce(Notice::LockDone));
    assert_eq!(honor_lock_command(false), LockStep::Start);
}

#[test]
fn honor_unlock_command_already_unlocked_emits_done() {
    let notice = honor_unlock_command(false);
    assert_eq!(notice, Notice::UnlockDone);
    assert_eq!(notice.event(), "bread.lock.unlock.done");
    assert_eq!(notice.error(), None);
}

#[test]
fn honor_unlock_command_while_locked_emits_failed_not_done() {
    let notice = honor_unlock_command(true);
    assert_eq!(notice, Notice::UnlockFailed(UNLOCK_REFUSED_WHILE_LOCKED.to_string()));
    assert_eq!(notice.event(), "bread.lock.unlock.failed");
    assert_eq!(notice.error().as_deref(), Some(UNLOCK_REFUSED_WHILE_LOCKED));
}

#[test]
fn honor_unlock_command_while_locked_error_mentions_pam() {
    assert!(
        UNLOCK_REFUSED_WHILE_LOCKED.contains("PAM"),
        "bus unlock refusal must say it cannot bypass PAM, got {UNLOCK_REFUSED_WHILE_LOCKED:?}"
    );
}

#[test]
fn announcements_have_their_names() {
    assert_eq!(Notice::Locked.event(), "bread.lock.locked");
    assert_eq!(Notice::Unlocked.event(), "bread.lock.unlocked");
    assert_eq!(Notice::LockDone.event(), "bread.lock.lock.done");
}

#[test]
fn enter_lock_process_makes_locker_is_running_true_without_singleton() {
    let mut running = false;
    assert!(!locker_is_running(running, Acquire::Acquired));
    let guard = enter_lock_process(&mut running);
    assert!(locker_is_running(running, Acquire::Acquired));
    guard.leave(&mut running);
    assert!(!locker_is_running(running, Acquire::Acquired));
    assert!(locker_is_running(running, Acquire::HeldByOther));
    assert!(singleton_held(Acquire::HeldByOther));
    assert!(!singleton_held(Acquire::Failed));
}

#[test]
fn the_name_is_held_only_where_another_has_it() {
    assert!(!singleton_held(Acquire::Acquired));
    assert!(singleton_held(Acquire::HeldByOther));
    assert!(!singleton_held(Acquire::Failed));
}

fn args(list: &[&str]) -> Vec<String> {
    list.iter().map(|s| s.to_string()).collect()
}

#[test]
fn parse_mode_no_args_is_lock() {
    assert_eq!(parse_mode(&args(&[])), Ok(Mode::Lock));
}

#[test]
fn parse_mode_listen() {
    assert_eq!(parse_mode(&args(&["listen"])), Ok(Mode::Listen));
}

#[test]
fn parse_mode_help() {
    assert_eq!(parse_mode(&args(&["--help"])), Ok(Mode::Help));
    assert_eq!(parse_mode(&args(&["-h"])), Ok(Mode::Help));
    assert_eq!(parse_mode(&args(&["help"])), Ok(Mode::Help));
}

#[test]
fn parse_mode_rejects_unknown_and_extra_listen_args() {
    assert!(parse_mode(&args(&["unlock"])).is_err());
    assert!(parse_mode(&args(&["listen", "--foreground"])).is_err());
}

#[test]
fn parse_mode_says_what_is_wrong() {
    assert_eq!(parse_mode(&args(&["unlock"])), Err("unknown argument 'unlock'".to_string()));
    assert_eq!(
        parse_mode(&args(&["listen", "--foreground"])),
        Err("listen takes no arguments".to_string())
    );
    assert_eq!(parse_mode(&args(&["help", "me"])), Ok(Mode::Help));
}

#[test]
fn only_the_listener_gives_up_without_the_singleton() {
    assert_eq!(locker_start(Acquire::Acquired), Start::Run);
    assert_eq!(locker_start(Acquire::HeldByOther), Start::Leave);
    assert_eq!(locker_start(Acquire::Failed), Start::Run);
    assert_eq!(listener_start(Acquire::Acquired), Start::Run);
    assert_eq!(listener_start(Acquire::HeldByOther), Start::Leave);
    assert_eq!(listener_start(Acquire::Failed), Start::Fail);
}

#[test]
fn the_display_is_waited_for_ten_seconds() {
    assert_eq!(display_wait(0, true), Wait::Go);
    assert_eq!(display_wait(20, true), Wait::Go);
    let mut waited = 0;
    let mut tries = 0;
    while let Wait::Sleep(ms) = display_wait(tries, false) {
        waited += ms;
        tries += 1;
    }
    assert_eq!((tries, waited), (20, 10_000));
    assert_eq!(display_wait(20, false), Wait::GiveUp);
}

#[test]
fn a_frame_that_the_card_failed_to_draw_drops_its_window() {
    assert_eq!(after_gpu(Some(true)), Present::Done);
    assert_eq!(after_gpu(Some(false)), Present::DropWindowAndCompose);
    assert_eq!(after_gpu(None), Present::Compose);
}

#[test]
fn five_failures_in_a_row_end_the_loop() {
    let mut e = DispatchErrors::new();
    for _ in 0..4 {
        assert!(!e.failed());
    }
    e.succeeded();
    for _ in 0..4 {
        assert!(!e.failed());
    }
    assert!(e.failed());
}

#[test]
fn password_cap_ignores_push_that_would_realloc() {
    let mut s = String::with_capacity(8);
    assert!(try_push_password(&mut s, 'a'));
    while try_push_password(&mut s, 'x') {}
    let cap = s.capacity();
    let len = s.len();
    assert!(!try_push_password(&mut s, 'y'));
    assert_eq!(s.len(), len);
    assert_eq!(s.capacity(), cap);
}

#[test]
fn password_char_count_is_not_byte_len() {
    let mut s = String::with_capacity(16);
    assert!(try_push_password(&mut s, 'é'));
    assert_eq!(s.len(), 2);
    assert_eq!(password_char_count(&s), 1);
}

#[test]
fn reserved_capacity_is_256() {
    assert_eq!(PASSWORD_CAP, 256);
    let s = String::with_capacity(PASSWORD_CAP);
    assert!(s.capacity() >= PASSWORD_CAP);
}

#[test]
fn typing_stops_at_the_first_character_that_does_not_fit() {
    let mut s = String::new();
    assert!(type_within(&mut s, "a\u{7}b", 4));
    assert_eq!(s, "ab");
    assert!(!push_within(&mut s, '€', 4));
    assert!(!type_within(&mut s, "€x", 4));
    assert_eq!(s, "ab");
    assert!(type_within(&mut s, "éx", 4));
    assert_eq!(s, "abé");
    assert!(!type_within(&mut s, "", 99));
}

#[test]
fn backspace_takes_one_character() {
    let mut s = String::with_capacity(PASSWORD_CAP);
    s.push_str("aé€");
    backspace(&mut s);
    assert_eq!(s, "aé");
    backspace(&mut s);
    assert_eq!(s, "a");
    assert!(s.capacity() >= PASSWORD_CAP);
    backspace(&mut s);
    backspace(&mut s);
    assert_eq!(s, "");
}

#[test]
fn only_the_seat_that_owns_the_keyboard_releases_it() {
    let mut k = KeyboardSeat { seat: None };
    assert!(k.wants(true));
    assert!(!k.wants(false));
    k.bound(7);
    k.bound(8);
    assert_eq!(k.seat, Some(7));
    assert!(!k.wants(true));
    assert!(!k.lost(8));
    assert_eq!(k.next_candidate(&vec![true], 0), None);
    assert!(k.lost(7));
    assert_eq!(k.next_candidate(&vec![false, true, true], 0), Some(1));
    assert_eq!(k.next_candidate(&vec![false, true, true], 2), Some(2));
    assert_eq!(k.next_candidate(&vec![false, true, true], 3), None);
}

#[test]
fn format_battery_absent_is_empty() {
    assert_eq!(format_battery(false, &format!("{:.0}", 0.0f64), 0), "");
    assert_eq!(format_battery(false, &format!("{:.0}", 87.4f64), 1), "");
}

#[test]
fn format_battery_present_covers_common_states() {
    let shown = |pct: f64, state: u32| format_battery(true, &format!("{pct:.0}"), state);
    assert_eq!(shown(87.4, 1), "87% · charging");
    assert_eq!(shown(43.0, 2), "43%");
    assert_eq!(shown(100.0, 4), "100% · full");
    assert_eq!(shown(2.0, 3), "2%");
    // Laptop at 0% still has a battery; desktops are filtered via IsPresent.
    assert_eq!(shown(0.0, 2), "0%");
}

#[test]
fn battery_line_needs_a_battery_and_a_charge() {
    let pct = || Some("50".to_string());
    assert_eq!(battery_line(Some(true), Some(2), pct(), Some(1)), "50% · charging");
    assert_eq!(battery_line(Some(true), None, pct(), None), "50%");
    assert_eq!(battery_line(Some(true), Some(1), pct(), Some(1)), "");
    assert_eq!(battery_line(Some(true), Some(2), None, Some(1)), "");
    assert_eq!(battery_line(None, Some(2), pct(), Some(1)), "");
    assert_eq!(battery_line(Some(false), Some(2), pct(), Some(1)), "");
}

#[test]
fn format_now_playing_joins_title_and_artist() {
    assert_eq!(
        format_now_playing(
            Some("Paranoid Android"),
            Some("Radiohead"),
            "org.mpris.MediaPlayer2.spotify"
        ),
        "Paranoid Android — Radiohead"
    );
    assert_eq!(
        format_now_playing(Some("Untitled"), None, "org.mpris.MediaPlayer2.mpv"),
        "Untitled"
    );
}

#[test]
fn long_titles_keep_their_beginning() {
    assert_eq!(truncate_chars("aé€", 2), "aé");
    assert_eq!(truncate_chars("aé", 2), "aé");
    assert_eq!(truncate_chars("aé€", 0), "");
    let long = "é".repeat(MPRIS_FIELD_MAX + 1);
    let once = format_now_playing(Some(&long), None, "");
    assert_eq!(once, "é".repeat(MPRIS_FIELD_MAX.min(MPRIS_LINE_MAX)));
    assert_eq!(format_now_playing(Some(&once), None, ""), once);
}

#[test]
fn format_now_playing_playing_without_title_uses_fallback() {
    assert_eq!(
        format_now_playing(None, Some("Radiohead"), "org.mpris.MediaPlayer2.spotify"),
        "Radiohead"
    );
    assert_eq!(
        format_now_playing(None, None, "org.mpris.MediaPlayer2.spotify"),
        "spotify"
    );
    assert_eq!(
        format_now_playing(None, None, "org.mpris.MediaPlayer2.firefox.instance1"),
        "firefox"
    );
    assert_eq!(format_now_playing(None, None, ""), "Playing");
    assert_eq!(
        format_now_playing(Some("\n\n"), None, "org.mpris.MediaPlayer2.mpv"),
        "mpv"
    );
}

#[test]
fn format_now_playing_strips_newlines_and_truncates() {
    assert_eq!(
        format_now_playing(Some("foo\nbar"), Some("a\r\nb"), "org.mpris.MediaPlayer2.x"),
        "foo bar — a b"
    );
    let title = "T".repeat(100);
    let titled = format_now_playing(Some(&title), None, "org.mpris.MediaPlayer2.x");
    assert_eq!(titled.chars().count(), MPRIS_FIELD_MAX);
    assert!(!titled.contains('\n'));
    let artist = "A".repeat(100);
    let combined = format_now_playing(Some(&title), Some(&artist), "org.mpris.MediaPlayer2.x");
    assert_eq!(combined.chars().count(), MPRIS_LINE_MAX);
    assert!(combined.starts_with('T'));
    assert!(!combined.contains('\n'));
}

fn player(name: &str, status: &str, title: &str) -> Player {
    Player {
        bus_name: name.to_string(),
        answer: Some(Playback {
            status: status.to_string(),
            title: Some(title.to_string()),
            artist: None,
        }),
    }
}

fn scan(players: &[Player]) -> String {
    let mut s = Scan::new();
    for p in players {
        if let Some(line) = s.ask(p) {
            return line;
        }
    }
    s.finish()
}

#[test]
fn playing_players_come_before_paused_ones() {
    let mpv = player("org.mpris.MediaPlayer2.mpv", "Paused", "first paused");
    let vlc = player("org.mpris.MediaPlayer2.vlc", "Paused", "second paused");
    let web = player("org.mpris.MediaPlayer2.web", "Playing", "playing");
    let not = player("org.freedesktop.DBus", "Playing", "no player");
    let mut mute = player("org.mpris.MediaPlayer2.mute", "Playing", "mute");
    mute.answer = None;
    assert_eq!(scan(&[not.clone(), mute, mpv.clone(), vlc.clone(), web]), "playing");
    assert_eq!(scan(&[mpv, vlc]), "first paused");
    assert_eq!(scan(&[player("org.mpris.MediaPlayer2.x", "Stopped", "t"), not]), "");
    assert!(is_player("org.mpris.MediaPlayer2.x"));
    assert!(!is_player("org.mpris.MediaPlayer1.x"));
}

#[test]
fn artists_are_joined() {
    assert_eq!(join_artists(&args(&["A", "B"])).as_deref(), Some("A, B"));
    assert_eq!(join_artists(&args(&[])), None);
    assert_eq!(join_artists(&args(&[""])), None);
}

#[test]
fn spawn_poller_both_false_returns() {
    assert!(!wants_poller(false, false));
    assert!(wants_poller(true, false));
    assert!(wants_poller(false, true));
}

#[test]
fn broken_connections_are_dropped_and_show_nothing() {
    assert_eq!(settle(Some(Ok("line".into()))), ("line".to_string(), false));
    assert_eq!(settle(Some(Err(()))), (String::new(), true));
    assert_eq!(settle(None), (String::new(), false));
    let info = snapshot(Some("song".into()), None);
    assert_eq!(info, StatusInfo { now_playing: "song".into(), battery: String::new() });
    assert_eq!(StatusInfo::default(), StatusInfo { now_playing: String::new(), battery: String::new() });
}

fn change(event: &notify::Event) -> bool {
    let kind = match event.kind {
        notify::EventKind::Any => ChangeKind::Any,
        notify::EventKind::Access(_) => ChangeKind::Access,
        notify::EventKind::Create(_) => ChangeKind::Create,
        notify::EventKind::Modify(_) => ChangeKind::Modify,
        notify::EventKind::Remove(_) => ChangeKind::Remove,
        notify::EventKind::Other => ChangeKind::Other,
    };
    let extensions = event
        .paths
        .iter()
        .map(|p| p.extension().and_then(|e| e.to_str()).map(str::to_string))
        .collect();
    is_palette_change(kind, &extensions)
}

fn event(kind: notify::EventKind, path: &str) -> notify::Event {
    notify::Event {
        kind,
        paths: vec![std::path::PathBuf::from(path)],
        attrs: Default::default(),
    }
}

#[test]
fn accepts_palette_and_theme_writes() {
    assert!(change(&event(
        notify::EventKind::Create(CreateKind::File),
        "/run/user/1000/bread/palettes/DP-1.json",
    )));
    assert!(change(&event(
        notify::EventKind::Modify(ModifyKind::Name(RenameMode::To)),
        "/run/user/1000/bread/themes/DP-1.css",
    )));
    assert!(change(&event(
        notify::EventKind::Remove(RemoveKind::File),
        "/run/user/1000/bread/palettes/HDMI-A-1.json",
    )));
}

#[test]
fn ignores_atomic_write_scratch_files() {
    // The rename to the real name is what counts, not the scratch file.
    assert!(!change(&event(
        notify::EventKind::Create(notify::event::CreateKind::File),
        "/run/user/1000/bread/palettes/.DP-1.json.tmp.4242",
    )));
}

#[test]
fn ignores_access_events() {
    assert!(!change(&event(
        notify::EventKind::Access(notify::event::AccessKind::Read),
        "/run/user/1000/bread/palettes/DP-1.json",
    )));
}

#[test]
fn regions_are_cut_to_the_picture() {
    assert_eq!(
        upload_region(10, 8, -3, 2, 99, 5),
        Some(Region { x: 0, y: 2, width: 10, height: 3, offset: 80 })
    );
    assert_eq!(
        upload_region(10, 8, 4, 7, 5, 8),
        Some(Region { x: 4, y: 7, width: 1, height: 1, offset: 296 })
    );
    assert_eq!(upload_region(10, 8, 10, 0, 20, 8), None);
    assert_eq!(upload_region(10, 8, 4, 5, 4, 8), None);
    assert_eq!(upload_region(10, 8, 4, 5, 9, -8), None);
    let mut e = Extent { width: 1, height: 2 };
    assert!(!e.resize(1, 2));
    assert!(e.resize(1, 3));
    assert!(!e.resize(1, 3));
}

#[test]
fn palettes_are_read_once_while_they_are_watched() {
    let mut c: PaletteCache<u8> = PaletteCache::new();
    assert_eq!(c.palette_for(None, true), PaletteSource::Global);
    assert_eq!(c.palette_for(Some("DP-1"), false), PaletteSource::Read);
    assert_eq!(c.palette_for(Some("DP-1"), true), PaletteSource::ReadAndKeep);
    c.keep("DP-1".into(), 1);
    c.keep("DP-2".into(), 2);
    assert_eq!(c.palette_for(Some("DP-1"), true), PaletteSource::Cached(0));
    assert_eq!(c.palette_for(Some("DP-2"), true), PaletteSource::Cached(1));
    assert_eq!(c.entries[1].1, 2);
    c.invalidate();
    assert_eq!(c.palette_for(Some("DP-1"), true), PaletteSource::ReadAndKeep);
}

#[test]
fn every_output_is_covered_once() {
    let mut s = Surfaces::new();
    assert!(s.new_output(1, true));
    assert!(!s.new_output(1, false));
    s.add(10, 1);
    s.add(20, 2);
    assert!(!s.new_output(1, true));
    assert_eq!(s.configure(10, 100, 50), BufferSize { width: 100, height: 50, scale: 1 });
    assert_eq!(
        s.scale_factor_changed(10, 2),
        Some(BufferSize { width: 200, height: 100, scale: 2 })
    );
    assert_eq!(
        s.scale_factor_changed(20, -4),
        Some(BufferSize { width: 0, height: 0, scale: 1 })
    );
    assert_eq!(s.scale_factor_changed(99, 2), None);
    assert_eq!(s.configure(99, 7, 8), BufferSize { width: 7, height: 8, scale: 1 });
    assert_eq!(s.redraw_all(), vec![(10, 200, 100), (20, 0, 0)]);
    s.output_destroyed(1);
    assert_eq!(s.redraw_all(), vec![(20, 0, 0)]);
    assert!(s.new_output(1, true));
    assert_eq!(buffer_side(u32::MAX, 2), u32::MAX);
    assert_eq!(buffer_side(7, 0), 7);
}
