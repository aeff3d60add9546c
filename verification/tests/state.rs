use breadlock::lock::auth::AuthError;
use breadlock::lock::config::Config;
use breadlock::lock::keyboard::PASSWORD_CAP;
use breadlock::lock::render::Progress;
use breadlock::lock::state::{
    checking_dots, fail_timer_applies, AppState, AuthState, Key, Tick,
};
use breadlock::lock::status::StatusInfo;

const MS: u64 = 1_000_000;
const SEC: u64 = 1_000_000_000;

fn state() -> AppState {
    AppState::new(Config::default(), "riley".to_string(), false, 0)
}

fn type_in(s: &mut AppState, text: &str, now: u64) {
    for c in text.chars() {
        assert!(s.handle_key(Key::Other, Some(&c.to_string()), now).redraw);
    }
}

#[test]
fn checking_dots_with_stale_instant_is_not_empty() {
    assert_ne!(checking_dots(750 * MS), "");
}

#[test]
fn checking_dots_at_now_is_empty_or_dot() {
    // Nothing elapsed → "".
    assert_eq!(checking_dots(0), "");
}

#[test]
fn checking_dots_go_round_in_two_seconds() {
    let seen: Vec<&str> = (0..5).map(|i| checking_dots(i * 500 * MS)).collect();
    assert_eq!(seen, ["", ".", "..", "…", ""]);
}

#[test]
fn fail_timer_ignores_stale_generation() {
    assert!(!fail_timer_applies(1, 2, AuthState::Failed));
    assert!(fail_timer_applies(3, 3, AuthState::Failed));
    assert!(fail_timer_applies(1, 1, AuthState::AccountInvalid));
    assert!(fail_timer_applies(1, 1, AuthState::ConfigError));
    assert!(!fail_timer_applies(1, 1, AuthState::Idle));
    assert!(!fail_timer_applies(1, 1, AuthState::Checking));
}

#[test]
fn a_right_password_unlocks_after_the_fade() {
    let mut s = state();
    s.locked();
    type_in(&mut s, "hunter2", SEC);
    let out = s.handle_key(Key::Enter, None, 2 * SEC);
    let check = out.check.unwrap();
    assert_eq!(check.username, "riley");
    assert_eq!(check.password, "hunter2");
    assert_eq!(s.password, "");
    assert_eq!(s.password_display_len, 7);
    assert_eq!(s.auth_state, AuthState::Checking);
    assert!(!s.handle_key(Key::Other, Some("x"), 2 * SEC).redraw);
    assert_eq!(s.auth_finished(check.generation, Ok(()), 3 * SEC), None);
    assert_eq!(s.unlocking, Some(3 * SEC));
    assert!(!s.complete_unlock_if_ready(3 * SEC + 649 * MS));
    assert!(!s.exit);
    assert!(!s.handle_key(Key::Escape, None, 3 * SEC).redraw);
    assert!(s.complete_unlock_if_ready(3 * SEC + 650 * MS));
    assert!(s.exit);
    assert!(!s.complete_unlock_if_ready(4 * SEC));
}

#[test]
fn an_attempt_that_was_given_up_cannot_unlock() {
    let mut s = state();
    type_in(&mut s, "pw", 0);
    let check = s.handle_key(Key::Enter, None, 0).check.unwrap();
    let out = s.handle_key(Key::Escape, None, SEC);
    assert!(out.redraw && out.check.is_none());
    assert_eq!(s.auth_state, AuthState::Idle);
    assert_eq!(s.auth_finished(check.generation, Ok(()), 2 * SEC), None);
    assert_eq!(s.unlocking, None);
    assert_eq!(s.auth_finished(check.generation, Err(AuthError::Authenticate), 2 * SEC), None);
    assert_eq!(s.failed_attempts, 0);
}

fn fail(s: &mut AppState, err: AuthError, now: u64) -> u64 {
    type_in(s, "pw", now);
    let check = s.handle_key(Key::Enter, None, now).check.unwrap();
    s.auth_finished(check.generation, Err(err), now).unwrap()
}

fn status(s: &mut AppState, now: u64) -> Option<String> {
    s.redraw_surface(10, 10, "12:34", "", now).unwrap().status_text
}

#[test]
fn each_failure_has_its_own_state_and_text() {
    let mut s = state();
    fail(&mut s, AuthError::Authenticate, 0);
    assert_eq!(s.auth_state, AuthState::Failed);
    assert_eq!(status(&mut s, 0).as_deref(), Some("Wrong password"));
    fail(&mut s, AuthError::Authenticate, SEC);
    assert_eq!(status(&mut s, SEC).as_deref(), Some("Wrong password — 2 failed attempts"));
    fail(&mut s, AuthError::AccountInvalid, SEC);
    assert_eq!(s.auth_state, AuthState::AccountInvalid);
    assert_eq!(status(&mut s, SEC).as_deref(), Some("Account locked or expired"));
    fail(&mut s, AuthError::ContextInit, SEC);
    assert_eq!(s.auth_state, AuthState::ConfigError);
    assert_eq!(
        status(&mut s, SEC).as_deref(),
        Some("PAM config error — check logs (breadlock service not set up correctly)")
    );
    assert_eq!(s.failed_attempts, 2);
    type_in(&mut s, "p", 2 * SEC);
    assert_eq!(s.auth_state, AuthState::Idle);
    assert_eq!(status(&mut s, 2 * SEC), None);
    let check = s.handle_key(Key::Enter, None, 3 * SEC).check.unwrap();
    assert_eq!(status(&mut s, 3 * SEC + 600 * MS).as_deref(), Some("Checking."));
    s.auth_finished(check.generation, Ok(()), 4 * SEC);
    assert_eq!(s.failed_attempts, 0);
}

#[test]
fn a_failure_is_cleared_by_its_own_timer() {
    let mut s = state();
    let first = fail(&mut s, AuthError::Authenticate, 0);
    assert_eq!(s.schedule_clear_failed(), (800, first));
    let second = fail(&mut s, AuthError::Authenticate, SEC);
    assert_ne!(first, second);
    assert!(!s.clear_failed(first));
    assert_eq!(s.auth_state, AuthState::Failed);
    assert!(s.clear_failed(second));
    assert_eq!(s.auth_state, AuthState::Idle);
    assert_eq!(s.failed_at, None);
    assert!(!s.clear_failed(second));
}

#[test]
fn nobody_to_authenticate_is_a_config_error() {
    let mut s = AppState::new(Config::default(), String::new(), false, 0);
    assert!(s.handle_key(Key::Enter, None, 0).check.is_none());
    assert_eq!(s.auth_state, AuthState::Idle);
    type_in(&mut s, "pw", 0);
    assert!(s.handle_key(Key::Enter, None, SEC).check.is_none());
    assert_eq!(s.auth_state, AuthState::ConfigError);
    assert_eq!(s.password, "pw");
}

#[test]
fn editing_keys_edit() {
    let mut s = state();
    type_in(&mut s, "aé", 5);
    assert_eq!(s.last_keystroke, Some(5));
    s.handle_key(Key::Backspace, Some("\u{8}"), 6);
    assert_eq!(s.password, "a");
    assert_eq!(s.last_keystroke, Some(5));
    s.handle_key(Key::Other, Some("\u{1b}"), 7);
    assert_eq!(s.password, "a");
    assert_eq!(s.last_keystroke, Some(5));
    s.handle_key(Key::Escape, None, 8);
    assert_eq!(s.password, "");
    assert_eq!(s.last_activity, 8);
    type_in(&mut s, "secret", 9);
    s.wipe();
    assert_eq!(s.password, "");
}

#[test]
fn a_full_buffer_takes_no_more() {
    let mut s = state();
    for _ in 0..3 {
        s.handle_key_within(Key::Other, Some("abc"), 1, 7);
    }
    assert_eq!(s.password, "abcabca");
    let out = s.handle_key_within(Key::Other, Some("d"), 2, 7);
    assert!(out.redraw);
    assert_eq!(s.last_keystroke, Some(1));
    let long = "x".repeat(256);
    let mut s = state();
    s.handle_key(Key::Other, Some(&long), 0);
    assert_eq!(s.password.len(), 256);
}

#[test]
fn the_reserved_bytes_can_all_be_typed() {
    let mut s = state();
    for i in 0..128 {
        s.handle_key(Key::Other, Some("é\u{7}"), i);
    }
    assert_eq!(s.password, "é".repeat(128));
    assert_eq!(s.password.len(), PASSWORD_CAP);
    s.handle_key(Key::Backspace, None, 200);
    s.handle_key(Key::Other, Some("ab"), 201);
    assert_eq!(s.password.len(), PASSWORD_CAP);
    assert!(s.password.ends_with("éab"));
    s.handle_key(Key::Enter, None, 202);
    s.handle_key(Key::Escape, None, 203);
    s.handle_key(Key::Other, Some(&"x".repeat(PASSWORD_CAP)), 204);
    assert_eq!(s.password.len(), PASSWORD_CAP);
}

#[test]
fn a_small_buffer_is_replaced_before_it_is_typed_into() {
    let mut s = state();
    s.password = String::from("ab");
    s.password.shrink_to_fit();
    s.handle_key(Key::Other, Some("é"), 0);
    assert_eq!(s.password, "abé");
    assert!(s.password.capacity() >= PASSWORD_CAP);
    let held = s.password.as_ptr();
    s.handle_key(Key::Other, Some(&"x".repeat(PASSWORD_CAP)), 1);
    assert_eq!(s.password.as_ptr(), held);
    assert!(s.password.len() >= PASSWORD_CAP);
}

#[test]
fn tab_reveals_while_it_is_held() {
    let mut s = state();
    assert!(s.handle_key(Key::Tab, Some("\t"), 0).redraw);
    assert!(s.reveal_held);
    assert!(!s.key_released(Key::Other));
    assert!(s.reveal_held);
    assert!(s.key_released(Key::Tab));
    assert!(!s.key_released(Key::Tab));
    s.handle_key(Key::Tab, None, 0);
    assert!(s.keyboard_left());
    assert!(!s.reveal_held);
    assert!(!s.keyboard_left());
    let mut cfg = Config::default();
    cfg.input.reveal_hold = false;
    let mut s = AppState::new(cfg, "riley".into(), false, 0);
    s.handle_key(Key::Tab, Some("\t"), 0);
    assert!(!s.reveal_held);
    assert_eq!(s.password, "");
}

#[test]
fn modifiers_redraw_only_when_they_change() {
    let mut s = state();
    assert!(s.modifiers_changed(true, 0, 5));
    assert!(!s.modifiers_changed(true, 0, 6));
    assert_eq!(s.last_activity, 6);
    assert!(s.modifiers_changed(true, 2, 7));
    assert_eq!((s.caps_lock, s.layout_index), (true, 2));
}

#[test]
fn frames_show_the_state() {
    let mut s = state();
    assert!(s.redraw_surface(0, 10, "12:34", "Fri", 0).is_none());
    assert_eq!(s.appear_started, None);
    type_in(&mut s, "abc", 0);
    let f = s.redraw_surface(20, 10, "12:34", "Fri", 225 * MS).unwrap();
    assert_eq!((f.width, f.height, f.password_len), (20, 10, 3));
    assert_eq!((f.clock_text.as_str(), f.date_text.as_str()), ("12:34", "Fri"));
    assert_eq!(f.appear_t, Progress { done: 0, of: 450 * MS });
    assert_eq!(f.dot_pop_t, Progress { done: 200 * MS, of: 200 * MS });
    assert_eq!(f.keystroke_age, Some(225 * MS));
    assert_eq!(f.unlock_t, Progress::none());
    assert!(!f.failed && !f.smooth_pan);
    let f = s.redraw_surface(20, 10, "12:34", "Fri", 450 * MS).unwrap();
    assert_eq!(f.appear_t, Progress { done: 225 * MS, of: 450 * MS });
    assert_eq!(f.time, 450 * MS);
}

#[test]
fn a_new_minute_fades_in() {
    let mut s = state();
    assert_eq!(s.redraw_surface(1, 1, "12:34", "", 0).unwrap().clock_old, None);
    let f = s.redraw_surface(1, 1, "12:35", "", SEC).unwrap();
    assert_eq!(f.clock_old, Some(("12:34".into(), Progress { done: 0, of: 300 * MS })));
    // The clock that fades out is kept, even if the minute changes again.
    let f = s.redraw_surface(1, 1, "12:36", "", SEC + 150 * MS).unwrap();
    assert_eq!(f.clock_old, Some(("12:34".into(), Progress { done: 150 * MS, of: 300 * MS })));
    let f = s.redraw_surface(1, 1, "12:36", "", SEC + 300 * MS).unwrap();
    assert_eq!(f.clock_old, None);
}

#[test]
fn a_changed_status_slides_in() {
    let mut s = state();
    let f = s.redraw_surface(1, 1, "", "", 0).unwrap();
    assert_eq!(f.status_t, Progress::full());
    fail(&mut s, AuthError::Authenticate, SEC);
    let f = s.redraw_surface(1, 1, "", "", SEC).unwrap();
    assert_eq!(f.status_t, Progress { done: 0, of: 200 * MS });
    assert_eq!(f.failed_t, Progress { done: 0, of: 380 * MS });
    assert!(f.failed);
    let f = s.redraw_surface(1, 1, "", "", SEC + 100 * MS).unwrap();
    assert_eq!(f.status_t, Progress { done: 100 * MS, of: 200 * MS });
}

#[test]
fn the_info_line_joins_its_parts() {
    let mut s = state();
    let info = |s: &mut AppState| s.redraw_surface(1, 1, "", "", 0).unwrap().info_text;
    assert_eq!(info(&mut s), "");
    s.status_changed(StatusInfo { now_playing: "song".into(), battery: "87%".into() });
    assert_eq!(info(&mut s), "song  ·  87%");
    s.config.status.now_playing = false;
    assert_eq!(info(&mut s), "87%");
    s.config.status.now_playing = true;
    s.config.status.battery = false;
    assert_eq!(info(&mut s), "song");
}

#[test]
fn the_screen_dims_after_a_while() {
    let mut s = state();
    s.config.animation.idle_dim_after_secs = 10;
    let dim = |s: &mut AppState, now| s.redraw_surface(1, 1, "", "", now).unwrap().idle_dim;
    assert_eq!(dim(&mut s, 10 * SEC), Progress::none());
    assert_eq!(dim(&mut s, 12 * SEC), Progress { done: 2 * SEC, of: 4 * SEC });
    assert_eq!(dim(&mut s, 60 * SEC), Progress { done: 4 * SEC, of: 4 * SEC });
    assert!(s.anim_in_progress(12 * SEC));
    s.handle_key(Key::Enter, None, 60 * SEC);
    assert_eq!(dim(&mut s, 61 * SEC), Progress::none());
    s.config.animation.idle_dim_after_secs = u64::MAX;
    assert_eq!(dim(&mut s, u64::MAX), Progress::none());
}

#[test]
fn breaths_come_and_go() {
    let mut s = state();
    s.redraw_surface(1, 1, "", "", 0);
    // Nothing moves once the screen has appeared, until the first breath.
    assert!(!s.anim_in_progress(SEC));
    assert!(!s.arm_anim_if_needed(SEC));
    assert!(s.arm_anim_if_needed(1500 * MS));
    assert_eq!(s.breathe_started, Some(1500 * MS));
    assert!(!s.arm_anim_if_needed(1500 * MS));
    assert_eq!(s.tick_animation(1600 * MS), Tick::After(62));
    let f = s.redraw_surface(1, 1, "", "", 2100 * MS).unwrap();
    assert_eq!(f.breathe, Some(Progress { done: 600 * MS, of: 1200 * MS }));
    let f = s.redraw_surface(1, 1, "", "", 2700 * MS).unwrap();
    assert_eq!(f.breathe, None);
    assert_eq!(s.breathe_next_at, Some(5500 * MS));
    assert_eq!(s.tick_animation(2700 * MS), Tick::Stop);
    assert!(!s.anim_timer_armed);
    s.config.animation.breathe = false;
    assert!(!s.arm_anim_if_needed(9 * SEC));
}

#[test]
fn fast_motions_tick_fast() {
    let mut s = state();
    assert!(s.fast_anim_in_progress(0));
    assert!(s.arm_anim_if_needed(0));
    s.anim_timer_failed();
    assert!(s.arm_anim_if_needed(0));
    assert_eq!(s.tick_animation(0), Tick::After(16));
    s.redraw_surface(1, 1, "", "", 0);
    assert!(!s.fast_anim_in_progress(450 * MS));
    type_in(&mut s, "a", SEC);
    assert_eq!(s.tick_animation(SEC + 100 * MS), Tick::After(16));
    assert_eq!(s.tick_animation(SEC + 300 * MS), Tick::After(62));
    let mut moving = AppState::new(Config::default(), "riley".into(), true, 0);
    moving.redraw_surface(1, 1, "", "", 0);
    assert_eq!(moving.tick_animation(SEC), Tick::After(62));
}

#[test]
fn the_lock_is_given_back_once() {
    let mut s = state();
    s.locked();
    assert!(s.finished(true));
    assert!(s.exit);
    assert!(!s.finished(true));
    let mut s = state();
    s.locked();
    assert!(!s.finished(false));
    assert!(s.exit);
    let mut s = state();
    assert!(!s.finished(true));
}
