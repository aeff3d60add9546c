use breadlock::greet::config::{config_source, Config, ConfigSource, Sessions, User as UserConfig};
use breadlock::greet::greetd::{
    command_result, is_connection_error, login_outcome, start_outcome, Actor, AuthPrompt, CmdResult,
    Command, Event, GreetdError, MessageKind, Outcome, Response, Step,
};
use breadlock::greet::login::{login_users, prompt_answer, Effects, Icon, Login, Stage};
use breadlock::greet::sessions::{
    default_index, discover, list, split_exec, tokenize_exec, unescape_percent, Directory, Session,
    SessionKind,
};
use breadlock::greet::theme::css_font_family;
use breadlock::greet::users::{self, uid_bounds, User};
use breadlock::ui::desktop_entry::DesktopFile;

#[test]
fn default_sessions_match_standard_greetd_dirs() {
    let s = Sessions::default();
    assert_eq!(s.wayland_dirs, vec!["/usr/share/wayland-sessions"]);
    assert_eq!(s.xsessions_dirs, vec!["/usr/share/xsessions"]);
    assert_eq!(s.default, "bos");
}

#[test]
fn default_user_is_nobody_in_particular() {
    let c = Config::default();
    assert_eq!(c.user.name, "");
    assert!(!c.user.prompt);
    assert_eq!(c.sessions.default, "bos");
    assert_eq!(c.appearance.clock.format, "%H:%M");
}

#[test]
fn explicit_settings_win_over_the_system_and_the_user() {
    assert_eq!(config_source(true, true), ConfigSource::Explicit);
    assert_eq!(config_source(true, false), ConfigSource::Explicit);
    assert_eq!(config_source(false, true), ConfigSource::System);
    assert_eq!(config_source(false, false), ConfigSource::User);
}

#[test]
fn split_exec_drops_field_codes() {
    assert_eq!(split_exec("Hyprland"), vec!["Hyprland"]);
    assert_eq!(split_exec("gnome-session %U"), vec!["gnome-session"]);
}

#[test]
fn split_exec_drops_every_field_code_and_nothing_else() {
    for code in ["%f", "%F", "%u", "%U", "%d", "%D", "%n", "%N", "%i", "%c", "%k", "%v", "%m"] {
        assert_eq!(split_exec(&format!("a {code} b")), vec!["a", "b"]);
    }
    assert_eq!(split_exec("a %x b%f"), vec!["a", "%x", "b%f"]);
}

#[test]
fn split_exec_quoted_arguments() {
    assert_eq!(
        split_exec(r#"wrapper "my session" --flag"#),
        vec!["wrapper", "my session", "--flag"]
    );
}

#[test]
fn split_exec_double_percent_is_literal() {
    assert_eq!(split_exec("echo %%"), vec!["echo", "%"]);
    assert_eq!(split_exec(r#"echo "100%%""#), vec!["echo", "100%"]);
}

#[test]
fn doubled_percent_signs_are_undone() {
    for s in ["", "%", "%%", "100%", "%a%%%b"] {
        assert_eq!(unescape_percent(&s.replace('%', "%%")), s);
    }
    assert_eq!(unescape_percent("50% of %f"), "50% of %f");
    assert_eq!(unescape_percent("%%%"), "%%");
}

#[test]
fn a_written_command_reads_back() {
    let args = ["100%", "%f", "a %% b", "say \"hi\"", r"back\slash", "%", "plain"];
    let line: String = args
        .iter()
        .map(|a| format!("\"{}\" ", breadlock::text::escape(&a.replace('%', "%%"))))
        .collect();
    assert_eq!(split_exec(&line), args);
    assert_eq!(split_exec("50%x a%b%c"), vec!["50%x", "a%b%c"]);
}

#[test]
fn split_exec_handles_single_quotes_and_escapes() {
    // Single-quoted arguments are one token (previously these split).
    assert_eq!(split_exec(r#"cmd 'two words'"#), vec!["cmd", "two words"]);
    // A backslash outside quotes escapes the next character, so an
    // escaped space merges into the running token.
    assert_eq!(split_exec(r"cmd a\ b"), vec!["cmd", "a b"]);
    // `\"` inside double quotes is an escaped backslash then a close
    // quote, i.e. a literal backslash inside a quoted argument.
    assert_eq!(split_exec(r#"cmd "a\"b""#), vec!["cmd", "a\"b"]);
}

#[test]
fn tokenize_exec_quotes_spaces_and_escapes_edge_cases() {
    // Quoting preserves embedded spaces; a backslash escapes a space.
    assert_eq!(tokenize_exec("echo \"a b\""), vec!["echo", "a b"]);
    assert_eq!(tokenize_exec("echo 'a b'"), vec!["echo", "a b"]);
    assert_eq!(tokenize_exec("echo a\\ b"), vec!["echo", "a b"]);
    // Inside double quotes a backslash escapes the next character,
    // including the quote itself.
    assert_eq!(tokenize_exec(r#"echo "a\"b""#), vec!["echo", "a\"b"]);
    // An escaped backslash outside quotes yields one literal backslash.
    assert_eq!(tokenize_exec(r"echo a\\"), vec!["echo", "a\\"]);
    // Quoting can splice mid-word (the space is part of one argument).
    assert_eq!(
        tokenize_exec(r#"echo pre"mid dle"post"#),
        vec!["echo", "premid dlepost"]
    );
    // Plain whitespace splits greedily, tabs/newlines included.
    assert_eq!(tokenize_exec("  a   b\t c\n "), vec!["a", "b", "c"]);
    // Field codes survive this layer; `split_exec` drops them later.
    assert_eq!(
        tokenize_exec("app %U --flag %f"),
        vec!["app", "%U", "--flag", "%f"]
    );
    // An unclosed quote swallows the remainder as one token (no panic).
    assert_eq!(tokenize_exec("app \"rest of"), vec!["app", "rest of"]);
    // Empty / whitespace-only input yields no tokens.
    assert!(tokenize_exec("").is_empty());
    assert!(tokenize_exec("   \t  ").is_empty());
}

#[test]
fn tokenize_exec_backslash_in_single_quotes_and_at_the_end() {
    assert_eq!(tokenize_exec(r"a '\' b"), vec!["a", "\\", "b"]);
    assert_eq!(tokenize_exec("a\\"), vec!["a\\"]);
    assert_eq!(tokenize_exec("\"a\\"), vec!["a\\"]);
    assert_eq!(tokenize_exec("''  \"\""), Vec::<String>::new());
}

#[test]
fn quoted_arguments_read_back() {
    let args = ["a b", "c\"d", "e\\f", "'", " "];
    let line: String = args
        .iter()
        .map(|a| format!("\"{}\" ", breadlock::text::escape(a)))
        .collect();
    assert_eq!(tokenize_exec(&line), args);
}

#[test]
fn tokenize_exec_fuzz_never_panics_and_emits_only_nonempty_tokens() {
    // Pseudo-fuzz over quoting/escaping/whitespace/field-code characters:
    // whatever the input, tokenizing must not panic and must never emit an
    // empty token (the tokenizer only pushes non-empty buffers).
    let alphabet: [char; 7] = ['a', 'b', ' ', '\'', '"', '\\', '%'];
    let mut state: u64 = 0x2545_F491_4F6C_DD1D;
    let mut rng = move || {
        state = state
            .wrapping_mul(6364136223846793005)
            .wrapping_add(1442695040888963407);
        state
    };
    for _ in 0..5_000 {
        let len = (rng() % 32) as usize;
        let input: String = (0..len)
            .map(|_| alphabet[(rng() as usize) % alphabet.len()])
            .collect();
        let tokens = tokenize_exec(&input);
        assert!(
            tokens.iter().all(|t| !t.is_empty()),
            "tokenize must not emit empty tokens for {input:?} -> {tokens:?}"
        );
        // Whitespace-only input must yield no tokens. (The converse is
        // deliberately not asserted: an input of only a quote/backslash
        // adds no word chars and so correctly yields nothing.)
        if input.chars().all(char::is_whitespace) {
            assert!(tokens.is_empty(), "{input:?} -> {tokens:?}");
        }
    }
}

fn missing(path: &str) -> Directory {
    Directory { path: path.to_string(), files: None }
}

fn fixture(stem: &str, name: &str, exec: &str) -> DesktopFile {
    DesktopFile {
        stem: Some(stem.to_string()),
        extension: Some("desktop".to_string()),
        contents: Some(format!("[Desktop Entry]\nName={name}\nExec={exec}\n")),
        command_missing: false,
    }
}

fn directory(files: Vec<DesktopFile>) -> Directory {
    Directory { path: "/sessions".to_string(), files: Some(files) }
}

#[test]
fn discover_returns_none_when_no_directories_exist() {
    assert!(discover(
        &vec![missing("/nonexistent/a")],
        &vec![missing("/nonexistent/b")],
        "hyprland"
    )
    .is_none());
}

#[test]
fn discover_prefers_configured_default_over_first_entry() {
    let dir = directory(vec![
        fixture("aaa", "A", "a-cmd"),
        fixture("hyprland", "Hyprland", "Hyprland"),
    ]);
    let session = discover(&vec![dir.clone()], &vec![], "hyprland").unwrap();
    assert_eq!(session.stem, "hyprland");
    assert_eq!(session.name, "Hyprland");
    assert_eq!(session.command, vec!["Hyprland"]);
    assert_eq!(session.kind, SessionKind::Wayland);
    assert_eq!(discover(&vec![dir], &vec![], "absent").unwrap().stem, "aaa");
}

#[test]
fn list_returns_all_sessions_wayland_then_x() {
    let wayland = directory(vec![
        fixture("hyprland", "Hyprland", "Hyprland"),
        fixture("bos", "BOS", "/usr/local/bin/bos-session"),
    ]);
    let x11 = directory(vec![fixture("openbox", "Openbox", "openbox-session")]);
    let listed = list(&vec![wayland], &vec![x11]);
    let stems: Vec<&str> = listed.iter().map(|s| s.stem.as_str()).collect();
    assert_eq!(stems, vec!["bos", "hyprland", "openbox"]);
    assert_eq!(listed[0].command, vec!["/usr/local/bin/bos-session"]);
    assert_eq!(listed[0].kind, SessionKind::Wayland);
    assert_eq!(listed[2].kind, SessionKind::X11);
    assert!(listed[2]
        .start_env()
        .contains(&"XDG_SESSION_TYPE=x11".to_string()));
    assert!(listed[0]
        .start_env()
        .contains(&"XDG_SESSION_TYPE=wayland".to_string()));
    assert!(listed[0]
        .start_env()
        .contains(&"XDG_SESSION_DESKTOP=bos".to_string()));
}

#[test]
fn default_index_prefers_bos_then_first() {
    let sessions = vec![
        Session {
            stem: "aaa".into(),
            name: "A".into(),
            command: vec!["a".into()],
            kind: SessionKind::Wayland,
        },
        Session {
            stem: "bos".into(),
            name: "BOS".into(),
            command: vec!["bos-session".into()],
            kind: SessionKind::Wayland,
        },
    ];
    assert_eq!(default_index(&sessions, "bos"), 1);
    assert_eq!(default_index(&sessions, "missing"), 0);
    assert_eq!(default_index(&vec![], "bos"), 0);
}

#[test]
fn session_without_a_stem_is_known_by_its_name() {
    let s = Session {
        stem: String::new(),
        name: "My Session".into(),
        command: vec![],
        kind: SessionKind::X11,
    };
    assert_eq!(
        s.start_env(),
        vec![
            "XDG_SESSION_TYPE=x11",
            "XDG_SESSION_DESKTOP=My Session",
            "XDG_CURRENT_DESKTOP=My Session"
        ]
    );
}

const PASSWD: &str = "\
root:x:0:0:root:/root:/bin/bash
bin:x:1:1::/:/usr/bin/nologin
nobody:x:65534:65534:Nobody:/:/usr/bin/nologin
riley:x:1000:1000:Riley Horsham,,,:/home/riley:/bin/zsh
guest:x:1001:1001::/home/guest:/bin/bash
svc:x:850:850:some service:/var/lib/svc:/bin/bash
noshell:x:1002:1002::/home/noshell:/usr/sbin/nologin
falseshell:x:1003:1003::/home/f:/bin/false
";

#[test]
fn keeps_only_human_login_accounts() {
    let users = users::parse(PASSWD, Some("UID_MIN 1000\nUID_MAX 60000\n"));
    let names: Vec<&str> = users.iter().map(|u| u.name.as_str()).collect();
    assert_eq!(names, ["riley", "guest"]);
}

#[test]
fn gecos_full_name_becomes_the_display_name() {
    let users = users::parse(PASSWD, None);
    let riley = users.iter().find(|u| u.name == "riley").unwrap();
    assert_eq!(riley.display, "Riley Horsham");
    let guest = users.iter().find(|u| u.name == "guest").unwrap();
    assert_eq!(guest.display, "guest"); // no GECOS -> falls back to name
}

#[test]
fn respects_uid_min_from_login_defs() {
    // Lowering UID_MIN pulls the service account (uid 850) into range;
    // it still has a real shell so it now counts.
    let users = users::parse(PASSWD, Some("UID_MIN 500\nUID_MAX 60000\n"));
    let names: Vec<&str> = users.iter().map(|u| u.name.as_str()).collect();
    assert_eq!(names, ["svc", "riley", "guest"]);
}

#[test]
fn sorted_by_uid() {
    let users = users::parse(PASSWD, Some("UID_MIN 500\n"));
    assert!(users.windows(2).all(|w| w[0].uid <= w[1].uid));
}

#[test]
fn empty_passwd_yields_nothing() {
    assert!(users::parse("", None).is_empty());
    assert!(users::list(None, None).is_empty());
}

#[test]
fn defaults_when_login_defs_absent() {
    assert_eq!(uid_bounds(None), (1000, 60000));
}

#[test]
fn login_defs_takes_the_last_number_it_can_read() {
    assert_eq!(uid_bounds(Some("UID_MIN 5\nUID_MIN x\n#UID_MAX 9\n UID_MAX\t77 rest\n")), (5, 77));
    assert_eq!(uid_bounds(Some("UID_MIN\nUID_MAX 4294967296\n")), (1000, 60000));
}

#[test]
fn repeated_and_broken_accounts_are_dropped() {
    let passwd = "b:x:1001:1::/h:/bin/sh\na:x:1001:1::/h:/bin/sh\nb:x:1001:1::/h:/bin/sh\n\
                  short:x:1002\nhomeless:x:1003:1:c\nshellless:x:1004:1::/h\nbad:x:one:1::/h:/bin/sh\n\
                  nobody:x:1005:1::/h:/bin/sh\n";
    let users = users::parse(passwd, None);
    let names: Vec<&str> = users.iter().map(|u| u.name.as_str()).collect();
    assert_eq!(names, ["a", "b"]);
    assert_eq!(users::list(Some(passwd), None), users);
}

#[test]
fn font_family_is_quoted_and_escaped() {
    assert_eq!(css_font_family(""), "");
    assert_eq!(css_font_family("Varela Round"), "font-family: \"Varela Round\";");
    assert_eq!(css_font_family("a\"b\\c"), "font-family: \"a\\\"b\\\\c\";");
}

#[test]
fn create_session_success_flows_straight_through() {
    assert!(matches!(login_outcome(Response::Success), Ok(Outcome::Success)));
}

#[test]
fn create_session_prompts_for_password_then_succeeds() {
    let outcome = login_outcome(Response::AuthMessage {
        kind: MessageKind::Secret,
        message: "Password:".to_string(),
    })
    .unwrap();
    let Outcome::Prompt(AuthPrompt::Secret(msg)) = outcome else {
        panic!("expected a secret prompt, got {outcome:?}");
    };
    assert_eq!(msg, "Password:");
    assert!(matches!(login_outcome(Response::Success), Ok(Outcome::Success)));
}

#[test]
fn auth_error_is_reported_as_such() {
    let err = login_outcome(Response::Error {
        is_auth_error: true,
        description: "denied".to_string(),
    })
    .unwrap_err();
    match err {
        GreetdError::Greetd { is_auth_error, ref description } => {
            assert!(is_auth_error);
            assert_eq!(description, "denied");
        }
        ref other => panic!("expected a greetd auth error, got {other:?}"),
    }
    assert_eq!(err.message(), "denied");
    assert!(!is_connection_error(&err));
}

#[test]
fn every_kind_of_message_becomes_a_prompt() {
    let prompt = |kind| match login_outcome(Response::AuthMessage { kind, message: "m".into() }) {
        Ok(Outcome::Prompt(p)) => p,
        other => panic!("{other:?}"),
    };
    assert!(matches!(prompt(MessageKind::Visible), AuthPrompt::Visible(m) if m == "m"));
    assert!(matches!(prompt(MessageKind::Secret), AuthPrompt::Secret(m) if m == "m"));
    assert!(matches!(prompt(MessageKind::Info), AuthPrompt::Info(m) if m == "m"));
    assert!(matches!(prompt(MessageKind::Error), AuthPrompt::Error(m) if m == "m"));
}

#[test]
fn starting_a_session_accepts_no_question() {
    assert!(start_outcome(Response::Success).is_ok());
    let err = start_outcome(Response::AuthMessage { kind: MessageKind::Info, message: "m".into() })
        .unwrap_err();
    assert_eq!(err.message(), "greetd sent an unexpected auth message after StartSession");
    let err = start_outcome(Response::Error { is_auth_error: false, description: "no".into() })
        .unwrap_err();
    assert_eq!(err.message(), "no");
}

#[test]
fn errors_say_what_went_wrong() {
    assert_eq!(
        GreetdError::NoSocketEnv.message(),
        "$GREETD_SOCK is not set — breadgreet must be launched by greetd"
    );
    assert_eq!(
        GreetdError::Connect("refused".into()).message(),
        "failed to connect to greetd socket: refused"
    );
    assert_eq!(GreetdError::Codec("EOF".into()).message(), "greetd IPC error: EOF");
    assert!(is_connection_error(&GreetdError::NoSocketEnv));
    assert!(is_connection_error(&GreetdError::Connect(String::new())));
    assert!(is_connection_error(&GreetdError::Codec(String::new())));
}

#[test]
fn connect_failure_does_not_drop_the_actor() {
    let (mut actor, event) = Actor::new(Err(GreetdError::Connect("gone".into())));
    match event {
        Some(Event::Error(msg)) => assert!(
            msg.contains("Cannot reach greetd"),
            "unexpected error: {msg}"
        ),
        other => panic!("expected Error, got {other:?}"),
    }
    assert!(matches!(actor.command(Command::CancelSession), Step::Wait));
    assert!(matches!(actor.command(Command::CreateSession("bob".into())), Step::Connect));
    match actor.connected(Ok(())) {
        Step::Send(Command::CreateSession(name)) => assert_eq!(name, "bob"),
        other => panic!("expected the command to be sent, got {other:?}"),
    }
    let (cancel, event) = actor.replied(command_result(false, Ok(Response::Success)));
    assert!(!cancel);
    assert!(matches!(event, Event::Outcome(Outcome::Success)));
}

#[test]
fn reconnecting_that_fails_gives_the_command_up() {
    let (mut actor, event) = Actor::new(Ok(()));
    assert!(event.is_none());
    actor.timed_out("30s");
    assert!(matches!(actor.command(Command::Respond(None)), Step::Connect));
    match actor.connected(Err(GreetdError::NoSocketEnv)) {
        Step::Tell(Event::Error(msg)) => assert_eq!(
            msg,
            "Cannot reach greetd: $GREETD_SOCK is not set — breadgreet must be launched by greetd"
        ),
        other => panic!("{other:?}"),
    }
    assert!(actor.pending.is_none());
    assert!(!actor.connected);
}

#[test]
fn wedged_roundtrip_times_out_instead_of_hanging() {
    let (mut actor, _) = Actor::new(Ok(()));
    assert!(matches!(actor.command(Command::CreateSession("bob".into())), Step::Send(_)));
    match actor.timed_out("200ms") {
        Event::Error(msg) => assert!(
            msg.contains("did not respond"),
            "expected a roundtrip-timeout error, got {msg:?}"
        ),
        other => panic!("expected Error, got {other:?}"),
    }
    assert!(!actor.connected);
}

#[test]
fn an_unanswered_cancel_gives_the_connection_up() {
    let (mut actor, _) = Actor::new(Ok(()));
    assert!(matches!(actor.command(Command::CancelSession), Step::Cancel));
    actor.cancel_timed_out();
    assert!(!actor.connected);
    assert!(actor.pending.is_none());
    assert!(matches!(actor.command(Command::CancelSession), Step::Wait));
    assert!(matches!(actor.command(Command::CreateSession("bob".into())), Step::Connect));
    match actor.connected(Ok(())) {
        Step::Send(Command::CreateSession(name)) => assert_eq!(name, "bob"),
        other => panic!("expected the command to be sent, got {other:?}"),
    }
}

#[test]
fn roundtrip_connection_error_recovers_on_next_request() {
    let (mut actor, _) = Actor::new(Ok(()));
    assert!(matches!(actor.command(Command::CreateSession("bob".into())), Step::Send(_)));
    let (cancel, event) =
        actor.replied(command_result(false, Err(GreetdError::Codec("EOF".into()))));
    assert!(!cancel);
    match event {
        Event::Error(msg) => assert!(
            msg.contains("greetd IPC error"),
            "expected a connection (EOF) error, got {msg:?}"
        ),
        other => panic!("expected Error, got {other:?}"),
    }
    assert!(matches!(actor.command(Command::CreateSession("bob".into())), Step::Connect));
    assert!(matches!(actor.connected(Ok(())), Step::Send(_)));
}

#[test]
fn an_answered_error_cancels_and_keeps_the_connection() {
    let (mut actor, _) = Actor::new(Ok(()));
    let (cancel, event) = actor.replied(command_result(
        true,
        Ok(Response::Error { is_auth_error: true, description: "denied".into() }),
    ));
    assert!(cancel);
    assert!(matches!(event, Event::Error(m) if m == "denied"));
    assert!(actor.connected);
    assert!(matches!(actor.command(Command::CancelSession), Step::Cancel));
    assert!(matches!(command_result(true, Ok(Response::Success)), CmdResult::Started));
    let (cancel, event) = actor.replied(CmdResult::Started);
    assert!(!cancel);
    assert!(matches!(event, Event::SessionStarted));
}

#[test]
fn empty_password_is_some_empty_string() {
    assert_eq!(prompt_answer(String::new()), Some(String::new()));
    assert_eq!(prompt_answer("hunter2".into()), Some("hunter2".into()));
}

fn user(name: &str) -> User {
    User { name: name.into(), display: name.to_uppercase(), uid: 1000 }
}

fn session(stem: &str) -> Session {
    Session {
        stem: stem.into(),
        name: stem.to_uppercase(),
        command: vec![stem.into(), "--run".into()],
        kind: SessionKind::Wayland,
    }
}

fn names(fx: &Effects) -> Vec<String> {
    fx.commands
        .iter()
        .map(|c| match c {
            Command::CreateSession(n) => format!("create {n}"),
            Command::Respond(Some(a)) => format!("answer {a}"),
            Command::Respond(None) => "answer".to_string(),
            Command::StartSession { cmd, env } => format!("start {} {}", cmd.join(" "), env.len()),
            Command::CancelSession => "cancel".to_string(),
        })
        .collect()
}

#[test]
fn users_come_from_the_settings_or_the_accounts() {
    let all = vec![user("a"), user("b")];
    let cfg = |name: &str, prompt| UserConfig { name: name.into(), prompt };
    assert_eq!(login_users(&cfg("", false), all.clone()), all);
    assert!(login_users(&cfg("x", true), all.clone()).is_empty());
    let pinned = login_users(&cfg("  x ", false), all.clone());
    assert_eq!(pinned, vec![User { name: "x".into(), display: "x".into(), uid: 0 }]);
    assert_eq!(login_users(&cfg("  ", false), all.clone()), all);
}

#[test]
fn typed_login_goes_from_name_to_session() {
    let mut l = Login::new(vec![], vec![session("aaa"), session("bos")], "bos");
    assert_eq!(l.stage, Stage::Username);
    assert_eq!(l.selected, 1);
    assert_eq!(l.screen.placeholder, "Username");
    assert_eq!(l.screen.icon, Icon::Person);
    assert!(l.screen.sensitive && l.screen.visible);
    assert!(!l.is_busy());

    assert!(names(&l.handle_submit(String::new(), true)).is_empty());
    let fx = l.handle_submit("bob".into(), true);
    assert_eq!(names(&fx), ["create bob"]);
    assert!(fx.clear_entry);
    assert!(l.is_busy());
    assert!(!l.screen.sensitive);

    let fx = l.handle_outcome(Outcome::Prompt(AuthPrompt::Secret("Password:".into())), true);
    assert!(names(&fx).is_empty());
    assert!(fx.grab_focus);
    assert_eq!(l.stage, Stage::Prompt);
    assert!(!l.screen.visible);
    assert!(l.screen.sensitive);
    assert_eq!(l.screen.placeholder, "Password:");

    let fx = l.handle_submit(String::new(), true);
    assert_eq!(names(&fx), ["answer "]);
    let fx = l.handle_outcome(Outcome::Success, true);
    assert_eq!(names(&fx), ["start bos --run 3"]);
    assert_eq!(l.stage, Stage::Starting);
    assert!(names(&l.cancel_auth(true)).is_empty());
    let fx = l.session_started();
    assert!(fx.quit);
    assert_eq!(l.screen.status, "Starting session…");
}

#[test]
fn messages_are_shown_and_kept_for_the_next_question() {
    let mut l = Login::new(vec![user("a")], vec![session("bos")], "bos");
    assert_eq!(l.stage, Stage::Working);
    assert_eq!(l.username, "a");
    assert_eq!(names(&l.auto_start(true)), ["create a"]);
    let fx = l.handle_outcome(Outcome::Prompt(AuthPrompt::Error("locked out".into())), true);
    assert_eq!(names(&fx), ["answer"]);
    assert!(fx.shake && l.screen.error);
    let fx = l.handle_outcome(Outcome::Prompt(AuthPrompt::Info("hello".into())), true);
    assert_eq!(names(&fx), ["answer"]);
    assert!(!l.screen.error);
    l.handle_outcome(Outcome::Prompt(AuthPrompt::Visible("code".into())), true);
    assert_eq!(l.screen.status, "hello");
    assert!(l.screen.visible);
    l.handle_outcome(Outcome::Prompt(AuthPrompt::Secret("pw".into())), true);
    assert_eq!(l.screen.status, "");
}

#[test]
fn errors_begin_the_login_anew() {
    let mut l = Login::new(vec![user("a"), user("b")], vec![session("bos")], "bos");
    let fx = l.handle_error("denied", true);
    assert_eq!(names(&fx), ["cancel", "create a"]);
    assert!(fx.shake && fx.clear_entry);
    assert_eq!(l.screen.status, "denied");
    assert_eq!(l.stage, Stage::Working);
    assert!(!l.screen.visible);

    assert_eq!(names(&l.switch_user(1, true)), ["cancel", "create b"]);
    assert_eq!(l.username, "b");
    assert!(names(&l.switch_user(1, true)).is_empty());
    assert!(names(&l.switch_user(9, true)).is_empty());
    assert_eq!(names(&l.cancel_auth(true)), ["cancel", "create b"]);

    let mut typed = Login::new(vec![], vec![session("bos")], "bos");
    typed.handle_submit("bob".into(), true);
    let fx = typed.cancel_auth(true);
    assert_eq!(names(&fx), ["cancel"]);
    assert!(fx.grab_focus);
    assert_eq!(typed.stage, Stage::Username);
    assert_eq!(typed.username, "");
    assert!(typed.cancel_auth(true).clear_entry);
}

#[test]
fn greetd_that_cannot_be_reached_is_an_error() {
    let mut l = Login::new(vec![], vec![session("bos")], "bos");
    let fx = l.handle_submit("bob".into(), false);
    assert!(names(&fx).is_empty());
    assert_eq!(l.screen.status, "Cannot reach greetd");
    assert!(l.screen.error);
    assert_eq!(l.stage, Stage::Username);
}

#[test]
fn without_a_session_nobody_logs_in() {
    let mut l = Login::new(vec![], vec![], "bos");
    assert_eq!(l.screen.status, "No session found — cannot log in");
    assert!(l.screen.error && !l.screen.sensitive);
    let fx = l.handle_submit("bob".into(), true);
    assert_eq!(names(&fx), ["cancel"]);
    assert_eq!(l.screen.status, "No session found — cannot log in");

    let mut auto = Login::new(vec![user("a")], vec![], "bos");
    assert!(names(&auto.auto_start(true)).is_empty());
    assert_eq!(auto.stage, Stage::Username);
    assert_eq!(names(&auto.handle_outcome(Outcome::Success, true)), ["cancel", "cancel"]);
    assert_eq!(auto.screen.status, "No session available to start");
    auto.select_session(3);
    assert_eq!(auto.selected, 0);
}
