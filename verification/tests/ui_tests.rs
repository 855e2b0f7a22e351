use disgreet::session::Session;
use disgreet::ui::{Focus, Key, LoopAction, UI};

fn sessions() -> Vec<Session> {
    vec![
        Session { name: "Sway".to_string(), command: "sway".to_string() },
        Session { name: "Niri".to_string(), command: "niri-session".to_string() },
        Session { name: "bash".to_string(), command: "/usr/bin/bash".to_string() },
    ]
}

#[test]
fn new_form_without_previous_user() {
    let ui = UI::new(sessions(), "", None);
    assert!(ui.focus() == Focus::Username);
    assert_eq!(ui.username(), "");
    assert_eq!(ui.password(), "");
    assert_eq!(ui.cursor_pos(), 0);
    assert_eq!(ui.message(), "");
    assert_eq!(ui.session_index(), 0);
    assert!(!ui.is_handling());
    assert!(ui.background().is_none());
}

#[test]
fn new_form_with_previous_user() {
    let ui = UI::new(sessions(), "jürgen", None);
    assert!(ui.focus() == Focus::Password);
    assert_eq!(ui.username(), "jürgen");
    assert_eq!(ui.cursor_pos(), 6);
}

#[test]
fn tab_cycles_focus_and_moves_cursor() {
    let mut ui = UI::new(sessions(), "", None);
    for c in "jö".chars() {
        ui.handle_input(Key::Char(c));
    }
    ui.next_focus();
    assert!(ui.focus() == Focus::Password);
    for c in "pä".chars() {
        ui.handle_input(Key::Char(c));
    }
    ui.update_cursor_pos();
    assert_eq!(ui.cursor_pos(), 3); // bytes of "pä"
    ui.next_focus();
    assert!(ui.focus() == Focus::Session);
    assert_eq!(ui.cursor_pos(), 0);
    ui.next_focus();
    assert!(ui.focus() == Focus::Username);
    assert_eq!(ui.cursor_pos(), 2); // characters of "jö"
}

#[test]
fn typing_and_erasing() {
    let mut ui = UI::new(sessions(), "", None);
    ui.handle_input(Key::Char('a'));
    ui.handle_input(Key::Char('b'));
    assert_eq!(ui.username(), "ab");
    ui.handle_input(Key::Backspace);
    assert_eq!(ui.username(), "a");
    ui.handle_input(Key::Backspace);
    ui.handle_input(Key::Backspace);
    assert_eq!(ui.username(), "");
    ui.handle_input(Key::Left);
    assert_eq!(ui.username(), "");
    assert_eq!(ui.session_index(), 0);
}

#[test]
fn arrows_choose_sessions_with_wrap_around() {
    let mut ui = UI::new(sessions(), "", None);
    ui.next_focus();
    ui.next_focus();
    assert!(ui.focus() == Focus::Session);
    ui.handle_input(Key::Left);
    assert_eq!(ui.session_index(), 2);
    ui.handle_input(Key::Right);
    assert_eq!(ui.session_index(), 0);
    ui.handle_input(Key::Right);
    ui.handle_input(Key::Right);
    assert_eq!(ui.session_index(), 2);
    ui.handle_input(Key::Right);
    assert_eq!(ui.session_index(), 0);
    ui.handle_input(Key::Char('x'));
    assert_eq!(ui.username(), "");
}

#[test]
fn next_and_prev_hand_out_the_session() {
    let mut ui = UI::new(sessions(), "", None);
    assert_eq!(ui.go_next_session().unwrap().name, "Niri");
    assert_eq!(ui.go_prev_session().unwrap().name, "Sway");
    assert_eq!(ui.go_prev_session().unwrap().name, "bash");
    assert_eq!(ui.current_session().unwrap().command, "/usr/bin/bash");
}

#[test]
fn no_sessions_means_no_current_session() {
    let mut ui = UI::new(Vec::new(), "", None);
    assert!(ui.current_session().is_none());
    let view = ui.login_view();
    assert_eq!(view.session_line, "<  >");
}

#[test]
fn escape_quits_only_in_debug_builds() {
    let mut ui = UI::new(sessions(), "", None);
    assert!(matches!(ui.on_key(Key::Esc, true), LoopAction::Quit));
    assert!(matches!(ui.on_key(Key::Esc, false), LoopAction::Continue));
    assert!(matches!(ui.on_key(Key::Tab, false), LoopAction::Continue));
    assert!(ui.focus() == Focus::Password);
    assert!(matches!(ui.on_key(Key::Char('s'), false), LoopAction::Continue));
    assert_eq!(ui.password(), "s");
}

#[test]
fn enter_starts_a_login_with_the_form() {
    let mut ui = UI::new(sessions(), "alice", None);
    ui.handle_input(Key::Char('p'));
    ui.handle_input(Key::Char('w'));
    ui.next_focus();
    ui.handle_input(Key::Right);
    match ui.on_key(Key::Enter, false) {
        LoopAction::Authenticate(req) => {
            assert_eq!(req.username, "alice");
            assert_eq!(req.password, "pw");
            assert_eq!(req.session.name, "Niri");
            assert_eq!(req.session.command, "niri-session");
        }
        _ => panic!("expected a login"),
    }
    assert!(ui.is_handling());
    assert!(matches!(ui.on_key(Key::Enter, false), LoopAction::Continue));
    ui.handle_input(Key::Char('z'));
    assert_eq!(ui.username(), "alice");
    assert_eq!(ui.login_view().title, "auth...");
    assert!(!ui.finish_enter(Err("wrong password: authentication failed".to_string())));
    assert!(!ui.is_handling());
    assert_eq!(ui.message(), "wrong password: authentication failed");
    assert_eq!(ui.login_view().title, "wrong password: authentication failed");
    assert!(ui.begin_enter().is_some());
    assert!(ui.finish_enter(Ok(())));
    assert_eq!(ui.message(), "wrong password: authentication failed");
}

#[test]
fn login_box_texts_and_cursor() {
    let mut ui = UI::new(sessions(), "", None);
    ui.handle_input(Key::Char('é'));
    let v = ui.login_view();
    assert_eq!(v.title, "");
    assert_eq!(v.session_line, "< Sway >");
    assert!(!v.session_underlined);
    assert_eq!(v.username_line, "Username: é");
    assert!(v.username_highlighted);
    assert_eq!(v.password_line, "Password: ");
    assert!(!v.password_highlighted);
    assert_eq!(v.cursor, Some((2, "Username: é".len())));
    ui.next_focus();
    let v = ui.login_view();
    assert!(v.password_highlighted);
    assert_eq!(v.cursor, Some((4, 10)));
    ui.next_focus();
    let v = ui.login_view();
    assert!(v.session_underlined);
    assert_eq!(v.cursor, None);
}
