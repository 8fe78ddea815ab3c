use rustbox::chat::input::Key;
use rustbox::chat::{ActivePanel, App};

#[test]
fn next_then_previous_session_returns() {
    let mut app = App::new();
    app.selected_session = Some(2);
    app.next_session();
    assert_eq!(app.selected_session, Some(0));
    app.previous_session();
    assert_eq!(app.selected_session, Some(2));
}

#[test]
fn previous_from_past_the_end_stays_past_the_end() {
    let mut app = App::new();
    app.selected_session = Some(5);
    app.previous_session();
    assert_eq!(app.selected_session, Some(4));
}

#[test]
fn next_then_previous_command_returns() {
    let mut app = App::new();
    app.chat_input = "/".to_string();
    app.selected_command = Some(3);
    app.next_command();
    app.previous_command();
    assert_eq!(app.selected_command, Some(3));
    app.previous_command();
    app.next_command();
    assert_eq!(app.selected_command, Some(3));
}

#[test]
fn typing_then_backspace_restores() {
    let mut app = App::new();
    app.username = "al".to_string();
    app.handle_key(Key::Char('x'));
    app.handle_key(Key::Backspace);
    assert_eq!(app.username, "al");

    let mut app = App::new();
    app.mode = rustbox::chat::AppMode::Chat;
    app.chat_input = "/he".to_string();
    app.selected_command = Some(2);
    app.handle_key(Key::Char('l'));
    app.handle_key(Key::Backspace);
    assert_eq!(app.chat_input, "/he");
    assert_eq!(app.selected_command, Some(0));
}

#[test]
fn tab_cycle_returns() {
    let mut app = App::new();
    app.mode = rustbox::chat::AppMode::Chat;
    for _ in 0..3 {
        app.handle_key(Key::Tab);
    }
    assert_eq!(app.active_panel, ActivePanel::Input);
    app.handle_key(Key::Tab);
    app.handle_key(Key::BackTab);
    assert_eq!(app.active_panel, ActivePanel::Input);
}

#[test]
fn stepping_through_all_rooms_returns() {
    let mut app = App::new();
    app.selected_session = Some(1);
    for _ in 0..app.sessions.len() {
        app.next_session();
    }
    assert_eq!(app.selected_session, Some(1));
}
