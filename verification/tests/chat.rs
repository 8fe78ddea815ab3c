use rustbox::chat::input::{Control, Key};
use rustbox::chat::screen::{command_label, is_right_aligned, sidebar_label};
use rustbox::chat::{ActivePanel, App, AppMode, Area, LoginField};

fn messages(app: &App, i: usize) -> Vec<String> {
    app.sessions[i].messages.clone()
}

fn type_text(app: &mut App, s: &str) {
    for c in s.chars() {
        assert_eq!(app.handle_key(Key::Char(c)), Control::Continue);
    }
}

fn logged_in() -> App {
    let mut app = App::new();
    type_text(&mut app, "ann");
    app.handle_key(Key::Enter);
    app
}

#[test]
fn starts_on_login() {
    let app = App::new();
    assert_eq!(app.mode, AppMode::Login);
    assert_eq!(app.active_field, LoginField::Username);
    assert_eq!(app.active_panel, ActivePanel::Input);
    assert_eq!(app.sessions.len(), 3);
    assert_eq!(app.sessions[1].name, "Project Rust");
    assert_eq!(messages(&app, 2), vec!["System: Off-topic lounge.".to_string()]);
    assert_eq!(app.selected_session, Some(0));
    assert_eq!(app.selected_command, Some(0));
    assert_eq!(app.available_commands.len(), 5);
    assert_eq!(app.available_commands[4], ("/quit", "Exit application"));
}

#[test]
fn login_typing_switching_and_backspace() {
    let mut app = App::new();
    type_text(&mut app, "bob");
    app.handle_key(Key::Tab);
    assert_eq!(app.active_field, LoginField::Password);
    type_text(&mut app, "pw1");
    app.handle_key(Key::Backspace);
    assert_eq!(app.username, "bob");
    assert_eq!(app.password, "pw");
    app.handle_key(Key::Up);
    assert_eq!(app.active_field, LoginField::Username);
    app.handle_key(Key::Backspace);
    assert_eq!(app.username, "bo");
}

#[test]
fn login_needs_a_non_blank_name() {
    let mut app = App::new();
    type_text(&mut app, "  \t");
    app.handle_key(Key::Enter);
    assert_eq!(app.mode, AppMode::Login);
    assert_eq!(messages(&app, 0).len(), 2);
}

#[test]
fn login_posts_greeting() {
    let app = logged_in();
    assert_eq!(app.mode, AppMode::Chat);
    assert_eq!(messages(&app, 0).last().unwrap(), "System: Logged in as ann");
}

#[test]
fn sending_a_message_trims_it() {
    let mut app = logged_in();
    type_text(&mut app, "  hi there  ");
    app.handle_key(Key::Enter);
    assert_eq!(messages(&app, 0).last().unwrap(), "ann: hi there");
    assert_eq!(app.chat_input, "");
    type_text(&mut app, "   ");
    app.handle_key(Key::Enter);
    assert_eq!(app.chat_input, "   ");
    assert_eq!(messages(&app, 0).len(), 4);
}

#[test]
fn palette_filters_by_prefix() {
    let mut app = logged_in();
    type_text(&mut app, "/");
    assert_eq!(app.filtered_commands().len(), 5);
    type_text(&mut app, "c");
    assert_eq!(app.filtered_commands(), vec![("/clear", "Clear current chat history")]);
    type_text(&mut app, "x");
    assert!(app.filtered_commands().is_empty());
    app.chat_input = "hello".to_string();
    assert!(app.filtered_commands().is_empty());
}

#[test]
fn palette_navigation_wraps() {
    let mut app = logged_in();
    type_text(&mut app, "/");
    app.handle_key(Key::Up);
    assert_eq!(app.selected_command, Some(4));
    app.handle_key(Key::Down);
    assert_eq!(app.selected_command, Some(0));
    app.handle_key(Key::Down);
    assert_eq!(app.selected_command, Some(1));
}

#[test]
fn help_and_users_commands_post_answers() {
    let mut app = logged_in();
    type_text(&mut app, "/h");
    assert_eq!(app.handle_key(Key::Enter), Control::Continue);
    assert_eq!(
        messages(&app, 0).last().unwrap(),
        "System: Commands: /clear, /nick, /users, /quit"
    );
    assert_eq!(app.chat_input, "");
    type_text(&mut app, "/u");
    app.handle_key(Key::Enter);
    assert_eq!(messages(&app, 0).last().unwrap(), "System: Online users: [You], Bot");
}

#[test]
fn clear_command_empties_room() {
    let mut app = logged_in();
    type_text(&mut app, "/cl");
    app.handle_key(Key::Enter);
    assert!(messages(&app, 0).is_empty());
    assert_eq!(app.chat_input, "");
}

#[test]
fn nick_command_keeps_input() {
    let mut app = logged_in();
    type_text(&mut app, "/n");
    app.handle_key(Key::Enter);
    assert_eq!(app.chat_input, "/nick ");
}

#[test]
fn quit_command_ends_process() {
    let mut app = logged_in();
    type_text(&mut app, "/q");
    assert_eq!(app.handle_key(Key::Enter), Control::Quit);
    assert_eq!(app.execute_command("/quit"), Control::Quit);
    assert_eq!(app.execute_command("/unknown"), Control::Continue);
    assert_eq!(app.chat_input, "");
}

#[test]
fn escape_closes_palette_or_leaves() {
    let mut app = logged_in();
    type_text(&mut app, "/he");
    assert_eq!(app.handle_key(Key::Esc), Control::Continue);
    assert_eq!(app.chat_input, "");
    assert_eq!(app.handle_key(Key::Esc), Control::Exit);
    let mut fresh = App::new();
    assert_eq!(fresh.handle_key(Key::Esc), Control::Exit);
}

#[test]
fn tab_cycles_panels_and_sidebar_moves() {
    let mut app = logged_in();
    app.handle_key(Key::Tab);
    assert_eq!(app.active_panel, ActivePanel::Sidebar);
    app.handle_key(Key::Char('k'));
    assert_eq!(app.selected_session, Some(2));
    app.handle_key(Key::Down);
    assert_eq!(app.selected_session, Some(0));
    app.handle_key(Key::Char('j'));
    assert_eq!(app.selected_session, Some(1));
    // characters do not reach the input while the sidebar has the focus
    assert_eq!(app.chat_input, "");
    app.handle_key(Key::Tab);
    assert_eq!(app.active_panel, ActivePanel::ChatBox);
    app.handle_key(Key::Tab);
    assert_eq!(app.active_panel, ActivePanel::Input);
    app.handle_key(Key::BackTab);
    assert_eq!(app.active_panel, ActivePanel::ChatBox);
}

#[test]
fn clicks_focus_and_select() {
    let mut app = App::new();
    app.username_area = Area { x: 10, y: 5, width: 20, height: 3 };
    app.password_area = Area { x: 10, y: 8, width: 20, height: 3 };
    app.handle_mouse_click(12, 9);
    assert_eq!(app.active_field, LoginField::Password);
    app.handle_mouse_click(29, 7);
    assert_eq!(app.active_field, LoginField::Username);
    app.handle_mouse_click(30, 7);
    assert_eq!(app.active_field, LoginField::Username);

    let mut app = logged_in();
    app.sidebar_area = Area { x: 0, y: 0, width: 22, height: 20 };
    app.messages_area = Area { x: 22, y: 0, width: 50, height: 17 };
    app.input_area = Area { x: 22, y: 17, width: 50, height: 3 };
    app.handle_mouse_click(3, 3);
    assert_eq!(app.active_panel, ActivePanel::Sidebar);
    assert_eq!(app.selected_session, Some(2));
    app.handle_mouse_click(3, 10);
    assert_eq!(app.selected_session, Some(2));
    app.handle_mouse_click(3, 0);
    assert_eq!(app.selected_session, Some(0));
    app.handle_mouse_click(30, 5);
    assert_eq!(app.active_panel, ActivePanel::ChatBox);
    app.handle_mouse_click(30, 18);
    assert_eq!(app.active_panel, ActivePanel::Input);
}

#[test]
fn cursor_and_popup_geometry() {
    let mut app = logged_in();
    app.input_area = Area { x: 22, y: 17, width: 50, height: 3 };
    assert_eq!(app.chat_cursor(), Some((23, 18)));
    type_text(&mut app, "/");
    assert_eq!(app.chat_cursor(), Some((24, 18)));
    assert_eq!(app.popup_area(), Some(Area { x: 24, y: 10, width: 45, height: 7 }));
    type_text(&mut app, "cl");
    assert_eq!(app.popup_area(), Some(Area { x: 24, y: 14, width: 45, height: 3 }));
    app.input_area = Area { x: 0, y: 1, width: 10, height: 3 };
    assert_eq!(app.popup_area(), Some(Area { x: 2, y: 0, width: 6, height: 3 }));
    app.active_panel = ActivePanel::Sidebar;
    assert_eq!(app.chat_cursor(), None);
    app.chat_input = "plain".to_string();
    assert_eq!(app.popup_area(), None);

    let mut login = App::new();
    login.username_area = Area { x: 5, y: 2, width: 6, height: 3 };
    type_text(&mut login, "abcdefgh");
    assert_eq!(login.login_cursor(), (9, 3));
}

#[test]
fn texts_shown_on_screen() {
    let mut app = logged_in();
    app.password = "héllo".to_string();
    assert_eq!(app.masked_password(), "******");
    assert_eq!(app.chat_title(), " #General ");
    app.selected_session = Some(7);
    assert_eq!(app.chat_title(), " #Chat Room ");
    assert_eq!(app.input_title(), " Message [ann] (Tab to switch | '/' for commands) ");
    assert_eq!(sidebar_label("Random"), "# Random");
    assert_eq!(command_label("/help"), "/help      ");
    assert_eq!(command_label("/averylongcommand"), "/averylongcommand ");
    assert!(is_right_aligned("Bot: hi"));
    assert!(is_right_aligned("System: x"));
    assert!(!is_right_aligned("ann: Bot:"));
}

#[test]
fn out_of_range_selection_posts_nowhere() {
    let mut app = logged_in();
    app.selected_session = Some(9);
    type_text(&mut app, "hey");
    app.handle_key(Key::Enter);
    assert_eq!(app.chat_input, "");
    assert_eq!(messages(&app, 0).len(), 3);
    assert!(app.current_session().is_none());
}

#[test]
fn cursor_of_unfocused_box_is_not_computed() {
    let mut app = App::new();
    app.handle_key(Key::Tab);
    app.username_area = Area { x: 65535, y: 0, width: 10, height: 3 };
    app.password_area = Area { x: 0, y: 3, width: 10, height: 3 };
    assert_eq!(app.login_cursor(), (1, 4));

    let mut chat = logged_in();
    chat.active_panel = ActivePanel::Sidebar;
    chat.input_area = Area { x: 65535, y: 65535, width: 10, height: 3 };
    assert_eq!(chat.chat_cursor(), None);
    assert_eq!(chat.popup_area(), None);
}

#[test]
fn password_shown_only_by_length() {
    let mut a = App::new();
    a.handle_key(Key::Tab);
    a.password_area = Area { x: 4, y: 9, width: 30, height: 3 };
    let mut b = App::new();
    b.handle_key(Key::Tab);
    b.password_area = a.password_area;
    type_text(&mut a, "secret");
    type_text(&mut b, "hunter");
    assert_eq!(a.masked_password(), b.masked_password());
    assert_eq!(a.masked_password(), "******");
    assert_eq!(a.login_cursor(), b.login_cursor());
}
