//! What the client does with each key press.

use vstd::prelude::*;
use vstd::string::*;
use crate::chat::{
    is_command_text, next_command_step, next_session_step, offered_commands, post_to_current,
    clear_current, previous_command_step, previous_session_step, ActivePanel, App, AppMode,
    AppView, LoginField,
};
use crate::text::{chars_of, drop_last_char, same_text, trim, trimmed};

verus! {

/// A key press, as the client tells keys apart.
#[derive(Debug, Clone, Copy, PartialEq, Eq, Structural)]
pub enum Key {
    Char(char),
    Tab,
    BackTab,
    Up,
    Down,
    Enter,
    Backspace,
    Esc,
    /// Any other key; the client ignores it.
    Other,
}

/// What the event loop does after a key press.
#[derive(Debug, Clone, Copy, PartialEq, Eq, Structural)]
pub enum Control {
    /// Keep running.
    Continue,
    /// Leave the event loop and restore the terminal.
    Exit,
    /// End the process at once, with exit code 0 (the `/quit` command).
    Quit,
}

/// The other login field.
pub open spec fn other_field(f: LoginField) -> LoginField {
    match f {
        LoginField::Username => LoginField::Password,
        LoginField::Password => LoginField::Username,
    }
}

/// The panel after `p` in the order input, sidebar, chat box.
pub open spec fn next_panel(p: ActivePanel) -> ActivePanel {
    match p {
        ActivePanel::Input => ActivePanel::Sidebar,
        ActivePanel::Sidebar => ActivePanel::ChatBox,
        ActivePanel::ChatBox => ActivePanel::Input,
    }
}

/// The panel before `p` in the order input, sidebar, chat box.
pub open spec fn previous_panel(p: ActivePanel) -> ActivePanel {
    match p {
        ActivePanel::Input => ActivePanel::ChatBox,
        ActivePanel::ChatBox => ActivePanel::Sidebar,
        ActivePanel::Sidebar => ActivePanel::Input,
    }
}

/// The message posted when a user logs in.
pub open spec fn login_message(username: Seq<char>) -> Seq<char> {
    "System: Logged in as "@ + username
}

/// The message posted when a user sends `input`.
pub open spec fn chat_message(username: Seq<char>, input: Seq<char>) -> Seq<char> {
    username + ": "@ + trim(input)
}

/// A key press on the login screen: arrows and Tab switch fields; Enter logs
/// in when the user name holds more than white space, posting a greeting to
/// the selected room; characters and Backspace edit the focused field.
pub open spec fn login_step(v: AppView, key: Key) -> AppView {
    match key {
        Key::Tab | Key::Down | Key::Up => AppView { active_field: other_field(v.active_field), ..v },
        Key::Enter => if trim(v.username).len() > 0 {
            AppView { mode: AppMode::Chat, ..post_to_current(v, login_message(v.username)) }
        } else {
            v
        },
        Key::Char(c) => match v.active_field {
            LoginField::Username => AppView { username: v.username.push(c), ..v },
            LoginField::Password => AppView { password: v.password.push(c), ..v },
        },
        Key::Backspace => match v.active_field {
            LoginField::Username => AppView { username: drop_last_char(v.username), ..v },
            LoginField::Password => AppView { password: drop_last_char(v.password), ..v },
        },
        _ => v,
    }
}

/// Running command `cmd` of the palette. `/clear` empties the selected
/// room, `/help` and `/users` post an answer to it, `/quit` ends the process,
/// `/nick` leaves `/nick ` in the input; the input is emptied after every
/// command but `/nick` (and `/quit`, which does not come back).
pub open spec fn command_step(v: AppView, cmd: Seq<char>) -> (AppView, Control) {
    if cmd == "/clear"@ {
        after_command(clear_current(v), cmd)
    } else if cmd == "/help"@ {
        after_command(post_to_current(v, "System: Commands: /clear, /nick, /users, /quit"@), cmd)
    } else if cmd == "/users"@ {
        after_command(post_to_current(v, "System: Online users: [You], Bot"@), cmd)
    } else if cmd == "/quit"@ {
        (v, Control::Quit)
    } else if cmd == "/nick"@ {
        after_command(AppView { chat_input: "/nick "@, ..v }, cmd)
    } else {
        after_command(v, cmd)
    }
}

/// The state after command `cmd` did its work in `w`: the input is emptied
/// unless the command was `/nick`.
pub open spec fn after_command(w: AppView, cmd: Seq<char>) -> (AppView, Control) {
    if cmd == "/nick"@ {
        (w, Control::Continue)
    } else {
        (AppView { chat_input: Seq::empty(), ..w }, Control::Continue)
    }
}

/// A key press that the palette handles while the input begins with `/`:
/// arrows move its selection, Enter runs the selected command when the
/// selection names an offered one. `None` for the keys it leaves alone.
pub open spec fn palette_step(v: AppView, key: Key) -> Option<(AppView, Control)> {
    if !is_command_text(v.chat_input) {
        None
    } else {
        match key {
            Key::Up => Some((previous_command_step(v), Control::Continue)),
            Key::Down => Some((next_command_step(v), Control::Continue)),
            Key::Enter => {
                let offered = offered_commands(v);
                match v.selected_command {
                    Some(i) => if i < offered.len() {
                        Some(command_step(v, offered[i as int].0))
                    } else {
                        None
                    },
                    None => None,
                }
            },
            _ => None,
        }
    }
}

/// A key press that the focused panel handles: Tab and BackTab move the
/// focus; in the sidebar arrows and `j`/`k` move the selection; in the input
/// Enter sends a message that holds more than white space, characters and
/// Backspace edit the text and reset the palette's selection.
pub open spec fn panel_step(v: AppView, key: Key) -> AppView {
    match key {
        Key::Tab => AppView { active_panel: next_panel(v.active_panel), ..v },
        Key::BackTab => AppView { active_panel: previous_panel(v.active_panel), ..v },
        _ => match v.active_panel {
            ActivePanel::Sidebar => match key {
                Key::Up | Key::Char('k') => previous_session_step(v),
                Key::Down | Key::Char('j') => next_session_step(v),
                _ => v,
            },
            ActivePanel::ChatBox => v,
            ActivePanel::Input => match key {
                Key::Enter => if trim(v.chat_input).len() > 0 {
                    AppView {
                        chat_input: Seq::empty(),
                        ..post_to_current(v, chat_message(v.username, v.chat_input))
                    }
                } else {
                    v
                },
                Key::Char(c) => AppView {
                    chat_input: v.chat_input.push(c),
                    selected_command: Some(0),
                    ..v
                },
                Key::Backspace => AppView {
                    chat_input: drop_last_char(v.chat_input),
                    selected_command: Some(0),
                    ..v
                },
                _ => v,
            },
        },
    }
}

/// A key press on the chat screen: the palette first, then the panels.
pub open spec fn chat_step(v: AppView, key: Key) -> (AppView, Control) {
    match palette_step(v, key) {
        Some(r) => r,
        None => (panel_step(v, key), Control::Continue),
    }
}

/// A key press in any state: Esc closes the palette by emptying an input
/// that begins with `/`, and otherwise leaves the client; every other key
/// goes to the screen that is shown.
pub open spec fn key_step(v: AppView, key: Key) -> (AppView, Control) {
    if key == Key::Esc {
        if is_command_text(v.chat_input) {
            (AppView { chat_input: Seq::empty(), ..v }, Control::Continue)
        } else {
            (v, Control::Exit)
        }
    } else {
        match v.mode {
            AppMode::Login => (login_step(v, key), Control::Continue),
            AppMode::Chat => chat_step(v, key),
        }
    }
}

fn input_is_command(s: &String) -> (r: bool)
    ensures
        r == is_command_text(s@),
{
    let c = chars_of(s.as_str());
    c.len() > 0 && c[0] == '/'
}

impl App {
    /// Handles a key press; see `key_step`.
    pub fn handle_key(&mut self, key: Key) -> (c: Control)
        ensures
            (final(self)@, c) == key_step(old(self)@, key),
    {
        if key == Key::Esc {
            if input_is_command(&self.chat_input) {
                self.chat_input.clear();
                return Control::Continue;
            } else {
                return Control::Exit;
            }
        }
        match self.mode {
            AppMode::Login => {
                self.handle_login_input(key);
                Control::Continue
            },
            AppMode::Chat => self.handle_chat_input(key),
        }
    }

    /// Handles a key press on the login screen; see `login_step`.
    pub fn handle_login_input(&mut self, key: Key)
        ensures
            final(self)@ == login_step(old(self)@, key),
    {
        match key {
            Key::Tab | Key::Down | Key::Up => {
                self.active_field = match self.active_field {
                    LoginField::Username => LoginField::Password,
                    LoginField::Password => LoginField::Username,
                };
            },
            Key::Enter => {
                let name = trimmed(self.username.as_str());
                if !name.as_str().is_empty() {
                    let login_msg = String::from_str("System: Logged in as ").concat(
                        self.username.as_str(),
                    );
                    self.post_to_current(login_msg);
                    self.mode = AppMode::Chat;
                }
            },
            Key::Char(c) => match self.active_field {
                LoginField::Username => self.username.push(c),
                LoginField::Password => self.password.push(c),
            },
            Key::Backspace => match self.active_field {
                LoginField::Username => {
                    self.username.pop();
                },
                LoginField::Password => {
                    self.password.pop();
                },
            },
            _ => {},
        }
    }

    /// Handles a key press on the chat screen; see `chat_step`.
    pub fn handle_chat_input(&mut self, key: Key) -> (c: Control)
        ensures
            (final(self)@, c) == chat_step(old(self)@, key),
    {
        let is_command_mode = input_is_command(&self.chat_input);
        if is_command_mode {
            let filtered = self.filtered_commands();
            match key {
                Key::Up => {
                    self.previous_command();
                    return Control::Continue;
                },
                Key::Down => {
                    self.next_command();
                    return Control::Continue;
                },
                Key::Enter => {
                    if filtered.len() > 0 {
                        if let Some(selected_idx) = self.selected_command {
                            if selected_idx < filtered.len() {
                                let (cmd, _) = filtered[selected_idx];
                                return self.execute_command(cmd);
                            }
                        }
                    }
                },
                _ => {},
            }
        }
        self.handle_panel_key(key);
        Control::Continue
    }

    fn handle_panel_key(&mut self, key: Key)
        ensures
            final(self)@ == panel_step(old(self)@, key),
    {
        if key == Key::Tab {
            self.active_panel = match self.active_panel {
                ActivePanel::Input => ActivePanel::Sidebar,
                ActivePanel::Sidebar => ActivePanel::ChatBox,
                ActivePanel::ChatBox => ActivePanel::Input,
            };
            return;
        } else if key == Key::BackTab {
            self.active_panel = match self.active_panel {
                ActivePanel::Input => ActivePanel::ChatBox,
                ActivePanel::ChatBox => ActivePanel::Sidebar,
                ActivePanel::Sidebar => ActivePanel::Input,
            };
            return;
        }
        match self.active_panel {
            ActivePanel::Sidebar => match key {
                Key::Up | Key::Char('k') => self.previous_session(),
                Key::Down | Key::Char('j') => self.next_session(),
                _ => {},
            },
            ActivePanel::ChatBox => {},
            ActivePanel::Input => match key {
                Key::Enter => {
                    let text = trimmed(self.chat_input.as_str());
                    if !text.as_str().is_empty() {
                        let msg = self.username.clone().concat(": ").concat(text.as_str());
                        self.post_to_current(msg);
                        self.chat_input.clear();
                    }
                },
                Key::Char(c) => {
                    self.chat_input.push(c);
                    self.selected_command = Some(0);
                },
                Key::Backspace => {
                    self.chat_input.pop();
                    self.selected_command = Some(0);
                },
                _ => {},
            },
        }
    }

    /// Runs a command of the palette; see `command_step`.
    pub fn execute_command(&mut self, cmd: &str) -> (c: Control)
        ensures
            (final(self)@, c) == command_step(old(self)@, cmd@),
    {
        if same_text(cmd, "/clear") {
            self.clear_current();
        } else if same_text(cmd, "/help") {
            self.post_to_current(String::from_str("System: Commands: /clear, /nick, /users, /quit"));
        } else if same_text(cmd, "/users") {
            self.post_to_current(String::from_str("System: Online users: [You], Bot"));
        } else if same_text(cmd, "/quit") {
            return Control::Quit;
        } else if same_text(cmd, "/nick") {
            self.chat_input = String::from_str("/nick ");
        }
        if !same_text(cmd, "/nick") {
            self.chat_input.clear();
        }
        Control::Continue
    }
}

} // verus!
