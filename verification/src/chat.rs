//! The state machine of a terminal chat client: a login form, a list of chat
//! sessions, a message input and a command palette that opens on `/`.
//!
//! Drawing and the terminal's events stay with the caller; this module holds
//! every decision the client makes.

pub mod input;
pub mod laws;
pub mod screen;

use vstd::prelude::*;
use vstd::string::*;
use crate::text::{chars_of, has_prefix};

verus! {

/// Which screen is shown.
#[derive(Debug, Clone, Copy, PartialEq, Eq, Structural)]
pub enum AppMode {
    Login,
    Chat,
}

/// The login field that has the focus.
#[derive(Debug, Clone, Copy, PartialEq, Eq, Structural)]
pub enum LoginField {
    Username,
    Password,
}

/// The chat screen's panel that has the focus.
#[derive(Debug, Clone, Copy, PartialEq, Eq, Structural)]
pub enum ActivePanel {
    Sidebar,
    ChatBox,
    Input,
}

/// A rectangle of terminal cells, as the screen was last laid out.
#[derive(Debug, Clone, Copy, PartialEq, Eq, Structural)]
pub struct Area {
    pub x: u16,
    pub y: u16,
    pub width: u16,
    pub height: u16,
}

impl Area {
    /// The empty area at the origin.
    pub fn zero() -> (a: Area)
        ensures
            a == (Area { x: 0, y: 0, width: 0, height: 0 }),
    {
        Area { x: 0, y: 0, width: 0, height: 0 }
    }
}

/// A chat room and the messages shown in it, oldest first.
pub struct ChatSession {
    pub name: String,
    pub messages: Vec<String>,
}

/// A chat room as plain values.
#[verifier::ext_equal]
pub struct SessionView {
    pub name: Seq<char>,
    pub messages: Seq<Seq<char>>,
}

/// The views of a sequence of strings.
pub open spec fn strings_view(s: Seq<String>) -> Seq<Seq<char>> {
    s.map_values(|m: String| m@)
}

impl View for ChatSession {
    type V = SessionView;

    open spec fn view(&self) -> SessionView {
        SessionView { name: self.name@, messages: strings_view(self.messages@) }
    }
}

/// The views of a sequence of sessions.
pub open spec fn sessions_view(s: Seq<ChatSession>) -> Seq<SessionView> {
    s.map_values(|c: ChatSession| c@)
}

/// The views of a list of commands and their descriptions.
pub open spec fn commands_view(c: Seq<(&'static str, &'static str)>) -> Seq<(Seq<char>, Seq<char>)> {
    c.map_values(|p: (&'static str, &'static str)| (p.0@, p.1@))
}

/// The whole state of the client.
pub struct App {
    pub mode: AppMode,
    pub active_field: LoginField,
    pub username: String,
    pub password: String,
    pub active_panel: ActivePanel,
    pub sessions: Vec<ChatSession>,
    /// The selected session of the sidebar.
    pub selected_session: Option<usize>,
    pub chat_input: String,
    pub available_commands: Vec<(&'static str, &'static str)>,
    /// The selected entry of the command palette.
    pub selected_command: Option<usize>,
    pub username_area: Area,
    pub password_area: Area,
    pub sidebar_area: Area,
    pub messages_area: Area,
    pub input_area: Area,
}

/// The client's state as plain values.
#[verifier::ext_equal]
pub struct AppView {
    pub mode: AppMode,
    pub active_field: LoginField,
    pub username: Seq<char>,
    pub password: Seq<char>,
    pub active_panel: ActivePanel,
    pub sessions: Seq<SessionView>,
    pub selected_session: Option<usize>,
    pub chat_input: Seq<char>,
    pub commands: Seq<(Seq<char>, Seq<char>)>,
    pub selected_command: Option<usize>,
    pub username_area: Area,
    pub password_area: Area,
    pub sidebar_area: Area,
    pub messages_area: Area,
    pub input_area: Area,
}

impl View for App {
    type V = AppView;

    open spec fn view(&self) -> AppView {
        AppView {
            mode: self.mode,
            active_field: self.active_field,
            username: self.username@,
            password: self.password@,
            active_panel: self.active_panel,
            sessions: sessions_view(self.sessions@),
            selected_session: self.selected_session,
            chat_input: self.chat_input@,
            commands: commands_view(self.available_commands@),
            selected_command: self.selected_command,
            username_area: self.username_area,
            password_area: self.password_area,
            sidebar_area: self.sidebar_area,
            messages_area: self.messages_area,
            input_area: self.input_area,
        }
    }
}

/// The state the client starts in: the login screen, three chat rooms and
/// five commands, the first room and the first command selected.
pub open spec fn initial_view() -> AppView {
    AppView {
        mode: AppMode::Login,
        active_field: LoginField::Username,
        username: Seq::empty(),
        password: Seq::empty(),
        active_panel: ActivePanel::Input,
        sessions: seq![
            SessionView {
                name: "General"@,
                messages: seq![
                    "System: Welcome to General Chat!"@,
                    "Bot: Type '/' to open the command palette."@,
                ],
            },
            SessionView {
                name: "Project Rust"@,
                messages: seq![
                    "System: Welcome to Project Rust discussion."@,
                    "Bot: Let's discuss Ratatui updates here!"@,
                ],
            },
            SessionView { name: "Random"@, messages: seq!["System: Off-topic lounge."@] },
        ],
        selected_session: Some(0),
        chat_input: Seq::empty(),
        commands: seq![
            ("/help"@, "Show help information"@),
            ("/clear"@, "Clear current chat history"@),
            ("/nick"@, "Change display username"@),
            ("/users"@, "List online users"@),
            ("/quit"@, "Exit application"@),
        ],
        selected_command: Some(0),
        username_area: Area { x: 0, y: 0, width: 0, height: 0 },
        password_area: Area { x: 0, y: 0, width: 0, height: 0 },
        sidebar_area: Area { x: 0, y: 0, width: 0, height: 0 },
        messages_area: Area { x: 0, y: 0, width: 0, height: 0 },
        input_area: Area { x: 0, y: 0, width: 0, height: 0 },
    }
}

/// Whether the input text opens the command palette: it begins with `/`.
pub open spec fn is_command_text(s: Seq<char>) -> bool {
    s.len() > 0 && s[0] == '/'
}

/// Whether command `cmd` is offered for the input `input` (which begins with
/// `/`): the command without its leading `/` begins with the rest of the
/// input. A command without a leading `/` is matched as the empty text.
pub open spec fn command_matches(cmd: Seq<char>, input: Seq<char>) -> bool {
    let rest = if cmd.len() > 0 && cmd[0] == '/' { cmd.drop_first() } else { Seq::<char>::empty() };
    has_prefix(rest, input.drop_first())
}

/// The commands the palette offers for the current input, in list order;
/// none when the input does not begin with `/`.
pub open spec fn offered_commands(v: AppView) -> Seq<(Seq<char>, Seq<char>)> {
    if is_command_text(v.chat_input) {
        v.commands.filter(|c: (Seq<char>, Seq<char>)| command_matches(c.0, v.chat_input))
    } else {
        Seq::empty()
    }
}

/// The entry after `sel` in a cyclic list of `len > 0` entries: the first
/// one after the last one (or after any index past it), and with nothing
/// selected.
pub open spec fn next_index(sel: Option<usize>, len: nat) -> usize {
    match sel {
        Some(i) => if i >= len - 1 { 0 } else { (i + 1) as usize },
        None => 0,
    }
}

/// The entry before `sel` in a cyclic list of `len > 0` entries: the last one
/// before the first one; the first one with nothing selected.
pub open spec fn prev_index(sel: Option<usize>, len: nat) -> usize {
    match sel {
        Some(i) => if i == 0 { (len - 1) as usize } else { (i - 1) as usize },
        None => 0,
    }
}

/// `next_command`: moves the palette's selection one entry down, cyclically.
pub open spec fn next_command_step(v: AppView) -> AppView {
    let n = offered_commands(v).len();
    if n == 0 { v } else { AppView { selected_command: Some(next_index(v.selected_command, n)), ..v } }
}

/// `previous_command`: moves the palette's selection one entry up, cyclically.
pub open spec fn previous_command_step(v: AppView) -> AppView {
    let n = offered_commands(v).len();
    if n == 0 { v } else { AppView { selected_command: Some(prev_index(v.selected_command, n)), ..v } }
}

/// `next_session`: moves the sidebar's selection one room down, cyclically.
pub open spec fn next_session_step(v: AppView) -> AppView {
    let n = v.sessions.len();
    if n == 0 { v } else { AppView { selected_session: Some(next_index(v.selected_session, n)), ..v } }
}

/// `previous_session`: moves the sidebar's selection one room up, cyclically.
pub open spec fn previous_session_step(v: AppView) -> AppView {
    let n = v.sessions.len();
    if n == 0 { v } else { AppView { selected_session: Some(prev_index(v.selected_session, n)), ..v } }
}

/// The index of the selected room, when the selection names one.
pub open spec fn current_index(v: AppView) -> Option<int> {
    match v.selected_session {
        Some(i) => if i < v.sessions.len() { Some(i as int) } else { None },
        None => None,
    }
}

/// `v` with `msg` added at the end of the selected room, if there is one.
pub open spec fn post_to_current(v: AppView, msg: Seq<char>) -> AppView {
    match current_index(v) {
        Some(i) => AppView {
            sessions: v.sessions.update(
                i,
                SessionView { messages: v.sessions[i].messages.push(msg), ..v.sessions[i] },
            ),
            ..v
        },
        None => v,
    }
}

/// `v` with the selected room's messages removed, if there is a room selected.
pub open spec fn clear_current(v: AppView) -> AppView {
    match current_index(v) {
        Some(i) => AppView {
            sessions: v.sessions.update(
                i,
                SessionView { messages: Seq::empty(), ..v.sessions[i] },
            ),
            ..v
        },
        None => v,
    }
}

impl App {
    /// The client as it starts; see `initial_view`.
    pub fn new() -> (app: Self)
        ensures
            app@ == initial_view(),
    {
        let commands = vec![
            ("/help", "Show help information"),
            ("/clear", "Clear current chat history"),
            ("/nick", "Change display username"),
            ("/users", "List online users"),
            ("/quit", "Exit application"),
        ];
        let initial_sessions = vec![
            ChatSession {
                name: String::from_str("General"),
                messages: vec![
                    String::from_str("System: Welcome to General Chat!"),
                    String::from_str("Bot: Type '/' to open the command palette."),
                ],
            },
            ChatSession {
                name: String::from_str("Project Rust"),
                messages: vec![
                    String::from_str("System: Welcome to Project Rust discussion."),
                    String::from_str("Bot: Let's discuss Ratatui updates here!"),
                ],
            },
            ChatSession {
                name: String::from_str("Random"),
                messages: vec![String::from_str("System: Off-topic lounge.")],
            },
        ];
        let app = Self {
            mode: AppMode::Login,
            active_field: LoginField::Username,
            username: String::new(),
            password: String::new(),
            active_panel: ActivePanel::Input,
            sessions: initial_sessions,
            selected_session: Some(0),
            chat_input: String::new(),
            available_commands: commands,
            selected_command: Some(0),
            username_area: Area::zero(),
            password_area: Area::zero(),
            sidebar_area: Area::zero(),
            messages_area: Area::zero(),
            input_area: Area::zero(),
        };
        proof {
            let s = app.sessions@;
            assert(strings_view(s[0].messages@) =~= initial_view().sessions[0].messages);
            assert(strings_view(s[1].messages@) =~= initial_view().sessions[1].messages);
            assert(strings_view(s[2].messages@) =~= initial_view().sessions[2].messages);
            assert(app@.sessions =~= initial_view().sessions);
            assert(app@.commands =~= initial_view().commands);
        }
        app
    }
}

/// Whether `cmd` is offered for the input whose characters are `input`
/// (which begin with `/`).
fn command_offered(cmd: &str, input: &Vec<char>) -> (r: bool)
    requires
        is_command_text(input@),
    ensures
        r == command_matches(cmd@, input@),
{
    let c = chars_of(cmd);
    let ghost rest = if cmd@.len() > 0 && cmd@[0] == '/' { cmd@.drop_first() } else { Seq::<char>::empty() };
    let ghost query = input@.drop_first();
    let q = input.len() - 1;
    if c.len() == 0 || c[0] != '/' {
        assert(rest.len() == 0);
        if q == 0 {
            assert(rest.subrange(0, 0) =~= query);
        }
        return q == 0;
    }
    if q > c.len() - 1 {
        return false;
    }
    let mut k: usize = 0;
    while k < q
        invariant
            c@ == cmd@,
            q == input@.len() - 1,
            c.len() > 0,
            q <= c.len() - 1,
            rest == cmd@.drop_first(),
            query == input@.drop_first(),
            k <= q,
            forall|m: int| 0 <= m < k ==> rest[m] == query[m],
        decreases q - k,
    {
        if c[k + 1] != input[k + 1] {
            assert(rest.subrange(0, query.len() as int)[k as int] != query[k as int]);
            return false;
        }
        k = k + 1;
    }
    assert(rest.subrange(0, query.len() as int) =~= query);
    true
}

impl App {
    /// The commands the palette offers for the current input; see
    /// `offered_commands`.
    pub fn filtered_commands(&self) -> (r: Vec<(&'static str, &'static str)>)
        ensures
            commands_view(r@) == offered_commands(self@),
    {
        let mut out: Vec<(&'static str, &'static str)> = Vec::new();
        let input = chars_of(self.chat_input.as_str());
        if input.len() == 0 || input[0] != '/' {
            assert(commands_view(out@) =~= offered_commands(self@));
            return out;
        }
        let ghost all = commands_view(self.available_commands@);
        let ghost pred = |c: (Seq<char>, Seq<char>)| command_matches(c.0, self.chat_input@);
        let n = self.available_commands.len();
        let mut i: usize = 0;
        assert(commands_view(out@) =~= all.take(0).filter(pred)) by {
            reveal_with_fuel(Seq::<_>::filter, 1);
        }
        while i < n
            invariant
                n == self.available_commands@.len(),
                all == commands_view(self.available_commands@),
                pred == (|c: (Seq<char>, Seq<char>)| command_matches(c.0, self.chat_input@)),
                input@ == self.chat_input@,
                is_command_text(input@),
                i <= n,
                commands_view(out@) == all.take(i as int).filter(pred),
            decreases n - i,
        {
            let (cmd, desc) = self.available_commands[i];
            let ghost before = out@;
            let offered = command_offered(cmd, &input);
            if offered {
                out.push((cmd, desc));
            }
            proof {
                reveal_with_fuel(Seq::<_>::filter, 1);
                let t = all.take(i + 1);
                assert(t.drop_last() =~= all.take(i as int));
                assert(t.last() == (cmd@, desc@));
                assert(pred(t.last()) == offered);
                if offered {
                    assert(commands_view(out@) =~= commands_view(before).push((cmd@, desc@)));
                } else {
                    assert(commands_view(out@) =~= commands_view(before));
                }
                assert(commands_view(out@) =~= t.filter(pred));
            }
            i = i + 1;
        }
        assert(all.take(n as int) =~= all);
        out
    }

    /// Moves the palette's selection one entry down, cyclically.
    pub fn next_command(&mut self)
        ensures
            final(self)@ == next_command_step(old(self)@),
    {
        let filtered = self.filtered_commands();
        assert(commands_view(filtered@).len() == filtered@.len());
        if filtered.len() == 0 {
            return;
        }
        let i = match self.selected_command {
            Some(i) => if i >= filtered.len() - 1 { 0 } else { i + 1 },
            None => 0,
        };
        self.selected_command = Some(i);
    }

    /// Moves the palette's selection one entry up, cyclically.
    pub fn previous_command(&mut self)
        ensures
            final(self)@ == previous_command_step(old(self)@),
    {
        let filtered = self.filtered_commands();
        assert(commands_view(filtered@).len() == filtered@.len());
        if filtered.len() == 0 {
            return;
        }
        let i = match self.selected_command {
            Some(i) => if i == 0 { filtered.len() - 1 } else { i - 1 },
            None => 0,
        };
        self.selected_command = Some(i);
    }

    /// Moves the sidebar's selection one room down, cyclically.
    pub fn next_session(&mut self)
        ensures
            final(self)@ == next_session_step(old(self)@),
    {
        if self.sessions.len() == 0 {
            return;
        }
        let i = match self.selected_session {
            Some(i) => if i >= self.sessions.len() - 1 { 0 } else { i + 1 },
            None => 0,
        };
        self.selected_session = Some(i);
    }

    /// Moves the sidebar's selection one room up, cyclically.
    pub fn previous_session(&mut self)
        ensures
            final(self)@ == previous_session_step(old(self)@),
    {
        if self.sessions.len() == 0 {
            return;
        }
        let i = match self.selected_session {
            Some(i) => if i == 0 { self.sessions.len() - 1 } else { i - 1 },
            None => 0,
        };
        self.selected_session = Some(i);
    }

    /// The selected room, when the selection names one.
    pub fn current_session(&self) -> (s: Option<&ChatSession>)
        ensures
            match current_index(self@) {
                Some(i) => s.is_some() && s.unwrap()@ == self@.sessions[i],
                None => s.is_none(),
            },
    {
        if let Some(idx) = self.selected_session {
            if idx < self.sessions.len() {
                return Some(&self.sessions[idx]);
            }
        }
        None
    }

    /// Adds `msg` at the end of the selected room, if there is one.
    fn post_to_current(&mut self, msg: String)
        ensures
            final(self)@ == post_to_current(old(self)@, msg@),
    {
        if let Some(idx) = self.selected_session {
            if idx < self.sessions.len() {
                let mut session = self.sessions.remove(idx);
                session.messages.push(msg);
                self.sessions.insert(idx, session);
                proof {
                    let i = idx as int;
                    let o = old(self)@.sessions;
                    assert(strings_view(session.messages@) =~= o[i].messages.push(msg@));
                    assert(self@.sessions =~= o.update(
                        i,
                        SessionView { messages: o[i].messages.push(msg@), ..o[i] },
                    ));
                }
            }
        }
    }

    /// Removes every message of the selected room, if there is one.
    fn clear_current(&mut self)
        ensures
            final(self)@ == clear_current(old(self)@),
    {
        if let Some(idx) = self.selected_session {
            if idx < self.sessions.len() {
                let mut session = self.sessions.remove(idx);
                session.messages.clear();
                self.sessions.insert(idx, session);
                proof {
                    let i = idx as int;
                    let o = old(self)@.sessions;
                    assert(strings_view(session.messages@) =~= Seq::<Seq<char>>::empty());
                    assert(self@.sessions =~= o.update(
                        i,
                        SessionView { messages: Seq::empty(), ..o[i] },
                    ));
                }
            }
        }
    }
}

} // verus!
