//! Where things are on the screen: mouse clicks, the cursor, the command
//! popup, and the texts the screens show.

use vstd::prelude::*;
use vstd::string::*;
use crate::chat::{
    current_index, is_command_text, offered_commands, ActivePanel, App, AppMode, AppView, Area,
    LoginField,
};
use crate::text::{chars_of, has_prefix, starts_with};

verus! {

/// `a + b`, clamped to the largest `u16`.
pub open spec fn sat_add(a: u16, b: u16) -> int {
    if a + b > u16::MAX { u16::MAX as int } else { a + b }
}

/// `a - b`, clamped at 0.
pub open spec fn sat_sub(a: u16, b: u16) -> int {
    if a >= b { a - b } else { 0 }
}

/// Whether cell (`x`, `y`) lies in `a`, whose right and bottom edges are
/// clamped to the largest `u16`.
pub open spec fn area_holds(a: Area, x: u16, y: u16) -> bool {
    &&& a.x <= x
    &&& x < sat_add(a.x, a.width)
    &&& a.y <= y
    &&& y < sat_add(a.y, a.height)
}

/// ratatui's `Rect::contains`, asked of `a` and the position (`x`, `y`):
/// the position is at or right of the left edge, left of `x + width`
/// (saturating), at or below the top edge and above `y + height`
/// (saturating), as the crate's source computes it.
#[verifier::external_body]
fn area_contains(a: Area, x: u16, y: u16) -> (r: bool)
    ensures
        r == area_holds(a, x, y),
{
    let rect = ratatui::layout::Rect { x: a.x, y: a.y, width: a.width, height: a.height };
    rect.contains(ratatui::layout::Position { x, y })
}

/// A left click at cell (`col`, `row`). On the login screen it focuses the
/// field clicked; on the chat screen it focuses the panel clicked, and in the
/// sidebar also selects the room on the clicked line (the first room on the
/// line below the sidebar's top border).
pub open spec fn click_step(v: AppView, col: u16, row: u16) -> AppView {
    match v.mode {
        AppMode::Login => if area_holds(v.username_area, col, row) {
            AppView { active_field: LoginField::Username, ..v }
        } else if area_holds(v.password_area, col, row) {
            AppView { active_field: LoginField::Password, ..v }
        } else {
            v
        },
        AppMode::Chat => if area_holds(v.sidebar_area, col, row) {
            let line = sat_sub(row, (v.sidebar_area.y + 1) as u16);
            let w = AppView { active_panel: ActivePanel::Sidebar, ..v };
            if line < v.sessions.len() {
                AppView { selected_session: Some(line as usize), ..w }
            } else {
                w
            }
        } else if area_holds(v.messages_area, col, row) {
            AppView { active_panel: ActivePanel::ChatBox, ..v }
        } else if area_holds(v.input_area, col, row) {
            AppView { active_panel: ActivePanel::Input, ..v }
        } else {
            v
        },
    }
}

/// Whether a cursor after `len` characters in the box `a` (inside its left
/// border, on its first inner line) has coordinates that fit in a `u16`.
pub open spec fn cursor_fits(a: Area, len: usize) -> bool {
    &&& a.x + 1 + (len as u16) <= u16::MAX
    &&& a.y + 1 <= u16::MAX
    &&& a.x + sat_sub(a.width, 2) <= u16::MAX
}

/// The cursor after `len` characters in the box `a`: one cell inside the left
/// border plus `len` (taken modulo 2^16), but not past the cell before the
/// right border; on the line below the top border.
pub open spec fn cursor_at(a: Area, len: usize) -> (u16, u16) {
    let x = a.x + 1 + (len as u16);
    let max_x = a.x + sat_sub(a.width, 2);
    ((if x <= max_x { x } else { max_x }) as u16, (a.y + 1) as u16)
}

/// The cursor never goes past the cell before a box's right border, and sits
/// on the box's first inner line.
pub proof fn lemma_cursor_stays_left_of_border(a: Area, len: usize)
    requires
        cursor_fits(a, len),
    ensures
        cursor_at(a, len).0 <= a.x + sat_sub(a.width, 2),
        cursor_at(a, len).1 == a.y + 1,
{
}

/// The command popup is never taller than 8 lines nor wider than 45 cells,
/// and always leaves room for its borders.
pub proof fn lemma_popup_is_bounded(v: AppView)
    requires
        is_command_text(v.chat_input) && offered_commands(v).len() > 0 ==> popup_fits(v),
    ensures
        popup_at(v) matches Some(p) ==> 3 <= p.height <= 8 && p.width <= 45,
{
}

fn cursor_in(a: Area, len: usize) -> (r: (u16, u16))
    requires
        cursor_fits(a, len),
    ensures
        r == cursor_at(a, len),
{
    let x = a.x + 1 + (len as u16);
    let y = a.y + 1;
    let max_x = a.x + a.width.saturating_sub(2);
    (if x <= max_x { x } else { max_x }, y)
}

/// The byte length of a text, which is what the screens count.
pub open spec fn byte_len(s: Seq<char>) -> usize {
    vstd::utf8::encode_utf8(s).len() as usize
}

/// The number of commands the popup lists fits in a `u16` with room for the
/// popup's two borders, and the popup's left edge fits too.
pub open spec fn popup_fits(v: AppView) -> bool {
    &&& offered_commands(v).len() + 2 <= u16::MAX
    &&& v.input_area.x + 2 <= u16::MAX
}

/// Where the command popup is drawn: above the input box, two cells right of
/// its left edge, as tall as the offered commands plus borders but at most 8
/// lines, and 45 cells wide but at most the input box's width less 4; no popup
/// unless the input begins with `/` and some command is offered.
pub open spec fn popup_at(v: AppView) -> Option<Area> {
    let n = offered_commands(v).len();
    if !is_command_text(v.chat_input) || n == 0 {
        None
    } else {
        let h = if n + 2 <= 8 { (n + 2) as u16 } else { 8u16 };
        let w = if 45 <= sat_sub(v.input_area.width, 4) { 45 } else { sat_sub(v.input_area.width, 4) };
        Some(Area {
            x: (v.input_area.x + 2) as u16,
            y: sat_sub(v.input_area.y, h) as u16,
            width: w as u16,
            height: h,
        })
    }
}

/// Where the login screen puts the cursor: after the text of the focused
/// field, in bytes (the password counts its hidden characters).
pub open spec fn login_cursor_at(v: AppView) -> (u16, u16) {
    match v.active_field {
        LoginField::Username => cursor_at(v.username_area, byte_len(v.username)),
        LoginField::Password => cursor_at(v.password_area, byte_len(v.password)),
    }
}

/// The password as the login screen shows it: one `*` per byte.
pub open spec fn masked_text(v: AppView) -> Seq<char> {
    repeated('*', byte_len(v.password) as nat)
}

/// The login screen shows nothing of the password but its length in bytes:
/// two states that differ only in passwords of equal byte length show the
/// same masked text and put the cursor at the same place, and the masked text
/// holds `*` only.
pub proof fn lemma_password_shown_only_by_length(v: AppView, other: Seq<char>)
    requires
        byte_len(other) == byte_len(v.password),
    ensures
        masked_text(AppView { password: other, ..v }) == masked_text(v),
        login_cursor_at(AppView { password: other, ..v }) == login_cursor_at(v),
        forall|i: int| 0 <= i < masked_text(v).len() ==> masked_text(v)[i] == '*',
{
}

/// `n` copies of `c`.
pub open spec fn repeated(c: char, n: nat) -> Seq<char> {
    Seq::new(n, |i: int| c)
}

/// The text of a palette entry: the command, padded with spaces to 10
/// characters, then one space.
pub open spec fn command_label_text(cmd: Seq<char>) -> Seq<char> {
    let pad: nat = if cmd.len() < 10 { (10 - cmd.len()) as nat } else { 0 };
    cmd + repeated(' ', pad) + " "@
}

/// Whether a message is drawn against the right border: messages of the bot
/// and of the system.
pub open spec fn right_aligned(msg: Seq<char>) -> bool {
    has_prefix(msg, "Bot:"@) || has_prefix(msg, "System:"@)
}

/// `s` followed by `n` copies of `c`.
fn push_repeated(s: &mut String, c: char, n: usize)
    ensures
        final(s)@ == old(s)@ + repeated(c, n as nat),
{
    let mut i: usize = 0;
    while i < n
        invariant
            i <= n,
            s@ == old(s)@ + repeated(c, i as nat),
        decreases n - i,
    {
        s.push(c);
        i = i + 1;
        assert(s@ =~= old(s)@ + repeated(c, i as nat));
    }
}

/// The sidebar's line for a room: `# ` and the room's name.
pub fn sidebar_label(name: &str) -> (s: String)
    ensures
        s@ == "# "@ + name@,
{
    String::from_str("# ").concat(name)
}

/// The text of a palette entry; see `command_label_text`.
pub fn command_label(cmd: &str) -> (s: String)
    ensures
        s@ == command_label_text(cmd@),
{
    let n = cmd.unicode_len();
    let mut s = String::from_str(cmd);
    let pad = if n < 10 { 10 - n } else { 0 };
    push_repeated(&mut s, ' ', pad);
    s.append(" ");
    s
}

/// Whether a message is drawn against the right border; see `right_aligned`.
pub fn is_right_aligned(msg: &str) -> (r: bool)
    ensures
        r == right_aligned(msg@),
{
    starts_with(msg, "Bot:") || starts_with(msg, "System:")
}

impl App {
    /// Handles a left click at cell (`col`, `row`); see `click_step`.
    pub fn handle_mouse_click(&mut self, col: u16, row: u16)
        ensures
            final(self)@ == click_step(old(self)@, col, row),
    {
        match self.mode {
            AppMode::Login => {
                if area_contains(self.username_area, col, row) {
                    self.active_field = LoginField::Username;
                } else if area_contains(self.password_area, col, row) {
                    self.active_field = LoginField::Password;
                }
            },
            AppMode::Chat => {
                if area_contains(self.sidebar_area, col, row) {
                    self.active_panel = ActivePanel::Sidebar;
                    let relative_y = row.saturating_sub(self.sidebar_area.y + 1);
                    let clicked_idx = relative_y as usize;
                    if clicked_idx < self.sessions.len() {
                        self.selected_session = Some(clicked_idx);
                    }
                } else if area_contains(self.messages_area, col, row) {
                    self.active_panel = ActivePanel::ChatBox;
                } else if area_contains(self.input_area, col, row) {
                    self.active_panel = ActivePanel::Input;
                }
            },
        }
    }

    /// Where the login screen puts the cursor: after the text of the focused
    /// field (the password counts its hidden characters).
    pub fn login_cursor(&self) -> (r: (u16, u16))
        requires
            match self.active_field {
                LoginField::Username => cursor_fits(self.username_area, byte_len(self.username@)),
                LoginField::Password => cursor_fits(self.password_area, byte_len(self.password@)),
            },
        ensures
            r == login_cursor_at(self@),
    {
        match self.active_field {
            LoginField::Username => cursor_in(self.username_area, self.username.as_str().len()),
            LoginField::Password => cursor_in(self.password_area, self.password.as_str().len()),
        }
    }

    /// Where the chat screen puts the cursor: after the input's text while
    /// the input has the focus; nowhere otherwise.
    pub fn chat_cursor(&self) -> (r: Option<(u16, u16)>)
        requires
            self.active_panel == ActivePanel::Input ==> cursor_fits(
                self.input_area,
                byte_len(self.chat_input@),
            ),
        ensures
            r == if self.active_panel == ActivePanel::Input {
                Some(cursor_at(self.input_area, byte_len(self.chat_input@)))
            } else {
                None
            },
    {
        if self.active_panel == ActivePanel::Input {
            Some(cursor_in(self.input_area, self.chat_input.as_str().len()))
        } else {
            None
        }
    }

    /// Where the command popup goes, if it is shown; see `popup_at`.
    pub fn popup_area(&self) -> (r: Option<Area>)
        requires
            is_command_text(self@.chat_input) && offered_commands(self@).len() > 0 ==> popup_fits(
                self@,
            ),
        ensures
            r == popup_at(self@),
    {
        let c = chars_of(self.chat_input.as_str());
        if c.len() == 0 || c[0] != '/' {
            return None;
        }
        let filtered = self.filtered_commands();
        assert(filtered@.len() == offered_commands(self@).len());
        if filtered.len() == 0 {
            return None;
        }
        let h: u16 = if filtered.len() + 2 <= 8 { (filtered.len() + 2) as u16 } else { 8 };
        let avail = self.input_area.width.saturating_sub(4);
        let w: u16 = if 45 <= avail { 45 } else { avail };
        Some(Area {
            x: self.input_area.x + 2,
            y: self.input_area.y.saturating_sub(h),
            width: w,
            height: h,
        })
    }

    /// The password as the login screen shows it: one `*` per byte.
    pub fn masked_password(&self) -> (s: String)
        ensures
            s@ == masked_text(self@),
    {
        let mut s = String::new();
        push_repeated(&mut s, '*', self.password.as_str().len());
        assert(s@ =~= repeated('*', byte_len(self.password@) as nat));
        s
    }

    /// The title of the messages box: the selected room's name between ` #`
    /// and a space, or `Chat Room` when no room is selected.
    pub fn chat_title(&self) -> (s: String)
        ensures
            s@ == " #"@ + match current_index(self@) {
                Some(i) => self@.sessions[i].name,
                None => "Chat Room"@,
            } + " "@,
    {
        let title = String::from_str(" #");
        let title = match self.current_session() {
            Some(session) => title.concat(session.name.as_str()),
            None => title.concat("Chat Room"),
        };
        title.concat(" ")
    }

    /// The title of the input box, naming the user.
    pub fn input_title(&self) -> (s: String)
        ensures
            s@ == " Message ["@ + self.username@ + "] (Tab to switch | '/' for commands) "@,
    {
        String::from_str(" Message [").concat(self.username.as_str()).concat(
            "] (Tab to switch | '/' for commands) ",
        )
    }
}

} // verus!
