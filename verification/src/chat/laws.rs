//! What the client's operations undo and keep.

use vstd::prelude::*;
use crate::chat::input::{chat_step, command_step, key_step, login_step, Control, Key};
use crate::chat::{
    command_matches, is_command_text, next_command_step, next_session_step, offered_commands, previous_command_step,
    previous_session_step, ActivePanel, AppMode, AppView, SessionView,
};
use crate::text::{drop_last_char, has_prefix, trim};

verus! {

/// Moving the sidebar's selection down and then up again comes back to the
/// room that was selected.
pub proof fn lemma_next_then_previous_session(v: AppView)
    requires
        v.sessions.len() <= usize::MAX,
        v.selected_session matches Some(i) && i < v.sessions.len(),
    ensures
        previous_session_step(next_session_step(v)) == v,
{
}

/// Moving the sidebar's selection up and then down again comes back to the
/// room that was selected.
pub proof fn lemma_previous_then_next_session(v: AppView)
    requires
        v.sessions.len() <= usize::MAX,
        v.selected_session matches Some(i) && i < v.sessions.len(),
    ensures
        next_session_step(previous_session_step(v)) == v,
{
}

/// The state after `k` moves of the sidebar's selection one room down.
pub open spec fn next_session_times(v: AppView, k: nat) -> AppView
    decreases k,
{
    if k == 0 {
        v
    } else {
        next_session_times(next_session_step(v), (k - 1) as nat)
    }
}

proof fn lemma_next_session_times_add(v: AppView, a: nat, b: nat)
    ensures
        next_session_times(v, a + b) == next_session_times(next_session_times(v, a), b),
    decreases a,
{
    if a > 0 {
        lemma_next_session_times_add(next_session_step(v), (a - 1) as nat, b);
        assert((a + b - 1) as nat == (a - 1) as nat + b);
    }
}

proof fn lemma_next_session_climbs(v: AppView, p: usize, j: nat)
    requires
        v.sessions.len() <= usize::MAX,
        v.selected_session == Some(p),
        p + j < v.sessions.len(),
    ensures
        next_session_times(v, j) == (AppView { selected_session: Some((p + j) as usize), ..v }),
    decreases j,
{
    if j == 0 {
        assert((AppView { selected_session: Some(p), ..v }) =~= v);
    } else {
        let w = next_session_step(v);
        assert(w == (AppView { selected_session: Some((p + 1) as usize), ..v }));
        lemma_next_session_climbs(w, (p + 1) as usize, (j - 1) as nat);
        assert((AppView { selected_session: Some((p + j) as usize), ..w }) =~= (AppView {
            selected_session: Some((p + j) as usize),
            ..v
        }));
    }
}

/// Moving the sidebar's selection down once per room comes back to the room
/// that was selected.
pub proof fn lemma_full_cycle_of_sessions(v: AppView)
    requires
        0 < v.sessions.len() <= usize::MAX,
        v.selected_session matches Some(i) && i < v.sessions.len(),
    ensures
        next_session_times(v, v.sessions.len()) == v,
{
    let n = v.sessions.len();
    let i = v.selected_session.unwrap();
    let up = (n - 1 - i) as nat;
    lemma_next_session_climbs(v, i, up);
    let top = next_session_times(v, up);
    assert(top.selected_session == Some((n - 1) as usize));
    let bottom = next_session_step(top);
    assert(bottom == (AppView { selected_session: Some(0usize), ..v }));
    lemma_next_session_climbs(bottom, 0, i as nat);
    assert(next_session_times(bottom, i as nat) =~= v);
    lemma_next_session_times_add(v, up, (i + 1) as nat);
    lemma_next_session_times_add(top, 1, i as nat);
    assert(up + (i + 1) as nat == n);
}

/// After a move from no selection or from a room that exists, the sidebar
/// selects a room that exists.
pub proof fn lemma_session_moves_stay_in_range(v: AppView)
    requires
        0 < v.sessions.len() <= usize::MAX,
        v.selected_session matches Some(i) ==> i < v.sessions.len(),
    ensures
        next_session_step(v).selected_session matches Some(i) && i < v.sessions.len(),
        previous_session_step(v).selected_session matches Some(i) && i < v.sessions.len(),
{
}

/// The palette never offers more commands than there are.
pub proof fn lemma_offered_fit(v: AppView)
    ensures
        offered_commands(v).len() <= v.commands.len(),
{
    if is_command_text(v.chat_input) {
        v.commands.lemma_filter_len(|c: (Seq<char>, Seq<char>)| command_matches(c.0, v.chat_input));
    }
}

/// The palette offers exactly the available commands that match the input:
/// every offered entry matches and is available, and every available command
/// that matches is offered.
pub proof fn lemma_offered_exactly_matching(v: AppView)
    requires
        is_command_text(v.chat_input),
    ensures
        forall|i: int| 0 <= i < offered_commands(v).len() ==> {
            &&& command_matches(#[trigger] offered_commands(v)[i].0, v.chat_input)
            &&& v.commands.contains(offered_commands(v)[i])
        },
        forall|j: int| 0 <= j < v.commands.len() && command_matches(
            #[trigger] v.commands[j].0,
            v.chat_input,
        ) ==> offered_commands(v).contains(v.commands[j]),
{
    let pred = |c: (Seq<char>, Seq<char>)| command_matches(c.0, v.chat_input);
    assert forall|i: int| 0 <= i < offered_commands(v).len() implies {
        &&& command_matches(#[trigger] offered_commands(v)[i].0, v.chat_input)
        &&& v.commands.contains(offered_commands(v)[i])
    } by {
        v.commands.lemma_filter_pred(pred, i);
        assert(v.commands.filter(pred).contains(offered_commands(v)[i]));
        v.commands.lemma_filter_contains_rev(pred, offered_commands(v)[i]);
    }
    assert forall|j: int| 0 <= j < v.commands.len() && command_matches(
        #[trigger] v.commands[j].0,
        v.chat_input,
    ) implies offered_commands(v).contains(v.commands[j]) by {
        v.commands.lemma_filter_contains(pred, j);
    }
}

/// Moving the palette's selection down and then up again comes back to the
/// command that was selected.
pub proof fn lemma_next_then_previous_command(v: AppView)
    requires
        v.commands.len() <= usize::MAX,
        v.selected_command matches Some(i) && i < offered_commands(v).len(),
    ensures
        previous_command_step(next_command_step(v)) == v,
{
    lemma_offered_fit(v);
    let w = next_command_step(v);
    assert(offered_commands(w) == offered_commands(v));
}

/// Moving the palette's selection up and then down again comes back to the
/// command that was selected.
pub proof fn lemma_previous_then_next_command(v: AppView)
    requires
        v.commands.len() <= usize::MAX,
        v.selected_command matches Some(i) && i < offered_commands(v).len(),
    ensures
        next_command_step(previous_command_step(v)) == v,
{
    lemma_offered_fit(v);
    let w = previous_command_step(v);
    assert(offered_commands(w) == offered_commands(v));
}

/// On the login screen, typing a character and erasing it with Backspace
/// gives back the form as it was.
pub proof fn lemma_login_type_then_erase(v: AppView, c: char)
    ensures
        login_step(login_step(v, Key::Char(c)), Key::Backspace) == v,
{
    assert(drop_last_char(v.username.push(c)) =~= v.username);
    assert(drop_last_char(v.password.push(c)) =~= v.password);
}

/// In the focused input of the chat screen, typing a character and erasing
/// it with Backspace gives back the text as it was; the palette's selection
/// is back on its first entry.
pub proof fn lemma_chat_type_then_erase(v: AppView, c: char)
    requires
        v.active_panel == ActivePanel::Input,
    ensures
        chat_step(chat_step(v, Key::Char(c)).0, Key::Backspace) == (
            AppView { selected_command: Some(0), ..v },
            crate::chat::input::Control::Continue,
        ),
{
    assert(drop_last_char(v.chat_input.push(c)) =~= v.chat_input);
}

/// On the chat screen, Tab and then BackTab give the focus back to the panel
/// that had it, and so do BackTab and then Tab.
pub proof fn lemma_tab_then_backtab(v: AppView)
    ensures
        chat_step(chat_step(v, Key::Tab).0, Key::BackTab).0 == v,
        chat_step(chat_step(v, Key::BackTab).0, Key::Tab).0 == v,
{
}

/// Three Tabs on the chat screen bring the focus round to where it was.
pub proof fn lemma_three_tabs_cycle(v: AppView)
    ensures
        chat_step(chat_step(chat_step(v, Key::Tab).0, Key::Tab).0, Key::Tab).0 == v,
{
}

/// Keys on the login screen never leave it, except Enter with a user name
/// that holds more than white space.
pub proof fn lemma_login_needs_enter(v: AppView, key: Key)
    requires
        v.mode == AppMode::Login,
        key != Key::Enter,
    ensures
        login_step(v, key).mode == AppMode::Login,
{
}

/// With the sidebar focused and no palette open, Up and `k` select the room
/// above (the last room from the first one), Down and `j` the room below (the
/// first room from the last one), and nothing else changes; Up undoes Down and
/// Down undoes Up.
pub proof fn lemma_sidebar_keys_move_selection(v: AppView, i: usize)
    requires
        v.mode == AppMode::Chat,
        v.active_panel == ActivePanel::Sidebar,
        !is_command_text(v.chat_input),
        v.selected_session == Some(i),
        i < v.sessions.len() <= usize::MAX,
    ensures
        key_step(v, Key::Up) == (
            AppView {
                selected_session: Some(
                    if i == 0 { (v.sessions.len() - 1) as usize } else { (i - 1) as usize },
                ),
                ..v
            },
            Control::Continue,
        ),
        key_step(v, Key::Char('k')) == key_step(v, Key::Up),
        key_step(v, Key::Down) == (
            AppView {
                selected_session: Some(
                    if i + 1 == v.sessions.len() { 0usize } else { (i + 1) as usize },
                ),
                ..v
            },
            Control::Continue,
        ),
        key_step(v, Key::Char('j')) == key_step(v, Key::Down),
        key_step(key_step(v, Key::Down).0, Key::Up).0 == v,
        key_step(key_step(v, Key::Up).0, Key::Down).0 == v,
{
    let up = key_step(v, Key::Up).0;
    let down = key_step(v, Key::Down).0;
    assert(key_step(down, Key::Up).0 =~= v);
    assert(key_step(up, Key::Down).0 =~= v);
}

/// On the login screen, Enter with a user name that holds more than white
/// space logs in whichever field has the focus: the chat screen is shown,
/// `System: Logged in as ` and the user name is added at the end of the
/// selected room (if the selection names one), and every other room, the
/// fields and the focus stay as they were.
pub proof fn lemma_login_enter_logs_in(v: AppView)
    requires
        v.mode == AppMode::Login,
        trim(v.username).len() > 0,
        v.sessions.len() <= usize::MAX,
    ensures
        key_step(v, Key::Enter).1 == Control::Continue,
        key_step(v, Key::Enter).0.mode == AppMode::Chat,
        key_step(v, Key::Enter).0.username == v.username,
        key_step(v, Key::Enter).0.password == v.password,
        key_step(v, Key::Enter).0.active_field == v.active_field,
        key_step(v, Key::Enter).0.sessions.len() == v.sessions.len(),
        forall|j: int| 0 <= j < v.sessions.len() ==> #[trigger] key_step(v, Key::Enter).0.sessions[j]
            == if v.selected_session == Some(j as usize) {
            SessionView {
                name: v.sessions[j].name,
                messages: v.sessions[j].messages.push("System: Logged in as "@ + v.username),
            }
        } else {
            v.sessions[j]
        },
{
}

/// On the login screen, Enter with a blank user name changes nothing.
pub proof fn lemma_login_enter_needs_a_name(v: AppView)
    requires
        v.mode == AppMode::Login,
        trim(v.username).len() == 0,
    ensures
        key_step(v, Key::Enter) == (v, Control::Continue),
{
}

/// `/clear` empties exactly the selected room (when the selection names
/// one), keeps its name and every other room as it was, and empties the input.
pub proof fn lemma_clear_empties_selected_room(v: AppView)
    requires
        v.sessions.len() <= usize::MAX,
    ensures
        command_step(v, "/clear"@).1 == Control::Continue,
        command_step(v, "/clear"@).0.chat_input.len() == 0,
        command_step(v, "/clear"@).0.selected_session == v.selected_session,
        command_step(v, "/clear"@).0.sessions.len() == v.sessions.len(),
        forall|j: int| 0 <= j < v.sessions.len() ==> #[trigger] command_step(v, "/clear"@).0.sessions[j]
            == if v.selected_session == Some(j as usize) {
            SessionView { name: v.sessions[j].name, messages: Seq::empty() }
        } else {
            v.sessions[j]
        },
{
    reveal_strlit("/clear");
    reveal_strlit("/nick");
    assert("/clear"@.len() != "/nick"@.len());
}

/// Whether `cmd` begins with `/` and continues with the input after its `/`:
/// the input is no longer than the command and agrees with it position by
/// position.
pub open spec fn extends_query(cmd: Seq<char>, input: Seq<char>) -> bool {
    &&& cmd.len() > 0
    &&& cmd[0] == '/'
    &&& input.len() <= cmd.len()
    &&& forall|m: int| 1 <= m < input.len() ==> cmd[m] == input[m]
}

/// A command is offered for an input `/q` exactly when `q` is empty or the
/// command is `/` followed by `q` and possibly more: an input longer than a
/// command never offers it.
pub proof fn lemma_command_matches_prefix(cmd: Seq<char>, input: Seq<char>)
    requires
        is_command_text(input),
    ensures
        command_matches(cmd, input) <==> (input.len() == 1 || extends_query(cmd, input)),
{
    let q = input.drop_first();
    if cmd.len() > 0 && cmd[0] == '/' {
        let rest = cmd.drop_first();
        if has_prefix(rest, q) {
            assert forall|m: int| 1 <= m < input.len() implies cmd[m] == input[m] by {
                assert(rest.subrange(0, q.len() as int)[m - 1] == q[m - 1]);
            }
        }
        if extends_query(cmd, input) {
            assert(rest.subrange(0, q.len() as int) =~= q);
        }
        if input.len() == 1 {
            assert(rest.subrange(0, 0) =~= q);
        }
    } else {
        if input.len() == 1 {
            assert(Seq::<char>::empty().subrange(0, 0) =~= q);
        }
    }
}

/// The palette offers, in list order, exactly the available commands that
/// begin with `/` and continue with what follows the input's `/` (all of
/// them for the input `/` alone).
pub proof fn lemma_offered_commands_extend_query(v: AppView)
    requires
        is_command_text(v.chat_input),
    ensures
        forall|i: int| 0 <= i < offered_commands(v).len() ==> (v.chat_input.len() == 1
            || extends_query(#[trigger] offered_commands(v)[i].0, v.chat_input)),
        forall|j: int| 0 <= j < v.commands.len() && (v.chat_input.len() == 1 || extends_query(
            #[trigger] v.commands[j].0,
            v.chat_input,
        )) ==> offered_commands(v).contains(v.commands[j]),
{
    lemma_offered_exactly_matching(v);
    assert forall|i: int| 0 <= i < offered_commands(v).len() implies (v.chat_input.len() == 1
        || extends_query(#[trigger] offered_commands(v)[i].0, v.chat_input)) by {
        lemma_command_matches_prefix(offered_commands(v)[i].0, v.chat_input);
    }
    assert forall|j: int| 0 <= j < v.commands.len() && (v.chat_input.len() == 1 || extends_query(
        #[trigger] v.commands[j].0,
        v.chat_input,
    )) implies offered_commands(v).contains(v.commands[j]) by {
        lemma_command_matches_prefix(v.commands[j].0, v.chat_input);
    }
}

/// `/help` and `/users` add their answer at the end of the selected room only
/// and empty the input; `/nick` leaves `/nick ` in the input and the rooms as
/// they were; `/quit` ends the process with the state untouched.
pub proof fn lemma_other_commands(v: AppView)
    requires
        v.sessions.len() <= usize::MAX,
    ensures
        command_step(v, "/help"@).1 == Control::Continue,
        command_step(v, "/help"@).0.chat_input.len() == 0,
        command_step(v, "/help"@).0.sessions.len() == v.sessions.len(),
        forall|j: int| 0 <= j < v.sessions.len() ==> #[trigger] command_step(v, "/help"@).0.sessions[j]
            == if v.selected_session == Some(j as usize) {
            SessionView {
                name: v.sessions[j].name,
                messages: v.sessions[j].messages.push(
                    "System: Commands: /clear, /nick, /users, /quit"@,
                ),
            }
        } else {
            v.sessions[j]
        },
        command_step(v, "/users"@).1 == Control::Continue,
        command_step(v, "/users"@).0.chat_input.len() == 0,
        command_step(v, "/users"@).0.sessions.len() == v.sessions.len(),
        forall|j: int| 0 <= j < v.sessions.len() ==> #[trigger] command_step(v, "/users"@).0.sessions[j]
            == if v.selected_session == Some(j as usize) {
            SessionView {
                name: v.sessions[j].name,
                messages: v.sessions[j].messages.push("System: Online users: [You], Bot"@),
            }
        } else {
            v.sessions[j]
        },
        command_step(v, "/nick"@) == (AppView { chat_input: "/nick "@, ..v }, Control::Continue),
        command_step(v, "/quit"@) == (v, Control::Quit),
{
    reveal_strlit("/clear");
    reveal_strlit("/help");
    reveal_strlit("/users");
    reveal_strlit("/nick");
    reveal_strlit("/quit");
    assert("/help"@[1] != "/nick"@[1] && "/help"@[1] != "/quit"@[1]);
    assert("/nick"@[1] != "/quit"@[1] && "/users"@[1] != "/clear"@[1]);
    assert("/help"@ != "/clear"@ && "/help"@ != "/nick"@);
    assert("/users"@ != "/clear"@ && "/users"@ != "/help"@ && "/users"@ != "/nick"@);
    assert("/nick"@ != "/clear"@ && "/nick"@ != "/help"@ && "/nick"@ != "/users"@
        && "/nick"@ != "/quit"@);
    assert("/quit"@ != "/clear"@ && "/quit"@ != "/help"@ && "/quit"@ != "/users"@);
}

/// With the input focused and no palette open, Enter sends a message that
/// holds more than white space: the user name, `: ` and the trimmed input are
/// added at the end of the selected room only, and the input is emptied.
pub proof fn lemma_enter_sends_message(v: AppView)
    requires
        v.mode == AppMode::Chat,
        v.active_panel == ActivePanel::Input,
        !is_command_text(v.chat_input),
        trim(v.chat_input).len() > 0,
        v.sessions.len() <= usize::MAX,
    ensures
        key_step(v, Key::Enter).1 == Control::Continue,
        key_step(v, Key::Enter).0.chat_input.len() == 0,
        key_step(v, Key::Enter).0.sessions.len() == v.sessions.len(),
        forall|j: int| 0 <= j < v.sessions.len() ==> #[trigger] key_step(v, Key::Enter).0.sessions[j]
            == if v.selected_session == Some(j as usize) {
            SessionView {
                name: v.sessions[j].name,
                messages: v.sessions[j].messages.push(v.username + ": "@ + trim(v.chat_input)),
            }
        } else {
            v.sessions[j]
        },
{
}

} // verus!
