//! Terminals: what keys and the mouse do, what the log shows, and the help module's menu.
use crate::engine_state::{log_event_broadcast, logged, TimelineDisplayEventView};
use crate::help::{asks, command_lines, flag_lines, menu_message, menu_text, module_lines};
use crate::keymap::{default_bindings, key_of_name, KeyCode, KeyEvent};
use crate::laws::chat::holds_text;
use crate::panes::{clamped, grown, pane_after, shrunk, ActivePane, MouseKind, ResizeDirection};
use crate::proto::{ChatMessageView, CommandView, CommandsView, Container, FlagView, PayloadView};
use crate::text::{decimal_int, trim};
use crate::trust::position_name;
use crate::tui::{moused, payload_details, shown, DragTarget};
use crate::user_view::{keyed, meaning, resized, KeyMeaning};
use vstd::prelude::*;

verus! {

/// The log shows every line in order until it is full; then the oldest goes.
pub proof fn law_logs_drop_the_oldest(
    logs: Seq<Seq<char>>,
    message: Seq<char>,
    timeline: Seq<TimelineDisplayEventView>,
    event: TimelineDisplayEventView,
)
    ensures
        logs.len() < 100 ==> shown(logs, message) == logs.push(message),
        logs.len() == 100 ==> shown(logs, message) == logs.skip(1).push(message),
        timeline.len() < crate::engine_state::LOG_LINES ==> logged(timeline, event) == timeline.push(
            event,
        ),
        timeline.len() == crate::engine_state::LOG_LINES ==> logged(timeline, event)
            == timeline.skip(1).push(event),
{
    if logs.len() == 100 {
        assert(shown(logs, message) =~= logs.skip(1).push(message));
    }
    if timeline.len() == crate::engine_state::LOG_LINES {
        assert(logged(timeline, event) =~= timeline.skip(1).push(event));
    }
}

/// A line of the log goes to the connected modules as it is, from the engine.
pub proof fn law_log_lines_are_broadcast(line: &str, r: Container)
    requires
        call_ensures(log_event_broadcast, (line,), r),
    ensures
        r@.module_name == "engine"@,
        r@.payload matches Some(PayloadView::LogLine(l)) && l.log == line@,
{
}

/// The edges move in steps of two percent and stay between a tenth and nine tenths.
pub proof fn law_edges_stay_on_the_screen(split: u16)
    requires
        10 <= split <= 90,
    ensures
        grown(split) == (if split <= 88 {
            split + 2
        } else {
            90
        }),
        shrunk(split) == (if split >= 12 {
            split - 2
        } else {
            10
        }),
        10 <= clamped(split) <= 90,
        clamped(split) == split,
{
}

/// A percentage beyond the limits counts as the limit.
pub proof fn law_percentages_are_limited(percent: u16)
    ensures
        percent < 10 ==> clamped(percent) == 10,
        percent > 90 ==> clamped(percent) == 90,
        10 <= percent <= 90 ==> clamped(percent) == percent,
{
}

/// The focus goes round with the clock.
pub proof fn law_the_focus_goes_round_with_the_clock()
    ensures
        pane_after(ActivePane::TopLeft) == ActivePane::TopRight,
        pane_after(ActivePane::TopRight) == ActivePane::BottomRight,
        pane_after(ActivePane::BottomRight) == ActivePane::BottomLeft,
        pane_after(ActivePane::BottomLeft) == ActivePane::TopLeft,
{
}

/// What the mouse does in the engine's terminal: a press near the horizontal edge takes hold
/// of it, one elsewhere focuses the pane under it; a drag moves the edge only where it is
/// held; letting go lets go.
pub proof fn law_the_mouse_in_the_engines_terminal(a: crate::tui::AppView, x: u16, y: u16)
    requires
        y <= 100,
        a.split_y <= 100,
    ensures
        ({
            let near = -3 <= y - a.split_y <= 3;
            let down = moused(a, MouseKind::LeftDown, x, y);
            &&& near ==> down.drag_target == DragTarget::HorizontalSplit && down.active_pane
                == a.active_pane
            &&& !near ==> {
                &&& down.drag_target == DragTarget::Nothing
                &&& y < a.split_y && x < a.top_split_x ==> down.active_pane == ActivePane::TopLeft
                &&& y < a.split_y && x >= a.top_split_x ==> down.active_pane == ActivePane::TopRight
                &&& y >= a.split_y && x < a.bottom_split_x ==> down.active_pane
                    == ActivePane::BottomLeft
                &&& y >= a.split_y && x >= a.bottom_split_x ==> down.active_pane
                    == ActivePane::BottomRight
            }
            &&& down.split_y == a.split_y && down.should_quit == a.should_quit
        }),
        ({
            let drag = moused(a, MouseKind::LeftDrag, x, y);
            &&& a.drag_target == DragTarget::HorizontalSplit && 10 <= y <= 90 ==> drag.split_y == y
            &&& a.drag_target != DragTarget::HorizontalSplit ==> drag == a
            &&& drag.active_pane == a.active_pane && drag.top_split_x == a.top_split_x
        }),
        moused(a, MouseKind::LeftUp, x, y).drag_target == DragTarget::Nothing,
        moused(a, MouseKind::Other, x, y) == a,
{
}

/// What the keys do in the engine's terminal: escape quits, tab moves the focus on, and any
/// other key does nothing.
pub proof fn law_keys_in_the_engines_terminal(a: crate::tui::AppView, key: KeyEvent)
    ensures
        key.code == KeyCode::Esc ==> crate::tui::keyed(a, key).should_quit,
        key.code == KeyCode::Tab ==> crate::tui::keyed(a, key).active_pane == pane_after(
            a.active_pane,
        ) && crate::tui::keyed(a, key).should_quit == a.should_quit,
        key.code != KeyCode::Esc && key.code != KeyCode::Tab ==> crate::tui::keyed(a, key) == a,
{
}

/// What the arrows do there: with the first pane in focus they move its edges, and nothing
/// else.
pub proof fn law_arrows_in_the_engines_terminal(a: crate::tui::AppView)
    requires
        a.active_pane == ActivePane::TopLeft,
        crate::tui::fits_screen(a),
    ensures
        ({
            let right = crate::tui::resized(a, ResizeDirection::Right);
            let left = crate::tui::resized(a, ResizeDirection::Left);
            let down = crate::tui::resized(a, ResizeDirection::Down);
            let up = crate::tui::resized(a, ResizeDirection::Up);
            &&& right.top_split_x >= a.top_split_x && right.split_y == a.split_y
            &&& a.top_split_x <= 88 ==> right.top_split_x == a.top_split_x + 2
            &&& a.top_split_x >= 12 ==> left.top_split_x == a.top_split_x - 2
            &&& left.split_y == a.split_y
            &&& a.split_y <= 88 ==> down.split_y == a.split_y + 2
            &&& down.top_split_x == a.top_split_x
            &&& a.split_y >= 12 ==> up.split_y == a.split_y - 2
            &&& up.top_split_x == a.top_split_x
        }),
{
}

/// What the keys mean in the user's terminal.
pub proof fn law_keys_in_the_users_terminal(key: KeyEvent)
    ensures
        key.code == KeyCode::Esc ==> meaning(key) is Quit,
        key.code == KeyCode::Char('q') && !key.modifiers.shift ==> meaning(key) is Quit,
        key.code == KeyCode::Char('c') && key.modifiers.shift ==> meaning(key) is Quit,
        key.code == KeyCode::Tab ==> meaning(key) is NextPane,
        key.code == KeyCode::Left && key.modifiers.shift ==> meaning(key) == KeyMeaning::Resize(
            ResizeDirection::Left,
        ),
        key.code == KeyCode::Right && key.modifiers.shift ==> meaning(key) == KeyMeaning::Resize(
            ResizeDirection::Right,
        ),
        key.code == KeyCode::Up && key.modifiers.shift ==> meaning(key) == KeyMeaning::Resize(
            ResizeDirection::Up,
        ),
        key.code == KeyCode::Down && key.modifiers.shift ==> meaning(key) == KeyMeaning::Resize(
            ResizeDirection::Down,
        ),
        key.code == KeyCode::Char('H') ==> meaning(key) == KeyMeaning::Resize(ResizeDirection::Left),
        key.code == KeyCode::Char('L') ==> meaning(key) == KeyMeaning::Resize(
            ResizeDirection::Right,
        ),
        key.code == KeyCode::Char('K') ==> meaning(key) == KeyMeaning::Resize(ResizeDirection::Up),
        key.code == KeyCode::Char('J') ==> meaning(key) == KeyMeaning::Resize(ResizeDirection::Down),
        !key.modifiers.shift && (key.code == KeyCode::Left || key.code == KeyCode::Right || key.code
            == KeyCode::Up || key.code == KeyCode::Down || key.code == KeyCode::Char('h') || key.code
            == KeyCode::Char('j') || key.code == KeyCode::Char('k') || key.code == KeyCode::Char(
            'l',
        )) ==> meaning(key) is Nothing,
{
}

/// What a meaning does in the user's terminal: quitting ends it, the next pane is the one
/// after, and an edge moves in its direction by two percent.
pub proof fn law_meanings_in_the_users_terminal(a: crate::user_view::AppView, key: KeyEvent)
    requires
        crate::user_view::fits_screen(a),
    ensures
        meaning(key) is Quit ==> keyed(a, key).should_quit,
        !(meaning(key) is Quit) ==> keyed(a, key).should_quit == a.should_quit,
        meaning(key) is NextPane ==> keyed(a, key).active_pane == pane_after(a.active_pane),
        meaning(key) is Nothing ==> keyed(a, key) == a,
        meaning(key) == KeyMeaning::Resize(ResizeDirection::Right) && a.split_x <= 88 ==> keyed(
            a,
            key,
        ).split_x == a.split_x + 2,
        meaning(key) == KeyMeaning::Resize(ResizeDirection::Left) && a.split_x >= 12 ==> keyed(
            a,
            key,
        ).split_x == a.split_x - 2,
        meaning(key) == KeyMeaning::Resize(ResizeDirection::Down) && a.split_y <= 88 ==> keyed(
            a,
            key,
        ).split_y == a.split_y + 2,
        meaning(key) == KeyMeaning::Resize(ResizeDirection::Up) && a.split_y >= 12 ==> keyed(
            a,
            key,
        ).split_y == a.split_y - 2,
{
}

/// What the mouse does in the user's terminal: a press focuses the pane under it.
pub proof fn law_the_mouse_in_the_users_terminal(a: crate::user_view::AppView, x: u16, y: u16)
    ensures
        ({
            let down = crate::user_view::moused(a, MouseKind::LeftDown, x, y);
            &&& down.is_dragging
            &&& y < a.split_y && x < a.split_x ==> down.active_pane == ActivePane::TopLeft
            &&& y < a.split_y && x >= a.split_x ==> down.active_pane == ActivePane::TopRight
            &&& y >= a.split_y && x < a.split_x ==> down.active_pane == ActivePane::BottomLeft
            &&& y >= a.split_y && x >= a.split_x ==> down.active_pane == ActivePane::BottomRight
        }),
        !crate::user_view::moused(a, MouseKind::LeftUp, x, y).is_dragging,
        crate::user_view::moused(a, MouseKind::Other, x, y) == a,
{
}

/// The names of keys: each means its own key, and a single letter means itself.
pub proof fn law_keys_have_names(name: Seq<char>)
    ensures
        key_of_name("up"@) == Some(KeyCode::Up),
        key_of_name("down"@) == Some(KeyCode::Down),
        key_of_name("left"@) == Some(KeyCode::Left),
        key_of_name("right"@) == Some(KeyCode::Right),
        key_of_name("enter"@) == Some(KeyCode::Enter),
        key_of_name("return"@) == Some(KeyCode::Enter),
        key_of_name("esc"@) == Some(KeyCode::Esc),
        key_of_name("escape"@) == Some(KeyCode::Esc),
        key_of_name("tab"@) == Some(KeyCode::Tab),
        key_of_name("backtab"@) == Some(KeyCode::BackTab),
        key_of_name("backspace"@) == Some(KeyCode::Backspace),
        key_of_name("delete"@) == Some(KeyCode::Delete),
        name.len() == 1 && name[0] as u32 <= 127 ==> key_of_name(name) == Some(
            KeyCode::Char(name[0]),
        ),
{
    reveal_strlit("up");
    reveal_strlit("down");
    reveal_strlit("left");
    reveal_strlit("right");
    reveal_strlit("enter");
    reveal_strlit("return");
    reveal_strlit("esc");
    reveal_strlit("escape");
    reveal_strlit("tab");
    reveal_strlit("backtab");
    reveal_strlit("backspace");
    reveal_strlit("delete");
    assert("up"@.len() == 2 && "down"@.len() == 4 && "left"@.len() == 4 && "right"@.len() == 5);
    assert("down"@[0] == 'd' && "left"@[0] == 'l');
    assert("enter"@.len() == 5 && "right"@[0] == 'r' && "enter"@[0] == 'e');
    assert("return"@.len() == 6 && "escape"@.len() == 6 && "return"@[0] == 'r' && "escape"@[0]
        == 'e' && "delete"@.len() == 6 && "delete"@[0] == 'd');
    assert("esc"@.len() == 3 && "tab"@.len() == 3 && "esc"@[0] == 'e' && "tab"@[0] == 't');
    assert("backtab"@.len() == 7 && "backspace"@.len() == 9);
}

/// The keys that are bound where nobody bound others.
pub proof fn law_default_keys()
    ensures
        ({
            let k = default_bindings();
            &&& k.quit == seq!["q"@, "esc"@]
            &&& k.force_quit == seq!["ctrl+c"@]
            &&& k.up == seq!["up"@, "k"@]
            &&& k.down == seq!["down"@, "j"@]
            &&& k.left == seq!["left"@, "h"@]
            &&& k.right == seq!["right"@, "l"@]
            &&& k.select == seq!["enter"@]
            &&& k.back == seq!["esc"@]
            &&& k.pause == seq!["p"@]
            &&& k.restart == seq!["r"@]
            &&& k.shutdown == seq!["s"@]
            &&& k.inspect == seq!["i"@]
            &&& k.start_all == seq!["a"@]
            &&& k.stop_all == seq!["shift+a"@]
            &&& k.module_next == seq!["tab"@]
            &&& k.module_previous == seq!["backtab"@]
        }),
{
}

proof fn lemma_shows(whole: Seq<char>, a: Seq<char>, part: Seq<char>, b: Seq<char>)
    requires
        whole == a + part + b,
    ensures
        holds_text(whole, part),
{
}

/// What the log shows of a payload: a message's platform with its author or its text so
/// far, a line as it is, an error with its trace, a command's name, and why a module shut
/// down.
pub proof fn law_payloads_are_shown(msg_type: Seq<char>, payload: PayloadView)
    ensures
        ({
            let t = payload_details(msg_type, Some(payload));
            match payload {
                PayloadView::LogLine(l) => t == l.log,
                PayloadView::ErrorLine(e) => holds_text(t, e.log) && holds_text(t, e.trace),
                PayloadView::TimelineEvent(e) => holds_text(t, e.i) && holds_text(t, e.c),
                PayloadView::MessagePreProcess(m) => m.raw_message matches Some(c) ==> holds_text(
                    t,
                    c.platform,
                ) && holds_text(t, c.user_uuid7),
                PayloadView::MessageInProcess(m) => holds_text(t, m.processed_message) && (
                m.raw_message matches Some(c) ==> holds_text(t, c.platform)),
                PayloadView::MessagePostProcess(m) => holds_text(t, m.processed_message) && (
                m.raw_message matches Some(c) ==> holds_text(t, c.platform)),
                PayloadView::CommandPayload(c) => holds_text(t, c.command_name),
                PayloadView::Shutdown(s) => holds_text(t, s.reason),
                PayloadView::ConnectionRequest(q) => holds_text(t, decimal_int(q.pin as int))
                    && holds_text(t, position_name(q.process_position)),
                _ => holds_text(t, msg_type),
            }
        }),
        holds_text(payload_details(msg_type, None), msg_type),
{
    let t = payload_details(msg_type, Some(payload));
    let none = Seq::<char>::empty();
    match payload {
        PayloadView::LogLine(l) => {},
        PayloadView::ErrorLine(e) => {
            assert(t =~= "Error: "@ + e.log + (" | Trace: "@ + e.trace));
            lemma_shows(t, "Error: "@, e.log, " | Trace: "@ + e.trace);
            assert(t =~= ("Error: "@ + e.log + " | Trace: "@) + e.trace + none);
            lemma_shows(t, "Error: "@ + e.log + " | Trace: "@, e.trace, none);
        },
        PayloadView::TimelineEvent(e) => {
            assert(t =~= "Timeline ID: "@ + e.i + (" | Cmd: "@ + e.c));
            lemma_shows(t, "Timeline ID: "@, e.i, " | Cmd: "@ + e.c);
            assert(t =~= ("Timeline ID: "@ + e.i + " | Cmd: "@) + e.c + none);
            lemma_shows(t, "Timeline ID: "@ + e.i + " | Cmd: "@, e.c, none);
        },
        PayloadView::MessagePreProcess(m) => {
            if let Some(c) = m.raw_message {
                assert(t =~= "Platform: "@ + c.platform + (" | User: "@ + c.user_uuid7));
                lemma_shows(t, "Platform: "@, c.platform, " | User: "@ + c.user_uuid7);
                assert(t =~= ("Platform: "@ + c.platform + " | User: "@) + c.user_uuid7 + none);
                lemma_shows(t, "Platform: "@ + c.platform + " | User: "@, c.user_uuid7, none);
            }
        },
        PayloadView::MessageInProcess(m) => {
            let p = match m.raw_message {
                Some(c) => c.platform,
                None => Seq::empty(),
            };
            assert(t =~= "Platform: "@ + p + (" | Processed: "@ + m.processed_message));
            lemma_shows(t, "Platform: "@, p, " | Processed: "@ + m.processed_message);
            assert(t =~= ("Platform: "@ + p + " | Processed: "@) + m.processed_message + none);
            lemma_shows(t, "Platform: "@ + p + " | Processed: "@, m.processed_message, none);
        },
        PayloadView::MessagePostProcess(m) => {
            let p = match m.raw_message {
                Some(c) => c.platform,
                None => Seq::empty(),
            };
            assert(t =~= "Platform: "@ + p + (" | Final: "@ + m.processed_message));
            lemma_shows(t, "Platform: "@, p, " | Final: "@ + m.processed_message);
            assert(t =~= ("Platform: "@ + p + " | Final: "@) + m.processed_message + none);
            lemma_shows(t, "Platform: "@ + p + " | Final: "@, m.processed_message, none);
        },
        PayloadView::CommandPayload(c) => {
            assert(t =~= "Command: "@ + c.command_name + none);
            lemma_shows(t, "Command: "@, c.command_name, none);
        },
        PayloadView::Shutdown(s) => {
            assert(t =~= "Reason: "@ + s.reason + none);
            lemma_shows(t, "Reason: "@, s.reason, none);
        },
        PayloadView::ConnectionRequest(q) => {
            let pin = decimal_int(q.pin as int);
            let place = position_name(q.process_position);
            assert(t =~= "Pin: "@ + pin + (", Pos: "@ + place));
            lemma_shows(t, "Pin: "@, pin, ", Pos: "@ + place);
            assert(t =~= ("Pin: "@ + pin + ", Pos: "@) + place + none);
            lemma_shows(t, "Pin: "@ + pin + ", Pos: "@, place, none);
        },
        _ => {
            assert(t =~= "Type: "@ + msg_type + none);
            lemma_shows(t, "Type: "@, msg_type, none);
        },
    }
    let bare = payload_details(msg_type, None);
    assert(bare =~= "Type: "@ + msg_type + none);
    lemma_shows(bare, "Type: "@, msg_type, none);
}

/// The help module answers whoever writes `!help`, but for its own messages: on the
/// platform that it was asked on, with its menu, as the engine's own user.
pub proof fn law_the_help_module_answers(
    chat: ChatMessageView,
    platform: Seq<char>,
    menu: Seq<char>,
)
    ensures
        asks(chat) <==> chat.user_uuid7 != "CockatielSystem"@ && "!help"@.is_prefix_of(
            trim(chat.raw_message),
        ),
        ({
            let m = menu_message(platform, menu);
            &&& m.processed_message == menu
            &&& m.message_uuid7.len() == 0
            &&& m.raw_message matches Some(c)
            &&& c.platform == platform
            &&& c.user_uuid7 == "CockatielSystem"@
            &&& c.raw_message == "!help"@
        }),
{
}

/// The menu has a line for every command of every module, with its description, and one
/// for each of its options: each adds its own to what is there, and a menu without commands
/// says so.
pub proof fn law_the_menu_grows_with_what_is_registered(
    flags: Seq<FlagView>,
    f: FlagView,
    commands: Seq<CommandView>,
    c: CommandView,
    modules: Seq<(Seq<char>, CommandsView)>,
    m: (Seq<char>, CommandsView),
)
    ensures
        flag_lines(flags.push(f)) == flag_lines(flags) + ("  -"@ + (f.flag_name + (": "@ + (
        f.flag_description + "\n"@)))),
        command_lines(commands.push(c)) == command_lines(commands) + ("!"@ + (c.command_flag + (
        " - "@ + (c.command_description + ("\n"@ + (flag_lines(c.command_flags) + "\n"@)))))),
        module_lines(modules.push(m)) == module_lines(modules) + command_lines(m.1.commands),
        menu_text(modules.push(m)) == "Available commands:\n\n"@ + (module_lines(modules)
            + command_lines(m.1.commands)),
        menu_text(Seq::<(Seq<char>, CommandsView)>::empty())
            == "No commands are currently available."@,
        flag_lines(Seq::<FlagView>::empty()).len() == 0,
        command_lines(Seq::<CommandView>::empty()).len() == 0,
        module_lines(Seq::<(Seq<char>, CommandsView)>::empty()).len() == 0,
{
    assert(flags.push(f).drop_last() =~= flags);
    assert(commands.push(c).drop_last() =~= commands);
    assert(modules.push(m).drop_last() =~= modules);
    assert(flag_lines(flags.push(f)) =~= flag_lines(flags) + ("  -"@ + (f.flag_name + (": "@ + (
    f.flag_description + "\n"@)))));
    assert(command_lines(commands.push(c)) =~= command_lines(commands) + ("!"@ + (c.command_flag + (
    " - "@ + (c.command_description + ("\n"@ + (flag_lines(c.command_flags) + "\n"@)))))));
}

} // verus!
