//! Keys and what they do: the table that maps a key press, by the view
//! that is shown, to an operation of the session.

use crate::app::{App, AppView, HabitMgmtMode};
use crate::session::AppModel;
use crate::models::date::{in_range, Date, MAX_DAYS, MIN_DAYS};
use vstd::prelude::*;

verus! {

/// A key press, as far as the session tells keys apart.
#[derive(Debug, Clone, Copy, PartialEq, Eq, Structural)]
pub enum Key {
    /// A character key.
    Char(char),
    /// Left arrow.
    Left,
    /// Right arrow.
    Right,
    /// Up arrow.
    Up,
    /// Down arrow.
    Down,
    /// Enter.
    Enter,
    /// Escape.
    Esc,
    /// Backspace.
    Backspace,
    /// Any other key.
    Other,
}

/// What is left for the caller to do once a key has been handled.
#[derive(Debug, Clone, Copy, PartialEq, Eq, Structural)]
pub enum Effect {
    /// Nothing.
    Nothing,
    /// Export the week being viewed, then confirm with
    /// [`App::confirm_export`].
    ExportWeek,
}

/// Whether a key, pressed with or without the control key, asks to quit at
/// once: control and `c`.
pub open spec fn is_interrupt(key: Key, control: bool) -> bool {
    control && key == Key::Char('c')
}

/// The session after a key press on the main view.
pub open spec fn main_view_key(app: AppModel, key: Key, today: int) -> AppModel {
    match key {
        Key::Char(c) => if c == 'q' {
            app.quit()
        } else if c == 'n' {
            app.start_note_input()
        } else if c == 'w' || c == 't' {
            app.go_to_today(today)
        } else if c == 'v' {
            app.set_view(AppView::Stats)
        } else if c == 'h' {
            app.enter_habit_management()
        } else if c == '?' {
            app.set_view(AppView::Help)
        } else if c == '[' {
            app.prev_week()
        } else if c == ']' {
            app.next_week()
        } else {
            app
        },
        Key::Left => app.prev_day(),
        Key::Right => app.next_day(),
        Key::Up => app.prev_habit(),
        Key::Down => app.next_habit(),
        Key::Enter => app.toggle(),
        _ => app,
    }
}

/// The session after a key press on the stats view or the help view.
pub open spec fn closing_key(app: AppModel, key: Key) -> AppModel {
    if key == Key::Char('q') || key == Key::Esc {
        app.set_view(AppView::Main)
    } else {
        app
    }
}

/// The session after a key press while a name or a note is typed, apart
/// from Enter.
pub open spec fn typing_key(app: AppModel, key: Key) -> AppModel {
    match key {
        Key::Char(c) => app.input_char(c),
        Key::Backspace => app.input_backspace(),
        _ => app,
    }
}

/// The session after a key press in habit management; `new_id` is the
/// identifier that a habit gets if the key adds one.
pub open spec fn habit_mgmt_key(app: AppModel, key: Key, new_id: u128) -> AppModel {
    match app.habit_mgmt_mode {
        HabitMgmtMode::List => match key {
            Key::Char(c) => if c == 'q' {
                app.set_view(AppView::Main)
            } else if c == 'a' {
                app.start_add_habit()
            } else if c == 'e' {
                app.start_edit_habit()
            } else if c == 'd' {
                app.delete_selected_habit()
            } else if c == '[' {
                app.move_habit_up()
            } else if c == ']' {
                app.move_habit_down()
            } else {
                app
            },
            Key::Esc => app.set_view(AppView::Main),
            Key::Up => app.habit_mgmt_prev(),
            Key::Down => app.habit_mgmt_next(),
            _ => app,
        },
        HabitMgmtMode::AddHabit => match key {
            Key::Enter => app.save_new_habit(new_id),
            Key::Esc => app.cancel_habit_input(),
            _ => typing_key(app, key),
        },
        HabitMgmtMode::EditHabit => match key {
            Key::Enter => app.save_edited_habit(),
            Key::Esc => app.cancel_habit_input(),
            _ => typing_key(app, key),
        },
    }
}

/// The session after a key press in note editing.
pub open spec fn note_input_key(app: AppModel, key: Key) -> AppModel {
    match key {
        Key::Enter => app.save_note_input(),
        Key::Esc => app.cancel_note_input(),
        _ => typing_key(app, key),
    }
}

/// The session after a key press: by the view that is shown. `today` is
/// the date a jump to today leads to, and `new_id` the identifier that a
/// habit gets if the key adds one.
pub open spec fn after_key(app: AppModel, key: Key, today: int, new_id: u128) -> AppModel {
    match app.view {
        AppView::Main => main_view_key(app, key, today),
        AppView::Stats => closing_key(app, key),
        AppView::Help => closing_key(app, key),
        AppView::HabitManagement => habit_mgmt_key(app, key, new_id),
        AppView::NoteInput => note_input_key(app, key),
        AppView::ExportConfirmation => app.set_view(AppView::Main),
    }
}

/// What a key press leaves for the caller to do: `x` on the main view asks
/// for an export.
pub open spec fn key_effect(app: AppModel, key: Key) -> Effect {
    if app.view == AppView::Main && key == Key::Char('x') {
        Effect::ExportWeek
    } else {
        Effect::Nothing
    }
}

/// Whether the session can take the key: it is well-formed, and a key that
/// moves to another week finds all days of that week representable.
pub open spec fn accepts_key(app: AppModel, key: Key) -> bool {
    &&& app.wf()
    &&& app.view == AppView::Main ==> match key {
        Key::Left => app.selected_day_idx == 0 ==> in_range(app.week_start - 7),
        Key::Right => app.selected_day_idx == 6 ==> in_range(app.week_start + 13),
        Key::Char(c) => (c == '[' ==> in_range(app.week_start - 7)) && (c == ']' ==> in_range(
            app.week_start + 13,
        )),
        _ => true,
    }
}

/// Whether the session can take the key: the executable test of
/// [`accepts_key`].
pub fn can_handle_key(app: &App, key: Key) -> (r: bool)
    ensures
        r == accepts_key(app@, key),
{
    let start: i32 = app.current_week.start.num_days_from_ce();
    if app.selected_day_idx >= 7 || start > MAX_DAYS - 6 {
        return false;
    }
    if app.view != AppView::Main {
        return true;
    }
    let back = start - 7 >= MIN_DAYS;
    let forth = start + 13 <= MAX_DAYS;
    match key {
        Key::Left => app.selected_day_idx != 0 || back,
        Key::Right => app.selected_day_idx != 6 || forth,
        Key::Char(c) => (c != '[' || back) && (c != ']' || forth),
        _ => true,
    }
}

/// Handle a key press on the main view.
pub fn handle_main_view_keys(app: &mut App, key: Key, today: Date) -> (r: Effect)
    requires
        accepts_key(old(app)@, key),
        old(app)@.view == AppView::Main,
    ensures
        final(app)@ == main_view_key(old(app)@, key, today@),
        r == key_effect(old(app)@, key),
        final(app)@.wf(),
{
    match key {
        Key::Char(c) => {
            if c == 'q' {
                app.quit();
            } else if c == 'n' {
                app.start_note_input();
            } else if c == 'w' || c == 't' {
                app.go_to_today_on(today);
            } else if c == 'v' {
                app.set_view(AppView::Stats);
            } else if c == 'h' {
                app.enter_habit_management();
            } else if c == '?' {
                app.set_view(AppView::Help);
            } else if c == '[' {
                app.prev_week();
            } else if c == ']' {
                app.next_week();
            } else if c == 'x' {
                return Effect::ExportWeek;
            }
        },
        Key::Left => {
            app.prev_day();
        },
        Key::Right => {
            app.next_day();
        },
        Key::Up => {
            app.prev_habit();
        },
        Key::Down => {
            app.next_habit();
        },
        Key::Enter => {
            app.toggle_habit_status();
        },
        _ => {},
    }
    Effect::Nothing
}

/// Handle a key press on the stats view.
pub fn handle_stats_view_keys(app: &mut App, key: Key)
    ensures
        final(app)@ == closing_key(old(app)@, key),
{
    match key {
        Key::Char(c) => {
            if c == 'q' {
                app.set_view(AppView::Main);
            }
        },
        Key::Esc => {
            app.set_view(AppView::Main);
        },
        _ => {},
    }
}

/// Handle a key press on the help view.
pub fn handle_help_view_keys(app: &mut App, key: Key)
    ensures
        final(app)@ == closing_key(old(app)@, key),
{
    match key {
        Key::Char(c) => {
            if c == 'q' {
                app.set_view(AppView::Main);
            }
        },
        Key::Esc => {
            app.set_view(AppView::Main);
        },
        _ => {},
    }
}

/// Handle a key press while text is typed, apart from Enter and Escape.
fn handle_typing_keys(app: &mut App, key: Key)
    ensures
        final(app)@ == typing_key(old(app)@, key),
{
    match key {
        Key::Char(c) => {
            app.input_char(c);
        },
        Key::Backspace => {
            app.input_backspace();
        },
        _ => {},
    }
}

/// Handle a key press in habit management.
pub fn handle_habit_mgmt_keys(app: &mut App, key: Key)
    ensures
        final(app)@ == habit_mgmt_key(
            old(app)@,
            key,
            final(app)@.storage.data.habits.last().id,
        ),
{
    match app.habit_mgmt_mode {
        HabitMgmtMode::List => {
            match key {
                Key::Char(c) => {
                    if c == 'q' {
                        app.set_view(AppView::Main);
                    } else if c == 'a' {
                        app.start_add_habit();
                    } else if c == 'e' {
                        app.start_edit_habit();
                    } else if c == 'd' {
                        app.delete_selected_habit();
                    } else if c == '[' {
                        app.move_habit_up();
                    } else if c == ']' {
                        app.move_habit_down();
                    }
                },
                Key::Esc => {
                    app.set_view(AppView::Main);
                },
                Key::Up => {
                    app.habit_mgmt_prev();
                },
                Key::Down => {
                    app.habit_mgmt_next();
                },
                _ => {},
            }
        },
        HabitMgmtMode::AddHabit => {
            match key {
                Key::Enter => {
                    app.save_new_habit();
                },
                Key::Esc => {
                    app.cancel_habit_input();
                },
                _ => {
                    handle_typing_keys(app, key);
                },
            }
        },
        HabitMgmtMode::EditHabit => {
            match key {
                Key::Enter => {
                    app.save_edited_habit();
                },
                Key::Esc => {
                    app.cancel_habit_input();
                },
                _ => {
                    handle_typing_keys(app, key);
                },
            }
        },
    }
}

/// Handle a key press in note editing.
pub fn handle_note_input_keys(app: &mut App, key: Key)
    requires
        old(app)@.wf(),
    ensures
        final(app)@ == note_input_key(old(app)@, key),
{
    match key {
        Key::Enter => {
            app.save_note_input();
        },
        Key::Esc => {
            app.cancel_note_input();
        },
        _ => {
            handle_typing_keys(app, key);
        },
    }
}

/// Handle a key press on the export confirmation: any key returns to the
/// main view.
pub fn handle_export_confirmation_keys(app: &mut App, _key: Key)
    ensures
        final(app)@ == old(app)@.set_view(AppView::Main),
{
    app.set_view(AppView::Main);
}

/// Handle a key press, where a jump to today leads to `today`.
pub fn handle_key_event_on(app: &mut App, key: Key, today: Date) -> (r: Effect)
    requires
        accepts_key(old(app)@, key),
    ensures
        final(app)@ == after_key(
            old(app)@,
            key,
            today@,
            final(app)@.storage.data.habits.last().id,
        ),
        r == key_effect(old(app)@, key),
        final(app)@.wf(),
{
    match app.view {
        AppView::Main => handle_main_view_keys(app, key, today),
        AppView::Stats => {
            handle_stats_view_keys(app, key);
            Effect::Nothing
        },
        AppView::Help => {
            handle_help_view_keys(app, key);
            Effect::Nothing
        },
        AppView::HabitManagement => {
            handle_habit_mgmt_keys(app, key);
            Effect::Nothing
        },
        AppView::NoteInput => {
            handle_note_input_keys(app, key);
            Effect::Nothing
        },
        AppView::ExportConfirmation => {
            handle_export_confirmation_keys(app, key);
            Effect::Nothing
        },
    }
}

/// Handle a key press; a jump to today goes by the local clock.
pub fn handle_key_event(app: &mut App, key: Key) -> (r: Effect)
    requires
        accepts_key(old(app)@, key),
    ensures
        exists|today: int|
            final(app)@ == after_key(
                old(app)@,
                key,
                today,
                final(app)@.storage.data.habits.last().id,
            ),
        r == key_effect(old(app)@, key),
        final(app)@.wf(),
{
    handle_key_event_on(app, key, Date::today())
}

/// Handle a key press that may come with the control key: control and `c`
/// quits at once, every other key is handled as without control.
pub fn handle_key_press(app: &mut App, key: Key, control: bool) -> (r: Effect)
    requires
        accepts_key(old(app)@, key),
    ensures
        is_interrupt(key, control) ==> final(app)@ == old(app)@.quit() && r == Effect::Nothing,
        !is_interrupt(key, control) ==> r == key_effect(old(app)@, key) && exists|today: int|
            final(app)@ == after_key(
                old(app)@,
                key,
                today,
                final(app)@.storage.data.habits.last().id,
            ),
        final(app)@.wf(),
{
    if control && key == Key::Char('c') {
        app.quit();
        Effect::Nothing
    } else {
        handle_key_event(app, key)
    }
}

} // verus!
