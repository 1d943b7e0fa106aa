use healing_habits::app::{
    day_symbol_of, App, AppView, HabitMgmtMode, SYMBOL_BLANK, SYMBOL_COMPLETE, SYMBOL_PARTIAL,
    SYMBOL_SKIPPED,
};
use healing_habits::input::{
    can_handle_key, handle_export_confirmation_keys, handle_habit_mgmt_keys, handle_help_view_keys,
    handle_key_event, handle_key_event_on, handle_key_press, handle_main_view_keys,
    handle_note_input_keys, handle_stats_view_keys, Effect, Key,
};
use healing_habits::models::date::{MAX_DAYS, MIN_DAYS};
use healing_habits::models::{Date, Frequency, HabitStatus, Week};
use healing_habits::storage::Storage;

use healing_habits::models::HabitStatus::{Done, Skipped, Unmarked};

fn ymd(year: i32, month: u32, day: u32) -> Date {
    Date::from_ymd_opt(year, month, day).unwrap()
}

/// A session that starts on Wednesday 2025-10-15 with the default habits.
fn session() -> App {
    App::with_today(Storage::new(), ymd(2025, 10, 15))
}

/// A session with three daily habits, on Monday 2025-10-13.
fn three_habits() -> (App, Vec<u128>) {
    let mut storage = Storage::new();
    let weekly = storage.data().habits[2].id;
    storage.delete_habit(weekly);
    storage.mark_saved();
    let ids = storage.data().habits.iter().map(|h| h.id).collect();
    (App::with_today(storage, ymd(2025, 10, 13)), ids)
}

fn ids(app: &App) -> Vec<u128> {
    app.habits().iter().map(|h| h.id).collect()
}

fn names(app: &App) -> Vec<String> {
    app.habits().iter().map(|h| h.name.clone()).collect()
}

fn type_text(app: &mut App, text: &str) {
    for c in text.chars() {
        app.input_char(c);
    }
}

#[test]
fn test_app_starts_on_today() {
    let app = session();
    assert_eq!(app.current_week, Week { start: ymd(2025, 10, 13) });
    assert_eq!(app.selected_day_idx, 2);
    assert_eq!(app.selected_date(), ymd(2025, 10, 15));
    assert_eq!(app.selected_habit_idx, 0);
    assert_eq!(app.view, AppView::Main);
    assert!(!app.should_quit);
    assert_eq!(app.input_buffer, "");
    assert_eq!(app.habit_mgmt_mode, HabitMgmtMode::List);
    assert_eq!(app.habit_mgmt_selected_idx, 0);
    assert_eq!(app.last_export_path, None);
    assert_eq!(app.staged_status, None);
    assert_eq!(app.habits().len(), 4);
    assert_eq!(app.selected_habit().unwrap().name, "Shower");
}

#[test]
fn test_app_new_uses_the_clock() {
    let app = App::new(Storage::new()).unwrap();
    let today = Date::today();
    assert_eq!(app.selected_date(), today);
    assert_eq!(app.current_week.start.weekday_from_monday(), 0);
    assert_eq!(app.selected_day_idx as u32, today.weekday_from_monday());
    assert_eq!(app.staged_status, None);
}

#[test]
fn test_habits_for_date_shows_every_habit() {
    let mut app = session();
    let id = app.storage.data().habits[0].id;
    app.storage.update_habit_frequency(id, Frequency::AsNeeded).unwrap();
    for offset in 0..7 {
        let shown = app.habits_for_date(ymd(2025, 10, 13).add_days(offset));
        let shown: Vec<&str> = shown.iter().map(|h| h.name.as_str()).collect();
        assert_eq!(shown, ["Shower", "Brush teeth", "Trim nails", "Meds"]);
    }
}

#[test]
fn test_toggle_stages_without_touching_the_store() {
    let mut app = session();
    let id = ids(&app)[0];
    let date = app.selected_date();

    app.toggle_habit_status();
    assert_eq!(app.staged_status, Some((id, date, Done)));
    assert_eq!(app.get_habit_status(id, date), Done);
    assert_eq!(app.storage.status(id, date), Unmarked);
    assert!(app.storage.get_log(id, date).is_none());
    assert!(app.storage.data().logs.is_empty());
    assert!(!app.storage.has_unsaved_changes());

    app.toggle_habit_status();
    assert_eq!(app.staged_status, Some((id, date, Skipped)));
    assert_eq!(app.get_habit_status(id, date), Skipped);
    app.toggle_habit_status();
    assert_eq!(app.get_habit_status(id, date), Unmarked);
    app.toggle_habit_status();
    assert_eq!(app.get_habit_status(id, date), Done);
    assert!(app.storage.data().logs.is_empty());
    assert!(!app.storage.has_unsaved_changes());
}

#[test]
fn test_staged_status_overrides_committed_for_its_pair_only() {
    let mut app = session();
    let all = ids(&app);
    let date = app.selected_date();
    app.storage.update_log_status(all[0], date, Skipped);
    app.storage.update_log_status(all[1], date, Done);
    app.storage.mark_saved();

    app.toggle_habit_status();
    // Staged and committed disagree: the staged one is seen.
    assert_eq!(app.staged_status, Some((all[0], date, Unmarked)));
    assert_eq!(app.get_habit_status(all[0], date), Unmarked);
    assert_eq!(app.storage.status(all[0], date), Skipped);
    // Another habit, and the same habit on another day, read the store.
    assert_eq!(app.get_habit_status(all[1], date), Done);
    app.storage.update_log_status(all[0], date.add_days(1), Done);
    assert_eq!(app.get_habit_status(all[0], date.add_days(1)), Done);
    assert_eq!(app.get_habit_status(all[3], date), Unmarked);
}

#[test]
fn test_staging_is_last_write_wins() {
    let mut app = session();
    let all = ids(&app);
    let date = app.selected_date();
    app.toggle_habit_status();
    app.selected_habit_idx = 1;
    app.toggle_habit_status();
    assert_eq!(app.staged_status, Some((all[1], date, Done)));
    assert_eq!(app.get_habit_status(all[0], date), Unmarked);
    app.commit_staged_status();
    assert_eq!(app.storage.status(all[0], date), Unmarked);
    assert_eq!(app.storage.status(all[1], date), Done);
    assert_eq!(app.storage.data().logs.len(), 1);
}

#[test]
fn test_toggle_without_a_habit_does_nothing() {
    let mut app = session();
    app.selected_habit_idx = 4;
    assert!(app.selected_habit().is_none());
    app.toggle_habit_status();
    assert_eq!(app.staged_status, None);
    assert_eq!(app.get_current_note(), None);
    app.update_current_note(Some("lost".to_string()));
    assert!(app.storage.data().logs.is_empty());
    assert!(!app.storage.has_unsaved_changes());
}

#[test]
fn test_commit_writes_and_clears() {
    let mut app = session();
    let id = ids(&app)[0];
    let date = app.selected_date();
    app.toggle_habit_status();
    app.commit_staged_status();
    assert_eq!(app.staged_status, None);
    assert_eq!(app.storage.status(id, date), Done);
    assert!(app.storage.has_unsaved_changes());
    assert_eq!(app.storage.data().logs.len(), 1);

    // A second commit performs no write and leaves the store unchanged.
    app.storage.mark_saved();
    let before = app.storage.data().logs.clone();
    app.commit_staged_status();
    assert!(!app.storage.has_unsaved_changes());
    assert_eq!(app.storage.data().logs, before);
    assert_eq!(app.staged_status, None);
}

#[test]
fn test_commit_with_nothing_staged_is_a_no_op() {
    let mut app = session();
    app.commit_staged_status();
    assert!(!app.storage.has_unsaved_changes());
    assert!(app.storage.data().logs.is_empty());
    assert_eq!(app.staged_status, None);
}

#[test]
fn test_commit_of_a_daily_habit_does_not_propagate() {
    let mut app = session();
    let id = ids(&app)[0];
    app.toggle_habit_status();
    app.commit_staged_status();
    assert_eq!(app.storage.data().logs.len(), 1);
    assert_eq!(app.storage.status(id, ymd(2025, 10, 13)), Unmarked);
    assert_eq!(app.storage.status(id, ymd(2025, 10, 14)), Unmarked);
}

#[test]
fn test_cancel_discards_the_staged_change() {
    let mut app = session();
    let id = ids(&app)[0];
    let date = app.selected_date();
    app.toggle_habit_status();
    app.cancel_staged_status();
    assert_eq!(app.staged_status, None);
    assert_eq!(app.get_habit_status(id, date), Unmarked);
    app.commit_staged_status();
    assert!(app.storage.data().logs.is_empty());
    assert!(!app.storage.has_unsaved_changes());
}

#[test]
fn test_weekly_propagation_on_commit() {
    let mut app = session();
    let weekly = ids(&app)[2];
    let monday = ymd(2025, 10, 13);
    app.selected_habit_idx = 2;
    app.toggle_habit_status();
    app.commit_staged_status();

    let week: Vec<HabitStatus> =
        (0..7).map(|i| app.storage.status(weekly, monday.add_days(i))).collect();
    assert_eq!(week, [Skipped, Skipped, Done, Unmarked, Unmarked, Unmarked, Unmarked]);
    assert_eq!(app.storage.status(weekly, monday.add_days(-1)), Unmarked);
    assert_eq!(app.storage.status(weekly, monday.add_days(7)), Unmarked);
    assert_eq!(app.storage.data().logs.len(), 3);

    // Committing Done on Wednesday again changes nothing.
    app.storage.mark_saved();
    let before = app.storage.data().logs.clone();
    app.staged_status = Some((weekly, monday.add_days(2), Done));
    app.commit_staged_status();
    assert_eq!(app.storage.data().logs, before);
    let week: Vec<HabitStatus> =
        (0..7).map(|i| app.storage.status(weekly, monday.add_days(i))).collect();
    assert_eq!(week, [Skipped, Skipped, Done, Unmarked, Unmarked, Unmarked, Unmarked]);
}

#[test]
fn test_weekly_propagation_does_not_overwrite() {
    let mut app = session();
    let weekly = ids(&app)[2];
    let monday = ymd(2025, 10, 13);
    app.storage.update_log_status(weekly, monday, Done);
    app.storage.update_log_note(weekly, monday.add_days(1), Some("busy".to_string()));
    app.selected_habit_idx = 2;
    app.toggle_habit_status();
    app.commit_staged_status();
    assert_eq!(app.storage.status(weekly, monday), Done);
    assert_eq!(app.storage.status(weekly, monday.add_days(1)), Skipped);
    assert_eq!(
        app.storage.get_log(weekly, monday.add_days(1)).unwrap().note,
        Some("busy".to_string())
    );
    assert_eq!(app.storage.status(weekly, monday.add_days(2)), Done);
}

#[test]
fn test_weekly_propagation_needs_done_and_weekly() {
    let mut app = session();
    let weekly = ids(&app)[2];
    let wednesday = ymd(2025, 10, 15);
    // Skipped on a weekly habit fills nothing.
    app.staged_status = Some((weekly, wednesday, Skipped));
    app.commit_staged_status();
    assert_eq!(app.storage.data().logs.len(), 1);
    // Nor does Unmarked.
    app.staged_status = Some((weekly, wednesday, Unmarked));
    app.commit_staged_status();
    assert_eq!(app.storage.data().logs.len(), 1);
    // A habit that is not in the registry gets its log and nothing more.
    let mut stranger = 0u128;
    while ids(&app).contains(&stranger) {
        stranger += 1;
    }
    app.staged_status = Some((stranger, wednesday, Done));
    app.commit_staged_status();
    assert_eq!(app.storage.data().logs.len(), 2);
    assert_eq!(app.storage.status(stranger, wednesday), Done);
    // Once the habit is weekly no more, Done fills nothing.
    app.storage.update_habit_frequency(weekly, Frequency::Daily).unwrap();
    app.staged_status = Some((weekly, wednesday, Done));
    app.commit_staged_status();
    assert_eq!(app.storage.data().logs.len(), 2);
    assert_eq!(app.storage.status(weekly, ymd(2025, 10, 13)), Unmarked);
}

#[test]
fn test_weekly_propagation_on_sunday_and_monday() {
    let mut app = session();
    let weekly = ids(&app)[2];
    let monday = ymd(2025, 10, 13);
    app.staged_status = Some((weekly, monday, Done));
    app.commit_staged_status();
    assert_eq!(app.storage.data().logs.len(), 1);
    assert_eq!(app.storage.status(weekly, monday.add_days(-1)), Unmarked);

    let next_monday = monday.add_days(7);
    app.storage.update_log_status(weekly, next_monday.add_days(3), Skipped);
    app.staged_status = Some((weekly, next_monday.add_days(6), Done));
    app.commit_staged_status();
    let week: Vec<HabitStatus> =
        (0..7).map(|i| app.storage.status(weekly, next_monday.add_days(i))).collect();
    assert_eq!(week, [Skipped, Skipped, Skipped, Skipped, Skipped, Skipped, Done]);
    assert_eq!(app.storage.status(weekly, monday), Done);
    assert_eq!(app.storage.status(weekly, monday.add_days(6)), Unmarked);
}

#[test]
fn test_day_navigation_commits_and_wraps() {
    let mut app = session();
    let id = ids(&app)[1];
    app.selected_habit_idx = 1;
    app.toggle_habit_status();
    app.next_day();
    assert_eq!(app.staged_status, None);
    assert_eq!(app.storage.status(id, ymd(2025, 10, 15)), Done);
    assert_eq!(app.selected_day_idx, 3);
    assert_eq!(app.selected_habit_idx, 0);

    for _ in 0..3 {
        app.next_day();
    }
    assert_eq!(app.selected_day_idx, 6);
    app.toggle_habit_status();
    app.next_day();
    assert_eq!(app.current_week.start, ymd(2025, 10, 20));
    assert_eq!(app.selected_day_idx, 0);
    assert_eq!(app.storage.status(ids(&app)[0], ymd(2025, 10, 19)), Done);

    app.toggle_habit_status();
    app.prev_day();
    assert_eq!(app.current_week.start, ymd(2025, 10, 13));
    assert_eq!(app.selected_day_idx, 6);
    assert_eq!(app.storage.status(ids(&app)[0], ymd(2025, 10, 20)), Done);
    app.prev_day();
    assert_eq!(app.selected_day_idx, 5);
    assert_eq!(app.selected_date(), ymd(2025, 10, 18));
}

#[test]
fn test_habit_navigation_commits_and_wraps() {
    let mut app = session();
    let all = ids(&app);
    let date = app.selected_date();
    app.toggle_habit_status();
    app.next_habit();
    assert_eq!(app.selected_habit_idx, 1);
    assert_eq!(app.storage.status(all[0], date), Done);
    app.next_habit();
    app.next_habit();
    assert_eq!(app.selected_habit_idx, 3);
    app.toggle_habit_status();
    app.next_habit();
    assert_eq!(app.selected_habit_idx, 0);
    assert_eq!(app.storage.status(all[3], date), Done);
    app.toggle_habit_status();
    app.prev_habit();
    assert_eq!(app.selected_habit_idx, 3);
    assert_eq!(app.storage.status(all[0], date), Skipped);
    app.prev_habit();
    assert_eq!(app.selected_habit_idx, 2);
}

#[test]
fn test_habit_navigation_without_habits() {
    let mut storage = Storage::new();
    for id in storage.data().habits.iter().map(|h| h.id).collect::<Vec<u128>>() {
        storage.delete_habit(id);
    }
    let mut app = App::with_today(storage, ymd(2025, 10, 15));
    app.next_habit();
    assert_eq!(app.selected_habit_idx, 0);
    app.prev_habit();
    assert_eq!(app.selected_habit_idx, 0);
    assert!(app.selected_habit().is_none());
    assert_eq!(app.day_status_on(2, ymd(2025, 10, 15)), ' ');
}

#[test]
fn test_week_navigation_commits() {
    let mut app = session();
    let id = ids(&app)[0];
    app.toggle_habit_status();
    app.next_week();
    assert_eq!(app.current_week.start, ymd(2025, 10, 20));
    assert_eq!(app.selected_day_idx, 2);
    assert_eq!(app.staged_status, None);
    assert_eq!(app.storage.status(id, ymd(2025, 10, 15)), Done);
    app.toggle_habit_status();
    app.prev_week();
    assert_eq!(app.current_week.start, ymd(2025, 10, 13));
    assert_eq!(app.storage.status(id, ymd(2025, 10, 22)), Done);
    app.prev_week();
    assert_eq!(app.current_week.start, ymd(2025, 10, 6));
}

#[test]
fn test_go_to_date_and_today() {
    let mut app = session();
    let id = ids(&app)[0];
    app.selected_habit_idx = 3;
    app.toggle_habit_status();
    app.go_to_date(ymd(2024, 2, 29));
    assert_eq!(app.current_week.start, ymd(2024, 2, 26));
    assert_eq!(app.selected_day_idx, 3);
    assert_eq!(app.selected_habit_idx, 3);
    assert_eq!(app.storage.status(ids(&app)[3], ymd(2025, 10, 15)), Done);
    assert_eq!(app.storage.status(id, ymd(2025, 10, 15)), Unmarked);

    app.go_to_today();
    assert_eq!(app.selected_date(), Date::today());

    // A week that cannot be shown leaves the session where it is.
    let first = Date::from_num_days_from_ce_opt(MIN_DAYS).unwrap();
    app.go_to_today_on(first);
    assert_eq!(app.selected_date(), Date::today());
    // The latest date is a Monday: its week runs past the calendar.
    let last = Date::from_num_days_from_ce_opt(MAX_DAYS).unwrap();
    assert_eq!(last.weekday_from_monday(), 0);
    app.toggle_habit_status();
    app.go_to_today_on(last);
    assert_eq!(app.selected_date(), Date::today());
    assert!(app.staged_status.is_some());
    app.go_to_today_on(last.add_days(-1));
    assert_eq!(app.selected_date(), last.add_days(-1));
    assert_eq!(app.current_week.start, last.add_days(-7));
    assert_eq!(app.selected_day_idx, 6);
    assert_eq!(app.staged_status, None);
}

#[test]
fn test_notes_bypass_staging() {
    let mut app = session();
    let id = ids(&app)[0];
    let date = app.selected_date();
    app.toggle_habit_status();
    app.update_current_note(Some("a note".to_string()));
    assert_eq!(app.get_current_note(), Some("a note".to_string()));
    assert!(app.storage.has_unsaved_changes());
    assert_eq!(app.storage.status(id, date), Unmarked);
    assert_eq!(app.staged_status, Some((id, date, Done)));
    app.update_current_note(None);
    assert_eq!(app.get_current_note(), None);
    assert_eq!(app.storage.data().logs.len(), 1);
}

#[test]
fn test_note_input() {
    let mut app = session();
    let id = ids(&app)[0];
    let date = app.selected_date();
    app.toggle_habit_status();
    app.start_note_input();
    assert_eq!(app.view, AppView::NoteInput);
    assert_eq!(app.input_buffer, "");
    // Leaving the main view committed the staged change.
    assert_eq!(app.staged_status, None);
    assert_eq!(app.storage.status(id, date), Done);

    type_text(&mut app, "  slept badly \t");
    app.input_char('!');
    app.input_backspace();
    app.save_note_input();
    assert_eq!(app.view, AppView::Main);
    assert_eq!(app.input_buffer, "");
    assert_eq!(app.get_current_note(), Some("slept badly".to_string()));

    app.start_note_input();
    assert_eq!(app.input_buffer, "slept badly");
    type_text(&mut app, " again");
    app.cancel_note_input();
    assert_eq!(app.view, AppView::Main);
    assert_eq!(app.input_buffer, "");
    assert_eq!(app.get_current_note(), Some("slept badly".to_string()));

    // A blank note removes the note.
    app.start_note_input();
    for _ in 0.."slept badly".len() {
        app.input_backspace();
    }
    app.input_backspace();
    assert_eq!(app.input_buffer, "");
    type_text(&mut app, " \n ");
    app.save_note_input();
    assert_eq!(app.get_current_note(), None);
    assert_eq!(app.storage.get_log(id, date).unwrap().status, Done);
}

#[test]
fn test_day_symbol_scenarios() {
    let (mut app, ids) = three_habits();
    let monday = ymd(2025, 10, 13);
    let today = monday;
    assert_eq!(ids.len(), 3);

    // All unmarked.
    assert_eq!(app.day_status_on(0, today), ' ');

    // One done, two unmarked.
    app.storage.update_log_status(ids[0], monday, Done);
    assert_eq!(app.day_status_on(0, today), '~');

    // One skipped, the rest done.
    app.storage.update_log_status(ids[1], monday, Skipped);
    app.storage.update_log_status(ids[2], monday, Done);
    assert_eq!(app.day_status_on(0, today), '\u{2717}');

    // All done.
    app.storage.update_log_status(ids[1], monday, Done);
    assert_eq!(app.day_status_on(0, today), '\u{2713}');

    // A future date is blank whatever the statuses.
    assert_eq!(app.day_status_on(0, monday.add_days(-1)), ' ');
    app.storage.update_log_status(ids[0], monday.add_days(1), Skipped);
    assert_eq!(app.day_status_on(1, today), ' ');
    assert_eq!(app.day_status_on(1, monday.add_days(1)), '\u{2717}');
    assert_eq!(app.day_status_on(1, monday.add_days(2)), '\u{2717}');
}

#[test]
fn test_day_symbol_sees_the_staged_change() {
    let (mut app, ids) = three_habits();
    let monday = ymd(2025, 10, 13);
    app.storage.update_log_status(ids[1], monday, Done);
    app.storage.update_log_status(ids[2], monday, Done);
    assert_eq!(app.day_status_on(0, monday), '~');
    app.toggle_habit_status();
    assert_eq!(app.day_status_on(0, monday), '\u{2713}');
    app.toggle_habit_status();
    assert_eq!(app.day_status_on(0, monday), '\u{2717}');
    app.cancel_staged_status();
    assert_eq!(app.day_status_on(0, monday), '~');
    // By the clock, a day of 2025 is not in the future.
    assert_eq!(app.get_day_status(0), '~');
}

#[test]
fn test_day_symbol_of() {
    assert_eq!(day_symbol_of(&vec![], false), SYMBOL_BLANK);
    assert_eq!(day_symbol_of(&vec![], true), SYMBOL_BLANK);
    assert_eq!(day_symbol_of(&vec![Done, Done, Done], false), SYMBOL_COMPLETE);
    assert_eq!(day_symbol_of(&vec![Done, Done, Done], true), SYMBOL_BLANK);
    assert_eq!(day_symbol_of(&vec![Done, Skipped, Done], false), SYMBOL_SKIPPED);
    assert_eq!(day_symbol_of(&vec![Skipped, Unmarked, Unmarked], false), SYMBOL_SKIPPED);
    assert_eq!(day_symbol_of(&vec![Skipped], false), SYMBOL_SKIPPED);
    assert_eq!(day_symbol_of(&vec![Skipped], true), SYMBOL_BLANK);
    assert_eq!(day_symbol_of(&vec![Done, Unmarked, Unmarked], false), SYMBOL_PARTIAL);
    assert_eq!(day_symbol_of(&vec![Unmarked, Unmarked, Unmarked], false), SYMBOL_BLANK);
    assert_eq!(day_symbol_of(&vec![Unmarked], false), SYMBOL_BLANK);
    assert_eq!(day_symbol_of(&vec![Done], false), SYMBOL_COMPLETE);
    assert_eq!(SYMBOL_COMPLETE, '\u{2713}');
    assert_eq!(SYMBOL_SKIPPED, '\u{2717}');
    assert_eq!(SYMBOL_PARTIAL, '~');
    assert_eq!(SYMBOL_BLANK, ' ');
}

#[test]
fn test_week_counts() {
    let mut app = session();
    let id = ids(&app)[0];
    let monday = ymd(2025, 10, 13);
    assert_eq!(app.week_counts(id), (0, 0, 7));
    app.storage.update_log_status(id, monday, Done);
    app.storage.update_log_status(id, monday.add_days(1), Skipped);
    app.storage.update_log_status(id, monday.add_days(6), Done);
    app.storage.update_log_status(id, monday.add_days(7), Done);
    assert_eq!(app.week_counts(id), (2, 1, 4));
    // The staged change counts.
    app.toggle_habit_status();
    assert_eq!(app.week_counts(id), (3, 1, 3));
    assert_eq!(app.week_counts(ids(&app)[1]), (0, 0, 7));
}

#[test]
fn test_set_view_commits_when_leaving_main() {
    let mut app = session();
    let id = ids(&app)[0];
    let date = app.selected_date();
    app.toggle_habit_status();
    app.set_view(AppView::Main);
    assert!(app.staged_status.is_some());
    app.set_view(AppView::Stats);
    assert_eq!(app.view, AppView::Stats);
    assert_eq!(app.staged_status, None);
    assert_eq!(app.storage.status(id, date), Done);
    app.staged_status = Some((id, date, Skipped));
    app.set_view(AppView::Main);
    assert_eq!(app.staged_status, Some((id, date, Skipped)));
    assert_eq!(app.storage.status(id, date), Done);
    app.quit();
    assert!(app.should_quit);
    assert_eq!(app.staged_status, Some((id, date, Skipped)));
}

#[test]
fn test_add_habit_flow() {
    let mut app = session();
    app.toggle_habit_status();
    app.enter_habit_management();
    assert_eq!(app.view, AppView::HabitManagement);
    assert_eq!(app.staged_status, None);
    assert_eq!(app.storage.data().logs.len(), 1);
    app.storage.mark_saved();

    app.start_add_habit();
    assert_eq!(app.habit_mgmt_mode, HabitMgmtMode::AddHabit);
    type_text(&mut app, "   ");
    app.save_new_habit();
    assert_eq!(app.habit_mgmt_mode, HabitMgmtMode::List);
    assert_eq!(app.habits().len(), 4);
    assert!(!app.storage.has_unsaved_changes());
    assert_eq!(app.input_buffer, "");

    app.start_add_habit();
    type_text(&mut app, "  Read a book ");
    app.save_new_habit();
    assert_eq!(names(&app), ["Shower", "Brush teeth", "Trim nails", "Meds", "Read a book"]);
    assert_eq!(app.habits()[4].order, 4);
    assert_eq!(app.habits()[4].frequency, Frequency::Daily);
    assert!(app.storage.has_unsaved_changes());
    assert_eq!(app.input_buffer, "");

    app.start_add_habit();
    type_text(&mut app, "Nope");
    app.cancel_habit_input();
    assert_eq!(app.habits().len(), 5);
    assert_eq!(app.input_buffer, "");
    assert_eq!(app.habit_mgmt_mode, HabitMgmtMode::List);
}

#[test]
fn test_edit_habit_flow() {
    let mut app = session();
    app.enter_habit_management();
    app.habit_mgmt_next();
    app.start_edit_habit();
    assert_eq!(app.habit_mgmt_mode, HabitMgmtMode::EditHabit);
    assert_eq!(app.input_buffer, "Brush teeth");
    type_text(&mut app, " well ");
    app.save_edited_habit();
    assert_eq!(names(&app), ["Shower", "Brush teeth well", "Trim nails", "Meds"]);
    assert_eq!(app.habit_mgmt_mode, HabitMgmtMode::List);
    assert_eq!(app.input_buffer, "");

    // A blank name renames nothing.
    app.storage.mark_saved();
    app.start_edit_habit();
    for _ in 0..40 {
        app.input_backspace();
    }
    app.save_edited_habit();
    assert_eq!(names(&app), ["Shower", "Brush teeth well", "Trim nails", "Meds"]);
    assert!(!app.storage.has_unsaved_changes());

    // No habit under the index: nothing to edit.
    app.habit_mgmt_selected_idx = 9;
    assert!(app.managed_habit().is_none());
    app.start_edit_habit();
    assert_eq!(app.habit_mgmt_mode, HabitMgmtMode::List);
    app.save_edited_habit();
    app.cycle_habit_frequency();
    app.delete_selected_habit();
    app.move_habit_up();
    app.move_habit_down();
    assert_eq!(names(&app), ["Shower", "Brush teeth well", "Trim nails", "Meds"]);
    assert!(!app.storage.has_unsaved_changes());
}

#[test]
fn test_management_selection_stays_on_the_list() {
    let mut app = session();
    app.enter_habit_management();
    app.habit_mgmt_prev();
    assert_eq!(app.habit_mgmt_selected_idx, 0);
    for _ in 0..10 {
        app.habit_mgmt_next();
    }
    assert_eq!(app.habit_mgmt_selected_idx, 3);
    app.habit_mgmt_prev();
    assert_eq!(app.habit_mgmt_selected_idx, 2);
}

#[test]
fn test_delete_selected_habit() {
    let mut app = session();
    let all = ids(&app);
    app.storage.update_log_status(all[3], ymd(2025, 10, 15), Done);
    app.storage.update_log_status(all[0], ymd(2025, 10, 15), Done);
    app.enter_habit_management();
    app.habit_mgmt_selected_idx = 3;
    app.delete_selected_habit();
    assert_eq!(names(&app), ["Shower", "Brush teeth", "Trim nails"]);
    assert_eq!(app.habit_mgmt_selected_idx, 2);
    assert_eq!(app.storage.data().logs.len(), 1);
    assert_eq!(app.storage.data().logs[0].habit_id, all[0]);
    app.habit_mgmt_selected_idx = 0;
    app.delete_selected_habit();
    assert_eq!(names(&app), ["Brush teeth", "Trim nails"]);
    assert_eq!(app.habit_mgmt_selected_idx, 0);
    assert!(app.storage.data().logs.is_empty());
    app.delete_selected_habit();
    app.delete_selected_habit();
    assert!(app.habits().is_empty());
    assert_eq!(app.habit_mgmt_selected_idx, 0);
    app.delete_selected_habit();
    assert!(app.habits().is_empty());
}

#[test]
fn test_move_habit_up_and_down() {
    let mut app = session();
    app.enter_habit_management();
    app.move_habit_up();
    assert_eq!(names(&app), ["Shower", "Brush teeth", "Trim nails", "Meds"]);
    assert!(!app.storage.has_unsaved_changes());
    app.move_habit_down();
    assert_eq!(names(&app), ["Brush teeth", "Shower", "Trim nails", "Meds"]);
    assert_eq!(app.habit_mgmt_selected_idx, 1);
    app.move_habit_down();
    app.move_habit_down();
    assert_eq!(names(&app), ["Brush teeth", "Trim nails", "Meds", "Shower"]);
    assert_eq!(app.habit_mgmt_selected_idx, 3);
    app.storage.mark_saved();
    app.move_habit_down();
    assert_eq!(app.habit_mgmt_selected_idx, 3);
    assert!(!app.storage.has_unsaved_changes());
    app.move_habit_up();
    assert_eq!(names(&app), ["Brush teeth", "Trim nails", "Shower", "Meds"]);
    assert_eq!(app.habit_mgmt_selected_idx, 2);
    let orders: Vec<usize> = app.habits().iter().map(|h| h.order).collect();
    assert_eq!(orders, [0, 1, 2, 3]);
}

#[test]
fn test_cycle_habit_frequency() {
    let mut app = session();
    app.enter_habit_management();
    app.habit_mgmt_selected_idx = 2;
    app.cycle_habit_frequency();
    assert_eq!(app.habits()[2].frequency, Frequency::AsNeeded);
    app.cycle_habit_frequency();
    assert_eq!(app.habits()[2].frequency, Frequency::Daily);
    app.cycle_habit_frequency();
    assert_eq!(app.habits()[2].frequency, Frequency::Weekly);
    assert_eq!(app.habits()[1].frequency, Frequency::Daily);
    assert!(app.storage.has_unsaved_changes());
}

#[test]
fn test_confirm_export() {
    let mut app = session();
    let id = ids(&app)[0];
    app.toggle_habit_status();
    app.confirm_export("/tmp/report.md".to_string());
    assert_eq!(app.view, AppView::ExportConfirmation);
    assert_eq!(app.last_export_path, Some("/tmp/report.md".to_string()));
    assert_eq!(app.staged_status, None);
    assert_eq!(app.storage.status(id, ymd(2025, 10, 15)), Done);
}

#[test]
fn test_main_view_keys() {
    let today = ymd(2025, 10, 15);
    let mut app = session();
    let id = ids(&app)[0];
    assert_eq!(handle_main_view_keys(&mut app, Key::Enter, today), Effect::Nothing);
    assert_eq!(app.staged_status, Some((id, today, Done)));
    handle_main_view_keys(&mut app, Key::Right, today);
    assert_eq!(app.selected_day_idx, 3);
    assert_eq!(app.storage.status(id, today), Done);
    handle_main_view_keys(&mut app, Key::Left, today);
    handle_main_view_keys(&mut app, Key::Left, today);
    assert_eq!(app.selected_day_idx, 1);
    handle_main_view_keys(&mut app, Key::Down, today);
    assert_eq!(app.selected_habit_idx, 1);
    handle_main_view_keys(&mut app, Key::Up, today);
    handle_main_view_keys(&mut app, Key::Up, today);
    assert_eq!(app.selected_habit_idx, 3);
    handle_main_view_keys(&mut app, Key::Char(']'), today);
    assert_eq!(app.current_week.start, ymd(2025, 10, 20));
    handle_main_view_keys(&mut app, Key::Char('['), today);
    handle_main_view_keys(&mut app, Key::Char('['), today);
    assert_eq!(app.current_week.start, ymd(2025, 10, 6));
    handle_main_view_keys(&mut app, Key::Char('t'), today);
    assert_eq!(app.selected_date(), today);
    handle_main_view_keys(&mut app, Key::Char('['), today);
    handle_main_view_keys(&mut app, Key::Char('w'), today.add_days(1));
    assert_eq!(app.selected_date(), today.add_days(1));

    for key in [Key::Esc, Key::Backspace, Key::Other, Key::Char(' '), Key::Char('f')] {
        assert_eq!(handle_main_view_keys(&mut app, key, today), Effect::Nothing);
        assert_eq!(app.view, AppView::Main);
        assert_eq!(app.selected_date(), today.add_days(1));
        assert_eq!(app.staged_status, None);
    }
    assert_eq!(handle_main_view_keys(&mut app, Key::Char('x'), today), Effect::ExportWeek);
    assert_eq!(app.view, AppView::Main);
    assert_eq!(app.last_export_path, None);

    handle_main_view_keys(&mut app, Key::Char('v'), today);
    assert_eq!(app.view, AppView::Stats);
    app.view = AppView::Main;
    handle_main_view_keys(&mut app, Key::Char('?'), today);
    assert_eq!(app.view, AppView::Help);
    app.view = AppView::Main;
    handle_main_view_keys(&mut app, Key::Char('h'), today);
    assert_eq!(app.view, AppView::HabitManagement);
    app.view = AppView::Main;
    handle_main_view_keys(&mut app, Key::Char('n'), today);
    assert_eq!(app.view, AppView::NoteInput);
    app.view = AppView::Main;
    handle_main_view_keys(&mut app, Key::Char('q'), today);
    assert!(app.should_quit);
}

#[test]
fn test_other_view_keys() {
    let mut app = session();
    app.view = AppView::Stats;
    handle_stats_view_keys(&mut app, Key::Enter);
    assert_eq!(app.view, AppView::Stats);
    handle_stats_view_keys(&mut app, Key::Char('x'));
    assert_eq!(app.view, AppView::Stats);
    handle_stats_view_keys(&mut app, Key::Char('q'));
    assert_eq!(app.view, AppView::Main);
    assert!(!app.should_quit);
    app.view = AppView::Stats;
    handle_stats_view_keys(&mut app, Key::Esc);
    assert_eq!(app.view, AppView::Main);

    app.view = AppView::Help;
    handle_help_view_keys(&mut app, Key::Left);
    assert_eq!(app.view, AppView::Help);
    handle_help_view_keys(&mut app, Key::Esc);
    assert_eq!(app.view, AppView::Main);
    app.view = AppView::Help;
    handle_help_view_keys(&mut app, Key::Char('q'));
    assert_eq!(app.view, AppView::Main);

    app.view = AppView::ExportConfirmation;
    handle_export_confirmation_keys(&mut app, Key::Other);
    assert_eq!(app.view, AppView::Main);
}

#[test]
fn test_habit_mgmt_keys() {
    let mut app = session();
    app.enter_habit_management();
    handle_habit_mgmt_keys(&mut app, Key::Down);
    assert_eq!(app.habit_mgmt_selected_idx, 1);
    handle_habit_mgmt_keys(&mut app, Key::Up);
    assert_eq!(app.habit_mgmt_selected_idx, 0);
    handle_habit_mgmt_keys(&mut app, Key::Char(']'));
    assert_eq!(names(&app), ["Brush teeth", "Shower", "Trim nails", "Meds"]);
    handle_habit_mgmt_keys(&mut app, Key::Char('['));
    assert_eq!(names(&app), ["Shower", "Brush teeth", "Trim nails", "Meds"]);
    handle_habit_mgmt_keys(&mut app, Key::Char('d'));
    assert_eq!(names(&app), ["Brush teeth", "Trim nails", "Meds"]);

    handle_habit_mgmt_keys(&mut app, Key::Char('a'));
    assert_eq!(app.habit_mgmt_mode, HabitMgmtMode::AddHabit);
    for c in "Runq".chars() {
        handle_habit_mgmt_keys(&mut app, Key::Char(c));
    }
    handle_habit_mgmt_keys(&mut app, Key::Backspace);
    handle_habit_mgmt_keys(&mut app, Key::Left);
    assert_eq!(app.input_buffer, "Run");
    handle_habit_mgmt_keys(&mut app, Key::Enter);
    assert_eq!(names(&app), ["Brush teeth", "Trim nails", "Meds", "Run"]);
    assert_eq!(app.habit_mgmt_mode, HabitMgmtMode::List);
    handle_habit_mgmt_keys(&mut app, Key::Char('a'));
    handle_habit_mgmt_keys(&mut app, Key::Char('z'));
    handle_habit_mgmt_keys(&mut app, Key::Esc);
    assert_eq!(app.habit_mgmt_mode, HabitMgmtMode::List);
    assert_eq!(app.view, AppView::HabitManagement);
    assert_eq!(app.habits().len(), 4);

    handle_habit_mgmt_keys(&mut app, Key::Char('e'));
    assert_eq!(app.habit_mgmt_mode, HabitMgmtMode::EditHabit);
    assert_eq!(app.input_buffer, "Brush teeth");
    handle_habit_mgmt_keys(&mut app, Key::Char('!'));
    handle_habit_mgmt_keys(&mut app, Key::Enter);
    assert_eq!(names(&app), ["Brush teeth!", "Trim nails", "Meds", "Run"]);
    handle_habit_mgmt_keys(&mut app, Key::Char('e'));
    handle_habit_mgmt_keys(&mut app, Key::Esc);
    assert_eq!(app.habit_mgmt_mode, HabitMgmtMode::List);
    assert_eq!(app.input_buffer, "");

    // Enter and other keys do nothing on the list.
    handle_habit_mgmt_keys(&mut app, Key::Enter);
    handle_habit_mgmt_keys(&mut app, Key::Char('f'));
    assert_eq!(app.habits()[0].frequency, Frequency::Daily);
    handle_habit_mgmt_keys(&mut app, Key::Char('q'));
    assert_eq!(app.view, AppView::Main);
    app.view = AppView::HabitManagement;
    handle_habit_mgmt_keys(&mut app, Key::Esc);
    assert_eq!(app.view, AppView::Main);
}

#[test]
fn test_note_input_keys() {
    let mut app = session();
    app.start_note_input();
    for c in "ok q".chars() {
        handle_note_input_keys(&mut app, Key::Char(c));
    }
    handle_note_input_keys(&mut app, Key::Backspace);
    handle_note_input_keys(&mut app, Key::Up);
    assert_eq!(app.input_buffer, "ok ");
    handle_note_input_keys(&mut app, Key::Enter);
    assert_eq!(app.view, AppView::Main);
    assert_eq!(app.get_current_note(), Some("ok".to_string()));
    app.start_note_input();
    handle_note_input_keys(&mut app, Key::Char('x'));
    handle_note_input_keys(&mut app, Key::Esc);
    assert_eq!(app.view, AppView::Main);
    assert_eq!(app.get_current_note(), Some("ok".to_string()));
}

#[test]
fn test_key_events_go_by_the_view() {
    let today = ymd(2025, 10, 15);
    let mut app = session();
    assert_eq!(handle_key_event_on(&mut app, Key::Char('x'), today), Effect::ExportWeek);
    assert_eq!(handle_key_event_on(&mut app, Key::Char('h'), today), Effect::Nothing);
    assert_eq!(app.view, AppView::HabitManagement);
    // `x` asks for an export on the main view only.
    assert_eq!(handle_key_event_on(&mut app, Key::Char('x'), today), Effect::Nothing);
    handle_key_event_on(&mut app, Key::Char('a'), today);
    handle_key_event_on(&mut app, Key::Char('q'), today);
    assert_eq!(app.input_buffer, "q");
    assert!(!app.should_quit);
    handle_key_event_on(&mut app, Key::Enter, today);
    assert_eq!(app.habits().len(), 5);
    handle_key_event_on(&mut app, Key::Esc, today);
    assert_eq!(app.view, AppView::Main);
    handle_key_event_on(&mut app, Key::Char('n'), today);
    handle_key_event_on(&mut app, Key::Char('v'), today);
    assert_eq!(app.view, AppView::NoteInput);
    handle_key_event_on(&mut app, Key::Enter, today);
    assert_eq!(app.get_current_note(), Some("v".to_string()));
    handle_key_event_on(&mut app, Key::Char('v'), today);
    assert_eq!(app.view, AppView::Stats);
    handle_key_event_on(&mut app, Key::Char('q'), today);
    assert_eq!(app.view, AppView::Main);
    handle_key_event_on(&mut app, Key::Char('?'), today);
    assert_eq!(app.view, AppView::Help);
    handle_key_event_on(&mut app, Key::Esc, today);
    app.confirm_export("p".to_string());
    handle_key_event_on(&mut app, Key::Char('q'), today);
    assert_eq!(app.view, AppView::Main);
    assert!(!app.should_quit);
    assert_eq!(handle_key_event(&mut app, Key::Char('t')), Effect::Nothing);
    assert_eq!(app.selected_date(), Date::today());
    assert_eq!(handle_key_event(&mut app, Key::Char('q')), Effect::Nothing);
    assert!(app.should_quit);
}

#[test]
fn test_control_c_quits_anywhere() {
    for view in [AppView::Main, AppView::NoteInput, AppView::HabitManagement, AppView::Help] {
        let mut app = session();
        app.view = view;
        app.habit_mgmt_mode = HabitMgmtMode::AddHabit;
        assert_eq!(handle_key_press(&mut app, Key::Char('c'), true), Effect::Nothing);
        assert!(app.should_quit);
        assert_eq!(app.input_buffer, "");
        assert_eq!(app.view, view);
    }
    let mut app = session();
    app.view = AppView::NoteInput;
    handle_key_press(&mut app, Key::Char('c'), false);
    assert_eq!(app.input_buffer, "c");
    handle_key_press(&mut app, Key::Char('x'), true);
    assert_eq!(app.input_buffer, "cx");
    assert!(!app.should_quit);
    app.view = AppView::Main;
    assert_eq!(handle_key_press(&mut app, Key::Char('x'), false), Effect::ExportWeek);
}

#[test]
fn test_can_handle_key() {
    let mut app = session();
    for key in [Key::Left, Key::Right, Key::Char('['), Key::Char(']'), Key::Enter, Key::Other] {
        assert!(can_handle_key(&app, key));
    }
    app.selected_day_idx = 7;
    assert!(!can_handle_key(&app, Key::Enter));
    app.selected_day_idx = 0;

    // The first whole week of the calendar: no week before it.
    let first_monday = Date::from_num_days_from_ce_opt(MIN_DAYS).unwrap().add_days(4);
    app.current_week = Week { start: first_monday };
    assert!(!can_handle_key(&app, Key::Left));
    assert!(!can_handle_key(&app, Key::Char('[')));
    assert!(can_handle_key(&app, Key::Right));
    assert!(can_handle_key(&app, Key::Char(']')));
    app.selected_day_idx = 1;
    assert!(can_handle_key(&app, Key::Left));
    app.view = AppView::Stats;
    assert!(can_handle_key(&app, Key::Char('[')));
    app.view = AppView::Main;

    // The last whole week of the calendar: no week after it.
    let last_monday = Date::from_num_days_from_ce_opt(MAX_DAYS).unwrap().add_days(-7);
    assert_eq!(last_monday.weekday_from_monday(), 0);
    app.current_week = Week { start: last_monday };
    app.selected_day_idx = 6;
    assert!(!can_handle_key(&app, Key::Right));
    assert!(!can_handle_key(&app, Key::Char(']')));
    assert!(can_handle_key(&app, Key::Left));
    app.selected_day_idx = 5;
    assert!(can_handle_key(&app, Key::Right));
    // A week that runs past the end of the calendar is not well-formed.
    app.current_week = Week { start: last_monday.add_days(7) };
    assert!(!can_handle_key(&app, Key::Enter));
}
