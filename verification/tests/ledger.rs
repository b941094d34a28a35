use water_reminder::models::{
    AppState, DailyStats, IntakeError, Recorded, UserSettings, WaterRecord,
};

fn day(date: i32, total: u32, goal: u32) -> DailyStats {
    let records = if total == 0 {
        Vec::new()
    } else {
        vec![WaterRecord { id: 1, amount: total, timestamp: 0 }]
    };
    DailyStats { date, total_amount: total, goal_amount: goal, records, goal_achieved: total >= goal }
}

fn ledger_with_history(history: Vec<DailyStats>) -> AppState {
    let mut state = AppState::for_day(1000);
    state.weekly_stats = history;
    state
}

#[test]
fn test_app_state_creation() {
    let state = AppState::new();
    assert_eq!(state.settings.daily_goal, 2000);
    assert_eq!(state.today_stats.total_amount, 0);
    assert_eq!(state.today_stats.records.len(), 0);
}

#[test]
fn test_add_water_record() {
    let mut state = AppState::new();
    state.add_water_record(250).unwrap();

    assert_eq!(state.today_stats.total_amount, 250);
    assert_eq!(state.today_stats.records.len(), 1);
    assert_eq!(state.today_stats.records[0].amount, 250);
}

#[test]
fn test_undo_last_record() {
    let mut state = AppState::new();
    state.add_water_record(250).unwrap();
    state.add_water_record(300).unwrap();

    assert_eq!(state.today_stats.total_amount, 550);

    let undone = state.undo_last_record();
    assert!(undone);
    assert_eq!(state.today_stats.total_amount, 250);
    assert_eq!(state.today_stats.records.len(), 1);
}

#[test]
fn test_progress_percentage() {
    let mut state = AppState::new();
    state.add_water_record(1000).unwrap(); // 50% of 2000ml goal

    let progress = state.get_progress_percentage();
    assert_eq!(progress as f32, 50.0);
}

#[test]
fn test_goal_achievement() {
    let mut state = AppState::new();
    state.add_water_record(2000).unwrap(); // Exactly meet the goal

    assert!(state.today_stats.goal_achieved);

    state.add_water_record(500).unwrap(); // Exceed the goal
    assert!(state.today_stats.goal_achieved);
}

#[test]
fn new_ledger_starts_today_with_defaults() {
    let before = chrono::Datelike::num_days_from_ce(&chrono::Local::now().date_naive());
    let state = AppState::new();
    let after = chrono::Datelike::num_days_from_ce(&chrono::Local::now().date_naive());
    assert!(before <= state.today_stats.date && state.today_stats.date <= after);
    assert_eq!(state.today_stats.goal_amount, 2000);
    assert!(!state.today_stats.goal_achieved);
    assert!(state.weekly_stats.is_empty());
    assert_eq!(state.last_record_id, 0);
}

#[test]
fn default_settings() {
    let settings = UserSettings::default();
    assert_eq!(settings.daily_goal, 2000);
    assert_eq!(settings.reminder_interval, 15);
    assert!(settings.reminder_enabled);
    assert_eq!(settings.start_time, "07:00");
    assert_eq!(settings.end_time, "22:00");
}

#[test]
fn for_day_keeps_the_date() {
    let state = AppState::for_day(739_000);
    assert_eq!(state.today_stats.date, 739_000);
    assert_eq!(state.today_stats.total_amount, 0);
    assert_eq!(state.today_stats.goal_amount, 2000);
}

#[test]
fn add_stamps_the_record_with_the_clock() {
    let before = chrono::Local::now().timestamp_millis();
    let mut state = AppState::for_day(1);
    state.add_water_record(100).unwrap();
    let after = chrono::Local::now().timestamp_millis();
    let stamp = state.today_stats.records[0].timestamp;
    assert!(before <= stamp && stamp <= after);
}

#[test]
fn totals_follow_every_add() {
    let mut state = AppState::for_day(1);
    let amounts = [250u32, 300, 500, 150, 800, 1, 999];
    let mut sum = 0u32;
    for (i, amount) in amounts.iter().enumerate() {
        let was = state.today_stats.goal_achieved;
        let recorded = state.add_record_at(*amount, i as i64).unwrap();
        let crossed = recorded.crossed_goal;
        assert_eq!(recorded.id, i as u64 + 1);
        sum += amount;
        assert_eq!(state.today_stats.total_amount, sum);
        assert_eq!(state.today_stats.goal_achieved, sum >= 2000);
        assert_eq!(crossed, !was && sum >= 2000);
        assert_eq!(state.today_stats.records.len(), i + 1);
        assert_eq!(
            state.today_stats.records[i],
            WaterRecord { id: i as u64 + 1, amount: *amount, timestamp: i as i64 }
        );
        assert_eq!(state.last_record_id, i as u64 + 1);
    }
    assert_eq!(sum, 3000);
}

#[test]
fn goal_crossing_is_reported_once() {
    let mut state = AppState::for_day(1);
    assert_eq!(state.add_record_at(1000, 0), Ok(Recorded { id: 1, crossed_goal: false }));
    assert_eq!(state.get_progress_percentage(), 50);
    assert!(!state.today_stats.goal_achieved);
    assert_eq!(state.add_record_at(1000, 1), Ok(Recorded { id: 2, crossed_goal: true }));
    assert_eq!(state.today_stats.total_amount, 2000);
    assert!(state.today_stats.goal_achieved);
    assert_eq!(state.add_record_at(500, 2), Ok(Recorded { id: 3, crossed_goal: false }));
    assert_eq!(state.today_stats.total_amount, 2500);
    assert!(state.today_stats.goal_achieved);
}

#[test]
fn zero_amount_is_refused() {
    let mut state = AppState::for_day(1);
    state.add_record_at(300, 0).unwrap();
    assert_eq!(state.add_record_at(0, 1), Err(IntakeError::ZeroAmount));
    assert_eq!(state.add_water_record(0), Err(IntakeError::ZeroAmount));
    assert_eq!(state.today_stats.total_amount, 300);
    assert_eq!(state.today_stats.records.len(), 1);
    assert_eq!(state.last_record_id, 1);
}

#[test]
fn total_overflow_is_refused() {
    let mut state = AppState::for_day(1);
    state.add_record_at(u32::MAX - 10, 0).unwrap();
    assert_eq!(state.add_record_at(11, 1), Err(IntakeError::TotalOverflow));
    assert_eq!(state.today_stats.total_amount, u32::MAX - 10);
    assert_eq!(state.today_stats.records.len(), 1);
    assert_eq!(state.add_record_at(10, 1), Ok(Recorded { id: 2, crossed_goal: false }));
    assert_eq!(state.today_stats.total_amount, u32::MAX);
}

#[test]
fn exhausted_ids_are_refused() {
    let mut state = AppState::for_day(1);
    state.last_record_id = u64::MAX;
    assert_eq!(state.add_record_at(5, 0), Err(IntakeError::IdsExhausted));
    assert_eq!(state.today_stats.records.len(), 0);
    assert_eq!(state.last_record_id, u64::MAX);
    state.last_record_id = u64::MAX - 1;
    assert_eq!(state.add_record_at(5, 0), Ok(Recorded { id: u64::MAX, crossed_goal: false }));
    assert_eq!(state.today_stats.records[0].id, u64::MAX);
}

#[test]
fn undo_restores_the_total_before_the_add() {
    let mut state = AppState::for_day(1);
    for amount in [400u32, 700, 800] {
        state.add_record_at(amount, 0).unwrap();
    }
    let total = state.today_stats.total_amount;
    let records = state.today_stats.records.clone();
    assert_eq!(state.add_record_at(123, 9), Ok(Recorded { id: 4, crossed_goal: true }));
    assert!(state.undo_last_record());
    assert_eq!(state.today_stats.total_amount, total);
    assert_eq!(state.today_stats.records, records);
    assert!(!state.today_stats.goal_achieved);
    assert_eq!(state.last_record_id, 4);
    state.add_record_at(50, 10).unwrap();
    assert_eq!(state.today_stats.records[3].id, 5);
}

#[test]
fn undo_on_an_empty_day_changes_nothing() {
    let mut state = AppState::for_day(1);
    state.weekly_stats.push(day(0, 500, 2000));
    assert!(!state.undo_last_record());
    assert_eq!(state.today_stats.total_amount, 0);
    assert_eq!(state.today_stats.records.len(), 0);
    assert!(!state.today_stats.goal_achieved);
    assert_eq!(state.weekly_stats.len(), 1);
    assert_eq!(state.weekly_stats[0].total_amount, 500);
    assert_eq!(state.weekly_stats[0].records.len(), 1);
}

#[test]
fn undo_never_goes_below_zero() {
    let mut state = AppState::for_day(1);
    state.today_stats.records.push(WaterRecord { id: 1, amount: 500, timestamp: 0 });
    state.today_stats.total_amount = 200;
    assert!(state.undo_last_record());
    assert_eq!(state.today_stats.total_amount, 0);
    assert!(!state.today_stats.goal_achieved);
}

#[test]
fn undo_can_drop_below_the_goal() {
    let mut state = AppState::for_day(1);
    state.add_record_at(1500, 0).unwrap();
    state.add_record_at(600, 1).unwrap();
    assert!(state.today_stats.goal_achieved);
    assert!(state.undo_last_record());
    assert_eq!(state.today_stats.total_amount, 1500);
    assert!(!state.today_stats.goal_achieved);
}

#[test]
fn raising_the_goal_takes_the_achievement_back() {
    let mut state = AppState::for_day(1);
    state.weekly_stats.push(day(0, 2000, 2000));
    state.add_record_at(2000, 0).unwrap();
    assert!(state.today_stats.goal_achieved);
    state.set_daily_goal(3000);
    assert!(!state.today_stats.goal_achieved);
    assert_eq!(state.today_stats.goal_amount, 3000);
    assert_eq!(state.settings.daily_goal, 3000);
    assert_eq!(state.weekly_stats[0].goal_amount, 2000);
    assert!(state.weekly_stats[0].goal_achieved);
    state.set_daily_goal(1500);
    assert!(state.today_stats.goal_achieved);
}

#[test]
fn progress_is_clamped() {
    let mut state = AppState::for_day(1);
    assert_eq!(state.get_progress_percentage(), 0);
    state.add_record_at(666, 0).unwrap();
    assert_eq!(state.get_progress_percentage(), 33);
    state.add_record_at(1333, 0).unwrap();
    assert_eq!(state.get_progress_percentage(), 99);
    state.add_record_at(1, 0).unwrap();
    assert_eq!(state.get_progress_percentage(), 100);
    state.add_record_at(u32::MAX - 2000, 0).unwrap();
    assert_eq!(state.get_progress_percentage(), 100);
    state.set_daily_goal(0);
    assert_eq!(state.get_progress_percentage(), 0);
}

#[test]
fn streak_is_zero_while_today_is_open() {
    let mut state = ledger_with_history(vec![day(998, 2000, 2000), day(999, 2500, 2000)]);
    assert_eq!(state.get_streak_days(), 0);
    state.add_record_at(1999, 0).unwrap();
    assert_eq!(state.get_streak_days(), 0);
    state.add_record_at(1, 0).unwrap();
    assert_eq!(state.get_streak_days(), 3);
}

#[test]
fn streak_stops_at_the_first_gap() {
    let mut state = ledger_with_history(vec![
        day(995, 2000, 2000),
        day(996, 100, 2000),
        day(997, 2000, 2000),
        day(999, 3000, 2000),
    ]);
    state.add_record_at(2000, 0).unwrap();
    assert_eq!(state.get_streak_days(), 3);
    state.weekly_stats[3].goal_achieved = false;
    assert_eq!(state.get_streak_days(), 1);
}

#[test]
fn weekly_figures() {
    let mut state = AppState::for_day(1000);
    assert_eq!(state.get_weekly_average(), 0);
    assert_eq!(state.get_weekly_total(), 0);
    assert_eq!(state.get_max_daily_amount(), 0);
    state.add_record_at(1000, 0).unwrap();
    assert_eq!(state.get_weekly_average(), 1000);
    assert_eq!(state.get_weekly_total(), 1000);
    assert_eq!(state.get_max_daily_amount(), 1000);
    state.weekly_stats = vec![day(997, 1500, 2000), day(998, 2501, 2000), day(999, 0, 2000)];
    assert_eq!(state.get_weekly_total(), 5001);
    assert_eq!(state.checked_weekly_total(), Some(5001));
    assert_eq!(state.get_weekly_average(), 1250);
    assert_eq!(state.get_max_daily_amount(), 2501);
    state.add_record_at(2000, 0).unwrap();
    assert_eq!(state.get_max_daily_amount(), 3000);
}

#[test]
fn weekly_total_that_does_not_fit() {
    let state = ledger_with_history(vec![day(998, u32::MAX, 2000), day(999, 1, 2000)]);
    assert_eq!(state.checked_weekly_total(), None);
    assert_eq!(state.get_weekly_average(), 1_431_655_765);
    assert_eq!(state.get_max_daily_amount(), u32::MAX);
    let state = ledger_with_history(vec![day(999, u32::MAX, 2000)]);
    assert_eq!(state.checked_weekly_total(), Some(u32::MAX));
    assert_eq!(state.get_weekly_total(), u32::MAX);
}

#[test]
fn seven_days_of_an_empty_history() {
    let mut state = AppState::for_day(1);
    state.add_record_at(750, 0).unwrap();
    assert_eq!(state.get_seven_days_data(), vec![0, 0, 0, 0, 0, 0, 750]);
}

#[test]
fn seven_days_pad_at_the_front() {
    let mut state = ledger_with_history(vec![day(998, 1200, 2000), day(999, 1800, 2000)]);
    state.add_record_at(300, 0).unwrap();
    let series = state.get_seven_days_data();
    assert_eq!(series.len(), 7);
    assert_eq!(series, vec![0, 0, 0, 0, 1200, 1800, 300]);
}

#[test]
fn seven_days_of_a_full_history() {
    let state = ledger_with_history(vec![
        day(994, 1, 2000),
        day(995, 2, 2000),
        day(996, 3, 2000),
        day(997, 4, 2000),
        day(998, 5, 2000),
        day(999, 6, 2000),
    ]);
    assert_eq!(state.get_seven_days_data(), vec![1, 2, 3, 4, 5, 6, 0]);
}

#[test]
fn seven_days_take_the_most_recent_six() {
    let state = ledger_with_history(vec![
        day(992, 10, 2000),
        day(993, 20, 2000),
        day(994, 1, 2000),
        day(995, 2, 2000),
        day(996, 3, 2000),
        day(997, 4, 2000),
        day(998, 5, 2000),
        day(999, 6, 2000),
    ]);
    assert_eq!(state.get_seven_days_data(), vec![1, 2, 3, 4, 5, 6, 0]);
}

#[test]
fn roll_day_moves_today_into_the_history() {
    let mut state = AppState::for_day(10);
    state.set_daily_goal(1800);
    state.add_record_at(900, 5).unwrap();
    state.add_record_at(950, 6).unwrap();
    state.roll_day(11);
    assert_eq!(state.today_stats.date, 11);
    assert_eq!(state.today_stats.total_amount, 0);
    assert_eq!(state.today_stats.goal_amount, 1800);
    assert!(state.today_stats.records.is_empty());
    assert!(!state.today_stats.goal_achieved);
    assert_eq!(state.weekly_stats.len(), 1);
    assert_eq!(state.weekly_stats[0].date, 10);
    assert_eq!(state.weekly_stats[0].total_amount, 1850);
    assert_eq!(state.weekly_stats[0].records.len(), 2);
    assert!(state.weekly_stats[0].goal_achieved);
    assert_eq!(state.last_record_id, 2);
    state.add_record_at(100, 7).unwrap();
    assert_eq!(state.today_stats.records[0].id, 3);
    assert_eq!(state.get_streak_days(), 0);
    assert_eq!(state.get_seven_days_data(), vec![0, 0, 0, 0, 0, 1850, 100]);
}

#[test]
fn roll_day_keeps_six_days() {
    let mut state = AppState::for_day(1);
    for date in 1..=8 {
        state.add_record_at(date as u32 * 100, 0).unwrap();
        state.roll_day(date + 1);
    }
    assert_eq!(state.today_stats.date, 9);
    assert_eq!(state.weekly_stats.len(), 6);
    let dates: Vec<i32> = state.weekly_stats.iter().map(|d| d.date).collect();
    assert_eq!(dates, vec![3, 4, 5, 6, 7, 8]);
    assert_eq!(state.get_seven_days_data(), vec![300, 400, 500, 600, 700, 800, 0]);
    assert_eq!(state.last_record_id, 8);
}

#[test]
fn roll_day_with_a_goal_of_zero() {
    let mut state = AppState::for_day(1);
    state.set_daily_goal(0);
    assert!(state.today_stats.goal_achieved);
    state.roll_day(2);
    assert_eq!(state.today_stats.goal_amount, 0);
    assert!(state.today_stats.goal_achieved);
    assert_eq!(state.get_streak_days(), 2);
}

#[test]
fn history_dates_count_back_from_today() {
    assert_eq!(AppState::history_dates(100), vec![99, 98, 97, 96, 95, 94]);
    assert_eq!(
        AppState::history_dates(i32::MIN + 6),
        vec![i32::MIN + 5, i32::MIN + 4, i32::MIN + 3, i32::MIN + 2, i32::MIN + 1, i32::MIN]
    );
}

#[test]
fn loaded_days_are_put_in_order() {
    let mut stored_today = day(100, 0, 2500);
    stored_today.records = vec![
        WaterRecord { id: 4, amount: 200, timestamp: 1 },
        WaterRecord { id: 9, amount: 300, timestamp: 2 },
        WaterRecord { id: 7, amount: 100, timestamp: 3 },
    ];
    stored_today.total_amount = 600;
    let past = vec![day(99, 1, 2000), day(98, 2, 2000), day(96, 3, 2000), day(95, 4, 2000)];
    let settings = UserSettings::default();
    let state = AppState::from_loaded(settings, 100, Some(stored_today), past);
    let dates: Vec<i32> = state.weekly_stats.iter().map(|d| d.date).collect();
    assert_eq!(dates, vec![95, 96, 98, 99]);
    let totals: Vec<u32> = state.weekly_stats.iter().map(|d| d.total_amount).collect();
    assert_eq!(totals, vec![4, 3, 2, 1]);
    assert_eq!(state.last_record_id, 9);
    assert_eq!(state.today_stats.goal_amount, 2500);
    assert_eq!(state.today_stats.total_amount, 600);
    assert_eq!(state.settings.daily_goal, 2000);
}

#[test]
fn loaded_days_of_one_date_keep_their_order() {
    let past = vec![day(5, 50, 2000), day(3, 30, 2000), day(5, 51, 2000), day(3, 31, 2000), day(4, 40, 2000)];
    let state = AppState::from_loaded(UserSettings::default(), 9, None, past);
    let totals: Vec<u32> = state.weekly_stats.iter().map(|d| d.total_amount).collect();
    assert_eq!(totals, vec![30, 31, 40, 50, 51]);
}

#[test]
fn loading_without_today_starts_an_empty_day() {
    let mut settings = UserSettings::default();
    settings.daily_goal = 1750;
    let state = AppState::from_loaded(settings, 42, None, Vec::new());
    assert_eq!(state.today_stats.date, 42);
    assert_eq!(state.today_stats.total_amount, 0);
    assert_eq!(state.today_stats.goal_amount, 1750);
    assert!(state.today_stats.records.is_empty());
    assert!(!state.today_stats.goal_achieved);
    assert!(state.weekly_stats.is_empty());
    assert_eq!(state.last_record_id, 0);
}

#[test]
fn the_flag_can_be_derived_again() {
    let mut state = AppState::for_day(1);
    state.today_stats.total_amount = 2000;
    state.rederive_goal_achieved();
    assert!(state.today_stats.goal_achieved);
    assert_eq!(state.today_stats.total_amount, 2000);
    assert_eq!(state.today_stats.goal_amount, 2000);
    state.today_stats.goal_amount = 2001;
    state.settings.daily_goal = 1000;
    state.rederive_goal_achieved();
    assert!(!state.today_stats.goal_achieved);
    assert_eq!(state.settings.daily_goal, 1000);
}

#[test]
fn reminder_settings_are_kept_in_the_ledger() {
    let mut state = AppState::for_day(1);
    state.set_reminder_enabled(false);
    state.set_reminder_interval(45);
    assert!(!state.settings.reminder_enabled);
    assert_eq!(state.settings.reminder_interval, 45);
    assert_eq!(state.settings.daily_goal, 2000);
    assert_eq!(state.settings.start_time, "07:00");
}

#[test]
fn roll_to_moves_only_forward() {
    let mut state = AppState::for_day(50);
    state.add_record_at(700, 0).unwrap();
    assert!(!state.roll_to(50));
    assert!(!state.roll_to(49));
    assert_eq!(state.today_stats.date, 50);
    assert_eq!(state.today_stats.total_amount, 700);
    assert!(state.weekly_stats.is_empty());
    assert!(state.roll_to(53));
    assert_eq!(state.today_stats.date, 53);
    assert_eq!(state.today_stats.total_amount, 0);
    assert_eq!(state.weekly_stats.len(), 1);
    assert_eq!(state.weekly_stats[0].date, 50);
    assert_eq!(state.weekly_stats[0].total_amount, 700);
}

#[test]
fn roll_to_today_follows_the_clock() {
    let mut state = AppState::for_day(1);
    state.add_record_at(300, 0).unwrap();
    let before = chrono::Datelike::num_days_from_ce(&chrono::Local::now().date_naive());
    assert!(state.roll_to_today());
    let after = chrono::Datelike::num_days_from_ce(&chrono::Local::now().date_naive());
    assert!(before <= state.today_stats.date && state.today_stats.date <= after);
    assert_eq!(state.weekly_stats.len(), 1);
    assert_eq!(state.weekly_stats[0].date, 1);
    assert_eq!(state.today_stats.total_amount, 0);
    let mut state = AppState::for_day(i32::MAX);
    assert!(!state.roll_to_today());
    assert_eq!(state.today_stats.date, i32::MAX);
}
