use habit_tracker::report::added_message;
use habit_tracker::report::checked_message;
use habit_tracker::report::error_message;
use habit_tracker::report::history_lines;
use habit_tracker::report::listing_lines;
use habit_tracker::report::push_decimal;
use habit_tracker::report::removed_message;
use habit_tracker::report::unrecognized_message;
use habit_tracker::Completion;
use habit_tracker::Date;
use habit_tracker::FrequencyHabit;
use habit_tracker::HabitStore;
use habit_tracker::HabitSummary;
use habit_tracker::StoreError;

fn date_on(year: i32, month: u32, day: u32) -> Date {
    Date::new(year, month, day).expect("a day that exists")
}

fn gym(completions: usize) -> HabitSummary {
    HabitSummary {
        id: "gym".to_string(),
        name: "Gym".to_string(),
        frequency: FrequencyHabit::Daily,
        completions,
    }
}

fn decimal(n: usize) -> String {
    let mut out = String::new();
    push_decimal(&mut out, n);
    out
}

#[test]
fn push_decimal_writes_numbers() {
    assert_eq!(decimal(0), "0");
    assert_eq!(decimal(7), "7");
    assert_eq!(decimal(9), "9");
    assert_eq!(decimal(10), "10");
    assert_eq!(decimal(11), "11");
    assert_eq!(decimal(99), "99");
    assert_eq!(decimal(100), "100");
    assert_eq!(decimal(1234567890), "1234567890");
    assert_eq!(decimal(usize::MAX), usize::MAX.to_string());
}

#[test]
fn push_decimal_writes_behind_what_is_there() {
    let mut out = String::from("n=");
    push_decimal(&mut out, 42);
    assert_eq!(out, "n=42");
    push_decimal(&mut out, 0);
    assert_eq!(out, "n=420");
}

#[test]
fn every_failure_has_its_line() {
    assert_eq!(error_message(&StoreError::EmptyName), "ERR: Habit name cannot be empty.");
    assert_eq!(
        error_message(&StoreError::EmptyId),
        "ERR: Habit name produced an empty id. Use letters/numbers."
    );
    assert_eq!(
        error_message(&StoreError::DuplicateId("gym".to_string())),
        "ERR: Habit already exists (id: gym)."
    );
    assert_eq!(
        error_message(&StoreError::InvalidFrequency),
        "ERR: Invalid frequency. Use: daily, weekly or monthly."
    );
    assert_eq!(
        error_message(&StoreError::NotFound("swim".to_string())),
        "ERR: Habit not found: swim"
    );
    assert_eq!(error_message(&StoreError::InvalidDate), "ERR: Invalid date. Example: 2026-01-10");
    assert_eq!(
        error_message(&StoreError::AlreadyChecked(date_on(2026, 1, 10))),
        "ERR: Already checked for 2026-01-10"
    );
    assert_eq!(unrecognized_message(), "ERR: Invalid option. Type 'help'.");
}

#[test]
fn failures_begin_with_err_and_successes_with_ok() {
    let failures = [
        StoreError::EmptyName,
        StoreError::EmptyId,
        StoreError::DuplicateId("a".to_string()),
        StoreError::InvalidFrequency,
        StoreError::NotFound("a".to_string()),
        StoreError::InvalidDate,
        StoreError::AlreadyChecked(date_on(2026, 1, 10)),
    ];
    for e in &failures {
        assert!(error_message(e).starts_with("ERR: "));
    }
    assert!(unrecognized_message().starts_with("ERR: "));
    assert!(added_message(&gym(0)).starts_with("OK: "));
    assert!(removed_message(&gym(0)).starts_with("OK: "));
}

#[test]
fn added_line_names_id_name_and_frequency() {
    assert_eq!(added_message(&gym(0)), "OK: Added [gym] Gym (daily)");
    let cafe = HabitSummary {
        id: "cafe-ole".to_string(),
        name: "Café Olé".to_string(),
        frequency: FrequencyHabit::Monthly,
        completions: 0,
    };
    assert_eq!(added_message(&cafe), "OK: Added [cafe-ole] Café Olé (monthly)");
}

#[test]
fn removed_line_names_id_and_name() {
    assert_eq!(removed_message(&gym(3)), "OK: Removed [gym] Gym");
}

#[test]
fn checked_line_names_the_date() {
    let done = Completion { id: "gym".to_string(), name: "Gym".to_string(), date: date_on(2026, 1, 5) };
    assert_eq!(checked_message(&done), "OK: Checked [gym] Gym (2026-01-05)");
}

#[test]
fn history_without_completions_is_one_line() {
    assert_eq!(
        history_lines(&gym(0), &vec![]),
        vec!["OK: No completions yet for [gym] Gym.".to_string()]
    );
}

#[test]
fn history_has_a_heading_and_a_line_for_each_date() {
    let dates = vec![date_on(2026, 1, 5), date_on(2026, 1, 10)];
    assert_eq!(
        history_lines(&gym(2), &dates),
        vec![
            "History for [gym] Gym:".to_string(),
            " - 2026-01-05".to_string(),
            " - 2026-01-10".to_string(),
        ]
    );
}

#[test]
fn listing_without_habits_is_one_line() {
    assert_eq!(listing_lines(&vec![]), vec!["OK: No habits yet. Use 'add'.".to_string()]);
}

#[test]
fn listing_numbers_the_habits_from_one() {
    let read = HabitSummary {
        id: "read".to_string(),
        name: "Read".to_string(),
        frequency: FrequencyHabit::Weekly,
        completions: 12,
    };
    assert_eq!(
        listing_lines(&vec![gym(0), read]),
        vec![
            "1: [gym] - Gym - daily - completions=0".to_string(),
            "2: [read] - Read - weekly - completions=12".to_string(),
        ]
    );
}

#[test]
fn lines_follow_a_session() {
    let mut store = HabitStore::new();
    let added = store.add_habit("Morning Run", "Daily").expect("added");
    assert_eq!(added_message(&added), "OK: Added [morning-run] Morning Run (daily)");
    let done = store.check_habit("morning-run", "2026-01-10").expect("checked");
    assert_eq!(checked_message(&done), "OK: Checked [morning-run] Morning Run (2026-01-10)");
    let again = store.check_habit("morning-run", "2026-01-10").expect_err("refused");
    assert_eq!(error_message(&again), "ERR: Already checked for 2026-01-10");
    let habit = store.lookup("morning-run").expect("known");
    let dates = store.history("morning-run").expect("known");
    assert_eq!(
        history_lines(&habit, &dates),
        vec!["History for [morning-run] Morning Run:".to_string(), " - 2026-01-10".to_string()]
    );
    assert_eq!(
        listing_lines(&store.list_habits()),
        vec!["1: [morning-run] - Morning Run - daily - completions=1".to_string()]
    );
    let removed = store.remove_habit("morning-run").expect("removed");
    assert_eq!(removed_message(&removed), "OK: Removed [morning-run] Morning Run");
    assert_eq!(
        listing_lines(&store.list_habits()),
        vec!["OK: No habits yet. Use 'add'.".to_string()]
    );
}

#[test]
fn lookup_gives_the_listing_entry() {
    let mut store = HabitStore::new();
    assert!(store.add_habit("Gym", "daily").is_ok());
    assert!(store.record_completion("gym", date_on(2026, 1, 10)).is_ok());
    assert_eq!(store.lookup("gym"), Ok(gym(1)));
    assert_eq!(store.lookup("swim"), Err(StoreError::NotFound("swim".to_string())));
}
