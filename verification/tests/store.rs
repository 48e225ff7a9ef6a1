use habit_tracker::Completion;
use habit_tracker::Date;
use habit_tracker::FrequencyHabit;
use habit_tracker::HabitStore;
use habit_tracker::HabitSummary;
use habit_tracker::StoreError;

fn on(year: i32, month: u32, day: u32) -> Date {
    Date::new(year, month, day).expect("a day that exists")
}

fn summary(id: &str, name: &str, frequency: FrequencyHabit, completions: usize) -> HabitSummary {
    HabitSummary { id: id.to_string(), name: name.to_string(), frequency, completions }
}

#[test]
fn empty_store_lists_nothing() {
    let store = HabitStore::new();
    assert_eq!(store.len(), 0);
    assert_eq!(store.list_habits(), Vec::<HabitSummary>::new());
}

#[test]
fn add_reports_id_name_and_frequency() {
    let mut store = HabitStore::new();
    let added = store.add_habit("Café Olé", "Weekly");
    assert_eq!(added, Ok(summary("cafe-ole", "Café Olé", FrequencyHabit::Weekly, 0)));
    assert_eq!(store.len(), 1);
    assert!(store.contains("cafe-ole"));
    assert!(!store.contains("Café Olé"));
}

#[test]
fn add_trims_the_name() {
    let mut store = HabitStore::new();
    let added = store.add_habit("  Gym \t", "daily");
    assert_eq!(added, Ok(summary("gym", "Gym", FrequencyHabit::Daily, 0)));
}

#[test]
fn add_refuses_an_empty_name() {
    let mut store = HabitStore::new();
    assert_eq!(store.add_habit("", "daily"), Err(StoreError::EmptyName));
    assert_eq!(store.add_habit("   ", "daily"), Err(StoreError::EmptyName));
    assert_eq!(store.add_habit("\t\n", "nonsense"), Err(StoreError::EmptyName));
    assert_eq!(store.len(), 0);
}

#[test]
fn add_refuses_a_name_without_letters_and_digits() {
    let mut store = HabitStore::new();
    assert_eq!(store.add_habit("!!!", "daily"), Err(StoreError::EmptyId));
    assert_eq!(store.add_habit("日本語", "nonsense"), Err(StoreError::EmptyId));
    assert_eq!(store.len(), 0);
}

#[test]
fn add_refuses_an_unknown_frequency() {
    let mut store = HabitStore::new();
    assert_eq!(store.add_habit("Gym", "yearly"), Err(StoreError::InvalidFrequency));
    assert_eq!(store.add_habit("Gym", ""), Err(StoreError::InvalidFrequency));
    assert_eq!(store.len(), 0);
    assert!(!store.contains("gym"));
}

#[test]
fn second_add_with_the_same_id_is_a_duplicate() {
    let mut store = HabitStore::new();
    assert!(store.add_habit("Morning Run", "daily").is_ok());
    let again = store.add_habit("morning   RUN!", "weekly");
    assert_eq!(again, Err(StoreError::DuplicateId("morning-run".to_string())));
    assert_eq!(store.len(), 1);
    assert_eq!(
        store.list_habits(),
        vec![summary("morning-run", "Morning Run", FrequencyHabit::Daily, 0)]
    );
}

#[test]
fn duplicate_is_reported_before_an_unknown_frequency() {
    let mut store = HabitStore::new();
    assert!(store.add_habit("Gym", "daily").is_ok());
    assert_eq!(store.add_habit("Gym", "yearly"), Err(StoreError::DuplicateId("gym".to_string())));
}

#[test]
fn removed_id_can_be_used_again() {
    let mut store = HabitStore::new();
    let first = store.add_habit("Gym", "daily").expect("added");
    let removed = store.remove_habit(&first.id);
    assert_eq!(removed, Ok(summary("gym", "Gym", FrequencyHabit::Daily, 0)));
    assert_eq!(store.len(), 0);
    let second = store.add_habit("Gym", "weekly");
    assert_eq!(second, Ok(summary("gym", "Gym", FrequencyHabit::Weekly, 0)));
    assert_eq!(store.list_habits(), vec![summary("gym", "Gym", FrequencyHabit::Weekly, 0)]);
}

#[test]
fn remove_of_an_unknown_id_is_not_found() {
    let mut store = HabitStore::new();
    assert!(store.add_habit("Gym", "daily").is_ok());
    assert_eq!(store.remove_habit("swim"), Err(StoreError::NotFound("swim".to_string())));
    assert_eq!(store.remove_habit("Gym"), Err(StoreError::NotFound("Gym".to_string())));
    assert_eq!(store.len(), 1);
}

#[test]
fn remove_takes_the_completions_along() {
    let mut store = HabitStore::new();
    assert!(store.add_habit("Gym", "daily").is_ok());
    assert!(store.record_completion("gym", on(2026, 1, 10)).is_ok());
    assert!(store.record_completion("gym", on(2026, 1, 11)).is_ok());
    let removed = store.remove_habit("gym");
    assert_eq!(removed, Ok(summary("gym", "Gym", FrequencyHabit::Daily, 2)));
    assert_eq!(store.history("gym"), Err(StoreError::NotFound("gym".to_string())));
    assert!(store.add_habit("Gym", "daily").is_ok());
    assert_eq!(store.history("gym"), Ok(vec![]));
}

#[test]
fn remove_keeps_the_order_of_the_others() {
    let mut store = HabitStore::new();
    assert!(store.add_habit("A", "daily").is_ok());
    assert!(store.add_habit("B", "weekly").is_ok());
    assert!(store.add_habit("C", "monthly").is_ok());
    assert!(store.record_completion("c", on(2026, 3, 1)).is_ok());
    assert!(store.remove_habit("b").is_ok());
    assert_eq!(
        store.list_habits(),
        vec![
            summary("a", "A", FrequencyHabit::Daily, 0),
            summary("c", "C", FrequencyHabit::Monthly, 1),
        ]
    );
}

#[test]
fn same_date_twice_is_already_checked() {
    let mut store = HabitStore::new();
    assert!(store.add_habit("Gym", "daily").is_ok());
    let first = store.check_habit_on("gym", "2026-01-10", on(2030, 1, 1));
    assert_eq!(
        first,
        Ok(Completion { id: "gym".to_string(), name: "Gym".to_string(), date: on(2026, 1, 10) })
    );
    let second = store.check_habit_on("gym", "2026-01-10", on(2030, 1, 1));
    assert_eq!(second, Err(StoreError::AlreadyChecked(on(2026, 1, 10))));
    assert_eq!(store.history("gym"), Ok(vec![on(2026, 1, 10)]));
    assert_eq!(store.history("gym").expect("known").len(), 1);
}

#[test]
fn history_is_ascending_not_in_order_of_recording() {
    let mut store = HabitStore::new();
    assert!(store.add_habit("Gym", "daily").is_ok());
    assert!(store.check_habit("gym", "2026-01-10").is_ok());
    assert!(store.check_habit("gym", "2026-01-05").is_ok());
    let history = store.history("gym").expect("known");
    assert_eq!(history, vec![on(2026, 1, 5), on(2026, 1, 10)]);
    let texts: Vec<String> = history.iter().map(|d| d.to_text()).collect();
    assert_eq!(texts, vec!["2026-01-05".to_string(), "2026-01-10".to_string()]);
}

#[test]
fn history_stays_ascending_over_many_dates() {
    let mut store = HabitStore::new();
    assert!(store.add_habit("Gym", "daily").is_ok());
    let dates = [
        on(2026, 3, 1),
        on(2025, 12, 31),
        on(2026, 1, 15),
        on(2026, 1, 14),
        on(2027, 1, 1),
        on(2026, 2, 28),
        on(-5, 6, 7),
    ];
    for d in dates {
        assert!(store.record_completion("gym", d).is_ok());
    }
    assert_eq!(
        store.history("gym"),
        Ok(vec![
            on(-5, 6, 7),
            on(2025, 12, 31),
            on(2026, 1, 14),
            on(2026, 1, 15),
            on(2026, 2, 28),
            on(2026, 3, 1),
            on(2027, 1, 1),
        ])
    );
    for d in dates {
        assert_eq!(store.record_completion("gym", d), Err(StoreError::AlreadyChecked(d)));
    }
    assert_eq!(store.history("gym").expect("known").len(), 7);
}

#[test]
fn malformed_date_is_invalid_and_changes_nothing() {
    let mut store = HabitStore::new();
    assert!(store.add_habit("Gym", "daily").is_ok());
    assert!(store.check_habit("gym", "2026-01-10").is_ok());
    assert_eq!(store.check_habit("gym", "2026-13-40"), Err(StoreError::InvalidDate));
    assert_eq!(store.check_habit("gym", "foo"), Err(StoreError::InvalidDate));
    assert_eq!(
        store.check_habit_on("gym", "2026-13-40", on(2026, 1, 1)),
        Err(StoreError::InvalidDate)
    );
    assert_eq!(store.check_habit_on("gym", "foo", on(2026, 1, 1)), Err(StoreError::InvalidDate));
    assert_eq!(store.history("gym"), Ok(vec![on(2026, 1, 10)]));
    assert_eq!(store.list_habits(), vec![summary("gym", "Gym", FrequencyHabit::Daily, 1)]);
}

#[test]
fn list_shows_habits_in_the_order_added_with_their_counts() {
    let mut store = HabitStore::new();
    assert!(store.add_habit("Read", "weekly").is_ok());
    assert!(store.add_habit("Gym", "daily").is_ok());
    assert_eq!(
        store.list_habits(),
        vec![
            summary("read", "Read", FrequencyHabit::Weekly, 0),
            summary("gym", "Gym", FrequencyHabit::Daily, 0),
        ]
    );
    assert!(store.check_habit("gym", "2026-01-10").is_ok());
    assert!(store.check_habit("gym", "2026-01-11").is_ok());
    assert!(store.check_habit("read", "2026-01-10").is_ok());
    assert_eq!(
        store.list_habits(),
        vec![
            summary("read", "Read", FrequencyHabit::Weekly, 1),
            summary("gym", "Gym", FrequencyHabit::Daily, 2),
        ]
    );
}

#[test]
fn unknown_id_is_not_found_and_changes_no_habit() {
    let mut store = HabitStore::new();
    assert!(store.add_habit("Gym", "daily").is_ok());
    assert!(store.check_habit("gym", "2026-01-10").is_ok());
    let before = store.list_habits();
    let not_found = Err(StoreError::NotFound("swim".to_string()));
    assert_eq!(store.check_habit("swim", "2026-01-10"), not_found);
    assert_eq!(store.check_habit("swim", ""), not_found);
    assert_eq!(store.check_habit_on("swim", "2026-01-10", on(2026, 1, 1)), not_found);
    assert_eq!(store.record_completion("swim", on(2026, 1, 10)), not_found);
    assert_eq!(store.list_habits(), before);
    assert_eq!(store.history("gym"), Ok(vec![on(2026, 1, 10)]));
}

#[test]
fn unknown_id_is_reported_before_a_malformed_date() {
    let mut store = HabitStore::new();
    assert_eq!(store.check_habit("swim", "foo"), Err(StoreError::NotFound("swim".to_string())));
    assert_eq!(
        store.check_habit_on("swim", "foo", on(2026, 1, 1)),
        Err(StoreError::NotFound("swim".to_string()))
    );
}

#[test]
fn blank_date_means_the_date_that_was_handed_in() {
    let mut store = HabitStore::new();
    assert!(store.add_habit("Gym", "daily").is_ok());
    let today = on(2026, 7, 4);
    let done = store.check_habit_on("gym", "", today);
    assert_eq!(
        done,
        Ok(Completion { id: "gym".to_string(), name: "Gym".to_string(), date: today })
    );
    assert_eq!(store.check_habit_on("gym", "", today), Err(StoreError::AlreadyChecked(today)));
    assert_eq!(
        store.check_habit_on("gym", "2026-07-04", on(2000, 1, 1)),
        Err(StoreError::AlreadyChecked(today))
    );
    assert_eq!(store.history("gym"), Ok(vec![today]));
}

#[test]
fn blank_date_means_today_by_the_clock() {
    let mut store = HabitStore::new();
    assert!(store.add_habit("Gym", "daily").is_ok());
    let done = store.check_habit("gym", "").expect("checked");
    assert_eq!(done.id, "gym");
    assert_eq!(done.name, "Gym");
    assert!(done.date.year() >= 2024);
    assert_eq!(Date::new(done.date.year(), done.date.month(), done.date.day()), Some(done.date));
    assert_eq!(store.history("gym"), Ok(vec![done.date]));
}

#[test]
fn history_of_a_new_habit_is_empty() {
    let mut store = HabitStore::new();
    assert!(store.add_habit("Gym", "daily").is_ok());
    assert_eq!(store.history("gym"), Ok(vec![]));
}

#[test]
fn history_of_an_unknown_id_is_not_found() {
    let store = HabitStore::new();
    assert_eq!(store.history("gym"), Err(StoreError::NotFound("gym".to_string())));
}

#[test]
fn completions_of_one_habit_do_not_touch_another() {
    let mut store = HabitStore::new();
    assert!(store.add_habit("Gym", "daily").is_ok());
    assert!(store.add_habit("Read", "daily").is_ok());
    assert!(store.record_completion("gym", on(2026, 1, 10)).is_ok());
    assert!(store.record_completion("read", on(2026, 1, 10)).is_ok());
    assert!(store.record_completion("read", on(2026, 1, 9)).is_ok());
    assert_eq!(store.history("gym"), Ok(vec![on(2026, 1, 10)]));
    assert_eq!(store.history("read"), Ok(vec![on(2026, 1, 9), on(2026, 1, 10)]));
}

#[test]
fn add_entry_takes_what_was_worked_out() {
    let mut store = HabitStore::new();
    let added = store.add_entry("Gym", "gym".to_string(), Some(FrequencyHabit::Daily));
    assert_eq!(added, Ok(summary("gym", "Gym", FrequencyHabit::Daily, 0)));
    assert_eq!(
        store.add_entry("", "gym".to_string(), Some(FrequencyHabit::Daily)),
        Err(StoreError::EmptyName)
    );
    assert_eq!(
        store.add_entry("Gym", String::new(), Some(FrequencyHabit::Daily)),
        Err(StoreError::EmptyId)
    );
    assert_eq!(
        store.add_entry("Other", "gym".to_string(), None),
        Err(StoreError::DuplicateId("gym".to_string()))
    );
    assert_eq!(store.add_entry("Swim", "swim".to_string(), None), Err(StoreError::InvalidFrequency));
    assert_eq!(store.list_habits(), vec![summary("gym", "Gym", FrequencyHabit::Daily, 0)]);
}
