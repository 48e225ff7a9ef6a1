//! The mathematical model of the tracker: a store is a sequence of habit
//! records in the order in which they were added, and every operation is a
//! function from the store before it to its outcome and the store after it.

use crate::date::Date;
use crate::frequency::FrequencyHabit;
use vstd::prelude::*;

verus! {

/// One habit, as the contracts see it.
pub struct HabitView {
    pub id: Seq<char>,
    pub name: Seq<char>,
    pub frequency: FrequencyHabit,
    pub completions: Seq<Date>,
}

/// What a listing tells of one habit.
pub struct SummaryView {
    pub id: Seq<char>,
    pub name: Seq<char>,
    pub frequency: FrequencyHabit,
    pub completions: nat,
}

/// What a recorded completion reports back.
pub struct CompletionView {
    pub id: Seq<char>,
    pub name: Seq<char>,
    pub date: Date,
}

/// The ways in which an operation fails.
pub enum ErrorView {
    EmptyName,
    EmptyId,
    DuplicateId(Seq<char>),
    InvalidFrequency,
    NotFound(Seq<char>),
    InvalidDate,
    AlreadyChecked(Date),
}

/// Whether every date is before the ones after it: in chronological order,
/// none twice.
pub open spec fn ascending(dates: Seq<Date>) -> bool {
    forall|i: int, j: int| 0 <= i < j < dates.len() ==> dates[i].before(dates[j])
}

/// The number of dates in `dates` that are before `date`.
pub open spec fn rank(dates: Seq<Date>, date: Date) -> int
    decreases dates.len(),
{
    if dates.len() == 0 {
        0
    } else {
        rank(dates.drop_last(), date) + if dates.last().before(date) {
            1int
        } else {
            0int
        }
    }
}

/// `dates` with `date` put behind the dates that are before it.
pub open spec fn with_date(dates: Seq<Date>, date: Date) -> Seq<Date> {
    dates.insert(rank(dates, date), date)
}

/// Whether some habit of the store has the id.
pub open spec fn has_id(store: Seq<HabitView>, id: Seq<char>) -> bool {
    exists|i: int| 0 <= i < store.len() && (#[trigger] store[i]).id == id
}

/// Where the habit with the id stands, in a store that has it.
pub open spec fn index_of(store: Seq<HabitView>, id: Seq<char>) -> int {
    choose|i: int| 0 <= i < store.len() && (#[trigger] store[i]).id == id
}

/// What holds of every store: no id and no name is empty, no two habits
/// share an id, and each habit's completions are in chronological order
/// with no date twice.
pub open spec fn well_formed(store: Seq<HabitView>) -> bool {
    &&& forall|i: int|
        0 <= i < store.len() ==> {
            &&& (#[trigger] store[i]).id.len() > 0
            &&& store[i].name.len() > 0
            &&& ascending(store[i].completions)
        }
    &&& forall|i: int, j: int|
        0 <= i < j < store.len() ==> (#[trigger] store[i]).id != (#[trigger] store[j]).id
}

/// The listing entry of a habit.
pub open spec fn summary_of(habit: HabitView) -> SummaryView {
    SummaryView {
        id: habit.id,
        name: habit.name,
        frequency: habit.frequency,
        completions: habit.completions.len(),
    }
}

/// The listing of a store: one entry for each habit, in the store's order.
pub open spec fn summaries(store: Seq<HabitView>) -> Seq<SummaryView> {
    Seq::new(store.len(), |i: int| summary_of(store[i]))
}

/// A habit that was just added: no completion yet.
pub open spec fn fresh_habit(
    name: Seq<char>,
    id: Seq<char>,
    frequency: FrequencyHabit,
) -> HabitView {
    HabitView { id, name, frequency, completions: Seq::empty() }
}

/// What adding a habit answers. `name` is the trimmed name, `id` the id made
/// from it, `frequency` the cadence that was read, if one was.
pub open spec fn add_result(
    store: Seq<HabitView>,
    name: Seq<char>,
    id: Seq<char>,
    frequency: Option<FrequencyHabit>,
) -> Result<SummaryView, ErrorView> {
    if name.len() == 0 {
        Err(ErrorView::EmptyName)
    } else if id.len() == 0 {
        Err(ErrorView::EmptyId)
    } else if has_id(store, id) {
        Err(ErrorView::DuplicateId(id))
    } else if frequency is None {
        Err(ErrorView::InvalidFrequency)
    } else {
        Ok(summary_of(fresh_habit(name, id, frequency.unwrap())))
    }
}

/// The store after adding a habit: the new habit stands last, or nothing
/// has changed where adding failed.
pub open spec fn after_add(
    store: Seq<HabitView>,
    name: Seq<char>,
    id: Seq<char>,
    frequency: Option<FrequencyHabit>,
) -> Seq<HabitView> {
    if add_result(store, name, id, frequency) is Ok {
        store.push(fresh_habit(name, id, frequency.unwrap()))
    } else {
        store
    }
}

/// What looking up the habit with the id answers: its listing entry.
pub open spec fn lookup_result(store: Seq<HabitView>, id: Seq<char>) -> Result<
    SummaryView,
    ErrorView,
> {
    if has_id(store, id) {
        Ok(summary_of(store[index_of(store, id)]))
    } else {
        Err(ErrorView::NotFound(id))
    }
}

/// What removing the habit with the id answers: the entry of the habit
/// that is removed.
pub open spec fn remove_result(store: Seq<HabitView>, id: Seq<char>) -> Result<
    SummaryView,
    ErrorView,
> {
    lookup_result(store, id)
}

/// The store after removing the habit with the id: the habit is gone with
/// all its completions, the others keep their order.
pub open spec fn after_remove(store: Seq<HabitView>, id: Seq<char>) -> Seq<HabitView> {
    if has_id(store, id) {
        store.remove(index_of(store, id))
    } else {
        store
    }
}

/// What recording a completion of the habit with the id on `date` answers.
pub open spec fn record_result(store: Seq<HabitView>, id: Seq<char>, date: Date) -> Result<
    CompletionView,
    ErrorView,
> {
    if !has_id(store, id) {
        Err(ErrorView::NotFound(id))
    } else {
        let habit = store[index_of(store, id)];
        if habit.completions.contains(date) {
            Err(ErrorView::AlreadyChecked(date))
        } else {
            Ok(CompletionView { id: habit.id, name: habit.name, date })
        }
    }
}

/// The store after recording a completion: the habit has the date among its
/// completions, at its chronological place.
pub open spec fn after_record(store: Seq<HabitView>, id: Seq<char>, date: Date) -> Seq<
    HabitView,
> {
    if record_result(store, id, date) is Ok {
        let i = index_of(store, id);
        store.update(
            i,
            HabitView { completions: with_date(store[i].completions, date), ..store[i] },
        )
    } else {
        store
    }
}

/// The date that a completion is recorded on: today where no date was
/// written, else the date that was written, if it reads as one.
pub open spec fn date_meant(text: Seq<char>, today: Date) -> Option<Date> {
    if text.len() == 0 {
        Some(today)
    } else {
        Date::parsed(text)
    }
}

/// What checking off the habit with the id answers, where `date` is the
/// date that was meant, if there was one.
pub open spec fn check_result(
    store: Seq<HabitView>,
    id: Seq<char>,
    date: Option<Date>,
) -> Result<CompletionView, ErrorView> {
    if !has_id(store, id) {
        Err(ErrorView::NotFound(id))
    } else if date is None {
        Err(ErrorView::InvalidDate)
    } else {
        record_result(store, id, date.unwrap())
    }
}

/// The store after checking off a habit.
pub open spec fn after_check(store: Seq<HabitView>, id: Seq<char>, date: Option<Date>) -> Seq<
    HabitView,
> {
    if date is Some {
        after_record(store, id, date.unwrap())
    } else {
        store
    }
}

/// What asking for the history of the habit with the id answers.
pub open spec fn history_result(store: Seq<HabitView>, id: Seq<char>) -> Result<
    Seq<Date>,
    ErrorView,
> {
    if has_id(store, id) {
        Ok(store[index_of(store, id)].completions)
    } else {
        Err(ErrorView::NotFound(id))
    }
}

/// In a well-formed store an id names one place.
pub proof fn lemma_index_of(store: Seq<HabitView>, id: Seq<char>, i: int)
    requires
        well_formed(store),
        0 <= i < store.len(),
        store[i].id == id,
    ensures
        has_id(store, id),
        index_of(store, id) == i,
{
    let j = index_of(store, id);
    assert(0 <= j < store.len() && store[j].id == id);
    if j < i {
        assert(store[j].id != store[i].id);
    }
    if i < j {
        assert(store[i].id != store[j].id);
    }
}

/// In an ascending sequence the dates before `date` are the first `rank`
/// ones.
pub proof fn lemma_rank_splits(dates: Seq<Date>, date: Date)
    requires
        ascending(dates),
    ensures
        0 <= rank(dates, date) <= dates.len(),
        forall|i: int| 0 <= i < dates.len() ==> (dates[i].before(date) <==> i < rank(dates, date)),
    decreases dates.len(),
{
    if dates.len() > 0 {
        let front = dates.drop_last();
        assert forall|i: int, j: int| 0 <= i < j < front.len() implies front[i].before(
            front[j],
        ) by {
            assert(dates[i].before(dates[j]));
        }
        lemma_rank_splits(front, date);
        let last = dates.last();
        if last.before(date) && front.len() > 0 {
            let p = front.len() - 1;
            assert(front[p] == dates[p]);
            assert(dates[p].before(last));
            assert(front[p].before(date));
        }
        assert forall|i: int| 0 <= i < dates.len() implies (dates[i].before(date) <==> i < rank(
            dates,
            date,
        )) by {
            if i < dates.len() - 1 {
                assert(front[i] == dates[i]);
                if last.before(date) {
                    assert(dates[i].before(last));
                }
            }
        }
    }
}

/// Putting a new date into an ascending sequence keeps it ascending, and
/// adds that date and no other.
pub proof fn lemma_with_date(dates: Seq<Date>, date: Date)
    requires
        ascending(dates),
        !dates.contains(date),
    ensures
        ascending(with_date(dates, date)),
        with_date(dates, date).len() == dates.len() + 1,
        forall|d: Date| #[trigger]
            with_date(dates, date).contains(d) <==> (d == date || dates.contains(d)),
{
    lemma_rank_splits(dates, date);
    let k = rank(dates, date);
    let out = with_date(dates, date);
    assert forall|i: int| k <= i < dates.len() implies date.before(#[trigger] dates[i]) by {
        assert(dates.contains(dates[i]));
        Date::lemma_before_is_total(dates[i], date);
    }
    assert forall|i: int, j: int| 0 <= i < j < out.len() implies out[i].before(out[j]) by {
        if i < k && j > k {
            assert(dates[i].before(date));
            assert(date.before(dates[j - 1]));
        }
    }
    assert forall|d: Date| out.contains(d) <==> (d == date || dates.contains(d)) by {
        if out.contains(d) {
            let i = choose|i: int| 0 <= i < out.len() && out[i] == d;
            if i < k {
                assert(dates[i] == d);
            } else if i > k {
                assert(dates[i - 1] == d);
            }
        }
        if d == date {
            assert(out[k] == d);
        }
        if dates.contains(d) {
            let i = choose|i: int| 0 <= i < dates.len() && dates[i] == d;
            if i < k {
                assert(out[i] == d);
            } else {
                assert(out[i + 1] == d);
            }
        }
    }
}

} // verus!
