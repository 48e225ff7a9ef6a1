//! The habit store: the habits in the order in which they were added, each
//! with the dates on which it was done.

use crate::date::local_today;
use crate::date::Date;
use crate::error::StoreError;
use crate::frequency::FrequencyHabit;
use crate::model::add_result;
use crate::model::after_add;
use crate::model::after_check;
use crate::model::after_record;
use crate::model::after_remove;
use crate::model::ascending;
use crate::model::check_result;
use crate::model::date_meant;
use crate::model::fresh_habit;
use crate::model::has_id;
use crate::model::history_result;
use crate::model::index_of;
use crate::model::lemma_index_of;
use crate::model::lemma_rank_splits;
use crate::model::lemma_with_date;
use crate::model::lookup_result;
use crate::model::rank;
use crate::model::record_result;
use crate::model::remove_result;
use crate::model::summaries;
use crate::model::summary_of;
use crate::model::well_formed;
use crate::model::with_date;
use crate::model::CompletionView;
use crate::model::ErrorView;
use crate::model::HabitView;
use crate::model::SummaryView;
use crate::slug::id_of;
use crate::slug::make_id;
use crate::text::lowercase_of;
use crate::text::trim;
use crate::text::trimmed;
use vstd::prelude::*;

verus! {

/// What a listing tells of one habit, and what adding or removing a habit
/// reports back.
#[derive(Debug, PartialEq, Eq)]
pub struct HabitSummary {
    pub id: String,
    pub name: String,
    pub frequency: FrequencyHabit,
    pub completions: usize,
}

impl View for HabitSummary {
    type V = SummaryView;

    open spec fn view(&self) -> SummaryView {
        SummaryView {
            id: self.id@,
            name: self.name@,
            frequency: self.frequency,
            completions: self.completions as nat,
        }
    }
}

/// What a recorded completion reports back: the habit and the date.
#[derive(Debug, PartialEq, Eq)]
pub struct Completion {
    pub id: String,
    pub name: String,
    pub date: Date,
}

impl View for Completion {
    type V = CompletionView;

    open spec fn view(&self) -> CompletionView {
        CompletionView { id: self.id@, name: self.name@, date: self.date }
    }
}

/// The answer of an operation that reports a habit, as the contracts see it.
pub open spec fn summary_outcome(r: Result<HabitSummary, StoreError>) -> Result<
    SummaryView,
    ErrorView,
> {
    match r {
        Ok(summary) => Ok(summary@),
        Err(e) => Err(e@),
    }
}

/// The answer of an operation that reports a completion, as the contracts
/// see it.
pub open spec fn completion_outcome(r: Result<Completion, StoreError>) -> Result<
    CompletionView,
    ErrorView,
> {
    match r {
        Ok(completion) => Ok(completion@),
        Err(e) => Err(e@),
    }
}

/// The answer of a request for a history, as the contracts see it.
pub open spec fn history_outcome(r: Result<Vec<Date>, StoreError>) -> Result<
    Seq<Date>,
    ErrorView,
> {
    match r {
        Ok(dates) => Ok(dates@),
        Err(e) => Err(e@),
    }
}

/// The listing, as the contracts see it.
pub open spec fn listing_view(listing: Seq<HabitSummary>) -> Seq<SummaryView> {
    Seq::new(listing.len(), |i: int| listing[i]@)
}

/// One tracked habit.
struct Habit {
    id: String,
    name: String,
    frequency: FrequencyHabit,
    completions: Vec<Date>,
}

impl View for Habit {
    type V = HabitView;

    closed spec fn view(&self) -> HabitView {
        HabitView {
            id: self.id@,
            name: self.name@,
            frequency: self.frequency,
            completions: self.completions@,
        }
    }
}

/// The habits of one session.
pub struct HabitStore {
    habits: Vec<Habit>,
}

impl View for HabitStore {
    type V = Seq<HabitView>;

    closed spec fn view(&self) -> Seq<HabitView> {
        Seq::new(self.habits@.len(), |i: int| self.habits@[i]@)
    }
}

impl HabitStore {
    /// The invariant of the store, kept by every operation.
    pub open spec fn wf(&self) -> bool {
        well_formed(self@)
    }

    /// A store without habits.
    pub fn new() -> (r: HabitStore)
        ensures
            r@ == Seq::<HabitView>::empty(),
            r.wf(),
    {
        let r = HabitStore { habits: Vec::new() };
        assert(r@ =~= Seq::<HabitView>::empty());
        r
    }

    /// The number of habits.
    pub fn len(&self) -> (r: usize)
        ensures
            r == self@.len(),
    {
        self.habits.len()
    }

    /// Where the habit with the id stands, if there is one.
    fn find(&self, id: &str) -> (r: Option<usize>)
        requires
            self.wf(),
        ensures
            r is Some <==> has_id(self@, id@),
            r is Some ==> r.unwrap() == index_of(self@, id@) && r.unwrap() < self.habits.len(),
    {
        let key = String::from_str(id);
        let mut i: usize = 0;
        while i < self.habits.len()
            invariant
                i <= self.habits.len(),
                key@ == id@,
                self.wf(),
                forall|j: int| 0 <= j < i ==> (#[trigger] self@[j]).id != id@,
            decreases self.habits.len() - i,
        {
            if self.habits[i].id == key {
                proof {
                    lemma_index_of(self@, id@, i as int);
                }
                return Some(i);
            }
            i = i + 1;
        }
        None
    }

    /// Whether a habit with the id is in the store.
    pub fn contains(&self, id: &str) -> (r: bool)
        requires
            self.wf(),
        ensures
            r == has_id(self@, id@),
    {
        self.find(id).is_some()
    }

    /// The listing entry of the habit with the id.
    pub fn lookup(&self, id: &str) -> (r: Result<HabitSummary, StoreError>)
        requires
            self.wf(),
        ensures
            summary_outcome(r) == lookup_result(self@, id@),
    {
        match self.find(id) {
            Some(i) => {
                let habit = &self.habits[i];
                assert(habit@ == self@[i as int]);
                Ok(
                    HabitSummary {
                        id: habit.id.clone(),
                        name: habit.name.clone(),
                        frequency: habit.frequency,
                        completions: habit.completions.len(),
                    },
                )
            },
            None => Err(StoreError::NotFound(String::from_str(id))),
        }
    }

    /// Adds a habit whose name is trimmed and whose id and frequency have
    /// been worked out. The checks come in a fixed order: the name must not
    /// be empty, the id must not be empty, no habit may have the id, and a
    /// frequency must have been read. The new habit stands last and has no
    /// completion. Where a check fails the store stays as it was.
    pub fn add_entry(&mut self, name: &str, id: String, frequency: Option<FrequencyHabit>) -> (r:
        Result<HabitSummary, StoreError>)
        requires
            old(self).wf(),
        ensures
            final(self).wf(),
            summary_outcome(r) == add_result(old(self)@, name@, id@, frequency),
            final(self)@ == after_add(old(self)@, name@, id@, frequency),
    {
        if name.is_empty() {
            return Err(StoreError::EmptyName);
        }
        if id.as_str().is_empty() {
            return Err(StoreError::EmptyId);
        }
        if self.find(id.as_str()).is_some() {
            return Err(StoreError::DuplicateId(id));
        }
        let frequency = match frequency {
            Some(f) => f,
            None => {
                return Err(StoreError::InvalidFrequency);
            },
        };
        let summary = HabitSummary {
            id: id.clone(),
            name: String::from_str(name),
            frequency,
            completions: 0,
        };
        let habit = Habit {
            id,
            name: String::from_str(name),
            frequency,
            completions: Vec::new(),
        };
        self.habits.push(habit);
        proof {
            let added = fresh_habit(name@, id@, frequency);
            assert(final(self)@ =~= old(self)@.push(added));
            assert forall|i: int, j: int| 0 <= i < j < self@.len() implies (#[trigger] self@[i]).id
                != (#[trigger] self@[j]).id by {
                if j == self@.len() - 1 {
                    assert(old(self)@[i].id != id@);
                }
            }
        }
        Ok(summary)
    }

    /// Adds a habit named `name`, to be done as often as `frequency_text`
    /// says. The name is trimmed, its id is the slug of the lower-cased
    /// name, and the frequency is read without regard to case.
    pub fn add_habit(&mut self, name: &str, frequency_text: &str) -> (r: Result<
        HabitSummary,
        StoreError,
    >)
        requires
            old(self).wf(),
        ensures
            final(self).wf(),
            summary_outcome(r) == add_result(
                old(self)@,
                trimmed(name@),
                id_of(trimmed(name@)),
                FrequencyHabit::of_word(lowercase_of(frequency_text@)),
            ),
            final(self)@ == after_add(
                old(self)@,
                trimmed(name@),
                id_of(trimmed(name@)),
                FrequencyHabit::of_word(lowercase_of(frequency_text@)),
            ),
    {
        let name = trim(name);
        let id = make_id(name);
        let frequency = FrequencyHabit::from_str(frequency_text);
        self.add_entry(name, id, frequency)
    }

    /// Removes the habit with the id, and with it all its completions. The
    /// other habits keep their order. The answer tells what was removed.
    pub fn remove_habit(&mut self, id: &str) -> (r: Result<HabitSummary, StoreError>)
        requires
            old(self).wf(),
        ensures
            final(self).wf(),
            summary_outcome(r) == remove_result(old(self)@, id@),
            final(self)@ == after_remove(old(self)@, id@),
    {
        let i = match self.find(id) {
            Some(i) => i,
            None => {
                return Err(StoreError::NotFound(String::from_str(id)));
            },
        };
        let habit = self.habits.remove(i);
        proof {
            assert(habit@ == old(self)@[i as int]);
            assert(final(self)@ =~= old(self)@.remove(i as int));
            assert forall|a: int, b: int| 0 <= a < b < self@.len() implies (#[trigger] self@[a]).id
                != (#[trigger] self@[b]).id by {
                let a0 = if a < i { a } else { a + 1 };
                let b0 = if b < i { b } else { b + 1 };
                assert(self@[a] == old(self)@[a0]);
                assert(self@[b] == old(self)@[b0]);
            }
            assert forall|a: int| 0 <= a < self@.len() implies {
                &&& (#[trigger] self@[a]).id.len() > 0
                &&& self@[a].name.len() > 0
                &&& ascending(self@[a].completions)
            } by {
                let a0 = if a < i { a } else { a + 1 };
                assert(self@[a] == old(self)@[a0]);
            }
        }
        Ok(
            HabitSummary {
                id: habit.id,
                name: habit.name,
                frequency: habit.frequency,
                completions: habit.completions.len(),
            },
        )
    }

    /// Records that the habit with the id was done on `date`. The date takes
    /// its chronological place among the habit's completions; a date that is
    /// there already is refused. Where the call fails the store stays as it
    /// was.
    pub fn record_completion(&mut self, id: &str, date: Date) -> (r: Result<Completion, StoreError>)
        requires
            old(self).wf(),
        ensures
            final(self).wf(),
            completion_outcome(r) == record_result(old(self)@, id@, date),
            final(self)@ == after_record(old(self)@, id@, date),
    {
        let i = match self.find(id) {
            Some(i) => i,
            None => {
                return Err(StoreError::NotFound(String::from_str(id)));
            },
        };
        let ghost dates = self.habits@[i as int].completions@;
        assert(dates == self@[i as int].completions);
        let n = self.habits[i].completions.len();
        let mut k: usize = 0;
        while k < n && self.habits[i].completions[k].is_before(&date)
            invariant
                i < self.habits.len(),
                dates == self.habits@[i as int].completions@,
                n == dates.len(),
                k <= n,
                forall|j: int| 0 <= j < k ==> dates[j].before(date),
            decreases n - k,
        {
            k = k + 1;
        }
        proof {
            lemma_rank_splits(dates, date);
            if k > 0 {
                assert(dates[k - 1].before(date));
            }
            assert(rank(dates, date) == k);
            if dates.contains(date) {
                let j = choose|j: int| 0 <= j < dates.len() && dates[j] == date;
                if j > k {
                    assert(dates[k as int].before(dates[j]));
                }
                assert(j == k);
            }
        }
        if k < n && self.habits[i].completions[k] == date {
            return Err(StoreError::AlreadyChecked(date));
        }
        self.habits[i].completions.insert(k, date);
        let done = Completion {
            id: self.habits[i].id.clone(),
            name: self.habits[i].name.clone(),
            date,
        };
        proof {
            lemma_with_date(dates, date);
            let before = old(self)@[i as int];
            let after = HabitView { completions: with_date(dates, date), ..before };
            assert(self@[i as int] == after);
            assert(final(self)@ =~= old(self)@.update(i as int, after));
        }
        Ok(done)
    }

    /// Checks off the habit with the id for the date written in
    /// `date_text`, or for `today` where nothing is written. An unknown id
    /// is reported before a date that cannot be read.
    pub fn check_habit_on(&mut self, id: &str, date_text: &str, today: Date) -> (r: Result<
        Completion,
        StoreError,
    >)
        requires
            old(self).wf(),
        ensures
            final(self).wf(),
            completion_outcome(r) == check_result(
                old(self)@,
                id@,
                date_meant(date_text@, today),
            ),
            final(self)@ == after_check(old(self)@, id@, date_meant(date_text@, today)),
    {
        if self.find(id).is_none() {
            return Err(StoreError::NotFound(String::from_str(id)));
        }
        let date = if date_text.is_empty() {
            today
        } else {
            match Date::parse(date_text) {
                Some(date) => date,
                None => {
                    return Err(StoreError::InvalidDate);
                },
            }
        };
        self.record_completion(id, date)
    }

    /// Checks off the habit with the id for the date written in
    /// `date_text`, or for the local calendar date of this instant where
    /// nothing is written. The clock is read only then, and only for a
    /// habit that exists; which date it gives is not known beforehand, so
    /// the contract says for a blank text that the call went as
    /// `check_habit_on` goes for some date.
    pub fn check_habit(&mut self, id: &str, date_text: &str) -> (r: Result<Completion, StoreError>)
        requires
            old(self).wf(),
        ensures
            final(self).wf(),
            !has_id(old(self)@, id@) ==> completion_outcome(r) == Err::<CompletionView, ErrorView>(
                ErrorView::NotFound(id@),
            ) && final(self)@ == old(self)@,
            date_text@.len() > 0 ==> {
                &&& completion_outcome(r) == check_result(
                    old(self)@,
                    id@,
                    Date::parsed(date_text@),
                )
                &&& final(self)@ == after_check(old(self)@, id@, Date::parsed(date_text@))
            },
            date_text@.len() == 0 && has_id(old(self)@, id@) ==> exists|today: Date|
                {
                    &&& completion_outcome(r) == #[trigger] record_result(old(self)@, id@, today)
                    &&& final(self)@ == after_record(old(self)@, id@, today)
                },
    {
        if self.find(id).is_none() {
            return Err(StoreError::NotFound(String::from_str(id)));
        }
        let date = if date_text.is_empty() {
            local_today()
        } else {
            match Date::parse(date_text) {
                Some(date) => date,
                None => {
                    return Err(StoreError::InvalidDate);
                },
            }
        };
        self.record_completion(id, date)
    }

    /// The dates on which the habit with the id was done, in chronological
    /// order. A habit that was never done has an empty history.
    pub fn history(&self, id: &str) -> (r: Result<Vec<Date>, StoreError>)
        requires
            self.wf(),
        ensures
            history_outcome(r) == history_result(self@, id@),
            r is Ok ==> ascending(r.unwrap()@),
    {
        let i = match self.find(id) {
            Some(i) => i,
            None => {
                return Err(StoreError::NotFound(String::from_str(id)));
            },
        };
        let source = &self.habits[i].completions;
        let mut dates: Vec<Date> = Vec::new();
        let mut k: usize = 0;
        while k < source.len()
            invariant
                k <= source.len(),
                dates@ == source@.subrange(0, k as int),
            decreases source.len() - k,
        {
            dates.push(source[k]);
            k = k + 1;
            proof {
                assert(dates@ =~= source@.subrange(0, k as int));
            }
        }
        proof {
            assert(dates@ =~= source@);
            assert(source@ == self@[i as int].completions);
        }
        Ok(dates)
    }

    /// All habits in the order in which they were added, each with its id,
    /// name, frequency and number of completions.
    pub fn list_habits(&self) -> (r: Vec<HabitSummary>)
        ensures
            listing_view(r@) == summaries(self@),
    {
        let mut listing: Vec<HabitSummary> = Vec::new();
        let mut i: usize = 0;
        while i < self.habits.len()
            invariant
                i <= self.habits.len(),
                listing@.len() == i,
                forall|j: int| 0 <= j < i ==> (#[trigger] listing@[j])@ == summary_of(self@[j]),
            decreases self.habits.len() - i,
        {
            let habit = &self.habits[i];
            listing.push(
                HabitSummary {
                    id: habit.id.clone(),
                    name: habit.name.clone(),
                    frequency: habit.frequency,
                    completions: habit.completions.len(),
                },
            );
            i = i + 1;
        }
        proof {
            assert(listing_view(listing@) =~= summaries(self@));
        }
        listing
    }
}

} // verus!
