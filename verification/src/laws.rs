//! What follows from the contracts of the store's operations when several
//! of them are made in a row. Each law is stated over the model that the
//! contracts use, and holds of every well-formed store.

use crate::date::Date;
use crate::frequency::FrequencyHabit;
use crate::model::add_result;
use crate::model::after_add;
use crate::model::after_record;
use crate::model::after_remove;
use crate::model::ascending;
use crate::model::after_check;
use crate::model::check_result;
use crate::model::fresh_habit;
use crate::model::has_id;
use crate::model::history_result;
use crate::model::index_of;
use crate::model::lemma_index_of;
use crate::model::lemma_with_date;
use crate::model::record_result;
use crate::model::remove_result;
use crate::model::summaries;
use crate::model::summary_of;
use crate::model::well_formed;
use crate::model::with_date;
use crate::model::CompletionView;
use crate::model::ErrorView;
use crate::model::HabitView;
use crate::model::SummaryView;
use vstd::prelude::*;

verus! {

/// Every operation keeps a well-formed store well-formed.
pub proof fn lemma_operations_keep_well_formed(
    store: Seq<HabitView>,
    name: Seq<char>,
    id: Seq<char>,
    frequency: Option<FrequencyHabit>,
    date: Date,
)
    requires
        well_formed(store),
    ensures
        well_formed(after_add(store, name, id, frequency)),
        well_formed(after_remove(store, id)),
        well_formed(after_record(store, id, date)),
{
    let added = after_add(store, name, id, frequency);
    if add_result(store, name, id, frequency) is Ok {
        assert forall|i: int, j: int| 0 <= i < j < added.len() implies (#[trigger] added[i]).id != (
        #[trigger] added[j]).id by {
            if j == added.len() - 1 {
                assert(store[i].id != id);
            }
        }
    }
    let removed = after_remove(store, id);
    if has_id(store, id) {
        let at = index_of(store, id);
        assert forall|a: int| 0 <= a < removed.len() implies {
            &&& (#[trigger] removed[a]).id.len() > 0
            &&& removed[a].name.len() > 0
            &&& ascending(removed[a].completions)
        } by {
            let a0 = if a < at { a } else { a + 1 };
            assert(removed[a] == store[a0]);
        }
        assert forall|a: int, b: int| 0 <= a < b < removed.len() implies (#[trigger] removed[a]).id
            != (#[trigger] removed[b]).id by {
            let a0 = if a < at { a } else { a + 1 };
            let b0 = if b < at { b } else { b + 1 };
            assert(removed[a] == store[a0]);
            assert(removed[b] == store[b0]);
        }
    }
    let recorded = after_record(store, id, date);
    if record_result(store, id, date) is Ok {
        let at = index_of(store, id);
        lemma_with_date(store[at].completions, date);
        assert forall|a: int| 0 <= a < recorded.len() implies {
            &&& (#[trigger] recorded[a]).id.len() > 0
            &&& recorded[a].name.len() > 0
            &&& ascending(recorded[a].completions)
        } by {
            if a != at {
                assert(recorded[a] == store[a]);
            }
        }
        assert forall|a: int, b: int| 0 <= a < b < recorded.len() implies (
        #[trigger] recorded[a]).id != (#[trigger] recorded[b]).id by {
            assert(recorded[a].id == store[a].id);
            assert(recorded[b].id == store[b].id);
        }
    }
}

/// A call that fails changes nothing.
pub proof fn lemma_failure_changes_nothing(
    store: Seq<HabitView>,
    name: Seq<char>,
    id: Seq<char>,
    frequency: Option<FrequencyHabit>,
    date: Option<Date>,
)
    ensures
        add_result(store, name, id, frequency) is Err ==> after_add(store, name, id, frequency)
            == store,
        remove_result(store, id) is Err ==> after_remove(store, id) == store,
        check_result(store, id, date) is Err ==> after_check(store, id, date) == store,
{
}

/// Once a habit is added, a second habit whose name gives the same id is
/// refused as a duplicate, whatever its name and frequency, and the store
/// keeps its size. The second name is one that is not empty once trimmed:
/// an empty one is refused for being empty before its id is looked at.
pub proof fn lemma_second_add_is_duplicate(
    store: Seq<HabitView>,
    name: Seq<char>,
    id: Seq<char>,
    frequency: Option<FrequencyHabit>,
    other_name: Seq<char>,
    other_frequency: Option<FrequencyHabit>,
)
    requires
        well_formed(store),
        add_result(store, name, id, frequency) is Ok,
        other_name.len() > 0,
    ensures
        add_result(after_add(store, name, id, frequency), other_name, id, other_frequency) == Err::<
            SummaryView,
            ErrorView,
        >(ErrorView::DuplicateId(id)),
        after_add(after_add(store, name, id, frequency), other_name, id, other_frequency)
            == after_add(store, name, id, frequency),
        after_add(store, name, id, frequency).len() == store.len() + 1,
{
    let first = after_add(store, name, id, frequency);
    assert(first[store.len() as int].id == id);
}

/// The id of a habit that was removed is free again: a habit with that id
/// can be added, under any name that is not empty and with any frequency,
/// and gets that id.
pub proof fn lemma_removed_id_is_free(
    store: Seq<HabitView>,
    id: Seq<char>,
    name: Seq<char>,
    frequency: FrequencyHabit,
)
    requires
        well_formed(store),
        remove_result(store, id) is Ok,
        name.len() > 0,
    ensures
        !has_id(after_remove(store, id), id),
        add_result(after_remove(store, id), name, id, Some(frequency)) == Ok::<
            SummaryView,
            ErrorView,
        >(summary_of(fresh_habit(name, id, frequency))),
        after_add(after_remove(store, id), name, id, Some(frequency)) == after_remove(
            store,
            id,
        ).push(fresh_habit(name, id, frequency)),
{
    let at = index_of(store, id);
    let rest = after_remove(store, id);
    assert(store[at].id.len() > 0);
    if has_id(rest, id) {
        let j = index_of(rest, id);
        let j0 = if j < at { j } else { j + 1 };
        assert(rest[j] == store[j0]);
        if j0 < at {
            assert(store[j0].id != store[at].id);
        } else {
            assert(store[at].id != store[j0].id);
        }
    }
}

/// Removing a habit takes it out with all its completions: the store is
/// one habit shorter and no habit has the id any more.
pub proof fn lemma_remove_takes_one(store: Seq<HabitView>, id: Seq<char>)
    requires
        well_formed(store),
        has_id(store, id),
    ensures
        after_remove(store, id).len() == store.len() - 1,
        !has_id(after_remove(store, id), id),
{
    let at = index_of(store, id);
    let rest = after_remove(store, id);
    if has_id(rest, id) {
        let j = index_of(rest, id);
        let j0 = if j < at { j } else { j + 1 };
        assert(rest[j] == store[j0]);
        lemma_index_of(store, id, j0);
    }
}

/// Removing a habit leaves every other habit in the store, as it was.
pub proof fn lemma_remove_keeps_others(store: Seq<HabitView>, id: Seq<char>, other: Seq<char>)
    requires
        well_formed(store),
        has_id(store, id),
        other != id,
    ensures
        has_id(after_remove(store, id), other) <==> has_id(store, other),
        has_id(store, other) ==> after_remove(store, id)[index_of(after_remove(store, id), other)]
            == store[index_of(store, other)],
{
    let at = index_of(store, id);
    let rest = after_remove(store, id);
    if has_id(rest, other) {
        let j = index_of(rest, other);
        let j0 = if j < at { j } else { j + 1 };
        assert(rest[j] == store[j0]);
        lemma_index_of(store, other, j0);
    }
    if has_id(store, other) {
        let j0 = index_of(store, other);
        let j = if j0 < at { j0 } else { j0 - 1 };
        assert(rest[j] == store[j0]);
        assert(has_id(rest, other));
    }
}

/// A date that was recorded for a habit is refused when it is recorded for
/// that habit again, and the habit's completions stay as they were: the
/// date is among them once.
pub proof fn lemma_second_record_is_refused(store: Seq<HabitView>, id: Seq<char>, date: Date)
    requires
        well_formed(store),
        record_result(store, id, date) is Ok,
    ensures
        record_result(after_record(store, id, date), id, date) == Err::<
            CompletionView,
            ErrorView,
        >(ErrorView::AlreadyChecked(date)),
        after_record(after_record(store, id, date), id, date) == after_record(store, id, date),
        history_result(after_record(store, id, date), id) == Ok::<Seq<Date>, ErrorView>(
            with_date(store[index_of(store, id)].completions, date),
        ),
        with_date(store[index_of(store, id)].completions, date).len() == store[index_of(
            store,
            id,
        )].completions.len() + 1,
{
    let at = index_of(store, id);
    let next = after_record(store, id, date);
    lemma_operations_keep_well_formed(store, id, id, None, date);
    lemma_with_date(store[at].completions, date);
    assert(next[at].id == id);
    lemma_index_of(next, id, at);
}

/// Recording a completion for an id that no habit has is refused as not
/// found, and changes no habit.
pub proof fn lemma_record_unknown_id(store: Seq<HabitView>, id: Seq<char>, date: Option<Date>)
    requires
        !has_id(store, id),
    ensures
        check_result(store, id, date) == Err::<CompletionView, ErrorView>(
            ErrorView::NotFound(id),
        ),
        after_check(store, id, date) == store,
{
}

/// A history is in chronological order whatever the order in which its dates
/// were recorded: two new dates give the same completions either way round.
pub proof fn lemma_record_order_is_irrelevant(
    store: Seq<HabitView>,
    id: Seq<char>,
    first: Date,
    second: Date,
)
    requires
        well_formed(store),
        has_id(store, id),
        first != second,
        !store[index_of(store, id)].completions.contains(first),
        !store[index_of(store, id)].completions.contains(second),
    ensures
        after_record(after_record(store, id, first), id, second) == after_record(
            after_record(store, id, second),
            id,
            first,
        ),
        ascending(
            after_record(after_record(store, id, first), id, second)[index_of(
                store,
                id,
            )].completions,
        ),
{
    let at = index_of(store, id);
    let dates = store[at].completions;
    let one = after_record(store, id, first);
    let two = after_record(store, id, second);
    lemma_with_date(dates, first);
    lemma_with_date(dates, second);
    assert(one[at].id == id);
    assert(two[at].id == id);
    lemma_operations_keep_well_formed(store, id, id, None, first);
    lemma_operations_keep_well_formed(store, id, id, None, second);
    lemma_index_of(one, id, at);
    lemma_index_of(two, id, at);
    let a = with_date(with_date(dates, first), second);
    let b = with_date(with_date(dates, second), first);
    lemma_with_date(with_date(dates, first), second);
    lemma_with_date(with_date(dates, second), first);
    assert forall|d: Date| a.contains(d) <==> b.contains(d) by {
        assert(a.contains(d) <==> (d == second || with_date(dates, first).contains(d)));
        assert(b.contains(d) <==> (d == first || with_date(dates, second).contains(d)));
    }
    lemma_ascending_is_unique(a, b);
    assert(after_record(one, id, second) =~= after_record(two, id, first));
}

/// Two ascending sequences that hold the same dates are the same sequence.
pub proof fn lemma_ascending_is_unique(a: Seq<Date>, b: Seq<Date>)
    requires
        ascending(a),
        ascending(b),
        forall|d: Date| a.contains(d) <==> b.contains(d),
    ensures
        a == b,
    decreases a.len(),
{
    if a.len() == 0 {
        if b.len() > 0 {
            assert(b.contains(b[0]));
        }
        assert(a =~= b);
    } else {
        assert(a.contains(a.last()));
        assert(b.len() > 0);
        assert(b.contains(b.last()));
        // the two last dates are the latest of the same set
        let x = a.last();
        let y = b.last();
        let i = choose|i: int| 0 <= i < b.len() && b[i] == x;
        let j = choose|j: int| 0 <= j < a.len() && a[j] == y;
        if i < b.len() - 1 {
            assert(b[i].before(y));
        }
        if j < a.len() - 1 {
            assert(a[j].before(x));
        }
        Date::lemma_before_is_total(x, y);
        assert(x == y);
        let a0 = a.drop_last();
        let b0 = b.drop_last();
        assert forall|d: Date| a0.contains(d) <==> b0.contains(d) by {
            if a0.contains(d) {
                let k = choose|k: int| 0 <= k < a0.len() && a0[k] == d;
                assert(a[k] == d);
                assert(a[k].before(x));
                assert(a.contains(d));
                let m = choose|m: int| 0 <= m < b.len() && b[m] == d;
                Date::lemma_before_is_total(d, x);
                assert(m < b.len() - 1);
                assert(b0[m] == d);
            }
            if b0.contains(d) {
                let k = choose|k: int| 0 <= k < b0.len() && b0[k] == d;
                assert(b[k] == d);
                assert(b[k].before(y));
                assert(b.contains(d));
                let m = choose|m: int| 0 <= m < a.len() && a[m] == d;
                Date::lemma_before_is_total(d, y);
                assert(m < a.len() - 1);
                assert(a0[m] == d);
            }
        }
        assert forall|p: int, q: int| 0 <= p < q < a0.len() implies a0[p].before(a0[q]) by {
            assert(a[p].before(a[q]));
        }
        assert forall|p: int, q: int| 0 <= p < q < b0.len() implies b0[p].before(b0[q]) by {
            assert(b[p].before(b[q]));
        }
        lemma_ascending_is_unique(a0, b0);
        assert(a =~= a0.push(x));
        assert(b =~= b0.push(y));
    }
}

/// An empty store lists nothing, and adding a habit adds its entry at the
/// end of the listing, with no completion, and leaves the entries before it
/// as they were.
pub proof fn lemma_listing_follows_additions(
    store: Seq<HabitView>,
    name: Seq<char>,
    id: Seq<char>,
    frequency: Option<FrequencyHabit>,
)
    requires
        add_result(store, name, id, frequency) is Ok,
    ensures
        summaries(Seq::<HabitView>::empty()) == Seq::<SummaryView>::empty(),
        summaries(after_add(store, name, id, frequency)) == summaries(store).push(
            SummaryView { id, name, frequency: frequency.unwrap(), completions: 0 },
        ),
{
    assert(summaries(Seq::<HabitView>::empty()) =~= Seq::<SummaryView>::empty());
    assert(summaries(after_add(store, name, id, frequency)) =~= summaries(store).push(
        SummaryView { id, name, frequency: frequency.unwrap(), completions: 0 },
    ));
}

/// Recording a completion raises the count that the listing shows for that
/// habit by one and leaves every other entry as it was.
pub proof fn lemma_listing_counts_completions(store: Seq<HabitView>, id: Seq<char>, date: Date)
    requires
        well_formed(store),
        record_result(store, id, date) is Ok,
    ensures
        summaries(after_record(store, id, date)) == summaries(store).update(
            index_of(store, id),
            SummaryView {
                completions: summaries(store)[index_of(store, id)].completions + 1,
                ..summaries(store)[index_of(store, id)]
            },
        ),
{
    let at = index_of(store, id);
    lemma_with_date(store[at].completions, date);
    assert(summaries(after_record(store, id, date)) =~= summaries(store).update(
        at,
        SummaryView { completions: summaries(store)[at].completions + 1, ..summaries(store)[at] },
    ));
}

} // verus!
