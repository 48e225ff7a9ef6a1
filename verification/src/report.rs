//! The line that tells the user how a command went. A line that reports
//! success begins with `OK:`, one that reports a failure with `ERR:`, and
//! each failure has a line of its own, with the id or date that it is about.

use crate::date::Date;
use crate::error::StoreError;
use crate::model::CompletionView;
use crate::model::ErrorView;
use crate::model::SummaryView;
use crate::store::listing_view;
use crate::store::Completion;
use crate::store::HabitSummary;
use crate::text::push_char;
use vstd::prelude::*;

verus! {

/// The character of a decimal digit.
pub open spec fn digit(d: nat) -> char {
    if d == 0 {
        '0'
    } else if d == 1 {
        '1'
    } else if d == 2 {
        '2'
    } else if d == 3 {
        '3'
    } else if d == 4 {
        '4'
    } else if d == 5 {
        '5'
    } else if d == 6 {
        '6'
    } else if d == 7 {
        '7'
    } else if d == 8 {
        '8'
    } else {
        '9'
    }
}

/// A number written in decimal, without leading zeros.
pub open spec fn decimal(n: nat) -> Seq<char>
    decreases n,
{
    if n < 10 {
        seq![digit(n)]
    } else {
        decimal(n / 10).push(digit(n % 10))
    }
}

/// The line for a failure.
pub open spec fn error_text(e: ErrorView) -> Seq<char> {
    match e {
        ErrorView::EmptyName => "ERR: Habit name cannot be empty."@,
        ErrorView::EmptyId => "ERR: Habit name produced an empty id. Use letters/numbers."@,
        ErrorView::DuplicateId(id) => "ERR: Habit already exists (id: "@ + id + ")."@,
        ErrorView::InvalidFrequency => "ERR: Invalid frequency. Use: daily, weekly or monthly."@,
        ErrorView::NotFound(id) => "ERR: Habit not found: "@ + id,
        ErrorView::InvalidDate => "ERR: Invalid date. Example: 2026-01-10"@,
        ErrorView::AlreadyChecked(date) => "ERR: Already checked for "@ + date.text(),
    }
}

/// The line for a line that names no command.
pub open spec fn unrecognized_text() -> Seq<char> {
    "ERR: Invalid option. Type 'help'."@
}

/// The line for a habit that was added.
pub open spec fn added_text(habit: SummaryView) -> Seq<char> {
    "OK: Added ["@ + habit.id + "] "@ + habit.name + " ("@ + habit.frequency.word() + ")"@
}

/// The line for a habit that was removed.
pub open spec fn removed_text(habit: SummaryView) -> Seq<char> {
    "OK: Removed ["@ + habit.id + "] "@ + habit.name
}

/// The line for a completion that was recorded.
pub open spec fn checked_text(done: CompletionView) -> Seq<char> {
    "OK: Checked ["@ + done.id + "] "@ + done.name + " ("@ + done.date.text() + ")"@
}

/// The lines that show a history: one line where there is no completion,
/// else a heading and one line for each date.
pub open spec fn history_text(habit: SummaryView, dates: Seq<Date>) -> Seq<Seq<char>> {
    if dates.len() == 0 {
        seq!["OK: No completions yet for ["@ + habit.id + "] "@ + habit.name + "."@]
    } else {
        seq!["History for ["@ + habit.id + "] "@ + habit.name + ":"@] + Seq::new(
            dates.len(),
            |i: int| " - "@ + dates[i].text(),
        )
    }
}

/// The line of the listing for the habit at `position`, counted from 1.
pub open spec fn listing_line(position: nat, habit: SummaryView) -> Seq<char> {
    decimal(position) + ": ["@ + habit.id + "] - "@ + habit.name + " - "@ + habit.frequency.word()
        + " - completions="@ + decimal(habit.completions)
}

/// The lines that show a listing: one line where there is no habit, else
/// one numbered line for each habit.
pub open spec fn listing_text(listing: Seq<SummaryView>) -> Seq<Seq<char>> {
    if listing.len() == 0 {
        seq!["OK: No habits yet. Use 'add'."@]
    } else {
        Seq::new(listing.len(), |i: int| listing_line((i + 1) as nat, listing[i]))
    }
}

/// Lines of text, as the contracts see them.
pub open spec fn lines_view(lines: Seq<String>) -> Seq<Seq<char>> {
    Seq::new(lines.len(), |i: int| lines[i]@)
}

/// The character of a decimal digit.
fn digit_char(d: usize) -> (r: char)
    requires
        d < 10,
    ensures
        r == digit(d as nat),
{
    if d == 0 {
        '0'
    } else if d == 1 {
        '1'
    } else if d == 2 {
        '2'
    } else if d == 3 {
        '3'
    } else if d == 4 {
        '4'
    } else if d == 5 {
        '5'
    } else if d == 6 {
        '6'
    } else if d == 7 {
        '7'
    } else if d == 8 {
        '8'
    } else {
        '9'
    }
}

/// Writes `n` in decimal behind what `out` holds.
pub fn push_decimal(out: &mut String, n: usize)
    ensures
        final(out)@ == old(out)@ + decimal(n as nat),
    decreases n,
{
    if n >= 10 {
        push_decimal(out, n / 10);
    }
    push_char(out, digit_char(n % 10));
    proof {
        if n >= 10 {
            assert(final(out)@ =~= old(out)@ + decimal((n / 10) as nat).push(
                digit((n % 10) as nat),
            ));
        } else {
            assert(final(out)@ =~= old(out)@ + seq![digit(n as nat)]);
        }
    }
}

/// The line that reports a failure.
pub fn error_message(e: &StoreError) -> (r: String)
    ensures
        r@ == error_text(e@),
{
    match e {
        StoreError::EmptyName => String::from_str("ERR: Habit name cannot be empty."),
        StoreError::EmptyId => String::from_str(
            "ERR: Habit name produced an empty id. Use letters/numbers.",
        ),
        StoreError::DuplicateId(id) => {
            let mut out = String::from_str("ERR: Habit already exists (id: ");
            out.append(id.as_str());
            out.append(").");
            out
        },
        StoreError::InvalidFrequency => String::from_str(
            "ERR: Invalid frequency. Use: daily, weekly or monthly.",
        ),
        StoreError::NotFound(id) => {
            let mut out = String::from_str("ERR: Habit not found: ");
            out.append(id.as_str());
            out
        },
        StoreError::InvalidDate => String::from_str("ERR: Invalid date. Example: 2026-01-10"),
        StoreError::AlreadyChecked(date) => {
            let mut out = String::from_str("ERR: Already checked for ");
            out.append(date.to_text().as_str());
            out
        },
    }
}

/// The line that reports a line that names no command.
pub fn unrecognized_message() -> (r: &'static str)
    ensures
        r@ == unrecognized_text(),
{
    "ERR: Invalid option. Type 'help'."
}

/// The line that reports a habit that was added.
pub fn added_message(habit: &HabitSummary) -> (r: String)
    ensures
        r@ == added_text(habit@),
{
    let mut out = String::from_str("OK: Added [");
    out.append(habit.id.as_str());
    out.append("] ");
    out.append(habit.name.as_str());
    out.append(" (");
    out.append(habit.frequency.as_str());
    out.append(")");
    out
}

/// The line that reports a habit that was removed.
pub fn removed_message(habit: &HabitSummary) -> (r: String)
    ensures
        r@ == removed_text(habit@),
{
    let mut out = String::from_str("OK: Removed [");
    out.append(habit.id.as_str());
    out.append("] ");
    out.append(habit.name.as_str());
    out
}

/// The line that reports a completion that was recorded.
pub fn checked_message(done: &Completion) -> (r: String)
    ensures
        r@ == checked_text(done@),
{
    let mut out = String::from_str("OK: Checked [");
    out.append(done.id.as_str());
    out.append("] ");
    out.append(done.name.as_str());
    out.append(" (");
    out.append(done.date.to_text().as_str());
    out.append(")");
    out
}

/// The lines that show the history of a habit.
pub fn history_lines(habit: &HabitSummary, dates: &Vec<Date>) -> (r: Vec<String>)
    ensures
        lines_view(r@) == history_text(habit@, dates@),
{
    let mut lines: Vec<String> = Vec::new();
    if dates.len() == 0 {
        let mut out = String::from_str("OK: No completions yet for [");
        out.append(habit.id.as_str());
        out.append("] ");
        out.append(habit.name.as_str());
        out.append(".");
        lines.push(out);
        proof {
            assert(lines_view(lines@) =~= history_text(habit@, dates@));
        }
        return lines;
    }
    let mut head = String::from_str("History for [");
    head.append(habit.id.as_str());
    head.append("] ");
    head.append(habit.name.as_str());
    head.append(":");
    lines.push(head);
    let mut i: usize = 0;
    while i < dates.len()
        invariant
            i <= dates.len(),
            lines@.len() == i + 1,
            lines@[0]@ == "History for ["@ + habit.id@ + "] "@ + habit.name@ + ":"@,
            forall|j: int| 0 <= j < i ==> (#[trigger] lines@[j + 1])@ == " - "@ + dates@[j].text(),
        decreases dates.len() - i,
    {
        let mut out = String::from_str(" - ");
        out.append(dates[i].to_text().as_str());
        lines.push(out);
        i = i + 1;
    }
    proof {
        let expected = history_text(habit@, dates@);
        assert forall|k: int| 0 <= k < expected.len() implies lines_view(lines@)[k]
            == expected[k] by {
            if k > 0 {
                assert(lines@[(k - 1) + 1]@ == " - "@ + dates@[k - 1].text());
            }
        }
        assert(lines_view(lines@) =~= expected);
    }
    lines
}

/// The lines that show a listing.
pub fn listing_lines(listing: &Vec<HabitSummary>) -> (r: Vec<String>)
    ensures
        lines_view(r@) == listing_text(listing_view(listing@)),
{
    let mut lines: Vec<String> = Vec::new();
    if listing.len() == 0 {
        lines.push(String::from_str("OK: No habits yet. Use 'add'."));
        proof {
            assert(lines_view(lines@) =~= listing_text(listing_view(listing@)));
        }
        return lines;
    }
    let mut i: usize = 0;
    while i < listing.len()
        invariant
            i <= listing.len(),
            lines@.len() == i,
            forall|j: int|
                0 <= j < i ==> (#[trigger] lines@[j])@ == listing_line(
                    (j + 1) as nat,
                    listing@[j]@,
                ),
        decreases listing.len() - i,
    {
        let habit = &listing[i];
        let mut out = String::new();
        push_decimal(&mut out, i + 1);
        out.append(": [");
        out.append(habit.id.as_str());
        out.append("] - ");
        out.append(habit.name.as_str());
        out.append(" - ");
        out.append(habit.frequency.as_str());
        out.append(" - completions=");
        push_decimal(&mut out, habit.completions);
        proof {
            assert(Seq::<char>::empty() + decimal((i + 1) as nat) =~= decimal((i + 1) as nat));
        }
        lines.push(out);
        i = i + 1;
    }
    proof {
        assert(lines_view(lines@) =~= listing_text(listing_view(listing@)));
    }
    lines
}

} // verus!
