//! The identifier normalizer: from a free-text name to the slug that serves
//! as a habit's id.
//!
//! A lower-cased name has its accented Latin letters folded to their base
//! letter, every run of other characters collapsed into one hyphen, and the
//! hyphens at both ends removed.

use crate::text::is_ascii_capital;
use crate::text::lowercase_of;
use crate::text::push_char;
use crate::text::to_lowercase;
use vstd::prelude::*;

verus! {

/// The accented vowels, n with tilde and c with cedilla lose their mark;
/// every other character stays as it is.
pub open spec fn fold_accent(c: char) -> char {
    if c == '\u{e1}' || c == '\u{e0}' || c == '\u{e4}' || c == '\u{e2}' {
        'a'
    } else if c == '\u{e9}' || c == '\u{e8}' || c == '\u{eb}' || c == '\u{ea}' {
        'e'
    } else if c == '\u{ed}' || c == '\u{ec}' || c == '\u{ef}' || c == '\u{ee}' {
        'i'
    } else if c == '\u{f3}' || c == '\u{f2}' || c == '\u{f6}' || c == '\u{f4}' {
        'o'
    } else if c == '\u{fa}' || c == '\u{f9}' || c == '\u{fc}' || c == '\u{fb}' {
        'u'
    } else if c == '\u{f1}' {
        'n'
    } else if c == '\u{e7}' {
        'c'
    } else {
        c
    }
}

/// An ASCII letter or digit.
pub open spec fn is_ascii_alphanumeric(c: char) -> bool {
    ('a' <= c <= 'z') || ('A' <= c <= 'Z') || ('0' <= c <= '9')
}

/// A small ASCII letter or a digit: what an id is made of, besides hyphens.
pub open spec fn is_slug_char(c: char) -> bool {
    ('a' <= c <= 'z') || ('0' <= c <= '9')
}

/// Whether some character of `text` is a letter or digit once folded.
pub open spec fn has_alphanumeric(text: Seq<char>) -> bool {
    exists|i: int| 0 <= i < text.len() && is_ascii_alphanumeric(fold_accent(#[trigger] text[i]))
}

/// Whether no character of `text` is an ASCII capital letter.
pub open spec fn has_no_capital(text: Seq<char>) -> bool {
    forall|i: int| 0 <= i < text.len() ==> !is_ascii_capital(#[trigger] text[i])
}

/// `text` with its accents folded, its letters and digits kept, and every
/// run of other characters replaced by one hyphen.
pub open spec fn collapsed(text: Seq<char>) -> Seq<char>
    decreases text.len(),
{
    if text.len() == 0 {
        Seq::empty()
    } else {
        let head = collapsed(text.drop_last());
        let c = fold_accent(text.last());
        if is_ascii_alphanumeric(c) {
            head.push(c)
        } else if head.len() > 0 && head.last() == '-' {
            head
        } else {
            head.push('-')
        }
    }
}

/// The number of hyphens that `s` begins with.
pub open spec fn leading_dashes(s: Seq<char>) -> nat
    decreases s.len(),
{
    if s.len() > 0 && s[0] == '-' {
        1 + leading_dashes(s.drop_first())
    } else {
        0
    }
}

/// The number of hyphens that `s` ends with.
pub open spec fn trailing_dashes(s: Seq<char>) -> nat
    decreases s.len(),
{
    if s.len() > 0 && s.last() == '-' {
        1 + trailing_dashes(s.drop_last())
    } else {
        0
    }
}

/// `s` without the hyphens at its two ends.
pub open spec fn trim_dashes(s: Seq<char>) -> Seq<char> {
    if leading_dashes(s) == s.len() {
        Seq::empty()
    } else {
        s.subrange(leading_dashes(s) as int, s.len() - trailing_dashes(s))
    }
}

/// The slug of a lower-cased name.
pub open spec fn slug(text: Seq<char>) -> Seq<char> {
    trim_dashes(collapsed(text))
}

/// The id that a name gets: the slug of its lower-case equivalent.
pub open spec fn id_of(name: Seq<char>) -> Seq<char> {
    slug(lowercase_of(name))
}

/// Whether the hyphens of `s` stand alone and inside: none at either end,
/// no two in a row.
pub open spec fn hyphens_are_inner(s: Seq<char>) -> bool {
    &&& s.len() > 0 ==> s[0] != '-' && s.last() != '-'
    &&& forall|i: int| 0 <= i < s.len() - 1 ==> !(#[trigger] s[i] == '-' && s[i + 1] == '-')
}

/// Whether `s` has the form of an id: small letters, digits and single
/// inner hyphens. The empty text has that form too.
pub open spec fn is_slug(s: Seq<char>) -> bool {
    &&& forall|i: int| 0 <= i < s.len() ==> is_slug_char(#[trigger] s[i]) || s[i] == '-'
    &&& hyphens_are_inner(s)
}

/// What the collapsing step leaves: letters, digits and hyphens, never two
/// hyphens in a row, and no capital letter where the text had none.
pub proof fn lemma_collapsed_shape(text: Seq<char>)
    ensures
        forall|i: int|
            0 <= i < collapsed(text).len() ==> is_ascii_alphanumeric(
                #[trigger] collapsed(text)[i],
            ) || collapsed(text)[i] == '-',
        forall|i: int|
            0 <= i < collapsed(text).len() - 1 ==> !(#[trigger] collapsed(text)[i] == '-'
                && collapsed(text)[i + 1] == '-'),
        has_no_capital(text) ==> has_no_capital(collapsed(text)),
        collapsed(text).len() <= text.len(),
    decreases text.len(),
{
    if text.len() > 0 {
        let front = text.drop_last();
        lemma_collapsed_shape(front);
        if has_no_capital(text) {
            assert forall|i: int| 0 <= i < front.len() implies !is_ascii_capital(
                #[trigger] front[i],
            ) by {
                assert(front[i] == text[i]);
            }
            assert(!is_ascii_capital(text[text.len() - 1]));
        }
    }
}

/// The collapsing step keeps a letter or digit exactly where the text has
/// one.
pub proof fn lemma_collapsed_keeps_alphanumerics(text: Seq<char>)
    ensures
        has_alphanumeric(text) <==> exists|i: int|
            0 <= i < collapsed(text).len() && is_ascii_alphanumeric(#[trigger] collapsed(text)[i]),
    decreases text.len(),
{
    let out = collapsed(text);
    if text.len() > 0 {
        let front = text.drop_last();
        let head = collapsed(front);
        let c = fold_accent(text.last());
        lemma_collapsed_keeps_alphanumerics(front);
        if has_alphanumeric(text) {
            let j = choose|j: int|
                0 <= j < text.len() && is_ascii_alphanumeric(fold_accent(#[trigger] text[j]));
            if j < text.len() - 1 {
                assert(front[j] == text[j]);
                assert(has_alphanumeric(front));
                let k = choose|k: int|
                    0 <= k < head.len() && is_ascii_alphanumeric(#[trigger] head[k]);
                assert(out[k] == head[k]);
            } else {
                assert(out.last() == c);
                assert(is_ascii_alphanumeric(out[out.len() - 1]));
            }
        }
        if exists|i: int| 0 <= i < out.len() && is_ascii_alphanumeric(#[trigger] out[i]) {
            let k = choose|k: int| 0 <= k < out.len() && is_ascii_alphanumeric(#[trigger] out[k]);
            if k < head.len() {
                assert(head[k] == out[k]);
                assert(has_alphanumeric(front));
                let j = choose|j: int|
                    0 <= j < front.len() && is_ascii_alphanumeric(fold_accent(#[trigger] front[j]));
                assert(text[j] == front[j]);
            } else {
                assert(is_ascii_alphanumeric(fold_accent(text[text.len() - 1])));
            }
        }
    }
}

/// The leading hyphens are a prefix of hyphens that cannot be made longer.
pub proof fn lemma_leading_dashes(s: Seq<char>)
    ensures
        leading_dashes(s) <= s.len(),
        forall|i: int| 0 <= i < leading_dashes(s) ==> s[i] == '-',
        leading_dashes(s) < s.len() ==> s[leading_dashes(s) as int] != '-',
    decreases s.len(),
{
    if s.len() > 0 && s[0] == '-' {
        let rest = s.drop_first();
        lemma_leading_dashes(rest);
        assert forall|i: int| 0 <= i < leading_dashes(s) implies s[i] == '-' by {
            if i > 0 {
                assert(s[i] == rest[i - 1]);
            }
        }
        if leading_dashes(s) < s.len() {
            assert(s[leading_dashes(s) as int] == rest[leading_dashes(rest) as int]);
        }
    }
}

/// The trailing hyphens are a suffix of hyphens that cannot be made longer.
pub proof fn lemma_trailing_dashes(s: Seq<char>)
    ensures
        trailing_dashes(s) <= s.len(),
        forall|i: int| s.len() - trailing_dashes(s) <= i < s.len() ==> s[i] == '-',
        trailing_dashes(s) < s.len() ==> s[s.len() - trailing_dashes(s) - 1] != '-',
    decreases s.len(),
{
    if s.len() > 0 && s.last() == '-' {
        let rest = s.drop_last();
        lemma_trailing_dashes(rest);
        assert forall|i: int| s.len() - trailing_dashes(s) <= i < s.len() implies s[i] == '-' by {
            if i < s.len() - 1 {
                assert(s[i] == rest[i]);
            }
        }
        if trailing_dashes(s) < s.len() {
            assert(s[s.len() - trailing_dashes(s) - 1] == rest[rest.len() - trailing_dashes(rest)
                - 1]);
        }
    }
}

/// Trimming cuts out the stretch between the first and the last character
/// that is no hyphen.
pub proof fn lemma_trim_dashes_is_subrange(s: Seq<char>, start: int, end: int)
    requires
        0 <= start <= end <= s.len(),
        forall|i: int| 0 <= i < start ==> s[i] == '-',
        forall|i: int| end <= i < s.len() ==> s[i] == '-',
        start < end ==> s[start] != '-' && s[end - 1] != '-',
        start == end ==> start == s.len(),
    ensures
        trim_dashes(s) == s.subrange(start, end),
{
    lemma_leading_dashes(s);
    lemma_trailing_dashes(s);
    let a = leading_dashes(s) as int;
    let t = trailing_dashes(s) as int;
    if start < end {
        assert(a == start) by {
            if a < start {
                assert(s[a] == '-');
            }
            if a > start {
                assert(s[start] == '-');
            }
        }
        assert(s.len() - t == end) by {
            if s.len() - t < end {
                assert(s[end - 1] == '-');
            }
            if s.len() - t > end {
                assert(s[s.len() - t - 1] == '-');
            }
        }
    } else {
        assert(a == s.len()) by {
            if a < s.len() {
                assert(s[a] == '-');
            }
        }
        assert(s.subrange(start, end) =~= Seq::<char>::empty());
    }
}

/// The form of every slug: its hyphens stand alone and inside, all else is
/// letters and digits, and no capital letter appears where the text had
/// none.
pub proof fn lemma_slug_shape(text: Seq<char>)
    ensures
        hyphens_are_inner(slug(text)),
        forall|i: int|
            0 <= i < slug(text).len() ==> is_ascii_alphanumeric(#[trigger] slug(text)[i]) || slug(
                text,
            )[i] == '-',
        has_no_capital(text) ==> is_slug(slug(text)),
        slug(text).len() <= text.len(),
{
    let c = collapsed(text);
    let out = slug(text);
    lemma_collapsed_shape(text);
    lemma_leading_dashes(c);
    lemma_trailing_dashes(c);
    let a = leading_dashes(c) as int;
    let t = trailing_dashes(c) as int;
    if a < c.len() {
        assert(a < c.len() - t) by {
            if a >= c.len() - t {
                assert(c[a] == '-');
            }
        }
        assert forall|i: int| 0 <= i < out.len() implies out[i] == c[a + i] by {}
        assert(out[0] == c[a]);
        assert(out.last() == c[c.len() - t - 1]);
        assert forall|i: int| 0 <= i < out.len() - 1 implies !(#[trigger] out[i] == '-' && out[i
            + 1] == '-') by {
            assert(out[i] == c[a + i]);
            assert(out[i + 1] == c[a + i + 1]);
        }
        if has_no_capital(text) {
            assert forall|i: int| 0 <= i < out.len() implies is_slug_char(#[trigger] out[i])
                || out[i] == '-' by {
                assert(out[i] == c[a + i]);
                assert(!is_ascii_capital(c[a + i]));
            }
        }
    }
}

/// A slug is empty exactly when the text holds no letter and no digit, not
/// even under an accent.
pub proof fn lemma_slug_empty_iff_no_alphanumeric(text: Seq<char>)
    ensures
        slug(text).len() == 0 <==> !has_alphanumeric(text),
{
    let c = collapsed(text);
    lemma_collapsed_shape(text);
    lemma_collapsed_keeps_alphanumerics(text);
    lemma_leading_dashes(c);
    lemma_trailing_dashes(c);
    let a = leading_dashes(c) as int;
    let t = trailing_dashes(c) as int;
    if a < c.len() {
        assert(is_ascii_alphanumeric(c[a]));
        assert(a < c.len() - t) by {
            if a >= c.len() - t {
                assert(c[a] == '-');
            }
        }
    } else {
        assert forall|i: int| 0 <= i < c.len() implies !is_ascii_alphanumeric(#[trigger] c[i]) by {
            assert(c[i] == '-');
        }
    }
}

/// Folds one character.
fn fold_char(c: char) -> (r: char)
    ensures
        r == fold_accent(c),
{
    if c == '\u{e1}' || c == '\u{e0}' || c == '\u{e4}' || c == '\u{e2}' {
        'a'
    } else if c == '\u{e9}' || c == '\u{e8}' || c == '\u{eb}' || c == '\u{ea}' {
        'e'
    } else if c == '\u{ed}' || c == '\u{ec}' || c == '\u{ef}' || c == '\u{ee}' {
        'i'
    } else if c == '\u{f3}' || c == '\u{f2}' || c == '\u{f6}' || c == '\u{f4}' {
        'o'
    } else if c == '\u{fa}' || c == '\u{f9}' || c == '\u{fc}' || c == '\u{fb}' {
        'u'
    } else if c == '\u{f1}' {
        'n'
    } else if c == '\u{e7}' {
        'c'
    } else {
        c
    }
}

/// Tells letters and digits from the rest.
fn is_letter_or_digit(c: char) -> (r: bool)
    ensures
        r == is_ascii_alphanumeric(c),
{
    ('a' <= c && c <= 'z') || ('A' <= c && c <= 'Z') || ('0' <= c && c <= '9')
}

/// Folds and collapses `text` into a buffer of characters.
fn collapse(text: &str) -> (buffer: Vec<char>)
    ensures
        buffer@ == collapsed(text@),
{
    let mut buffer: Vec<char> = Vec::new();
    let mut last_was_dash = false;
    for c in it: text.chars()
        invariant
            it.seq() == text@,
            buffer@ == collapsed(text@.take(it.index())),
            last_was_dash == (buffer@.len() > 0 && buffer@.last() == '-'),
    {
        proof {
            let k = it.index();
            assert(text@.take(k + 1).drop_last() =~= text@.take(k));
            assert(text@.take(k + 1).last() == text@[k]);
        }
        let folded = fold_char(c);
        if is_letter_or_digit(folded) {
            buffer.push(folded);
            last_was_dash = false;
        } else if !last_was_dash {
            buffer.push('-');
            last_was_dash = true;
        }
    }
    proof {
        assert(text@.take(text@.len() as int) =~= text@);
    }
    buffer
}

/// The slug of a text that is lower-cased already: accents folded, runs of
/// other characters collapsed into one hyphen, the hyphens at both ends
/// removed.
pub fn slugify(text: &str) -> (r: String)
    ensures
        r@ == slug(text@),
        hyphens_are_inner(r@),
        has_no_capital(text@) ==> is_slug(r@),
        r@.len() == 0 <==> !has_alphanumeric(text@),
{
    let buffer = collapse(text);
    let mut start: usize = 0;
    while start < buffer.len() && buffer[start] == '-'
        invariant
            start <= buffer.len(),
            forall|i: int| 0 <= i < start ==> buffer@[i] == '-',
        decreases buffer.len() - start,
    {
        start = start + 1;
    }
    let mut end: usize = buffer.len();
    while end > start && buffer[end - 1] == '-'
        invariant
            start <= end <= buffer.len(),
            forall|i: int| end <= i < buffer.len() ==> buffer@[i] == '-',
        decreases end,
    {
        end = end - 1;
    }
    let mut out = String::new();
    let mut i: usize = start;
    while i < end
        invariant
            start <= i <= end <= buffer.len(),
            out@ == buffer@.subrange(start as int, i as int),
        decreases end - i,
    {
        push_char(&mut out, buffer[i]);
        i = i + 1;
        proof {
            assert(buffer@.subrange(start as int, i as int) =~= buffer@.subrange(
                start as int,
                i - 1,
            ).push(buffer@[i - 1]));
        }
    }
    proof {
        lemma_trim_dashes_is_subrange(buffer@, start as int, end as int);
        lemma_slug_shape(text@);
        lemma_slug_empty_iff_no_alphanumeric(text@);
    }
    out
}

/// The id of a habit named `name`: the slug of the lower-cased name. It is
/// made of small letters, digits and single inner hyphens, and it is empty
/// exactly when the lower-cased name holds no letter and no digit.
pub fn make_id(name: &str) -> (r: String)
    ensures
        r@ == id_of(name@),
        is_slug(r@),
        r@.len() == 0 <==> !has_alphanumeric(lowercase_of(name@)),
{
    let lowered = to_lowercase(name);
    slugify(lowered.as_str())
}

} // verus!
