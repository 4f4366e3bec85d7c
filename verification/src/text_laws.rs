//! What holds of text: proofs that trimming, splitting, searching and counting do what they are
//! for.

use vstd::prelude::*;

use crate::rust_laws;
use crate::text;

verus! {

broadcast use vstd::seq_lib::group_seq_properties;

/// Whether a text holds no whitespace.
pub open spec fn solid(s: Seq<char>) -> bool {
    forall|i: int| 0 <= i < s.len() ==> !text::whitespace(#[trigger] s[i])
}

/// Trimming at the start drops whitespace, and all of it. Returns what is dropped.
pub proof fn trimming_the_start_drops_whitespace(s: Seq<char>) -> (before: Seq<char>)
    ensures
        s == before + text::trimmed_start(s),
        rust_laws::blank(before),
        text::trimmed_start(s).len() > 0 ==> !text::whitespace(text::trimmed_start(s)[0]),
    decreases s.len(),
{
    if s.len() > 0 && text::whitespace(s[0]) {
        let rest = s.drop_first();
        let dropped = trimming_the_start_drops_whitespace(rest);
        let before = seq![s[0]] + dropped;
        assert(s =~= seq![s[0]] + rest);
        assert(s =~= before + text::trimmed_start(s));
        assert forall|i: int| 0 <= i < before.len() implies text::whitespace(
            #[trigger] before[i],
        ) by {
            if i > 0 {
                assert(before[i] == dropped[i - 1]);
            }
        }
        before
    } else {
        assert(s =~= Seq::<char>::empty() + s);
        Seq::empty()
    }
}

/// Trimming at the end drops whitespace, and all of it. Returns what is dropped.
pub proof fn trimming_the_end_drops_whitespace(s: Seq<char>) -> (after: Seq<char>)
    ensures
        s == text::trimmed_end(s) + after,
        rust_laws::blank(after),
        text::trimmed_end(s).len() > 0 ==> !text::whitespace(text::trimmed_end(s).last()),
    decreases s.len(),
{
    if s.len() > 0 && text::whitespace(s.last()) {
        let rest = s.drop_last();
        let dropped = trimming_the_end_drops_whitespace(rest);
        let after = dropped.push(s.last());
        assert(s =~= rest.push(s.last()));
        assert(s =~= text::trimmed_end(s) + after);
        assert forall|i: int| 0 <= i < after.len() implies text::whitespace(
            #[trigger] after[i],
        ) by {
            if i < dropped.len() {
                assert(after[i] == dropped[i]);
            }
        }
        after
    } else {
        assert(s =~= s + Seq::<char>::empty());
        Seq::empty()
    }
}

/// Trimming drops the whitespace around a text, and nothing else. Returns what is dropped before
/// and after.
pub proof fn trimming_drops_the_whitespace_around(s: Seq<char>) -> (r: (Seq<char>, Seq<char>))
    ensures
        s == r.0 + text::trimmed(s) + r.1,
        rust_laws::blank(r.0),
        rust_laws::blank(r.1),
        text::trimmed(s).len() > 0 ==> !text::whitespace(text::trimmed(s)[0])
            && !text::whitespace(text::trimmed(s).last()),
{
    let t = text::trimmed_start(s);
    let before = trimming_the_start_drops_whitespace(s);
    let after = trimming_the_end_drops_whitespace(t);
    assert(s =~= before + text::trimmed(s) + after);
    if text::trimmed(s).len() > 0 {
        assert(text::trimmed(s)[0] == t[0]);
    }
    (before, after)
}

/// Trimming a character off the end drops a run of it, and all of it. Returns what is dropped.
pub proof fn trimming_a_character_drops_its_run(s: Seq<char>, c: char) -> (run: Seq<char>)
    ensures
        s == text::trimmed_end_of(s, c) + run,
        forall|i: int| 0 <= i < run.len() ==> #[trigger] run[i] == c,
        text::trimmed_end_of(s, c).len() > 0 ==> text::trimmed_end_of(s, c).last() != c,
    decreases s.len(),
{
    if s.len() > 0 && s.last() == c {
        let rest = s.drop_last();
        let dropped = trimming_a_character_drops_its_run(rest, c);
        let run = dropped.push(c);
        assert(s =~= rest.push(c));
        assert(s =~= text::trimmed_end_of(s, c) + run);
        run
    } else {
        assert(s =~= s + Seq::<char>::empty());
        Seq::empty()
    }
}

/// The leading word is what stands before the first whitespace. Returns what follows it.
proof fn lemma_leading_word_parts(s: Seq<char>) -> (rest: Seq<char>)
    ensures
        s == text::leading_word(s) + rest,
        solid(text::leading_word(s)),
        rest.len() == 0 || text::whitespace(rest[0]),
        s.len() > 0 && !text::whitespace(s[0]) ==> text::leading_word(s).len() > 0,
    decreases s.len(),
{
    if s.len() == 0 || text::whitespace(s[0]) {
        assert(s =~= Seq::<char>::empty() + s);
        s
    } else {
        let tail = s.drop_first();
        let rest = lemma_leading_word_parts(tail);
        let word = text::leading_word(s);
        assert(s =~= seq![s[0]] + tail);
        assert(s =~= word + rest);
        assert forall|i: int| 0 <= i < word.len() implies !text::whitespace(#[trigger] word[i]) by {
            if i > 0 {
                assert(word[i] == text::leading_word(tail)[i - 1]);
            }
        }
        rest
    }
}

/// The first word of a text has whitespace or nothing before it and after it, and none in it; a
/// text without words is blank. Returns what stands before the word and after it.
pub proof fn first_words_stand_between_whitespace(s: Seq<char>) -> (r: (Seq<char>, Seq<char>))
    ensures
        match text::first_word(s) {
            Some(word) => {
                &&& s == r.0 + word + r.1
                &&& rust_laws::blank(r.0)
                &&& word.len() > 0
                &&& solid(word)
                &&& r.1.len() == 0 || text::whitespace(r.1[0])
            },
            None => rust_laws::blank(s),
        },
{
    let t = text::trimmed_start(s);
    let before = trimming_the_start_drops_whitespace(s);
    let after = lemma_leading_word_parts(t);
    if t.len() == 0 {
        assert(s =~= before);
    } else {
        assert(s =~= before + text::leading_word(t) + after);
    }
    (before, after)
}

/// A pattern stands at a position exactly where the text is cut into what comes before, the
/// pattern, and what comes after.
pub proof fn patterns_stand_between_parts(s: Seq<char>, pattern: Seq<char>, i: int)
    ensures
        text::occurs_at(s, pattern, i) <==> exists|a: Seq<char>, b: Seq<char>|
            s == #[trigger] (a + pattern + b) && a.len() == i,
{
    if text::occurs_at(s, pattern, i) {
        let a = s.take(i);
        let b = s.skip(i + pattern.len());
        assert(s =~= a + s.subrange(i, i + pattern.len()) + b);
        assert(s == a + pattern + b && a.len() == i);
    }
    assert forall|a: Seq<char>, b: Seq<char>|
        s == #[trigger] (a + pattern + b) && a.len() == i implies text::occurs_at(
        s,
        pattern,
        i,
    ) by {
        assert(s.subrange(i, i + pattern.len()) =~= pattern);
    }
}

/// Splitting cuts a text at the first place where the pattern stands, and cuts wherever it stands
/// somewhere.
pub proof fn splitting_cuts_at_the_first_place(s: Seq<char>, pattern: Seq<char>)
    ensures
        match text::split_once(s, pattern) {
            Some((a, b)) => {
                &&& s == a + pattern + b
                &&& forall|j: int| j < a.len() ==> !#[trigger] text::occurs_at(s, pattern, j)
            },
            None => forall|j: int| !#[trigger] text::occurs_at(s, pattern, j),
        },
{
    text::lemma_position(s, pattern);
    match text::position(s, pattern) {
        Some(i) => {
            assert(s =~= s.take(i) + s.subrange(i, i + pattern.len()) + s.skip(i + pattern.len()));
        },
        None => {
            assert forall|j: int| !#[trigger] text::occurs_at(s, pattern, j) by {}
        },
    }
}

/// What stands after the last pattern is what is left when the text is cut at the last place where
/// the pattern stands; without the pattern, it is the text. Returns what stands before the
/// pattern.
pub proof fn the_last_part_follows_the_last_place(s: Seq<char>, pattern: Seq<char>) -> (before: Seq<
    char,
>)
    ensures
        (exists|j: int| #[trigger] text::occurs_at(s, pattern, j)) ==> {
            &&& s == before + pattern + text::after_last(s, pattern)
            &&& forall|j: int| before.len() < j ==> !#[trigger] text::occurs_at(s, pattern, j)
        },
        (forall|j: int| !#[trigger] text::occurs_at(s, pattern, j)) ==> text::after_last(s, pattern)
            == s,
{
    text::lemma_last_position(s, pattern);
    match text::last_position(s, pattern) {
        Some(i) => {
            assert(s =~= s.take(i) + s.subrange(i, i + pattern.len()) + s.skip(i + pattern.len()));
            s.take(i)
        },
        None => s,
    }
}

/// A text without line feeds is one line, unless it is empty; and what comes before a line feed is
/// a line, without the carriage return that it may end in, and what comes after it has lines of its
/// own.
pub proof fn line_feeds_end_lines(line: Seq<char>, rest: Seq<char>)
    requires
        rust_laws::on_one_line(line),
    ensures
        text::lines(line) == (if line.len() == 0 {
            Seq::<Seq<char>>::empty()
        } else {
            seq![line]
        }),
        text::lines(line + seq!['\n'] + rest) == seq![
            if line.len() > 0 && line.last() == '\r' {
                line.drop_last()
            } else {
                line
            },
        ] + text::lines(rest),
{
    let newline = seq!['\n'];
    let s = line + newline + rest;
    let n = line.len() as int;
    assert(s.subrange(n, n + 1) =~= newline);
    assert forall|j: int| 0 <= j < n implies !#[trigger] text::occurs_at(s, newline, j) by {
        assert(s.subrange(j, j + 1)[0] == line[j]);
    }
    text::lemma_position_is(s, newline, n);
    assert(s.take(n) =~= line);
    assert(s.skip(n + 1) =~= rest);
    text::lemma_position(line, newline);
    if text::position(line, newline) is Some {
        let p = text::position(line, newline)->0;
        assert(line.subrange(p, p + 1)[0] == line[p]);
    }
}

/// The number that decimal digits stand for.
pub open spec fn digits_value(digits: Seq<char>) -> int
    decreases digits.len(),
{
    if digits.len() == 0 {
        0
    } else {
        10 * digits_value(digits.drop_last()) + (digits.last() as int - '0' as int)
    }
}

/// A number is written in decimal digits that stand for it, without a leading zero.
pub proof fn decimals_stand_for_their_numbers(n: nat)
    ensures
        digits_value(text::decimal(n)) == n,
        text::decimal(n).len() > 0,
        forall|i: int|
            0 <= i < text::decimal(n).len() ==> '0' <= #[trigger] text::decimal(n)[i] <= '9',
        text::decimal(n)[0] == '0' ==> n == 0,
    decreases n,
{
    let digits = text::decimal(n);
    if n < 10 {
        assert(digits.drop_last() =~= Seq::<char>::empty());
        assert(digits_value(digits.drop_last()) == 0);
        assert(digits.last() == text::digit(n));
    } else {
        decimals_stand_for_their_numbers(n / 10);
        let first = text::decimal(n / 10);
        assert(digits.drop_last() =~= first);
        assert(digits.last() == text::digit(n % 10));
        assert(digits[0] == first[0]);
        assert forall|i: int| 0 <= i < digits.len() implies '0' <= #[trigger] digits[i]
            <= '9' by {
            if i < first.len() {
                assert(digits[i] == first[i]);
            }
        }
    }
}

} // verus!
