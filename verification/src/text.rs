//! Text as sequences of characters: what it means to trim, split and search a
//! line of runner output, and the functions that do it.

use vstd::prelude::*;

verus! {

/// Characters with Unicode's `White_Space` property.
pub open spec fn whitespace(c: char) -> bool {
    let u = c as u32;
    ||| 0x09 <= u <= 0x0d
    ||| u == 0x20
    ||| u == 0x85
    ||| u == 0xa0
    ||| u == 0x1680
    ||| 0x2000 <= u <= 0x200a
    ||| u == 0x2028
    ||| u == 0x2029
    ||| u == 0x202f
    ||| u == 0x205f
    ||| u == 0x3000
}

/// Whether a character is whitespace.
pub fn is_whitespace(c: char) -> (r: bool)
    ensures
        r == whitespace(c),
{
    let u: u32 = c as u32;
    (0x09 <= u && u <= 0x0d) || u == 0x20 || u == 0x85 || u == 0xa0 || u == 0x1680 || (0x2000 <= u
        && u <= 0x200a) || u == 0x2028 || u == 0x2029 || u == 0x202f || u == 0x205f || u == 0x3000
}

/// `s` without its leading whitespace.
pub open spec fn trimmed_start(s: Seq<char>) -> Seq<char>
    decreases s.len(),
{
    if s.len() > 0 && whitespace(s[0]) {
        trimmed_start(s.drop_first())
    } else {
        s
    }
}

/// `s` without its trailing whitespace.
pub open spec fn trimmed_end(s: Seq<char>) -> Seq<char>
    decreases s.len(),
{
    if s.len() > 0 && whitespace(s.last()) {
        trimmed_end(s.drop_last())
    } else {
        s
    }
}

/// `s` without the whitespace around it.
pub open spec fn trimmed(s: Seq<char>) -> Seq<char> {
    trimmed_end(trimmed_start(s))
}

/// `s` without the run of `c` that it ends in.
pub open spec fn trimmed_end_of(s: Seq<char>, c: char) -> Seq<char>
    decreases s.len(),
{
    if s.len() > 0 && s.last() == c {
        trimmed_end_of(s.drop_last(), c)
    } else {
        s
    }
}

/// The characters of `s` up to the first whitespace.
pub open spec fn leading_word(s: Seq<char>) -> Seq<char>
    decreases s.len(),
{
    if s.len() == 0 || whitespace(s[0]) {
        Seq::empty()
    } else {
        seq![s[0]] + leading_word(s.drop_first())
    }
}

/// The first of the words that whitespace separates in `s`, if there is one.
pub open spec fn first_word(s: Seq<char>) -> Option<Seq<char>> {
    let t = trimmed_start(s);
    if t.len() == 0 {
        None
    } else {
        Some(leading_word(t))
    }
}

/// Whether `pattern` stands in `s` at position `i`.
pub open spec fn occurs_at(s: Seq<char>, pattern: Seq<char>, i: int) -> bool {
    0 <= i && i + pattern.len() <= s.len() && s.subrange(i, i + pattern.len()) == pattern
}

/// Whether `pattern` stands somewhere in `s`.
pub open spec fn occurs(s: Seq<char>, pattern: Seq<char>) -> bool {
    exists|i: int| occurs_at(s, pattern, i)
}

/// The first position, from `i` on, at which `pattern` stands in `s`.
pub open spec fn position_from(s: Seq<char>, pattern: Seq<char>, i: int) -> Option<int>
    decreases s.len() - i + 1,
{
    if i + pattern.len() > s.len() {
        None
    } else if occurs_at(s, pattern, i) {
        Some(i)
    } else {
        position_from(s, pattern, i + 1)
    }
}

/// The first position at which `pattern` stands in `s`.
pub open spec fn position(s: Seq<char>, pattern: Seq<char>) -> Option<int> {
    position_from(s, pattern, 0)
}

/// The last position, up to `i`, at which `pattern` stands in `s`.
pub open spec fn last_position_to(s: Seq<char>, pattern: Seq<char>, i: int) -> Option<int>
    decreases i + 1,
{
    if i < 0 {
        None
    } else if occurs_at(s, pattern, i) {
        Some(i)
    } else {
        last_position_to(s, pattern, i - 1)
    }
}

/// The last position at which `pattern` stands in `s`.
pub open spec fn last_position(s: Seq<char>, pattern: Seq<char>) -> Option<int> {
    last_position_to(s, pattern, s.len() - pattern.len())
}

/// What stands before and after the first `pattern` in `s`.
pub open spec fn split_once(s: Seq<char>, pattern: Seq<char>) -> Option<(Seq<char>, Seq<char>)> {
    match position(s, pattern) {
        Some(i) => Some((s.take(i), s.skip(i + pattern.len()))),
        None => None,
    }
}

/// What stands after the last `pattern` in `s`; all of `s` if there is none.
pub open spec fn after_last(s: Seq<char>, pattern: Seq<char>) -> Seq<char> {
    match last_position(s, pattern) {
        Some(i) => s.skip(i + pattern.len()),
        None => s,
    }
}

/// A line without the carriage return that belongs to its line ending.
pub open spec fn without_carriage_return(s: Seq<char>) -> Seq<char> {
    if s.len() > 0 && s.last() == '\r' {
        s.drop_last()
    } else {
        s
    }
}

/// The lines of a text. A line ends in a line feed, which a carriage return may
/// precede; the last line need not end in one.
pub open spec fn lines(s: Seq<char>) -> Seq<Seq<char>>
    decreases s.len(),
{
    if s.len() == 0 {
        Seq::empty()
    } else {
        match position(s, seq!['\n']) {
            Some(i) => {
                proof {
                    lemma_position(s, seq!['\n']);
                }
                seq![without_carriage_return(s.take(i))] + lines(s.skip(i + 1))
            },
            None => seq![s],
        }
    }
}

/// What `position_from` finds is the first place, from `i` on, where the pattern stands.
pub proof fn lemma_position_from(s: Seq<char>, pattern: Seq<char>, i: int)
    requires
        0 <= i,
    ensures
        match position_from(s, pattern, i) {
            Some(p) => {
                &&& i <= p
                &&& occurs_at(s, pattern, p)
                &&& forall|j: int| i <= j < p ==> !#[trigger] occurs_at(s, pattern, j)
            },
            None => forall|j: int| i <= j ==> !#[trigger] occurs_at(s, pattern, j),
        },
    decreases s.len() - i + 1,
{
    if i + pattern.len() <= s.len() && !occurs_at(s, pattern, i) {
        lemma_position_from(s, pattern, i + 1);
    }
}

/// What `position` finds is the first place where the pattern stands, and it finds one if
/// there is one.
pub proof fn lemma_position(s: Seq<char>, pattern: Seq<char>)
    ensures
        match position(s, pattern) {
            Some(p) => {
                &&& occurs_at(s, pattern, p)
                &&& forall|j: int| j < p ==> !#[trigger] occurs_at(s, pattern, j)
            },
            None => !occurs(s, pattern),
        },
{
    lemma_position_from(s, pattern, 0);
}

/// A place where the pattern stands, with none before it, is the one that `position` finds.
pub proof fn lemma_position_is(s: Seq<char>, pattern: Seq<char>, p: int)
    requires
        occurs_at(s, pattern, p),
        forall|j: int| 0 <= j < p ==> !#[trigger] occurs_at(s, pattern, j),
    ensures
        position(s, pattern) == Some(p),
{
    lemma_position(s, pattern);
}

/// What `last_position_to` finds is the last place, up to `i`, where the pattern stands.
pub proof fn lemma_last_position_to(s: Seq<char>, pattern: Seq<char>, i: int)
    ensures
        match last_position_to(s, pattern, i) {
            Some(p) => {
                &&& p <= i
                &&& occurs_at(s, pattern, p)
                &&& forall|j: int| p < j <= i ==> !#[trigger] occurs_at(s, pattern, j)
            },
            None => forall|j: int| j <= i ==> !#[trigger] occurs_at(s, pattern, j),
        },
    decreases i + 1,
{
    if i >= 0 && !occurs_at(s, pattern, i) {
        lemma_last_position_to(s, pattern, i - 1);
    }
}

/// What `last_position` finds is the last place where the pattern stands, and it finds one if
/// there is one.
pub proof fn lemma_last_position(s: Seq<char>, pattern: Seq<char>)
    ensures
        match last_position(s, pattern) {
            Some(p) => {
                &&& occurs_at(s, pattern, p)
                &&& forall|j: int| p < j ==> !#[trigger] occurs_at(s, pattern, j)
            },
            None => !occurs(s, pattern),
        },
{
    lemma_last_position_to(s, pattern, s.len() - pattern.len());
}

/// The digit that stands for `d`.
pub open spec fn digit(d: nat) -> char {
    (48 + d) as char
}

/// A number in decimal digits.
pub open spec fn decimal(n: nat) -> Seq<char>
    decreases n,
{
    if n < 10 {
        seq![digit(n)]
    } else {
        decimal(n / 10).push(digit(n % 10))
    }
}

/// The characters of a string.
pub fn chars_of(s: &str) -> (v: Vec<char>)
    ensures
        v@ == s@,
{
    let mut v: Vec<char> = Vec::new();
    for c in it: s.chars()
        invariant
            it.seq() == s@,
            v@ == s@.take(it.index()),
    {
        v.push(c);
    }
    v
}

/// Appends a character to a string: `String::push`, which adds the character at the end and
/// leaves what stood there.
pub assume_specification[ String::push ](s: &mut String, c: char)
    ensures
        final(s)@ == old(s)@.push(c),
;

/// The string of the given characters.
pub fn string_of(chars: &[char]) -> (s: String)
    ensures
        s@ == chars@,
{
    let mut s = String::new();
    let mut i: usize = 0;
    while i < chars.len()
        invariant
            i <= chars@.len(),
            s@ == chars@.take(i as int),
        decreases chars@.len() - i,
    {
        s.push(chars[i]);
        i += 1;
    }
    s
}

/// Whether two runs of characters are the same.
pub fn same_chars(a: &[char], b: &[char]) -> (r: bool)
    ensures
        r == (a@ == b@),
{
    if a.len() != b.len() {
        return false;
    }
    let mut i: usize = 0;
    while i < a.len()
        invariant
            i <= a@.len() == b@.len(),
            forall|j: int| 0 <= j < i ==> a@[j] == b@[j],
        decreases a@.len() - i,
    {
        if a[i] != b[i] {
            return false;
        }
        i += 1;
    }
    proof {
        assert(a@ =~= b@);
    }
    true
}

/// Whether two strings are the same.
pub fn same_text(a: &str, b: &str) -> (r: bool)
    ensures
        r == (a@ == b@),
{
    let mut rest_a = a.chars();
    let mut rest_b = b.chars();
    let ghost mut n: int = 0;
    loop
        invariant
            0 <= n <= a@.len(),
            n <= b@.len(),
            vstd::std_specs::iter::IteratorSpec::remaining(&rest_a) == a@.skip(n),
            vstd::std_specs::iter::IteratorSpec::remaining(&rest_b) == b@.skip(n),
            a@.take(n) == b@.take(n),
        decreases a@.len() - n,
    {
        match (rest_a.next(), rest_b.next()) {
            (Some(x), Some(y)) => {
                if x != y {
                    return false;
                }
                proof {
                    n = n + 1;
                }
            },
            (None, None) => {
                proof {
                    assert(a@.take(n) == a@);
                    assert(b@.take(n) == b@);
                }
                return true;
            },
            _ => {
                return false;
            },
        }
    }
}

/// Drops leading whitespace.
pub fn trim_start(s: &[char]) -> (r: &[char])
    ensures
        r@ == trimmed_start(s@),
{
    let mut i: usize = 0;
    proof {
        assert(s@.skip(0) == s@);
    }
    while i < s.len() && is_whitespace(s[i])
        invariant
            i <= s@.len(),
            trimmed_start(s@) == trimmed_start(s@.skip(i as int)),
        decreases s@.len() - i,
    {
        proof {
            assert(s@.skip(i as int).drop_first() == s@.skip(i + 1));
        }
        i += 1;
    }
    &s[i..s.len()]
}

/// Drops trailing whitespace.
pub fn trim_end(s: &[char]) -> (r: &[char])
    ensures
        r@ == trimmed_end(s@),
{
    let mut n: usize = s.len();
    proof {
        assert(s@.take(s@.len() as int) == s@);
    }
    while n > 0 && is_whitespace(s[n - 1])
        invariant
            n <= s@.len(),
            trimmed_end(s@) == trimmed_end(s@.take(n as int)),
        decreases n,
    {
        proof {
            assert(s@.take(n as int).drop_last() == s@.take(n - 1));
        }
        n -= 1;
    }
    &s[0..n]
}

/// Drops the whitespace around a text.
pub fn trim(s: &[char]) -> (r: &[char])
    ensures
        r@ == trimmed(s@),
{
    trim_end(trim_start(s))
}

/// Drops the run of `c` that a text ends in.
pub fn trim_end_of(s: &[char], c: char) -> (r: &[char])
    ensures
        r@ == trimmed_end_of(s@, c),
{
    let mut n: usize = s.len();
    proof {
        assert(s@.take(s@.len() as int) == s@);
    }
    while n > 0 && s[n - 1] == c
        invariant
            n <= s@.len(),
            trimmed_end_of(s@, c) == trimmed_end_of(s@.take(n as int), c),
        decreases n,
    {
        proof {
            assert(s@.take(n as int).drop_last() == s@.take(n - 1));
        }
        n -= 1;
    }
    &s[0..n]
}

/// The first word of a text.
pub fn find_first_word(s: &[char]) -> (r: Option<&[char]>)
    ensures
        match r {
            Some(w) => first_word(s@) == Some(w@),
            None => first_word(s@) is None,
        },
{
    let t = trim_start(s);
    if t.len() == 0 {
        return None;
    }
    let mut n: usize = 0;
    proof {
        assert(t@.skip(0) == t@);
    }
    while n < t.len() && !is_whitespace(t[n])
        invariant
            n <= t@.len(),
            leading_word(t@) == t@.take(n as int) + leading_word(t@.skip(n as int)),
        decreases t@.len() - n,
    {
        proof {
            assert(t@.skip(n as int).drop_first() == t@.skip(n + 1));
            assert(t@.take(n + 1) == t@.take(n as int) + seq![t@[n as int]]);
        }
        n += 1;
    }
    Some(&t[0..n])
}

/// Whether a pattern stands at position `i`.
fn stands_at(s: &[char], pattern: &[char], i: usize) -> (r: bool)
    ensures
        r == occurs_at(s@, pattern@, i as int),
{
    i <= s.len() && pattern.len() <= s.len() - i && same_chars(&s[i..i + pattern.len()], pattern)
}

/// The first position, from `start` on, at which a pattern stands.
pub fn find_from(s: &[char], pattern: &[char], start: usize) -> (r: Option<usize>)
    ensures
        match r {
            Some(i) => position_from(s@, pattern@, start as int) == Some(i as int),
            None => position_from(s@, pattern@, start as int) is None,
        },
{
    let mut i: usize = start;
    while i <= s.len() && pattern.len() <= s.len() - i
        invariant
            position_from(s@, pattern@, start as int) == position_from(s@, pattern@, i as int),
        decreases s@.len() + 1 - i,
    {
        if stands_at(s, pattern, i) {
            return Some(i);
        }
        if i == s.len() {
            proof {
                assert(position_from(s@, pattern@, i + 1) is None);
            }
            return None;
        }
        i += 1;
    }
    None
}

/// The last position at which a pattern stands.
pub fn find_last(s: &[char], pattern: &[char]) -> (r: Option<usize>)
    ensures
        match r {
            Some(i) => last_position(s@, pattern@) == Some(i as int),
            None => last_position(s@, pattern@) is None,
        },
{
    if pattern.len() > s.len() {
        return None;
    }
    let mut i: usize = s.len() - pattern.len();
    loop
        invariant
            i <= s@.len(),
            last_position(s@, pattern@) == last_position_to(s@, pattern@, i as int),
        decreases i,
    {
        if stands_at(s, pattern, i) {
            return Some(i);
        }
        if i == 0 {
            proof {
                assert(last_position_to(s@, pattern@, -1) is None);
            }
            return None;
        }
        i -= 1;
    }
}

/// What follows a prefix, if the text starts with it.
pub fn strip_prefix<'a>(s: &'a [char], prefix: &[char]) -> (r: Option<&'a [char]>)
    ensures
        match r {
            Some(rest) => prefix@.is_prefix_of(s@) && rest@ == s@.skip(prefix@.len() as int),
            None => !prefix@.is_prefix_of(s@),
        },
{
    if stands_at(s, prefix, 0) {
        Some(&s[prefix.len()..s.len()])
    } else {
        None
    }
}

/// Appends a number in decimal digits.
pub fn push_decimal(s: &mut String, n: usize)
    ensures
        final(s)@ == old(s)@ + decimal(n as nat),
    decreases n,
{
    if n >= 10 {
        push_decimal(s, n / 10);
    }
    let d: u8 = (n % 10) as u8;
    s.push((48u8 + d) as char);
}

} // verus!
