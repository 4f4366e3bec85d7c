//! What holds of Rust's tests: proofs about the commands that are shaped for them and about the
//! output that is read.

use vstd::prelude::*;

use crate::adapter::{DiscoveredTestView, RunKind, SpawnView, TestAdapter, TestStatus};
use crate::laws;
use crate::run::CurrentRunView;
use crate::rust_adapter;
use crate::rust_adapter::RustAdapter;
use crate::state;
use crate::state::ManagerView;
use crate::text;
use crate::text_laws;

verus! {

broadcast use vstd::seq_lib::group_seq_properties;

/// What is made of a sequence followed by another is what is made of the one followed by what is
/// made of the other.
proof fn lemma_filter_map_add<T, U>(a: Seq<T>, b: Seq<T>, f: spec_fn(T) -> Option<U>)
    ensures
        (a + b).filter_map(f) == a.filter_map(f) + b.filter_map(f),
    decreases b.len(),
{
    if b.len() == 0 {
        assert(a + b == a);
    } else {
        lemma_filter_map_add(a, b.drop_last(), f);
        assert((a + b).drop_last() == a + b.drop_last());
        assert((a + b).last() == b.last());
    }
}

/// Whether a text consists of lines that are complete.
pub open spec fn complete_lines(s: Seq<char>) -> bool {
    s.len() == 0 || s.last() == '\n'
}

/// The lines of a text that follows complete lines are lines of their own.
pub proof fn complete_lines_stand_alone(a: Seq<char>, b: Seq<char>)
    requires
        complete_lines(a),
    ensures
        text::lines(a + b) == text::lines(a) + text::lines(b),
    decreases a.len(),
{
    if a.len() == 0 {
        assert(a + b == b);
        assert(text::lines(a) + text::lines(b) == text::lines(b));
    } else {
        let newline = seq!['\n'];
        text::lemma_position(a, newline);
        assert(text::occurs_at(a, newline, a.len() - 1)) by {
            assert(a.subrange(a.len() - 1, a.len() as int) =~= newline);
        }
        let i = text::position(a, newline)->0;
        assert((a + b).subrange(i, i + 1) =~= a.subrange(i, i + 1));
        assert forall|j: int| 0 <= j < i implies !#[trigger] text::occurs_at(a + b, newline, j) by {
            assert((a + b).subrange(j, j + 1) =~= a.subrange(j, j + 1));
            assert(!text::occurs_at(a, newline, j));
        }
        text::lemma_position_is(a + b, newline, i);
        let rest = a.skip(i + 1);
        complete_lines_stand_alone(rest, b);
        assert((a + b).take(i) =~= a.take(i));
        assert((a + b).skip(i + 1) =~= rest + b);
        assert(text::lines(a + b) =~= text::lines(a) + text::lines(b));
    }
}

/// More output adds to the results: what complete lines reported is reported still, and what
/// follows them is read as it would be alone.
pub proof fn more_output_adds_results(a: Seq<char>, b: Seq<char>)
    requires
        complete_lines(a),
    ensures
        RustAdapter.spec_results(a + b) == RustAdapter.spec_results(a) + RustAdapter.spec_results(
            b,
        ),
{
    complete_lines_stand_alone(a, b);
    lemma_filter_map_add(
        text::lines(a),
        text::lines(b),
        |line: Seq<char>| rust_adapter::line_result(line),
    );
}

/// Whether a test name can be told apart from another module's part of a path: it holds no
/// separator, also none that begins before it.
pub open spec fn plain_name(name: Seq<char>) -> bool {
    !text::occurs(name, "::"@) && !(name.len() > 0 && name[0] == ':')
}

/// A plain name refers to the tests whose reported path ends in it: the name itself, or a path
/// with a separator before it.
pub proof fn names_match_the_ends_of_paths(discovered: Seq<char>, reported: Seq<char>)
    requires
        plain_name(discovered),
    ensures
        RustAdapter.spec_matches(discovered, reported) <==> reported == discovered || exists|
            path: Seq<char>,
        |
            reported == #[trigger] (path + "::"@) + discovered,
{
    let separator = "::"@;
    reveal_strlit("::");
    text::lemma_last_position(reported, separator);
    match text::last_position(reported, separator) {
        Some(i) => {
            let path = reported.take(i);
            assert(reported =~= (path + separator) + reported.skip(i + 2));
        },
        None => {},
    }
    assert forall|path: Seq<char>| reported == #[trigger] (path + separator)
        + discovered implies text::after_last(reported, separator) == discovered by {
        let p = path.len() as int;
        assert(reported.subrange(p, p + 2) =~= separator);
        assert(text::occurs_at(reported, separator, p));
        let i = text::last_position(reported, separator)->0;
        if i > p {
            assert(reported.subrange(i, i + 2)[0] == ':');
            assert(reported.subrange(i, i + 2)[1] == ':');
            if i == p + 1 {
                assert(discovered[0] == ':');
            } else {
                assert(discovered.subrange(i - p - 2, i - p) =~= separator);
                assert(text::occurs_at(discovered, separator, i - p - 2));
            }
        }
        assert(reported.skip(p + 2) =~= discovered);
    }
}

/// Every test refers to itself.
pub proof fn names_match_themselves(name: Seq<char>)
    ensures
        RustAdapter.spec_matches(name, name),
{
}

/// A shaped command lets libtest capture, unless a test has the name of the flag.
pub proof fn runs_are_captured(
    kind: RunKind,
    targets: Seq<DiscoveredTestView>,
    base: SpawnView,
)
    requires
        forall|i: int|
            0 <= i < targets.len() ==> (#[trigger] targets[i]).name
                != rust_adapter::no_capture_flag(),
    ensures
        !rust_adapter::shaped_command(kind, targets, base).args.contains(
            rust_adapter::no_capture_flag(),
        ),
{
    let flag = rust_adapter::no_capture_flag();
    let keep = |arg: Seq<char>| arg != flag;
    let kept = rust_adapter::captured_args(base.args);
    let names = rust_adapter::target_names(targets);
    let shaped = rust_adapter::shaped_command(kind, targets, base).args;
    assert forall|i: int| 0 <= i < kept.len() implies #[trigger] kept[i] != flag by {
        base.args.lemma_filter_pred(keep, i);
    }
    assert forall|i: int| 0 <= i < names.len() implies #[trigger] names[i] != flag by {
        assert(targets[i].name != flag);
    }
    if kind == RunKind::File && targets.len() > 1 {
        kept.index_of_last_ensures(targets[0].name);
    }
    assert forall|i: int| 0 <= i < shaped.len() implies #[trigger] shaped[i] != flag by {
        if kind == RunKind::File && targets.len() > 1 {
            match kept.index_of_last(targets[0].name) {
                Some(p) => {
                    if i < p {
                        assert(shaped[i] == kept[i]);
                    } else if i < p + names.len() {
                        assert(shaped[i] == names[i - p]);
                    } else {
                        assert(shaped[i] == kept[i - names.len() + 1]);
                    }
                },
                None => {
                    if i < kept.len() {
                        assert(shaped[i] == kept[i]);
                    } else {
                        assert(shaped[i] == names[i - kept.len()]);
                    }
                },
            }
        }
    }
}

/// The command of a run of several tests names each of them.
pub proof fn file_runs_name_every_test(
    targets: Seq<DiscoveredTestView>,
    base: SpawnView,
    i: int,
)
    requires
        targets.len() > 1,
        0 <= i < targets.len(),
    ensures
        rust_adapter::shaped_command(RunKind::File, targets, base).args.contains(targets[i].name),
{
    let kept = rust_adapter::captured_args(base.args);
    let names = rust_adapter::target_names(targets);
    let shaped = rust_adapter::shaped_command(RunKind::File, targets, base).args;
    kept.index_of_last_ensures(targets[0].name);
    assert(names[i] == targets[i].name);
    match kept.index_of_last(targets[0].name) {
        Some(p) => {
            assert(shaped[p + i] == names[i]);
        },
        None => {
            assert(shaped[kept.len() + i] == names[i]);
        },
    }
}

/// A shaped command has every argument that it was made from, but for the flag that turns
/// capturing off.
pub proof fn arguments_are_kept(
    kind: RunKind,
    targets: Seq<DiscoveredTestView>,
    base: SpawnView,
    i: int,
)
    requires
        0 <= i < base.args.len(),
        base.args[i] != rust_adapter::no_capture_flag(),
    ensures
        rust_adapter::shaped_command(kind, targets, base).args.contains(base.args[i]),
{
    let keep = |arg: Seq<char>| arg != rust_adapter::no_capture_flag();
    let kept = rust_adapter::captured_args(base.args);
    let arg = base.args[i];
    base.args.lemma_filter_contains(keep, i);
    if kind == RunKind::File && targets.len() > 1 {
        let names = rust_adapter::target_names(targets);
        let shaped = rust_adapter::shaped_command(kind, targets, base).args;
        let k = choose|k: int| 0 <= k < kept.len() && kept[k] == arg;
        kept.index_of_last_ensures(targets[0].name);
        match kept.index_of_last(targets[0].name) {
            Some(p) => {
                if k < p {
                    assert(shaped[k] == arg);
                } else if k == p {
                    file_runs_name_every_test(targets, base, 0);
                } else {
                    assert(shaped[k + names.len() - 1] == arg);
                }
            },
            None => {
                assert(shaped[k] == arg);
            },
        }
    }
}

/// A shaped command runs what it was made from, in the same place.
pub proof fn what_is_run_is_kept(
    kind: RunKind,
    targets: Seq<DiscoveredTestView>,
    base: SpawnView,
)
    ensures
        rust_adapter::shaped_command(kind, targets, base).command == base.command,
{
}

/// A run of one test, or one that was asked for as a single test, changes nothing in its command
/// but the flag that turns capturing off; without that flag it changes nothing.
pub proof fn single_runs_drop_the_flag_alone(
    kind: RunKind,
    targets: Seq<DiscoveredTestView>,
    base: SpawnView,
)
    requires
        kind == RunKind::SingleTest || targets.len() <= 1,
    ensures
        ({
            let shaped = rust_adapter::shaped_command(kind, targets, base);
            &&& shaped.label == base.label
            &&& shaped.full_label == base.full_label
            &&& shaped.args == base.args.filter(
                |arg: Seq<char>| arg != rust_adapter::no_capture_flag(),
            )
            &&& !base.args.contains(rust_adapter::no_capture_flag()) ==> shaped == base
            &&& rust_adapter::shaped_command(kind, targets, shaped) == shaped
        }),
{
    let flag = rust_adapter::no_capture_flag();
    let keep = |arg: Seq<char>| arg != flag;
    let kept = base.args.filter(keep);
    if !base.args.contains(flag) {
        lemma_filter_keeps_all(base.args, keep);
    }
    assert forall|i: int| 0 <= i < kept.len() implies keep(#[trigger] kept[i]) by {
        base.args.lemma_filter_pred(keep, i);
    }
    lemma_filter_keeps_all(kept, keep);
    assert(rust_adapter::captured_args(kept) == kept);
}

/// A filter that every element passes keeps the sequence.
proof fn lemma_filter_keeps_all<T>(s: Seq<T>, keep: spec_fn(T) -> bool)
    requires
        forall|i: int| 0 <= i < s.len() ==> keep(#[trigger] s[i]),
    ensures
        s.filter(keep) == s,
    decreases s.len(),
{
    reveal(Seq::filter);
    if s.len() > 0 {
        let rest = s.drop_last();
        assert forall|i: int| 0 <= i < rest.len() implies keep(#[trigger] rest[i]) by {
            assert(rest[i] == s[i]);
        }
        lemma_filter_keeps_all(rest, keep);
        assert(keep(s[s.len() - 1]));
        assert(s =~= rest.push(s.last()));
    }
}

/// Whether a text is nothing but whitespace.
pub open spec fn blank(s: Seq<char>) -> bool {
    forall|i: int| 0 <= i < s.len() ==> text::whitespace(#[trigger] s[i])
}

/// Whitespace before a text is trimmed with what is trimmed of the text.
proof fn lemma_trimmed_start(padding: Seq<char>, s: Seq<char>)
    requires
        blank(padding),
    ensures
        text::trimmed_start(padding + s) == text::trimmed_start(s),
    decreases padding.len(),
{
    if padding.len() == 0 {
        assert(padding + s == s);
    } else {
        let rest = padding.drop_first();
        assert forall|i: int| 0 <= i < rest.len() implies text::whitespace(#[trigger] rest[i]) by {
            assert(rest[i] == padding[i + 1]);
        }
        lemma_trimmed_start(rest, s);
        assert((padding + s)[0] == padding[0]);
        assert((padding + s).drop_first() =~= rest + s);
    }
}

/// Whitespace after a text is trimmed with what is trimmed of the text.
proof fn lemma_trimmed_end(s: Seq<char>, padding: Seq<char>)
    requires
        blank(padding),
    ensures
        text::trimmed_end(s + padding) == text::trimmed_end(s),
    decreases padding.len(),
{
    if padding.len() == 0 {
        assert(s + padding == s);
    } else {
        let rest = padding.drop_last();
        assert forall|i: int| 0 <= i < rest.len() implies text::whitespace(#[trigger] rest[i]) by {
            assert(rest[i] == padding[i]);
        }
        lemma_trimmed_end(s, rest);
        assert((s + padding).last() == padding.last());
        assert(text::whitespace(padding[padding.len() - 1]));
        assert((s + padding).drop_last() =~= s + rest);
    }
}

/// What follows a character that is no whitespace is trimmed at its end alone.
proof fn lemma_trimmed_end_after(s: Seq<char>, tail: Seq<char>)
    requires
        s.len() > 0,
        !text::whitespace(s.last()),
    ensures
        text::trimmed_end(s + tail) == s + text::trimmed_end(tail),
        text::trimmed_end(tail).len() > 0 ==> text::trimmed_end(tail)[0] == tail[0],
    decreases tail.len(),
{
    if tail.len() == 0 {
        assert(s + tail == s);
        assert(s + text::trimmed_end(tail) == s);
    } else {
        assert((s + tail).last() == tail.last());
        if text::whitespace(tail.last()) {
            lemma_trimmed_end_after(s, tail.drop_last());
            assert((s + tail).drop_last() =~= s + tail.drop_last());
        }
    }
}

/// Whitespace around a text is trimmed with what is trimmed of the text.
proof fn lemma_trimmed_padding(before: Seq<char>, s: Seq<char>, after: Seq<char>)
    requires
        blank(before),
        blank(after),
    ensures
        text::trimmed(before + s + after) == text::trimmed(s),
    decreases s.len(),
{
    assert(before + s + after =~= before + (s + after));
    lemma_trimmed_start(before, s + after);
    if s.len() == 0 {
        assert(s + after =~= after + s);
        lemma_trimmed_start(after, s);
    } else if text::whitespace(s[0]) {
        let rest = s.drop_first();
        let none = Seq::<char>::empty();
        lemma_trimmed_padding(none, rest, after);
        assert(none + rest + after =~= rest + after);
        assert((s + after)[0] == s[0]);
        assert((s + after).drop_first() =~= rest + after);
    } else {
        assert((s + after)[0] == s[0]);
        lemma_trimmed_end(s, after);
    }
}

/// Whitespace around a line does not change what the line says.
pub proof fn whitespace_around_a_line_says_nothing(
    before: Seq<char>,
    line: Seq<char>,
    after: Seq<char>,
)
    requires
        blank(before),
        blank(after),
    ensures
        rust_adapter::line_result(before + line + after) == rust_adapter::line_result(line),
{
    lemma_trimmed_padding(before, line, after);
}

/// A run of non-whitespace that whitespace or nothing follows is the leading word.
proof fn lemma_leading_word(word: Seq<char>, rest: Seq<char>)
    requires
        forall|i: int| 0 <= i < word.len() ==> !text::whitespace(#[trigger] word[i]),
        rest.len() == 0 || text::whitespace(rest[0]),
    ensures
        text::leading_word(word + rest) == word,
    decreases word.len(),
{
    if word.len() == 0 {
        assert(word + rest == rest);
    } else {
        let tail = word.drop_first();
        assert forall|i: int| 0 <= i < tail.len() implies !text::whitespace(#[trigger] tail[i]) by {
            assert(tail[i] == word[i + 1]);
        }
        lemma_leading_word(tail, rest);
        assert((word + rest)[0] == word[0]);
        assert(!text::whitespace(word[0]));
        assert((word + rest).drop_first() =~= tail + rest);
        assert(seq![word[0]] + tail =~= word);
    }
}

/// The run of a character that a text ends in is what is trimmed of it.
proof fn lemma_trimmed_end_of(s: Seq<char>, run: Seq<char>, c: char)
    requires
        s.len() > 0,
        s.last() != c,
        forall|i: int| 0 <= i < run.len() ==> #[trigger] run[i] == c,
    ensures
        text::trimmed_end_of(s + run, c) == s,
    decreases run.len(),
{
    if run.len() == 0 {
        assert(s + run == s);
    } else {
        let rest = run.drop_last();
        assert forall|i: int| 0 <= i < rest.len() implies #[trigger] rest[i] == c by {
            assert(rest[i] == run[i]);
        }
        lemma_trimmed_end_of(s, rest, c);
        assert((s + run).last() == run[run.len() - 1]);
        assert((s + run).drop_last() =~= s + rest);
    }
}

/// The word that libtest prints for an outcome.
pub open spec fn outcome_word(status: TestStatus) -> Option<Seq<char>> {
    match status {
        TestStatus::Passed => Some("ok"@),
        TestStatus::Failed => Some("FAILED"@),
        TestStatus::Ignored => Some("ignored"@),
        _ => None,
    }
}

/// An outcome's word holds no whitespace and no comma, and stands for the outcome.
proof fn lemma_outcome_word(status: TestStatus)
    requires
        outcome_word(status) is Some,
    ensures
        ({
            let word = outcome_word(status)->0;
            &&& word.len() > 0
            &&& word.last() != ','
            &&& forall|i: int| 0 <= i < word.len() ==> !text::whitespace(#[trigger] word[i])
            &&& rust_adapter::outcome(word) == Some(status)
        }),
{
    reveal_strlit("ok");
    reveal_strlit("FAILED");
    reveal_strlit("ignored");
    assert("ok"@.len() == 2);
    assert("FAILED"@.len() == 6);
    assert("ignored"@.len() == 7);
    assert("FAILED"@[0] == 'F');
    assert("ignored"@[0] == 'i');
}

/// A line of libtest's: `test <name> ... <outcome>`, and what follows the outcome.
pub open spec fn printed_line(
    name: Seq<char>,
    status: TestStatus,
    commas: Seq<char>,
    note: Seq<char>,
) -> Seq<char> {
    "test "@ + name + " ... "@ + outcome_word(status)->0 + commas + note
}

/// What libtest prints of a test is read back: the name and the outcome, whatever whitespace
/// stands around the line, and whatever note follows the outcome after commas and whitespace.
/// The name must not itself hold, or run into, the dots that follow it.
pub proof fn printed_results_are_read_back(
    before: Seq<char>,
    name: Seq<char>,
    status: TestStatus,
    commas: Seq<char>,
    note: Seq<char>,
    after: Seq<char>,
)
    requires
        blank(before),
        blank(after),
        outcome_word(status) is Some,
        text::position(name + " ... "@, " ... "@) == Some(name.len() as int),
        forall|i: int| 0 <= i < commas.len() ==> #[trigger] commas[i] == ',',
        note.len() == 0 || text::whitespace(note[0]),
    ensures
        rust_adapter::line_result(before + printed_line(name, status, commas, note) + after)
            == Some((name, status)),
{
    let prefix = "test "@;
    let dots = " ... "@;
    let word = outcome_word(status)->0;
    let words = word + commas;
    let line = printed_line(name, status, commas, note);
    let head = prefix + name + dots + words;
    reveal_strlit("test ");
    reveal_strlit(" ... ");
    lemma_outcome_word(status);
    assert(line =~= head + note);
    assert(line[0] == 't');
    lemma_trimmed_padding(before, line, after);
    assert forall|i: int| 0 <= i < words.len() implies !text::whitespace(#[trigger] words[i]) by {
        if i < word.len() {
            assert(words[i] == word[i]);
        } else {
            assert(words[i] == commas[i - word.len()]);
        }
    }
    assert(head.last() == words[words.len() - 1]);
    lemma_trimmed_end_after(head, note);
    let left = text::trimmed_end(note);
    let body = head + left;
    assert(text::trimmed(before + line + after) == body);
    assert(body.subrange(0, 5) =~= prefix);
    assert(prefix.is_prefix_of(body)) by {
        assert forall|i: int| 0 <= i < prefix.len() implies #[trigger] body[i] == prefix[i] by {
            assert(body[i] == body.subrange(0, 5)[i]);
        }
    }
    let rest = name + dots + words + left;
    assert(body.skip(prefix.len() as int) =~= rest);
    text::lemma_position(name + dots, dots);
    assert(rest.subrange(name.len() as int, name.len() as int + 5) =~= dots);
    assert forall|j: int| 0 <= j < name.len() implies !#[trigger] text::occurs_at(rest, dots, j) by {
        assert(rest.subrange(j, j + 5) =~= (name + dots).subrange(j, j + 5));
        assert(!text::occurs_at(name + dots, dots, j));
    }
    text::lemma_position_is(rest, dots, name.len() as int);
    assert(rest.take(name.len() as int) =~= name);
    let outcome = words + left;
    assert(rest.skip(name.len() as int + 5) =~= outcome);
    assert(outcome[0] == words[0]);
    assert(!text::whitespace(words[0]));
    lemma_leading_word(words, left);
    lemma_trimmed_end_of(word, commas, ',');
}

/// Whether a text stands on one line.
pub open spec fn on_one_line(s: Seq<char>) -> bool {
    forall|i: int| 0 <= i < s.len() ==> #[trigger] s[i] != '\n'
}

/// A text on one line, with a line feed after it, reports what the text reports.
proof fn lemma_line_results(line: Seq<char>)
    requires
        on_one_line(line),
    ensures
        RustAdapter.spec_results(line.push('\n')) == match rust_adapter::line_result(line) {
            Some(result) => seq![result],
            None => Seq::empty(),
        },
{
    let newline = seq!['\n'];
    let s = line.push('\n');
    let n = line.len() as int;
    assert(s.subrange(n, n + 1) =~= newline);
    assert forall|j: int| 0 <= j < n implies !#[trigger] text::occurs_at(s, newline, j) by {
        assert(s.subrange(j, j + 1)[0] == line[j]);
    }
    text::lemma_position_is(s, newline, n);
    assert(s.take(n) =~= line);
    assert(s.skip(n + 1) =~= Seq::<char>::empty());
    let kept = text::without_carriage_return(line);
    if line.len() > 0 && line.last() == '\r' {
        let none = Seq::<char>::empty();
        let end = seq!['\r'];
        assert(line =~= none + kept + end);
        whitespace_around_a_line_says_nothing(none, kept, end);
    }
    assert(rust_adapter::line_result(kept) == rust_adapter::line_result(line));
    let lines = text::lines(s);
    assert(text::lines(s.skip(n + 1)) == Seq::<Seq<char>>::empty());
    assert(lines =~= seq![kept]);
    assert(lines.drop_last() =~= Seq::<Seq<char>>::empty());
    let f = |line: Seq<char>| rust_adapter::line_result(line);
    assert(lines.drop_last().filter_map(f) =~= Seq::empty());
}

/// Results in which nothing speaks of a test leave its last result as it was.
proof fn lemma_last_result_add(
    run: CurrentRunView<RustAdapter>,
    a: Seq<(Seq<char>, TestStatus)>,
    b: Seq<(Seq<char>, TestStatus)>,
    name: Seq<char>,
)
    requires
        state::last_result(run, b, name) is None,
    ensures
        state::last_result(run, a + b, name) == state::last_result(run, a, name),
    decreases b.len(),
{
    if b.len() == 0 {
        assert(a + b == a);
    } else {
        lemma_last_result_add(run, a, b.drop_last(), name);
        assert((a + b).drop_last() =~= a + b.drop_last());
        assert((a + b).last() == b.last());
    }
}

/// A line break at the end adds nothing to the results.
proof fn lemma_results_with_line_break(a: Seq<char>)
    ensures
        RustAdapter.spec_results(a.push('\n')) == RustAdapter.spec_results(a),
    decreases a.len(),
{
    let newline = seq!['\n'];
    text::lemma_position(a, newline);
    match text::position(a, newline) {
        Some(i) => {
            let head = a.take(i + 1);
            let rest = a.skip(i + 1);
            assert(a.subrange(i, i + 1)[0] == '\n');
            assert(head.last() == '\n');
            assert(a =~= head + rest);
            assert(a.push('\n') =~= head + rest.push('\n'));
            more_output_adds_results(head, rest);
            more_output_adds_results(head, rest.push('\n'));
            lemma_results_with_line_break(rest);
        },
        None => {
            assert forall|i: int| 0 <= i < a.len() implies #[trigger] a[i] != '\n' by {
                if a[i] == '\n' {
                    assert(a.subrange(i, i + 1) =~= newline);
                    assert(text::occurs_at(a, newline, i));
                }
            }
            lemma_line_results(a);
            let f = |line: Seq<char>| rust_adapter::line_result(line);
            if a.len() == 0 {
                reveal_strlit("test ");
                assert(rust_adapter::line_result(a) is None);
                assert(text::lines(a) =~= Seq::<Seq<char>>::empty());
                assert(text::lines(a).filter_map(f) =~= Seq::empty());
            } else {
                assert(text::lines(a) == seq![a]);
                Seq::lemma_filter_map_singleton(a, f);
            }
        },
    }
}

/// Two outputs with a line break between them report what the one reports, followed by what the
/// other reports.
pub proof fn outputs_on_lines_of_their_own_add_up(a: Seq<char>, b: Seq<char>)
    ensures
        RustAdapter.spec_results(a + seq!['\n'] + b) == RustAdapter.spec_results(a)
            + RustAdapter.spec_results(b),
{
    assert(a + seq!['\n'] =~= a.push('\n'));
    more_output_adds_results(a.push('\n'), b);
    lemma_results_with_line_break(a);
}

/// What libtest prints of a target, anywhere among complete lines of output, becomes the status
/// of the target and stays it when the run ends, if no result of the same target follows.
pub proof fn printed_results_become_statuses(
    state: ManagerView<RustAdapter>,
    head: Seq<char>,
    line: Seq<char>,
    tail: Seq<char>,
    name: Seq<char>,
    status: TestStatus,
    target: int,
    success: bool,
)
    requires
        state.current_run is Some,
        complete_lines(head),
        on_one_line(line),
        rust_adapter::line_result(line) == Some((name, status)),
        state::matching_target_from(
            (state.current_run->0).adapter,
            (state.current_run->0).targets,
            name,
            0,
        ) == Some(target),
        state::last_result(
            state.current_run->0,
            RustAdapter.spec_results(tail),
            (state.current_run->0).targets[target].name,
        ) is None,
    ensures
        ({
            let content = head + line.push('\n') + tail;
            let test = (state.current_run->0).targets[target].name;
            &&& state::status_of(state::after_output(state, content).statuses, test) == status
            &&& state::status_of(state::after_finish(state, content, success).statuses, test)
                == status
        }),
{
    let printed = line.push('\n');
    let content = head + printed + tail;
    more_output_adds_results(head, printed);
    assert((head + printed).last() == '\n');
    more_output_adds_results(head + printed, tail);
    lemma_line_results(line);
    let before = RustAdapter.spec_results(head);
    let after = RustAdapter.spec_results(tail);
    let results = RustAdapter.spec_results(content);
    assert(results == before + seq![(name, status)] + after);
    let run = state.current_run->0;
    let test = run.targets[target].name;
    lemma_last_result_add(run, before + seq![(name, status)], after, test);
    assert((before + seq![(name, status)]).last() == (name, status));
    laws::reported_results_become_statuses(state, content, success, test);
}

/// The adapter is the one for Rust, and knows plain tests, which come first, and doc-tests.
pub proof fn rust_tests_and_doc_tests_are_known()
    ensures
        RustAdapter.spec_name() == "rust"@,
        RustAdapter.spec_tags() == seq!["rust-test"@, "rust-doc-test"@],
{
}

/// A text on one line reports what the line says, and nothing where it says nothing.
pub proof fn lines_report_what_they_say(line: Seq<char>)
    requires
        on_one_line(line),
    ensures
        RustAdapter.spec_results(line) == (match rust_adapter::line_result(line) {
            Some(result) => seq![result],
            None => Seq::empty(),
        }),
{
    lemma_line_results(line);
    lemma_results_with_line_break(line);
}

/// A line of libtest's, with more whitespace before the outcome.
pub open spec fn spaced_line(
    name: Seq<char>,
    gap: Seq<char>,
    status: TestStatus,
    commas: Seq<char>,
    note: Seq<char>,
) -> Seq<char> {
    "test "@ + name + " ... "@ + gap + outcome_word(status)->0 + commas + note
}

/// What libtest prints of a test is read back, however much whitespace stands before the outcome.
pub proof fn spaced_results_are_read_back(
    before: Seq<char>,
    name: Seq<char>,
    gap: Seq<char>,
    status: TestStatus,
    commas: Seq<char>,
    note: Seq<char>,
    after: Seq<char>,
)
    requires
        blank(before),
        blank(gap),
        blank(after),
        outcome_word(status) is Some,
        text::position(name + " ... "@, " ... "@) == Some(name.len() as int),
        forall|i: int| 0 <= i < commas.len() ==> #[trigger] commas[i] == ',',
        note.len() == 0 || text::whitespace(note[0]),
    ensures
        rust_adapter::line_result(before + spaced_line(name, gap, status, commas, note) + after)
            == Some((name, status)),
{
    let prefix = "test "@;
    let dots = " ... "@;
    let word = outcome_word(status)->0;
    let words = word + commas;
    let line = spaced_line(name, gap, status, commas, note);
    let head = prefix + name + dots + gap + words;
    reveal_strlit("test ");
    reveal_strlit(" ... ");
    lemma_outcome_word(status);
    assert(line =~= head + note);
    assert(line[0] == 't');
    lemma_trimmed_padding(before, line, after);
    assert forall|i: int| 0 <= i < words.len() implies !text::whitespace(#[trigger] words[i]) by {
        if i < word.len() {
            assert(words[i] == word[i]);
        } else {
            assert(words[i] == commas[i - word.len()]);
        }
    }
    assert(head.last() == words[words.len() - 1]);
    lemma_trimmed_end_after(head, note);
    let left = text::trimmed_end(note);
    let body = head + left;
    assert(text::trimmed(before + line + after) == body);
    assert(body.subrange(0, 5) =~= prefix);
    assert(prefix.is_prefix_of(body)) by {
        assert forall|i: int| 0 <= i < prefix.len() implies #[trigger] body[i] == prefix[i] by {
            assert(body[i] == body.subrange(0, 5)[i]);
        }
    }
    let rest = name + dots + gap + words + left;
    assert(body.skip(prefix.len() as int) =~= rest);
    text::lemma_position(name + dots, dots);
    assert(rest.subrange(name.len() as int, name.len() as int + 5) =~= dots);
    assert forall|j: int| 0 <= j < name.len() implies !#[trigger] text::occurs_at(rest, dots, j) by {
        assert(rest.subrange(j, j + 5) =~= (name + dots).subrange(j, j + 5));
        assert(!text::occurs_at(name + dots, dots, j));
    }
    text::lemma_position_is(rest, dots, name.len() as int);
    assert(rest.take(name.len() as int) =~= name);
    let outcome = words + left;
    assert(rest.skip(name.len() as int + 5) =~= gap + outcome);
    lemma_trimmed_start(gap, outcome);
    assert(outcome[0] == words[0]);
    assert(!text::whitespace(words[0]));
    lemma_leading_word(words, left);
    lemma_trimmed_end_of(word, commas, ',');
}

/// What a read line consists of around the name and the outcome: the whitespace before it and after
/// it, the whitespace and the commas around the outcome, and what follows.
pub struct LineParts {
    pub before: Seq<char>,
    pub gap: Seq<char>,
    pub commas: Seq<char>,
    pub note: Seq<char>,
    pub after: Seq<char>,
}

/// Only what libtest prints is read: a line that gives a result is one of libtest's with that name
/// and that outcome. Returns what stands around them.
pub proof fn read_results_were_printed(line: Seq<char>, name: Seq<char>, status: TestStatus) -> (
    parts: LineParts)
    requires
        rust_adapter::line_result(line) == Some((name, status)),
    ensures
        outcome_word(status) is Some,
        line == parts.before + spaced_line(name, parts.gap, status, parts.commas, parts.note)
            + parts.after,
        blank(parts.before),
        blank(parts.gap),
        blank(parts.after),
        forall|i: int| 0 <= i < parts.commas.len() ==> #[trigger] parts.commas[i] == ',',
        parts.note.len() == 0 || text::whitespace(parts.note[0]),
        forall|j: int|
            j < name.len() ==> !#[trigger] text::occurs_at(name + " ... "@, " ... "@, j),
{
    let prefix = "test "@;
    let dots = " ... "@;
    let body = text::trimmed(line);
    let (before, after) = text_laws::trimming_drops_the_whitespace_around(line);
    let rest = body.skip(prefix.len() as int);
    text_laws::splitting_cuts_at_the_first_place(rest, dots);
    let outcome = (text::split_once(rest, dots)->0).1;
    let (gap, note) = text_laws::first_words_stand_between_whitespace(outcome);
    let words = text::first_word(outcome)->0;
    let word = text::trimmed_end_of(words, ',');
    let commas = text_laws::trimming_a_character_drops_its_run(words, ',');
    assert(outcome_word(status) == Some(word));
    assert(body =~= prefix + rest);
    assert(rest == name + dots + outcome);
    assert(line =~= before + spaced_line(name, gap, status, commas, note) + after);
    assert forall|j: int| j < name.len() implies !#[trigger] text::occurs_at(
        name + dots,
        dots,
        j,
    ) by {
        if text::occurs_at(name + dots, dots, j) {
            assert(rest.subrange(j, j + dots.len()) =~= (name + dots).subrange(j, j + dots.len()));
            assert(text::occurs_at(rest, dots, j));
        }
    }
    LineParts { before, gap, commas, note, after }
}

/// A name that is not plain refers to the test that is reported under exactly that name, and to no
/// other.
pub proof fn other_names_match_themselves_alone(discovered: Seq<char>, reported: Seq<char>)
    requires
        !plain_name(discovered),
    ensures
        RustAdapter.spec_matches(discovered, reported) <==> reported == discovered,
{
    let separator = "::"@;
    reveal_strlit("::");
    text::lemma_last_position(reported, separator);
    if RustAdapter.spec_matches(discovered, reported) && reported != discovered {
        let p = text::last_position(reported, separator)->0;
        assert(reported.skip(p + 2) == discovered);
        if text::occurs(discovered, separator) {
            let j = choose|j: int| text::occurs_at(discovered, separator, j);
            assert(reported.subrange(p + 2 + j, p + 4 + j) =~= discovered.subrange(j, j + 2));
            assert(text::occurs_at(reported, separator, p + 2 + j));
        } else {
            assert(reported.subrange(p, p + 2)[1] == ':');
            assert(reported[p + 2] == discovered[0]);
            assert(reported.subrange(p + 1, p + 3) =~= separator);
            assert(text::occurs_at(reported, separator, p + 1));
        }
    }
}

/// Filters that keep the same elements of a sequence keep the same sequence.
proof fn lemma_filter_same<T>(s: Seq<T>, a: spec_fn(T) -> bool, b: spec_fn(T) -> bool)
    requires
        forall|x: T| #[trigger] a(x) == b(x),
    ensures
        s.filter(a) == s.filter(b),
    decreases s.len(),
{
    reveal(Seq::filter);
    if s.len() > 0 {
        lemma_filter_same(s.drop_last(), a, b);
        assert(a(s.last()) == b(s.last()));
    }
}

/// What is kept of a command's arguments is all but the flag.
proof fn lemma_captured_args(args: Seq<Seq<char>>)
    ensures
        rust_adapter::captured_args(args) == without_the_flag(args),
{
    lemma_filter_same(
        args,
        |arg: Seq<char>| arg != rust_adapter::no_capture_flag(),
        |arg: Seq<char>| arg != "--nocapture"@,
    );
}

/// The arguments of a command without the flag that turns capturing off.
pub open spec fn without_the_flag(args: Seq<Seq<char>>) -> Seq<Seq<char>> {
    args.filter(|arg: Seq<char>| arg != "--nocapture"@)
}

/// The names of tests, one after the other.
pub open spec fn names_of(targets: Seq<DiscoveredTestView>) -> Seq<Seq<char>> {
    Seq::new(targets.len(), |i: int| targets[i].name)
}

/// The command for a single test, or for one test of a file, is the one that was resolved, without
/// the flag that turns capturing off.
pub proof fn single_commands_lose_the_flag_alone(
    kind: RunKind,
    targets: Seq<DiscoveredTestView>,
    base: SpawnView,
)
    requires
        kind == RunKind::SingleTest || targets.len() <= 1,
    ensures
        ({
            let shaped = RustAdapter.spec_prepare(kind, targets, base);
            &&& shaped.command == base.command
            &&& shaped.label == base.label
            &&& shaped.full_label == base.full_label
            &&& shaped.args == without_the_flag(base.args)
        }),
{
    lemma_captured_args(base.args);
}

/// The command for several tests of a file names them all, in their order, where the name of the
/// first one stood last, and at the end where it did not stand; what stood around it stays, without
/// the flag that turns capturing off. It is called by the number of the tests.
pub proof fn file_commands_name_the_tests_in_place(
    targets: Seq<DiscoveredTestView>,
    base: SpawnView,
    before: Seq<Seq<char>>,
    after: Seq<Seq<char>>,
)
    requires
        targets.len() > 1,
    ensures
        ({
            let shaped = RustAdapter.spec_prepare(RunKind::File, targets, base);
            let kept = without_the_flag(base.args);
            let first = targets[0].name;
            &&& shaped.command == base.command
            &&& shaped.label == "cargo test ("@ + text::decimal(targets.len()) + " tests)"@
            &&& shaped.full_label == shaped.label
            &&& kept == before + seq![first] + after && !after.contains(first) ==> shaped.args
                == before + names_of(targets) + after
            &&& !kept.contains(first) ==> shaped.args == kept + names_of(targets)
        }),
{
    let kept = rust_adapter::captured_args(base.args);
    let first = targets[0].name;
    lemma_captured_args(base.args);
    assert(rust_adapter::target_names(targets) =~= names_of(targets));
    kept.index_of_last_ensures(first);
    if kept == before + seq![first] + after && !after.contains(first) {
        let p = before.len() as int;
        assert(kept[p] == first);
        let i = kept.index_of_last(first)->0;
        if i > p {
            assert(after[i - p - 1] == first);
        }
        assert(i == p);
        assert(kept.take(p) =~= before);
        assert(kept.skip(p + 1) =~= after);
    }
}

} // verus!
