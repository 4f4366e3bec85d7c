//! Rust's tests: how `cargo test` is asked to run them, and what it prints about them.

use vstd::prelude::*;

use crate::adapter;
use crate::adapter::{
    DiscoveredTest, DiscoveredTestView, RunKind, SpawnInTerminal, SpawnView, TestAdapter,
    TestStatus,
};
use crate::text;
use crate::text::{
    chars_of, find_first_word, find_from, find_last, push_decimal, same_chars, same_text,
    string_of, strip_prefix, trim, trim_end_of,
};

verus! {

broadcast use vstd::seq_lib::group_seq_properties;

/// Runs Rust tests through the `cargo test` task templates and parses libtest's
/// human-readable output.
pub struct RustAdapter;

/// The flag that has libtest print what tests write.
pub open spec fn no_capture_flag() -> Seq<char> {
    "--nocapture"@
}

/// The outcome that a word of libtest's stands for.
pub open spec fn outcome(word: Seq<char>) -> Option<TestStatus> {
    if word == "ok"@ {
        Some(TestStatus::Passed)
    } else if word == "FAILED"@ {
        Some(TestStatus::Failed)
    } else if word == "ignored"@ {
        Some(TestStatus::Ignored)
    } else {
        None
    }
}

/// What a line of libtest's output says of a test: after `test `, the name up to the first
/// ` ... `, then a word for the outcome, which commas may follow.
pub open spec fn line_result(line: Seq<char>) -> Option<(Seq<char>, TestStatus)> {
    let body = text::trimmed(line);
    if !"test "@.is_prefix_of(body) {
        None
    } else {
        match text::split_once(body.skip("test "@.len() as int), " ... "@) {
            None => None,
            Some((name, rest)) => match text::first_word(rest) {
                None => None,
                Some(word) => match outcome(text::trimmed_end_of(word, ',')) {
                    None => None,
                    Some(status) => Some((name, status)),
                },
            },
        }
    }
}

/// What the lines of an output say, in their order.
pub open spec fn line_results(lines: Seq<Seq<char>>) -> Seq<(Seq<char>, TestStatus)> {
    lines.filter_map(|line: Seq<char>| line_result(line))
}

/// The outcome that a word of libtest's stands for.
fn parse_outcome(word: &[char]) -> (r: Option<TestStatus>)
    ensures
        r == outcome(word@),
{
    if same_chars(word, chars_of("ok").as_slice()) {
        Some(TestStatus::Passed)
    } else if same_chars(word, chars_of("FAILED").as_slice()) {
        Some(TestStatus::Failed)
    } else if same_chars(word, chars_of("ignored").as_slice()) {
        Some(TestStatus::Ignored)
    } else {
        None
    }
}

/// Parses a libtest result line, given as its characters.
fn parse_result_chars(line: &[char]) -> (r: Option<(String, TestStatus)>)
    ensures
        match r {
            Some(result) => line_result(line@) == Some((result.0@, result.1)),
            None => line_result(line@) is None,
        },
{
    let body = trim(line);
    let prefix = chars_of("test ");
    let rest = match strip_prefix(body, prefix.as_slice()) {
        Some(rest) => rest,
        None => return None,
    };
    let end: usize = rest.len();
    let separator = chars_of(" ... ");
    let at: usize = match find_from(rest, separator.as_slice(), 0) {
        Some(at) => at,
        None => return None,
    };
    proof {
        text::lemma_position(rest@, separator@);
    }
    let word = match find_first_word(&rest[at + separator.len()..end]) {
        Some(word) => word,
        None => return None,
    };
    match parse_outcome(trim_end_of(word, ',')) {
        Some(status) => Some((string_of(&rest[0..at]), status)),
        None => None,
    }
}

/// Parses a libtest result line: `test module::name ... ok|FAILED|ignored`.
pub fn parse_result_line(line: &str) -> (r: Option<(String, TestStatus)>)
    ensures
        match r {
            Some(result) => line_result(line@) == Some((result.0@, result.1)),
            None => line_result(line@) is None,
        },
{
    parse_result_chars(chars_of(line).as_slice())
}

/// A command's arguments without the flag that turns capturing off.
pub open spec fn captured_args(args: Seq<Seq<char>>) -> Seq<Seq<char>> {
    args.filter(|arg: Seq<char>| arg != no_capture_flag())
}

/// The names of tests.
pub open spec fn target_names(targets: Seq<DiscoveredTestView>) -> Seq<Seq<char>> {
    targets.map_values(|target: DiscoveredTestView| target.name)
}

/// The arguments with the last one that equals `base` replaced by `names`, or with `names`
/// behind them if there is none.
pub open spec fn widened_args(
    args: Seq<Seq<char>>,
    base: Seq<char>,
    names: Seq<Seq<char>>,
) -> Seq<Seq<char>> {
    match args.index_of_last(base) {
        Some(i) => args.take(i) + names + args.skip(i + 1),
        None => args + names,
    }
}

/// What a run of several tests is called.
pub open spec fn file_label(count: nat) -> Seq<char> {
    "cargo test ("@ + text::decimal(count) + " tests)"@
}

/// The command that runs the targets, made from the command of the first of them.
pub open spec fn shaped_command(
    kind: RunKind,
    targets: Seq<DiscoveredTestView>,
    base: SpawnView,
) -> SpawnView {
    let args = captured_args(base.args);
    if kind == RunKind::File && targets.len() > 1 {
        SpawnView {
            command: base.command,
            label: file_label(targets.len()),
            full_label: file_label(targets.len()),
            args: widened_args(args, targets[0].name, target_names(targets)),
        }
    } else {
        SpawnView { args, ..base }
    }
}

/// The arguments that are not the flag that turns capturing off.
fn without_no_capture(args: &Vec<String>) -> (r: Vec<String>)
    ensures
        adapter::string_views(r@) == captured_args(adapter::string_views(args@)),
{
    let mut r: Vec<String> = Vec::new();
    let ghost views = adapter::string_views(args@);
    let ghost keep = |arg: Seq<char>| arg != no_capture_flag();
    let mut i: usize = 0;
    proof {
        reveal(Seq::filter);
        assert(adapter::string_views(r@) =~= views.take(0).filter(keep));
    }
    while i < args.len()
        invariant
            i <= args@.len(),
            views == adapter::string_views(args@),
            keep == (|arg: Seq<char>| arg != no_capture_flag()),
            adapter::string_views(r@) == views.take(i as int).filter(keep),
        decreases args@.len() - i,
    {
        proof {
            reveal(Seq::filter);
            assert(views.take(i + 1).drop_last() == views.take(i as int));
        }
        let ghost before = r@;
        if !same_text(args[i].as_str(), "--nocapture") {
            r.push(args[i].clone());
            proof {
                assert(adapter::string_views(r@) =~= adapter::string_views(before).push(args@[i as int]@));
            }
        }
        i += 1;
    }
    proof {
        assert(views.take(args@.len() as int) == views);
    }
    r
}

/// The last argument that equals a name.
fn last_arg(args: &Vec<String>, name: &str) -> (r: Option<usize>)
    ensures
        match r {
            Some(i) => adapter::string_views(args@).index_of_last(name@) == Some(i as int),
            None => adapter::string_views(args@).index_of_last(name@) is None,
        },
        r matches Some(i) ==> i < args@.len(),
{
    let ghost views = adapter::string_views(args@);
    proof {
        views.index_of_last_ensures(name@);
    }
    let mut n: usize = args.len();
    while n > 0
        invariant
            n <= args@.len(),
            views == adapter::string_views(args@),
            forall|j: int| n <= j < args@.len() ==> views[j] != name@,
        decreases n,
    {
        if same_text(args[n - 1].as_str(), name) {
            proof {
                assert(views[n - 1] == name@);
                views.index_of_last_ensures(name@);
            }
            return Some(n - 1);
        }
        n -= 1;
    }
    None
}

/// Appends the names of the targets.
fn push_names(args: &mut Vec<String>, targets: &[DiscoveredTest])
    ensures
        adapter::string_views(final(args)@) == adapter::string_views(old(args)@) + target_names(adapter::test_views(targets@)),
{
    let ghost before = adapter::string_views(args@);
    let ghost names = target_names(adapter::test_views(targets@));
    let mut i: usize = 0;
    while i < targets.len()
        invariant
            i <= targets@.len(),
            names == target_names(adapter::test_views(targets@)),
            adapter::string_views(args@) == before + names.take(i as int),
        decreases targets@.len() - i,
    {
        let ghost current = args@;
        args.push(targets[i].name.clone());
        proof {
            assert(adapter::string_views(args@) =~= adapter::string_views(current).push(targets@[i as int].name@));
            assert(names.take(i + 1) =~= names.take(i as int).push(names[i as int]));
        }
        i += 1;
    }
    proof {
        assert(names.take(targets@.len() as int) == names);
    }
}

/// Puts the names of the targets in the place of the last argument that equals the first name,
/// or behind the arguments.
fn widen(args: Vec<String>, targets: &[DiscoveredTest]) -> (r: Vec<String>)
    requires
        targets@.len() > 0,
    ensures
        adapter::string_views(r@) == widened_args(
            adapter::string_views(args@),
            targets@[0].name@,
            target_names(adapter::test_views(targets@)),
        ),
{
    let mut args = args;
    let ghost before = adapter::string_views(args@);
    match last_arg(&args, targets[0].name.as_str()) {
        Some(i) => {
            let mut tail = args.split_off(i);
            tail.remove(0);
            let ghost rest = tail@;
            push_names(&mut args, targets);
            let ghost head = args@;
            args.append(&mut tail);
            proof {
                assert(adapter::string_views(args@) =~= adapter::string_views(head) + adapter::string_views(rest));
                assert(adapter::string_views(rest) =~= before.skip(i + 1));
                assert(adapter::string_views(head) =~= before.take(i as int) + target_names(
                    adapter::test_views(targets@),
                ));
            }
        },
        None => push_names(&mut args, targets),
    }
    args
}

/// What a run of several tests is called.
fn label_for(count: usize) -> (r: String)
    ensures
        r@ == file_label(count as nat),
{
    let mut label = "cargo test (".to_string();
    push_decimal(&mut label, count);
    label.append(" tests)");
    label
}

/// The line that starts at a place, and where the next one starts.
fn next_line(chars: &[char], start: usize) -> (r: (&[char], usize))
    requires
        start < chars@.len(),
    ensures
        start < r.1 <= chars@.len(),
        text::lines(chars@.skip(start as int)) == seq![r.0@] + text::lines(
            chars@.skip(r.1 as int),
        ),
{
    let newline = chars_of("\n");
    let all: usize = chars.len();
    let rest = &chars[start..all];
    proof {
        reveal_strlit("\n");
        assert(newline@ =~= seq!['\n']);
        assert(rest@ == chars@.skip(start as int));
        text::lemma_position(rest@, newline@);
    }
    match find_from(rest, newline.as_slice(), 0) {
        Some(i) => {
            let end: usize = if i > 0 && rest[i - 1] == '\r' { i - 1 } else { i };
            let line = &rest[0..end];
            proof {
                assert(line@ =~= text::without_carriage_return(rest@.take(i as int)));
                assert(rest@.skip(i + 1) =~= chars@.skip(start + i + 1));
            }
            (line, start + i + 1)
        },
        None => {
            proof {
                assert(text::lines(chars@.skip(all as int)) =~= Seq::<Seq<char>>::empty());
            }
            (rest, all)
        },
    }
}

impl TestAdapter for RustAdapter {
    open spec fn spec_name(&self) -> Seq<char> {
        "rust"@
    }

    open spec fn spec_tags(&self) -> Seq<Seq<char>> {
        seq!["rust-test"@, "rust-doc-test"@]
    }

    open spec fn spec_prepare(
        &self,
        kind: RunKind,
        targets: Seq<DiscoveredTestView>,
        base: SpawnView,
    ) -> SpawnView {
        shaped_command(kind, targets, base)
    }

    open spec fn spec_results(&self, output: Seq<char>) -> Seq<(Seq<char>, TestStatus)> {
        line_results(text::lines(output))
    }

    open spec fn spec_matches(&self, discovered: Seq<char>, reported: Seq<char>) -> bool {
        reported == discovered || text::after_last(reported, "::"@) == discovered
    }

    fn name(&self) -> &'static str {
        "rust"
    }

    fn test_tags(&self) -> &'static [&'static str] {
        let tags: &'static [&'static str] = &["rust-test", "rust-doc-test"];
        proof {
            assert(adapter::tag_views(tags@) =~= self.spec_tags());
        }
        tags
    }

    fn prepare_run(
        &self,
        kind: RunKind,
        targets: &[DiscoveredTest],
        base: SpawnInTerminal,
    ) -> SpawnInTerminal {
        // With capture enabled, libtest prints `test <name> ... <result>` lines
        // atomically, which keeps them parseable; output of failing tests still
        // appears in the failures section.
        let args = without_no_capture(&base.args);
        if kind == RunKind::File && targets.len() > 1 {
            // The resolved template carries the base test's name as the libtest
            // filter; widen it to every test in the file (libtest accepts
            // multiple filter arguments).
            let label = label_for(targets.len());
            SpawnInTerminal {
                command: base.command,
                full_label: label.clone(),
                label,
                args: widen(args, targets),
            }
        } else {
            SpawnInTerminal {
                command: base.command,
                label: base.label,
                full_label: base.full_label,
                args,
            }
        }
    }

    fn parse_output(&self, output: &str) -> Vec<(String, TestStatus)> {
        let chars = chars_of(output);
        let mut results: Vec<(String, TestStatus)> = Vec::new();
        let mut start: usize = 0;
        let ghost mut done: Seq<Seq<char>> = Seq::empty();
        proof {
            assert(chars@.skip(0) == chars@);
            assert(adapter::result_views(results@) =~= line_results(done));
            assert(text::lines(chars@) =~= done + text::lines(chars@));
        }
        while start < chars.len()
            invariant
                start <= chars@.len(),
                text::lines(chars@) == done + text::lines(chars@.skip(start as int)),
                adapter::result_views(results@) == line_results(done),
            decreases chars@.len() - start,
        {
            let (line, next) = next_line(chars.as_slice(), start);
            let ghost before = results@;
            let ghost lines_before = done;
            proof {
                let rest = text::lines(chars@.skip(next as int));
                done = done.push(line@);
                assert(done.drop_last() == lines_before);
                assert(lines_before + (seq![line@] + rest) =~= done + rest);
            }
            match parse_result_chars(line) {
                Some(result) => {
                    results.push(result);
                    proof {
                        assert(adapter::result_views(results@) =~= adapter::result_views(before).push(
                            (result.0@, result.1),
                        ));
                    }
                },
                None => {},
            }
            start = next;
        }
        proof {
            assert(chars@.skip(start as int) =~= Seq::<char>::empty());
            assert(done =~= text::lines(chars@));
        }
        results
    }

    fn matches_test(&self, discovered: &str, reported: &str) -> bool {
        if same_text(reported, discovered) {
            return true;
        }
        let path = chars_of(reported);
        let name = chars_of(discovered);
        let separator = chars_of("::");
        let end: usize = path.len();
        proof {
            text::lemma_last_position(path@, separator@);
        }
        match find_last(path.as_slice(), separator.as_slice()) {
            Some(i) => same_chars(&path.as_slice()[i + separator.len()..end], name.as_slice()),
            None => false,
        }
    }
}

} // verus!
