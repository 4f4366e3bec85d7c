//! Discovery: which runnables of a buffer are tests, and which adapter runs them.

use std::ops::Range;
use std::sync::Arc;

use vstd::prelude::*;

use crate::adapter;
use crate::adapter::{Anchor, DiscoveredTest, DiscoveredTestView, TestAdapter};
use crate::names::NameMap;
use crate::text::same_text;

verus! {

/// Something that can be run in a buffer, as the language's queries found it.
pub struct Runnable {
    /// The tags that the queries gave it.
    pub tags: Vec<String>,
    /// The text of the part that names it.
    pub name: String,
    /// Where that part stands.
    pub range: Range<Anchor>,
    /// Extra captures of the queries.
    pub extra_captures: NameMap<String>,
}

/// A runnable as a mathematical value.
pub struct RunnableView {
    pub tags: Seq<Seq<char>>,
    pub name: Seq<char>,
    pub range: Range<Anchor>,
    pub extra_captures: Map<Seq<char>, Seq<char>>,
}

impl View for Runnable {
    type V = RunnableView;

    open spec fn view(&self) -> RunnableView {
        RunnableView {
            tags: adapter::string_views(self.tags@),
            name: self.name@,
            range: self.range,
            extra_captures: self.extra_captures@,
        }
    }
}

/// Runnables as mathematical values.
pub open spec fn runnable_views(runnables: Seq<Runnable>) -> Seq<RunnableView> {
    runnables.map_values(|runnable: Runnable| runnable@)
}

/// The first adapter for which a tag marks a test.
pub open spec fn first_adapter<A: TestAdapter + ?Sized>(adapters: Seq<Arc<A>>, tag: Seq<char>) -> Option<
    Arc<A>,
>
    decreases adapters.len(),
{
    if adapters.len() == 0 {
        None
    } else if adapters[0].spec_tags().contains(tag) {
        Some(adapters[0])
    } else {
        first_adapter(adapters.drop_first(), tag)
    }
}

/// Whether a tag marks a test for some adapter.
pub open spec fn marks_test<A: TestAdapter + ?Sized>(adapters: Seq<Arc<A>>, tag: Seq<char>) -> bool {
    exists|i: int| 0 <= i < adapters.len() && (#[trigger] adapters[i]).spec_tags().contains(tag)
}

/// The first of the tags that marks a test.
pub open spec fn first_test_tag<A: TestAdapter + ?Sized>(
    adapters: Seq<Arc<A>>,
    tags: Seq<Seq<char>>,
) -> Option<Seq<char>>
    decreases tags.len(),
{
    if tags.len() == 0 {
        None
    } else if marks_test(adapters, tags[0]) {
        Some(tags[0])
    } else {
        first_test_tag(adapters, tags.drop_first())
    }
}

/// The test that a runnable is, if one of its tags marks it as one.
pub open spec fn runnable_test<A: TestAdapter + ?Sized>(
    adapters: Seq<Arc<A>>,
    runnable: RunnableView,
) -> Option<DiscoveredTestView> {
    match first_test_tag(adapters, runnable.tags) {
        Some(tag) => Some(
            DiscoveredTestView {
                name: runnable.name,
                tag,
                range: runnable.range,
                extra_captures: runnable.extra_captures,
            },
        ),
        None => None,
    }
}

/// The tests among the runnables, in their order.
pub open spec fn discovered_tests<A: TestAdapter + ?Sized>(
    adapters: Seq<Arc<A>>,
    runnables: Seq<RunnableView>,
) -> Seq<DiscoveredTestView> {
    runnables.filter_map(|runnable: RunnableView| runnable_test(adapters, runnable))
}

/// Whether a tag is among the tags that mark tests for an adapter.
fn has_tag<A: TestAdapter + ?Sized>(adapter: &A, tag: &str) -> (r: bool)
    ensures
        r == adapter.spec_tags().contains(tag@),
{
    let tags = adapter.test_tags();
    let ghost views = adapter.spec_tags();
    let mut i: usize = 0;
    while i < tags.len()
        invariant
            i <= tags@.len(),
            views == adapter::tag_views(tags@),
            views == adapter.spec_tags(),
            forall|j: int| 0 <= j < i ==> views[j] != tag@,
        decreases tags@.len() - i,
    {
        if same_text(tags[i], tag) {
            proof {
                assert(views[i as int] == tag@);
            }
            return true;
        }
        i += 1;
    }
    false
}

/// The first adapter that runs tests with the given tag.
pub fn find_adapter<A: TestAdapter + ?Sized>(adapters: &Vec<Arc<A>>, tag: &str) -> (r: Option<Arc<A>>)
    ensures
        r == first_adapter(adapters@, tag@),
{
    let mut i: usize = 0;
    proof {
        assert(adapters@.skip(0) == adapters@);
    }
    while i < adapters.len()
        invariant
            i <= adapters@.len(),
            first_adapter(adapters@, tag@) == first_adapter(adapters@.skip(i as int), tag@),
        decreases adapters@.len() - i,
    {
        if has_tag(&*adapters[i], tag) {
            return Some(adapters[i].clone());
        }
        proof {
            assert(adapters@.skip(i as int).drop_first() == adapters@.skip(i + 1));
        }
        i += 1;
    }
    None
}

/// An adapter runs tests with a tag exactly where the tag marks a test for some adapter.
pub proof fn lemma_first_adapter<A: TestAdapter + ?Sized>(adapters: Seq<Arc<A>>, tag: Seq<char>)
    ensures
        first_adapter(adapters, tag) is Some <==> marks_test(adapters, tag),
        first_adapter(adapters, tag) matches Some(a) ==> a.spec_tags().contains(tag)
            && adapters.contains(a),
    decreases adapters.len(),
{
    if adapters.len() > 0 {
        let rest = adapters.drop_first();
        lemma_first_adapter(rest, tag);
        if adapters[0].spec_tags().contains(tag) {
            assert(adapters.contains(adapters[0]));
        } else {
            if marks_test(adapters, tag) {
                let i = choose|i: int|
                    0 <= i < adapters.len() && (#[trigger] adapters[i]).spec_tags().contains(tag);
                assert(rest[i - 1].spec_tags().contains(tag));
            }
            if marks_test(rest, tag) {
                let i = choose|i: int|
                    0 <= i < rest.len() && (#[trigger] rest[i]).spec_tags().contains(tag);
                assert(adapters[i + 1].spec_tags().contains(tag));
                let a = first_adapter(rest, tag)->0;
                let k = choose|k: int| 0 <= k < rest.len() && rest[k] == a;
                assert(adapters[k + 1] == a);
            }
        }
    }
}

/// The first test tag marks a test and is one of the tags; where there is none, no tag marks a
/// test.
pub proof fn lemma_first_test_tag<A: TestAdapter + ?Sized>(adapters: Seq<Arc<A>>, tags: Seq<Seq<char>>)
    ensures
        match first_test_tag(adapters, tags) {
            Some(tag) => marks_test(adapters, tag) && tags.contains(tag),
            None => forall|i: int|
                0 <= i < tags.len() ==> !marks_test(adapters, #[trigger] tags[i]),
        },
    decreases tags.len(),
{
    if tags.len() > 0 && !marks_test(adapters, tags[0]) {
        let rest = tags.drop_first();
        lemma_first_test_tag(adapters, rest);
        match first_test_tag(adapters, rest) {
            Some(tag) => {
                let k = choose|k: int| 0 <= k < rest.len() && rest[k] == tag;
                assert(tags[k + 1] == tag);
            },
            None => {
                assert forall|i: int| 0 <= i < tags.len() implies !marks_test(
                    adapters,
                    #[trigger] tags[i],
                ) by {
                    if i > 0 {
                        assert(rest[i - 1] == tags[i]);
                    }
                }
            },
        }
    } else if tags.len() > 0 {
        assert(tags.contains(tags[0]));
    }
}

/// The tags of discovered tests mark tests.
pub proof fn lemma_discovered_tags<A: TestAdapter + ?Sized>(
    adapters: Seq<Arc<A>>,
    runnables: Seq<RunnableView>,
)
    ensures
        forall|i: int|
            0 <= i < discovered_tests(adapters, runnables).len() ==> marks_test(
                adapters,
                (#[trigger] discovered_tests(adapters, runnables)[i]).tag,
            ),
{
    let f = |runnable: RunnableView| runnable_test(adapters, runnable);
    let tests = discovered_tests(adapters, runnables);
    assert forall|i: int| 0 <= i < tests.len() implies marks_test(
        adapters,
        (#[trigger] tests[i]).tag,
    ) by {
        assert(runnables.filter_map(f).contains(tests[i]));
        runnables.lemma_filter_map_contains(f, tests[i]);
        let runnable = choose|r: RunnableView| #[trigger]
            runnables.contains(r) && f(r) == Some(tests[i]);
        lemma_first_test_tag(adapters, runnable.tags);
    }
}

/// The first of the tags that marks a test.
fn find_test_tag<A: TestAdapter + ?Sized>(adapters: &Vec<Arc<A>>, tags: &Vec<String>) -> (r: Option<String>)
    ensures
        match r {
            Some(tag) => first_test_tag(adapters@, adapter::string_views(tags@)) == Some(tag@),
            None => first_test_tag(adapters@, adapter::string_views(tags@)) is None,
        },
{
    let ghost views = adapter::string_views(tags@);
    let mut i: usize = 0;
    proof {
        assert(views.skip(0) == views);
    }
    while i < tags.len()
        invariant
            i <= tags@.len(),
            views == adapter::string_views(tags@),
            first_test_tag(adapters@, views) == first_test_tag(adapters@, views.skip(i as int)),
        decreases tags@.len() - i,
    {
        proof {
            lemma_first_adapter(adapters@, views[i as int]);
            assert(views.skip(i as int).drop_first() == views.skip(i + 1));
        }
        if find_adapter(adapters, tags[i].as_str()).is_some() {
            return Some(tags[i].clone());
        }
        i += 1;
    }
    None
}

/// The tests among the runnables of a buffer, in their order.
pub fn discover<A: TestAdapter + ?Sized>(adapters: &Vec<Arc<A>>, runnables: &Vec<Runnable>) -> (r: Vec<
    DiscoveredTest,
>)
    ensures
        adapter::test_views(r@) == discovered_tests(adapters@, runnable_views(runnables@)),
{
    let ghost views = runnable_views(runnables@);
    let mut tests: Vec<DiscoveredTest> = Vec::new();
    let mut i: usize = 0;
    proof {
        assert(adapter::test_views(tests@) =~= discovered_tests(adapters@, views.take(0)));
    }
    while i < runnables.len()
        invariant
            i <= runnables@.len(),
            views == runnable_views(runnables@),
            adapter::test_views(tests@) == discovered_tests(adapters@, views.take(i as int)),
        decreases runnables@.len() - i,
    {
        let runnable = &runnables[i];
        let ghost before = tests@;
        proof {
            assert(views.take(i + 1).drop_last() == views.take(i as int));
        }
        match find_test_tag(adapters, &runnable.tags) {
            Some(tag) => {
                let test = DiscoveredTest {
                    name: runnable.name.clone(),
                    tag,
                    range: Range { start: runnable.range.start, end: runnable.range.end },
                    extra_captures: runnable.extra_captures.clone(),
                };
                tests.push(test);
                proof {
                    assert(adapter::test_views(tests@) =~= adapter::test_views(before).push(test@));
                }
            },
            None => {},
        }
        i += 1;
    }
    proof {
        assert(views.take(runnables@.len() as int) == views);
    }
    tests
}

} // verus!
