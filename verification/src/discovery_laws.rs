//! What holds of discovery: proofs about which runnables are listed as tests, what a listed test
//! says, and which adapter runs it.

use std::sync::Arc;

use vstd::prelude::*;

use crate::adapter::{DiscoveredTestView, TestAdapter};
use crate::discovery;
use crate::discovery::RunnableView;

verus! {

broadcast use vstd::seq_lib::group_seq_properties;

/// Whether places in a list stand in the order of the list, each once.
pub open spec fn in_order(places: Seq<int>) -> bool {
    forall|k: int, l: int| 0 <= k < l < places.len() ==> #[trigger] places[k] < #[trigger] places[l]
}

/// What is made of a sequence comes from places in it, in their order, and from every place of
/// which something is made. Returns the places.
pub proof fn lemma_filter_map_places<T, U>(s: Seq<T>, f: spec_fn(T) -> Option<U>) -> (places: Seq<
    int,
>)
    ensures
        places.len() == s.filter_map(f).len(),
        in_order(places),
        forall|k: int|
            0 <= k < places.len() ==> 0 <= #[trigger] places[k] < s.len() && f(s[places[k]]) == Some(
                s.filter_map(f)[k],
            ),
        forall|i: int| 0 <= i < s.len() && f(#[trigger] s[i]) is Some ==> places.contains(i),
    decreases s.len(),
{
    if s.len() == 0 {
        Seq::empty()
    } else {
        let rest = s.drop_last();
        let last = s.len() - 1;
        let before = lemma_filter_map_places(rest, f);
        assert forall|i: int| 0 <= i < last && f(#[trigger] s[i]) is Some implies before.contains(
            i,
        ) by {
            assert(rest[i] == s[i]);
        }
        match f(s[last]) {
            Some(made) => {
                let places = before.push(last);
                assert(s.filter_map(f) == rest.filter_map(f).push(made));
                assert forall|k: int| 0 <= k < places.len() implies 0 <= #[trigger] places[k]
                    < s.len() && f(s[places[k]]) == Some(s.filter_map(f)[k]) by {
                    if k < before.len() {
                        assert(places[k] == before[k]);
                        assert(rest[before[k]] == s[before[k]]);
                    }
                }
                assert forall|i: int| 0 <= i < s.len() && f(#[trigger] s[i]) is Some implies
                    places.contains(i) by {
                    if i < last {
                        let k = choose|k: int| 0 <= k < before.len() && before[k] == i;
                        assert(places[k] == i);
                    } else {
                        assert(places[before.len() as int] == i);
                    }
                }
                places
            },
            None => {
                assert(s.filter_map(f) == rest.filter_map(f));
                assert forall|k: int| 0 <= k < before.len() implies 0 <= #[trigger] before[k]
                    < s.len() && f(s[before[k]]) == Some(s.filter_map(f)[k]) by {
                    assert(rest[before[k]] == s[before[k]]);
                }
                before
            },
        }
    }
}

/// Whether some adapter has a tag among those that mark its tests.
pub open spec fn known_tag<A: TestAdapter + ?Sized>(adapters: Seq<Arc<A>>, tag: Seq<char>) -> bool {
    exists|a: int| 0 <= a < adapters.len() && (#[trigger] adapters[a]).spec_tags().contains(tag)
}

/// Whether a tag is the first in a list that some adapter knows.
pub open spec fn first_known_tag<A: TestAdapter + ?Sized>(
    adapters: Seq<Arc<A>>,
    tags: Seq<Seq<char>>,
    tag: Seq<char>,
) -> bool {
    exists|t: int|
        0 <= t < tags.len() && #[trigger] tags[t] == tag && known_tag(adapters, tag) && forall|u: int|
            0 <= u < t ==> !known_tag(adapters, #[trigger] tags[u])
}

/// Whether one of the tags is known to some adapter.
pub open spec fn has_known_tag<A: TestAdapter + ?Sized>(
    adapters: Seq<Arc<A>>,
    tags: Seq<Seq<char>>,
) -> bool {
    exists|t: int| 0 <= t < tags.len() && known_tag(adapters, #[trigger] tags[t])
}

/// What is found as the test tag of a runnable is its first known tag; where nothing is found, none
/// of its tags is known.
pub proof fn test_tags_are_the_first_known_ones<A: TestAdapter + ?Sized>(
    adapters: Seq<Arc<A>>,
    tags: Seq<Seq<char>>,
)
    ensures
        match discovery::first_test_tag(adapters, tags) {
            Some(tag) => first_known_tag(adapters, tags, tag),
            None => !has_known_tag(adapters, tags),
        },
    decreases tags.len(),
{
    if tags.len() > 0 {
        assert(discovery::marks_test(adapters, tags[0]) == known_tag(adapters, tags[0]));
        if known_tag(adapters, tags[0]) {
            assert(tags[0] == tags[0]);
        } else {
            let rest = tags.drop_first();
            test_tags_are_the_first_known_ones(adapters, rest);
            match discovery::first_test_tag(adapters, rest) {
                Some(tag) => {
                    let t = choose|t: int|
                        0 <= t < rest.len() && #[trigger] rest[t] == tag && known_tag(adapters, tag)
                            && forall|u: int|
                            0 <= u < t ==> !known_tag(adapters, #[trigger] rest[u]);
                    assert(tags[t + 1] == tag);
                    assert forall|u: int| 0 <= u < t + 1 implies !known_tag(
                        adapters,
                        #[trigger] tags[u],
                    ) by {
                        if u > 0 {
                            assert(rest[u - 1] == tags[u]);
                        }
                    }
                },
                None => {
                    assert forall|t: int| 0 <= t < tags.len() implies !known_tag(
                        adapters,
                        #[trigger] tags[t],
                    ) by {
                        if t > 0 {
                            assert(rest[t - 1] == tags[t]);
                        }
                    }
                },
            }
        }
    }
}

/// Whether a test is a runnable as it stands in the source, under its first known tag.
pub open spec fn tells_runnable<A: TestAdapter + ?Sized>(
    adapters: Seq<Arc<A>>,
    test: DiscoveredTestView,
    runnable: RunnableView,
) -> bool {
    &&& test.name == runnable.name
    &&& test.range == runnable.range
    &&& test.extra_captures == runnable.extra_captures
    &&& first_known_tag(adapters, runnable.tags, test.tag)
}

/// A runnable is a test exactly where one of its tags is known, and the test has the name, the
/// range and the captures of the runnable.
pub proof fn tests_are_runnables_as_they_stand<A: TestAdapter + ?Sized>(
    adapters: Seq<Arc<A>>,
    runnable: RunnableView,
)
    ensures
        match discovery::runnable_test(adapters, runnable) {
            Some(test) => tells_runnable(adapters, test, runnable),
            None => !has_known_tag(adapters, runnable.tags),
        },
        discovery::runnable_test(adapters, runnable) is Some <==> has_known_tag(
            adapters,
            runnable.tags,
        ),
{
    test_tags_are_the_first_known_ones(adapters, runnable.tags);
}

/// The list has one test for each runnable with a known tag, in the order of the runnables, and
/// each test has the name, the range and the captures of its runnable. Returns the places of the
/// tests' runnables.
pub proof fn the_list_tells_the_runnables<A: TestAdapter + ?Sized>(
    adapters: Seq<Arc<A>>,
    runnables: Seq<RunnableView>,
) -> (places: Seq<int>)
    ensures
        places.len() == discovery::discovered_tests(adapters, runnables).len(),
        in_order(places),
        forall|k: int|
            0 <= k < places.len() ==> 0 <= #[trigger] places[k] < runnables.len() && tells_runnable(
                adapters,
                discovery::discovered_tests(adapters, runnables)[k],
                runnables[places[k]],
            ),
        forall|i: int|
            0 <= i < runnables.len() && has_known_tag(adapters, (#[trigger] runnables[i]).tags)
                ==> places.contains(i),
{
    let f = |runnable: RunnableView| discovery::runnable_test(adapters, runnable);
    let tests = discovery::discovered_tests(adapters, runnables);
    assert(tests == runnables.filter_map(f));
    let places = lemma_filter_map_places(runnables, f);
    assert forall|k: int| 0 <= k < places.len() implies 0 <= #[trigger] places[k] < runnables.len()
        && tells_runnable(adapters, tests[k], runnables[places[k]]) by {
        tests_are_runnables_as_they_stand(adapters, runnables[places[k]]);
    }
    assert forall|i: int|
        0 <= i < runnables.len() && has_known_tag(
            adapters,
            (#[trigger] runnables[i]).tags,
        ) implies places.contains(i) by {
        tests_are_runnables_as_they_stand(adapters, runnables[i]);
        assert(f(runnables[i]) is Some);
    }
    places
}

/// The adapter for a tag is the first that knows it; there is none exactly where no adapter knows
/// it.
pub proof fn the_first_adapter_that_knows_a_tag_runs_it<A: TestAdapter + ?Sized>(
    adapters: Seq<Arc<A>>,
    tag: Seq<char>,
)
    ensures
        match discovery::first_adapter(adapters, tag) {
            Some(adapter) => exists|k: int|
                0 <= k < adapters.len() && #[trigger] adapters[k] == adapter
                    && adapter.spec_tags().contains(tag) && forall|j: int|
                    0 <= j < k ==> !(#[trigger] adapters[j]).spec_tags().contains(tag),
            None => !known_tag(adapters, tag),
        },
    decreases adapters.len(),
{
    if adapters.len() > 0 {
        if adapters[0].spec_tags().contains(tag) {
            assert(adapters[0] == adapters[0]);
        } else {
            let rest = adapters.drop_first();
            the_first_adapter_that_knows_a_tag_runs_it(rest, tag);
            match discovery::first_adapter(rest, tag) {
                Some(adapter) => {
                    let k = choose|k: int|
                        0 <= k < rest.len() && #[trigger] rest[k] == adapter
                            && adapter.spec_tags().contains(tag) && forall|j: int|
                            0 <= j < k ==> !(#[trigger] rest[j]).spec_tags().contains(tag);
                    assert(adapters[k + 1] == adapter);
                    assert forall|j: int| 0 <= j < k + 1 implies !(
                    #[trigger] adapters[j]).spec_tags().contains(tag) by {
                        if j > 0 {
                            assert(rest[j - 1] == adapters[j]);
                        }
                    }
                },
                None => {
                    assert forall|a: int| 0 <= a < adapters.len() implies !(
                    #[trigger] adapters[a]).spec_tags().contains(tag) by {
                        if a > 0 {
                            assert(rest[a - 1] == adapters[a]);
                        }
                    }
                },
            }
        }
    }
}

} // verus!
