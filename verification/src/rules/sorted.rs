//! Properties in the order of their names.
use vstd::prelude::*;
use crate::rules::rule_property::{distinct_names, entries_data, RulePropertyValue};

verus! {

/// Whether the text `first` comes before the text `second` in the order of
/// a dictionary, where a character comes before another by its number.
pub open spec fn text_before(first: Seq<char>, second: Seq<char>) -> bool
    decreases first.len(),
{
    if second.len() == 0 {
        false
    } else if first.len() == 0 {
        true
    } else if first[0] != second[0] {
        (first[0] as u32) < (second[0] as u32)
    } else {
        text_before(first.drop_first(), second.drop_first())
    }
}

/// What comes before something that comes before a third text comes before the third.
pub proof fn lemma_text_before_transitive(first: Seq<char>, second: Seq<char>, third: Seq<char>)
    requires
        text_before(first, second),
        text_before(second, third),
    ensures
        text_before(first, third),
    decreases first.len(),
{
    if first.len() > 0 && first[0] == second[0] && second[0] == third[0] {
        lemma_text_before_transitive(first.drop_first(), second.drop_first(), third.drop_first());
    }
}

/// No text comes before itself.
pub proof fn lemma_text_before_irreflexive(text: Seq<char>)
    ensures
        !text_before(text, text),
    decreases text.len(),
{
    if text.len() > 0 {
        lemma_text_before_irreflexive(text.drop_first());
    }
}

/// Whether the first text is less than the second, by `<` of `str`
/// (`PartialOrd::lt`). It is believed, not proved, that this is
/// `text_before`: `str` orders texts as a dictionary does by the values of
/// their bytes, which for the encoding of `str` is the order by the numbers
/// of their characters.
#[verifier::external_body]
fn text_less(first: &str, second: &str) -> (less: bool)
    ensures
        less == text_before(first@, second@),
{
    first < second
}

/// No entry comes after an entry whose name comes after its own.
pub open spec fn names_ascend(entries: Seq<(String, RulePropertyValue)>) -> bool {
    forall|i: int, j: int|
        0 <= i < j < entries.len() ==> !text_before((#[trigger] entries[j]).0@, (#[trigger] entries[i]).0@)
}

/// The same entries in the order of their names.
pub fn sort_by_name(entries: Vec<(String, RulePropertyValue)>) -> (sorted: Vec<(String, RulePropertyValue)>)
    ensures
        sorted@.to_multiset() == entries@.to_multiset(),
        entries_data(sorted@).to_multiset() == entries_data(entries@).to_multiset(),
        names_ascend(sorted@),
        distinct_names(entries@) ==> distinct_names(sorted@),
{
    broadcast use vstd::seq_lib::group_to_multiset_ensures;

    let mut rest = entries;
    let mut sorted: Vec<(String, RulePropertyValue)> = Vec::new();
    assert(sorted@.to_multiset().add(rest@.to_multiset()) =~= entries@.to_multiset());
    assert(entries_data(sorted@) =~= Seq::empty());
    assert(entries_data(sorted@).to_multiset().add(entries_data(rest@).to_multiset()) =~= entries_data(
        entries@,
    ).to_multiset());
    while rest.len() > 0
        invariant
            sorted@.to_multiset().add(rest@.to_multiset()) == entries@.to_multiset(),
            entries_data(sorted@).to_multiset().add(entries_data(rest@).to_multiset()) == entries_data(
                entries@,
            ).to_multiset(),
            names_ascend(sorted@),
            distinct_names(entries@) ==> distinct_names(sorted@) && distinct_names(rest@) && forall|i: int, j: int|
                0 <= i < sorted@.len() && 0 <= j < rest@.len() ==> (#[trigger] sorted@[i]).0@ != (
                #[trigger] rest@[j]).0@,
        decreases rest@.len(),
    {
        let ghost rest_before = rest@;
        let ghost sorted_before = sorted@;
        let popped = rest.pop();
        match popped {
            Some(entry) => {
                let mut at: usize = 0;
                let mut searching = true;
                while searching
                    invariant
                        at <= sorted@.len(),
                        sorted@ == sorted_before,
                        forall|k: int| 0 <= k < at ==> !text_before(entry.0@, (#[trigger] sorted@[k]).0@),
                        !searching ==> (at == sorted@.len() || text_before(entry.0@, sorted@[at as int].0@)),
                    decreases sorted@.len() - at, (if searching { 1nat } else { 0nat }),
                {
                    if at == sorted.len() {
                        searching = false;
                    } else if text_less(entry.0.as_str(), sorted[at].0.as_str()) {
                        searching = false;
                    } else {
                        at += 1;
                    }
                }
                sorted.insert(at, entry);
                proof {
                    let now = sorted@;
                    sorted_before.insert_ensures(at as int, entry);
                    assert(now == sorted_before.insert(at as int, entry));
                    assert forall|i: int, j: int| 0 <= i < j < now.len() implies !text_before(
                        (#[trigger] now[j]).0@,
                        (#[trigger] now[i]).0@,
                    ) by {
                        if j == at {
                            assert(now[i] == sorted_before[i]);
                        } else if i == at {
                            assert(now[j] == sorted_before[j - 1]);
                            if text_before(now[j].0@, entry.0@) {
                                lemma_text_before_transitive(now[j].0@, entry.0@, sorted_before[at as int].0@);
                                if j - 1 > at {
                                    assert(!text_before(sorted_before[j - 1].0@, sorted_before[at as int].0@));
                                } else {
                                    lemma_text_before_irreflexive(sorted_before[at as int].0@);
                                }
                            }
                        } else {
                            let a = if i < at { i } else { i - 1 };
                            let b = if j < at { j } else { j - 1 };
                            assert(now[i] == sorted_before[a]);
                            assert(now[j] == sorted_before[b]);
                        }
                    }
                    assert(rest_before =~= rest@.push(entry));
                    vstd::seq_lib::to_multiset_insert(sorted_before, at as int, entry);
                    vstd::seq_lib::to_multiset_build(rest@, entry);
                    assert(sorted_before.to_multiset().insert(entry).add(rest@.to_multiset())
                        =~= sorted_before.to_multiset().add(rest@.to_multiset().insert(entry)));
                    assert(sorted@.to_multiset().add(rest@.to_multiset()) =~= entries@.to_multiset());
                    let data = (entry.0@, entry.1@);
                    assert(entries_data(now) =~= entries_data(sorted_before).insert(at as int, data));
                    assert(entries_data(rest_before) =~= entries_data(rest@).push(data));
                    vstd::seq_lib::to_multiset_insert(entries_data(sorted_before), at as int, data);
                    vstd::seq_lib::to_multiset_build(entries_data(rest@), data);
                    assert(entries_data(sorted_before).to_multiset().insert(data).add(
                        entries_data(rest@).to_multiset(),
                    ) =~= entries_data(sorted_before).to_multiset().add(
                        entries_data(rest@).to_multiset().insert(data),
                    ));
                    if distinct_names(entries@) {
                        assert forall|i: int, j: int| 0 <= i < j < now.len() implies (#[trigger] now[i]).0@ != (
                        #[trigger] now[j]).0@ by {
                            let last = rest_before.len() - 1;
                            assert(rest_before[last] == entry);
                            let a = if i < at { i } else { i - 1 };
                            let b = if j < at { j } else { j - 1 };
                            if i == at {
                                assert(now[j] == sorted_before[b]);
                                assert(sorted_before[b].0@ != rest_before[last].0@);
                            } else if j == at {
                                assert(now[i] == sorted_before[a]);
                                assert(sorted_before[a].0@ != rest_before[last].0@);
                            } else {
                                assert(now[i] == sorted_before[a]);
                                assert(now[j] == sorted_before[b]);
                            }
                        }
                        assert forall|i: int, j: int| 0 <= i < now.len() && 0 <= j < rest@.len() implies (
                        #[trigger] now[i]).0@ != (#[trigger] rest@[j]).0@ by {
                            let last = rest_before.len() - 1;
                            assert(rest@[j] == rest_before[j]);
                            if i == at {
                                assert(rest_before[j].0@ != rest_before[last].0@);
                            } else {
                                let a = if i < at { i } else { i - 1 };
                                assert(now[i] == sorted_before[a]);
                                assert(sorted_before[a].0@ != rest_before[j].0@);
                            }
                        }
                        assert forall|i: int, j: int| 0 <= i < j < rest@.len() implies (#[trigger] rest@[i]).0@ != (
                        #[trigger] rest@[j]).0@ by {
                            assert(rest@[i] == rest_before[i]);
                            assert(rest@[j] == rest_before[j]);
                        }
                    }
                }
            },
            None => {},
        }
    }
    assert(sorted@.to_multiset().add(rest@.to_multiset()) =~= sorted@.to_multiset());
    assert(entries_data(rest@) =~= Seq::empty());
    assert(entries_data(sorted@).to_multiset().add(entries_data(rest@).to_multiset()) =~= entries_data(
        sorted@,
    ).to_multiset());
    sorted
}

} // verus!
