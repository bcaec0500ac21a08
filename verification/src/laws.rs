//! What holds of every run of the registry.
//!
//! A run is told by two sequences. `calls[k]` is the pair of the code that
//! the `k`-th successful allocation returned and the long URL it was asked
//! for; `states[k]` is the registry's model before that allocation, and
//! the last state is the model after all of them.

use crate::code::is_short_code;
use crate::registry::{allocates, codes_distinct, codes_well_formed, has_code, url_of, Pair};
use vstd::prelude::*;

verus! {

/// `states` and `calls` tell a run that starts at the empty registry: each
/// call is one allocation from its state to the next.
pub open spec fn is_history(states: Seq<Seq<Pair>>, calls: Seq<Pair>) -> bool {
    &&& states.len() == calls.len() + 1
    &&& states[0] == Seq::<Pair>::empty()
    &&& forall|k: int|
        0 <= k < calls.len() ==> allocates(
            #[trigger] states[k],
            calls[k].1,
            calls[k].0,
            states[k + 1],
        )
}

/// Every model with well-formed, pairwise distinct codes is where some run
/// ends: the run that allocates its pairs one by one, in their order.
pub proof fn lemma_history_of(entries: Seq<Pair>) -> (states: Seq<Seq<Pair>>)
    requires
        codes_distinct(entries),
        codes_well_formed(entries),
    ensures
        is_history(states, entries),
        states.last() == entries,
{
    let states = Seq::new(entries.len() + 1, |k: int| entries.take(k));
    assert(states[0] =~= Seq::<Pair>::empty());
    assert forall|k: int| 0 <= k < entries.len() implies allocates(
        #[trigger] states[k],
        entries[k].1,
        entries[k].0,
        states[k + 1],
    ) by {
        assert(states[k + 1] =~= states[k].push((entries[k].0, entries[k].1)));
        if has_code(states[k], entries[k].0) {
            let i = choose|i: int|
                0 <= i < states[k].len() && (#[trigger] states[k][i]).0 == entries[k].0;
            assert(entries[i].0 == entries[k].0);
        }
    }
    assert(states.last() =~= entries);
    states
}

/// After the first `n` calls of a run the registry holds exactly those `n`
/// pairs, in the order of the calls.
pub proof fn lemma_state_is_prefix(states: Seq<Seq<Pair>>, calls: Seq<Pair>, n: int)
    requires
        is_history(states, calls),
        0 <= n <= calls.len(),
    ensures
        states[n] == calls.take(n),
    decreases n,
{
    if n == 0 {
        assert(states[0] =~= calls.take(0));
    } else {
        lemma_state_is_prefix(states, calls, n - 1);
        assert(allocates(states[n - 1], calls[n - 1].1, calls[n - 1].0, states[n]));
        assert(states[n] =~= calls.take(n));
    }
}

/// Listing is complete: after `N` successful allocations the registry holds
/// exactly `N` pairs, the `k`-th being the code that the `k`-th call returned
/// with the long URL that it was asked for.
pub proof fn law_listing_complete(states: Seq<Seq<Pair>>, calls: Seq<Pair>)
    requires
        is_history(states, calls),
    ensures
        states.last() == calls,
{
    lemma_state_is_prefix(states, calls, calls.len() as int);
    assert(calls.take(calls.len() as int) =~= calls);
}

/// Codes are unique: the codes that the calls of a run returned are pairwise
/// distinct, also where two calls asked for the same long URL.
pub proof fn law_codes_unique(states: Seq<Seq<Pair>>, calls: Seq<Pair>)
    requires
        is_history(states, calls),
    ensures
        codes_distinct(calls),
        codes_well_formed(calls),
{
    assert forall|i: int, j: int| 0 <= i < j < calls.len() implies (#[trigger] calls[i]).0 != (
    #[trigger] calls[j]).0 by {
        lemma_state_is_prefix(states, calls, j);
        assert(allocates(states[j], calls[j].1, calls[j].0, states[j + 1]));
        assert(states[j][i] == calls[i]);
    }
    assert forall|i: int| 0 <= i < calls.len() implies is_short_code((#[trigger] calls[i]).0) by {
        assert(allocates(states[i], calls[i].1, calls[i].0, states[i + 1]));
    }
}

/// Round trip: right after an allocation, its code resolves to the long URL
/// it was asked for.
pub proof fn law_round_trip(
    before: Seq<Pair>,
    long_url: Seq<char>,
    code: Seq<char>,
    after: Seq<Pair>,
)
    requires
        allocates(before, long_url, code, after),
    ensures
        url_of(after, code) == Some(long_url),
{
    let last = before.len() as int;
    assert(after[last].0 == code);
    let i = choose|i: int| 0 <= i < after.len() && (#[trigger] after[i]).0 == code;
    if i < last {
        assert(before[i].0 == code);
    }
}

/// An allocation changes what no other code resolves to.
pub proof fn law_resolve_stable(
    before: Seq<Pair>,
    long_url: Seq<char>,
    code: Seq<char>,
    after: Seq<Pair>,
    other: Seq<char>,
)
    requires
        codes_distinct(before),
        allocates(before, long_url, code, after),
        other != code,
    ensures
        url_of(after, other) == url_of(before, other),
{
    if has_code(before, other) {
        let i = choose|i: int| 0 <= i < before.len() && (#[trigger] before[i]).0 == other;
        assert(after[i].0 == other);
        let j = choose|j: int| 0 <= j < after.len() && (#[trigger] after[j]).0 == other;
        assert(before[j].0 == other);
        assert(i == j);
    } else if has_code(after, other) {
        let j = choose|j: int| 0 <= j < after.len() && (#[trigger] after[j]).0 == other;
        assert(before[j].0 == other);
    }
}

/// No update is lost: at the end of a run every code that a call returned
/// resolves to the long URL that this call was asked for.
pub proof fn law_every_call_resolves(states: Seq<Seq<Pair>>, calls: Seq<Pair>, k: int)
    requires
        is_history(states, calls),
        0 <= k < calls.len(),
    ensures
        url_of(states.last(), calls[k].0) == Some(calls[k].1),
{
    law_listing_complete(states, calls);
    law_codes_unique(states, calls);
    let code = calls[k].0;
    assert(has_code(calls, code));
    let i = choose|i: int| 0 <= i < calls.len() && (#[trigger] calls[i]).0 == code;
    assert(i == k);
}

/// No false positives: a code that no call of the run returned resolves to
/// nothing.
pub proof fn law_no_false_positives(states: Seq<Seq<Pair>>, calls: Seq<Pair>, code: Seq<char>)
    requires
        is_history(states, calls),
        forall|k: int| 0 <= k < calls.len() ==> (#[trigger] calls[k]).0 != code,
    ensures
        url_of(states.last(), code) is None,
{
    law_listing_complete(states, calls);
}

/// A string that is no well-formed code resolves to nothing.
pub proof fn law_malformed_code_unresolved(
    states: Seq<Seq<Pair>>,
    calls: Seq<Pair>,
    code: Seq<char>,
)
    requires
        is_history(states, calls),
        !is_short_code(code),
    ensures
        url_of(states.last(), code) is None,
{
    law_codes_unique(states, calls);
    law_no_false_positives(states, calls, code);
}

} // verus!
