//! Order-preserving selection from a sequence.

use vstd::prelude::*;

verus! {

/// The positions of `input` at which `pick` yields something, ascending.
pub open spec fn picked_positions<A, B>(input: Seq<A>, pick: spec_fn(A) -> Option<B>) -> Seq<int>
    decreases input.len(),
{
    if input.len() == 0 {
        Seq::empty()
    } else {
        let before = picked_positions(input.drop_last(), pick);
        if pick(input.last()) is Some {
            before.push(input.len() - 1)
        } else {
            before
        }
    }
}

/// `out` holds what `pick` yields at the positions `at` of `input`, where
/// `at` ascends and misses no position at which `pick` yields something:
/// `out` follows the order of `input` and leaves out nothing that is picked.
pub open spec fn is_ordered_selection<A, B>(
    input: Seq<A>,
    out: Seq<B>,
    at: Seq<int>,
    pick: spec_fn(A) -> Option<B>,
) -> bool {
    &&& at.len() == out.len()
    &&& forall|k: int|
        0 <= k < at.len() ==> 0 <= #[trigger] at[k] < input.len() && pick(input[at[k]]) == Some(
            out[k],
        )
    &&& forall|j: int, k: int| 0 <= j < k < at.len() ==> at[j] < at[k]
    &&& forall|i: int| 0 <= i < input.len() && pick(input[i]) is Some ==> at.contains(i)
}

/// The choice that keeps an element as it is where `keep` holds.
pub open spec fn kept_where<A>(keep: spec_fn(A) -> bool) -> spec_fn(A) -> Option<A> {
    |a: A|
        if keep(a) {
            Some(a)
        } else {
            None
        }
}

/// The choice that applies `pick` where `keep` holds.
pub open spec fn picked_where<A, B>(keep: spec_fn(A) -> bool, pick: spec_fn(A) -> Option<B>) -> spec_fn(
    A,
) -> Option<B> {
    |a: A|
        if keep(a) {
            pick(a)
        } else {
            None
        }
}

/// `filter_map` selects in order: its result holds, in the order of the
/// input, exactly what `pick` yields.
pub proof fn lemma_filter_map_selects<A, B>(input: Seq<A>, pick: spec_fn(A) -> Option<B>)
    ensures
        is_ordered_selection(input, input.filter_map(pick), picked_positions(input, pick), pick),
    decreases input.len(),
{
    if input.len() > 0 {
        let shorter = input.drop_last();
        lemma_filter_map_selects(shorter, pick);
        let at_before = picked_positions(shorter, pick);
        let at = picked_positions(input, pick);
        let out = input.filter_map(pick);
        assert forall|k: int| 0 <= k < at.len() implies 0 <= #[trigger] at[k] < input.len() && pick(
            input[at[k]],
        ) == Some(out[k]) by {
            if k < at_before.len() {
                assert(at[k] == at_before[k]);
                assert(input[at[k]] == shorter[at_before[k]]);
            }
        }
        assert forall|j: int, k: int| 0 <= j < k < at.len() implies at[j] < at[k] by {
            assert(at[j] == at_before[j]);
            if k < at_before.len() {
                assert(at[k] == at_before[k]);
            }
        }
        assert forall|i: int| 0 <= i < input.len() && pick(input[i]) is Some implies at.contains(
            i,
        ) by {
            if i < shorter.len() {
                assert(shorter[i] == input[i]);
                assert(at_before.contains(i));
                let k = choose|k: int| 0 <= k < at_before.len() && at_before[k] == i;
                assert(at[k] == i);
            } else {
                assert(at[at.len() - 1] == i);
            }
        }
    }
}

/// Filtering one element more of `s` either appends that element or
/// changes nothing.
pub proof fn lemma_filter_take_next<A>(s: Seq<A>, keep: spec_fn(A) -> bool, i: int)
    requires
        0 <= i < s.len(),
    ensures
        s.take(i + 1).filter(keep) == if keep(s[i]) {
            s.take(i).filter(keep).push(s[i])
        } else {
            s.take(i).filter(keep)
        },
{
    reveal(Seq::filter);
    assert(s.take(i + 1).drop_last() =~= s.take(i));
}

/// `filter` is `filter_map` with the choice that keeps elements as they are.
pub proof fn lemma_filter_as_filter_map<A>(input: Seq<A>, keep: spec_fn(A) -> bool)
    ensures
        input.filter(keep) == input.filter_map(kept_where(keep)),
    decreases input.len(),
{
    reveal(Seq::filter);
    if input.len() > 0 {
        lemma_filter_as_filter_map(input.drop_last(), keep);
    }
}

/// Filtering and then choosing is choosing among what the filter keeps.
pub proof fn lemma_filter_then_filter_map<A, B>(
    input: Seq<A>,
    keep: spec_fn(A) -> bool,
    pick: spec_fn(A) -> Option<B>,
)
    ensures
        input.filter(keep).filter_map(pick) == input.filter_map(picked_where(keep, pick)),
    decreases input.len(),
{
    reveal(Seq::filter);
    if input.len() > 0 {
        let shorter = input.drop_last();
        lemma_filter_then_filter_map(shorter, keep, pick);
        if keep(input.last()) {
            assert(input.filter(keep).drop_last() =~= shorter.filter(keep));
        }
    }
}

/// The choice that applies `pick` and keeps its result where `keep` holds
/// of it.
pub open spec fn picked_if<A, B>(pick: spec_fn(A) -> Option<B>, keep: spec_fn(B) -> bool) -> spec_fn(
    A,
) -> Option<B> {
    |a: A|
        match pick(a) {
            Some(b) => if keep(b) {
                Some(b)
            } else {
                None
            },
            None => None,
        }
}

/// Choosing and then filtering is choosing what the filter would keep.
pub proof fn lemma_filter_map_then_filter<A, B>(
    input: Seq<A>,
    pick: spec_fn(A) -> Option<B>,
    keep: spec_fn(B) -> bool,
)
    ensures
        input.filter_map(pick).filter(keep) == input.filter_map(picked_if(pick, keep)),
    decreases input.len(),
{
    reveal(Seq::filter);
    if input.len() > 0 {
        let shorter = input.drop_last();
        lemma_filter_map_then_filter(shorter, pick, keep);
        if let Some(b) = pick(input.last()) {
            let chosen = shorter.filter_map(pick);
            assert((chosen + seq![b]).drop_last() =~= chosen);
            assert(chosen.filter(keep) + seq![b] =~= chosen.filter(keep).push(b));
        }
    }
}

/// An element is in the result of a filter exactly when it is in the input
/// and the filter's test holds of it.
pub proof fn lemma_filter_retains<A>(input: Seq<A>, keep: spec_fn(A) -> bool)
    ensures
        forall|a: A| #[trigger] input.filter(keep).contains(a) <==> input.contains(a) && keep(a),
{
    assert forall|a: A| #[trigger] input.filter(keep).contains(a) implies input.contains(a) && keep(
        a,
    ) by {
        input.lemma_filter_contains_rev(keep, a);
        let k = choose|k: int| 0 <= k < input.filter(keep).len() && input.filter(keep)[k] == a;
        input.lemma_filter_pred(keep, k);
    }
    assert forall|a: A| input.contains(a) && keep(a) implies #[trigger] input.filter(keep).contains(
        a,
    ) by {
        let i = choose|i: int| 0 <= i < input.len() && input[i] == a;
        input.lemma_filter_contains(keep, i);
    }
}

/// Two filters may be applied in either order.
pub proof fn lemma_filters_commute<A>(input: Seq<A>, first: spec_fn(A) -> bool, second: spec_fn(A) -> bool)
    ensures
        input.filter(first).filter(second) == input.filter(second).filter(first),
    decreases input.len(),
{
    reveal(Seq::filter);
    if input.len() > 0 {
        let shorter = input.drop_last();
        lemma_filters_commute(shorter, first, second);
        if first(input.last()) {
            assert(input.filter(first).drop_last() =~= shorter.filter(first));
        }
        if second(input.last()) {
            assert(input.filter(second).drop_last() =~= shorter.filter(second));
        }
    }
}

} // verus!
