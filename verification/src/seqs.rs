use vstd::prelude::*;

verus! {

/// What a filter keeps: the elements of the sequence that pass the test.
pub proof fn lemma_filter_member<A>(s: Seq<A>, keep: spec_fn(A) -> bool, x: A)
    ensures
        s.filter(keep).contains(x) <==> s.contains(x) && keep(x),
{
    if s.filter(keep).contains(x) {
        s.lemma_filter_contains_rev(keep, x);
        let k = choose|k: int| 0 <= k < s.filter(keep).len() && s.filter(keep)[k] == x;
        s.lemma_filter_pred(keep, k);
    }
    if s.contains(x) && keep(x) {
        let k = choose|k: int| 0 <= k < s.len() && s[k] == x;
        s.lemma_filter_contains(keep, k);
    }
}

/// A filter that every element passes changes nothing.
pub proof fn lemma_filter_all<A>(s: Seq<A>, keep: spec_fn(A) -> bool)
    requires
        forall|k: int| 0 <= k < s.len() ==> keep(#[trigger] s[k]),
    ensures
        s.filter(keep) == s,
    decreases s.len(),
{
    reveal(Seq::filter);
    if s.len() > 0 {
        lemma_filter_all(s.drop_last(), keep);
        assert(s.drop_last().push(s.last()) =~= s);
    }
}

/// A filter that no element passes leaves nothing.
pub proof fn lemma_filter_none<A>(s: Seq<A>, keep: spec_fn(A) -> bool)
    requires
        forall|k: int| 0 <= k < s.len() ==> !keep(#[trigger] s[k]),
    ensures
        s.filter(keep) == Seq::<A>::empty(),
    decreases s.len(),
{
    reveal(Seq::filter);
    if s.len() > 0 {
        lemma_filter_none(s.drop_last(), keep);
    }
}

/// Counting the elements that pass a test, one element further.
pub proof fn lemma_count_step<A>(s: Seq<A>, keep: spec_fn(A) -> bool, i: int)
    requires
        0 <= i < s.len(),
    ensures
        s.take(i + 1).filter(keep).len() == s.take(i).filter(keep).len() + if keep(s[i]) {
            1int
        } else {
            0int
        },
        s.take(i + 1).filter(keep).len() <= i + 1,
{
    assert(s.take(i + 1) =~= s.take(i).push(s[i]));
    s.take(i).lemma_filter_push(s[i], keep);
    s.take(i + 1).lemma_filter_len(keep);
}

/// A filter keeps the order of what it keeps: two places of the filtered
/// sequence hold what two places of the sequence hold, in the same order.
pub proof fn lemma_filter_order<A>(s: Seq<A>, keep: spec_fn(A) -> bool, i: int, j: int)
    requires
        0 <= i < j < s.filter(keep).len(),
    ensures
        exists|a: int, b: int|
            #![trigger s[a], s[b]]
            0 <= a < b < s.len() && s[a] == s.filter(keep)[i] && s[b] == s.filter(keep)[j],
    decreases s.len(),
{
    reveal(Seq::filter);
    let kept = s.filter(keep);
    let rest = s.drop_last();
    let before = rest.filter(keep);
    if j < before.len() {
        lemma_filter_order(rest, keep, i, j);
        let (a, b) = choose|a: int, b: int|
            #![trigger rest[a], rest[b]]
            0 <= a < b < rest.len() && rest[a] == before[i] && rest[b] == before[j];
        assert(s[a] == kept[i] && s[b] == kept[j]);
    } else {
        assert(before.contains(before[i]));
        lemma_filter_member(rest, keep, before[i]);
        let a = choose|a: int| 0 <= a < rest.len() && rest[a] == before[i];
        let b = s.len() - 1;
        assert(s[a] == kept[i] && s[b] == kept[j]);
    }
}

/// A sequence of which some element passes a test, and no two elements
/// do, has exactly one that passes.
pub proof fn lemma_one_match<A>(s: Seq<A>, keep: spec_fn(A) -> bool)
    requires
        exists|k: int| 0 <= k < s.len() && keep(#[trigger] s[k]),
        forall|i: int, j: int|
            0 <= i < j < s.len() ==> !(keep(#[trigger] s[i]) && keep(#[trigger] s[j])),
    ensures
        s.filter(keep).len() == 1,
    decreases s.len(),
{
    reveal(Seq::filter);
    let rest = s.drop_last();
    let k = choose|k: int| 0 <= k < s.len() && keep(#[trigger] s[k]);
    if keep(s.last()) {
        assert forall|i: int| 0 <= i < rest.len() implies !keep(#[trigger] rest[i]) by {
            assert(!(keep(s[i]) && keep(s[s.len() - 1])));
        }
        lemma_filter_none(rest, keep);
    } else {
        assert(keep(rest[k]));
        assert forall|i: int, j: int| 0 <= i < j < rest.len() implies !(keep(#[trigger] rest[i])
            && keep(#[trigger] rest[j])) by {
            assert(!(keep(s[i]) && keep(s[j])));
        }
        lemma_one_match(rest, keep);
    }
}

} // verus!
