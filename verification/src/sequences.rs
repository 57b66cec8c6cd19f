//! Facts on filtered and mapped sequences.

use vstd::prelude::*;

verus! {

/// What a filter keeps passes the filter and stood in the sequence.
pub proof fn lemma_filter_from<A>(s: Seq<A>, keeps: spec_fn(A) -> bool, i: int)
    requires
        0 <= i < s.filter(keeps).len(),
    ensures
        keeps(s.filter(keeps)[i]),
        s.contains(s.filter(keeps)[i]),
    decreases s.len(),
{
    reveal(Seq::filter);
    if s.len() > 0 {
        let before = s.drop_last().filter(keeps);
        if i < before.len() {
            lemma_filter_from(s.drop_last(), keeps, i);
            let k = choose|k: int| 0 <= k < s.drop_last().len() && s.drop_last()[k] == before[i];
            assert(s[k] == before[i]);
            assert(s.filter(keeps)[i] == before[i]);
        } else {
            assert(s[s.len() - 1] == s.filter(keeps)[i]);
        }
    }
}

/// What a filter keeps stands in the order of the sequence.
pub proof fn lemma_filter_order<A>(s: Seq<A>, keeps: spec_fn(A) -> bool, i: int, j: int)
    requires
        0 <= i < j < s.filter(keeps).len(),
    ensures
        exists|a: int, b: int|
            0 <= a < b < s.len() && #[trigger] s[a] == s.filter(keeps)[i] && #[trigger] s[b]
                == s.filter(keeps)[j],
    decreases s.len(),
{
    reveal(Seq::filter);
    let init = s.drop_last();
    let before = init.filter(keeps);
    let all = s.filter(keeps);
    if j < before.len() {
        lemma_filter_order(init, keeps, i, j);
        let (a, b) = choose|a: int, b: int|
            0 <= a < b < init.len() && #[trigger] init[a] == before[i] && #[trigger] init[b]
                == before[j];
        assert(s[a] == all[i] && s[b] == all[j]);
    } else {
        lemma_filter_from(init, keeps, i);
        let a = choose|a: int| 0 <= a < init.len() && init[a] == before[i];
        assert(s[a] == all[i] && s[s.len() - 1] == all[j]);
    }
}

/// What passes a filter is kept.
pub proof fn lemma_filter_keeps<A>(s: Seq<A>, keeps: spec_fn(A) -> bool, i: int)
    requires
        0 <= i < s.len(),
        keeps(s[i]),
    ensures
        s.filter(keeps).contains(s[i]),
    decreases s.len(),
{
    reveal(Seq::filter);
    let before = s.drop_last().filter(keeps);
    let all = s.filter(keeps);
    if i == s.len() - 1 {
        assert(all[all.len() - 1] == s[i]);
    } else {
        lemma_filter_keeps(s.drop_last(), keeps, i);
        let k = choose|k: int| 0 <= k < before.len() && before[k] == s[i];
        assert(all[k] == s[i]);
    }
}

/// Whether positions are those that a filter keeps, in their order.
pub open spec fn are_kept_positions<A>(
    s: Seq<A>,
    keeps: spec_fn(A) -> bool,
    positions: Seq<int>,
) -> bool {
    &&& positions.len() == s.filter(keeps).len()
    &&& forall|k: int|
        0 <= k < positions.len() ==> {
            &&& 0 <= #[trigger] positions[k] < s.len()
            &&& s.filter(keeps)[k] == s[positions[k]]
            &&& keeps(s[positions[k]])
        }
    &&& forall|k: int, l: int|
        0 <= k < l < positions.len() ==> #[trigger] positions[k] < #[trigger] positions[l]
    &&& forall|i: int|
        0 <= i < s.len() && keeps(#[trigger] s[i]) ==> exists|k: int|
            0 <= k < positions.len() && #[trigger] positions[k] == i
}

/// Where the elements that a filter keeps stood.
pub proof fn lemma_filter_positions<A>(s: Seq<A>, keeps: spec_fn(A) -> bool) -> (positions: Seq<
    int,
>)
    ensures
        are_kept_positions(s, keeps, positions),
    decreases s.len(),
{
    reveal(Seq::filter);
    if s.len() == 0 {
        Seq::empty()
    } else {
        let init = s.drop_last();
        let before = lemma_filter_positions(init, keeps);
        let last = s.len() - 1;
        let positions = if keeps(s.last()) {
            before.push(last)
        } else {
            before
        };
        assert forall|k: int| 0 <= k < positions.len() implies {
            &&& 0 <= #[trigger] positions[k] < s.len()
            &&& s.filter(keeps)[k] == s[positions[k]]
            &&& keeps(s[positions[k]])
        } by {
            if k < before.len() {
                assert(positions[k] == before[k]);
                assert(init[before[k]] == s[before[k]]);
            }
        }
        assert forall|i: int| 0 <= i < s.len() && keeps(#[trigger] s[i]) implies exists|k: int|
            0 <= k < positions.len() && #[trigger] positions[k] == i by {
            if i < last {
                assert(init[i] == s[i]);
                let k = choose|k: int| 0 <= k < before.len() && #[trigger] before[k] == i;
                assert(positions[k] == i);
            } else {
                assert(positions[positions.len() - 1] == i);
            }
        }
        assert forall|k: int, l: int| 0 <= k < l < positions.len() implies #[trigger] positions[k]
            < #[trigger] positions[l] by {
            assert(positions[k] == before[k]);
            if l < before.len() {
                assert(positions[l] == before[l]);
            }
        }
        positions
    }
}

/// A filter that keeps every element changes nothing.
pub proof fn lemma_filter_all<A>(s: Seq<A>, keeps: spec_fn(A) -> bool)
    requires
        forall|i: int| 0 <= i < s.len() ==> keeps(#[trigger] s[i]),
    ensures
        s.filter(keeps) == s,
    decreases s.len(),
{
    reveal(Seq::filter);
    if s.len() > 0 {
        lemma_filter_all(s.drop_last(), keeps);
        assert(s.drop_last().push(s.last()) =~= s);
    }
}

/// Filters that agree on the elements keep the same ones.
pub proof fn lemma_filter_same<A>(s: Seq<A>, f: spec_fn(A) -> bool, g: spec_fn(A) -> bool)
    requires
        forall|i: int| 0 <= i < s.len() ==> f(#[trigger] s[i]) == g(s[i]),
    ensures
        s.filter(f) == s.filter(g),
    decreases s.len(),
{
    reveal(Seq::filter);
    if s.len() > 0 {
        assert(s.last() == s[s.len() - 1]);
        lemma_filter_same(s.drop_last(), f, g);
    }
}

/// Filtering what a map gave is mapping what a filter kept.
pub proof fn lemma_filter_map<A, B>(s: Seq<A>, f: spec_fn(A) -> B, keeps: spec_fn(B) -> bool)
    ensures
        s.map_values(f).filter(keeps) == s.filter(|a: A| keeps(f(a))).map_values(f),
    decreases s.len(),
{
    reveal(Seq::filter);
    let g = |a: A| keeps(f(a));
    if s.len() > 0 {
        lemma_filter_map(s.drop_last(), f, keeps);
        assert(s.map_values(f).drop_last() =~= s.drop_last().map_values(f));
        assert(s.map_values(f).last() == f(s.last()));
        if g(s.last()) {
            assert(s.drop_last().filter(g).push(s.last()).map_values(f) =~= s.drop_last().filter(
                g,
            ).map_values(f).push(f(s.last())));
        }
    } else {
        assert(s.map_values(f) =~= Seq::empty());
        assert(s.filter(g).map_values(f) =~= Seq::empty());
    }
}

} // verus!
