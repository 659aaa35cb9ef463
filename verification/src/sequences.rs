//! Properties of sequences that survive the common ways of changing them.
use vstd::prelude::*;

verus! {

/// No two elements of `s` have the same key.
pub open spec fn distinct_by<T, K>(s: Seq<T>, key: spec_fn(T) -> K) -> bool {
    forall|i: int, j: int| 0 <= i < j < s.len() ==> key(#[trigger] s[i]) != key(#[trigger] s[j])
}

/// Every element of `s` satisfies `p`.
pub open spec fn all_hold<T>(s: Seq<T>, p: spec_fn(T) -> bool) -> bool {
    forall|i: int| 0 <= i < s.len() ==> p(#[trigger] s[i])
}

/// Every element of `inner` occurs in `outer`, and in the same order:
/// `inner` is `outer` with some elements left out.
pub open spec fn embeds<T>(inner: Seq<T>, outer: Seq<T>, at: spec_fn(int) -> int) -> bool {
    &&& forall|k: int| 0 <= k < inner.len() ==> 0 <= #[trigger] at(k) < outer.len() && inner[k]
        == outer[at(k)]
    &&& forall|k: int, l: int| 0 <= k < l < inner.len() ==> #[trigger] at(k) < #[trigger] at(l)
}

/// What holds of every element still holds when elements are left out.
pub proof fn lemma_embedded_all_hold<T>(
    inner: Seq<T>,
    outer: Seq<T>,
    at: spec_fn(int) -> int,
    p: spec_fn(T) -> bool,
)
    requires
        embeds(inner, outer, at),
        all_hold(outer, p),
    ensures
        all_hold(inner, p),
{
    assert forall|k: int| 0 <= k < inner.len() implies p(#[trigger] inner[k]) by {
        assert(inner[k] == outer[at(k)]);
    }
}

/// Keys stay distinct when elements are left out.
pub proof fn lemma_embedded_distinct<T, K>(
    inner: Seq<T>,
    outer: Seq<T>,
    at: spec_fn(int) -> int,
    key: spec_fn(T) -> K,
)
    requires
        embeds(inner, outer, at),
        distinct_by(outer, key),
    ensures
        distinct_by(inner, key),
{
    assert forall|k: int, l: int| 0 <= k < l < inner.len() implies key(#[trigger] inner[k]) != key(
        #[trigger] inner[l],
    ) by {
        assert(at(k) < at(l));
        assert(inner[k] == outer[at(k)]);
        assert(inner[l] == outer[at(l)]);
    }
}

/// A sequence without one of its elements is the sequence with an element
/// left out.
pub proof fn lemma_remove_embeds<T>(s: Seq<T>, i: int) -> (at: spec_fn(int) -> int)
    requires
        0 <= i < s.len(),
    ensures
        embeds(s.remove(i), s, at),
{
    let at = |k: int| if k < i { k } else { k + 1 };
    assert forall|k: int| 0 <= k < s.remove(i).len() implies 0 <= #[trigger] at(k) < s.len()
        && s.remove(i)[k] == s[at(k)] by {}
    at
}

/// A filtered sequence is the sequence with elements left out.
pub proof fn lemma_filter_embeds<T>(s: Seq<T>, keep: spec_fn(T) -> bool) -> (at: spec_fn(int) ->
    int)
    ensures
        embeds(s.filter(keep), s, at),
    decreases s.len(),
{
    reveal(Seq::filter);
    if s.len() == 0 {
        |k: int| k
    } else {
        let shorter = s.drop_last();
        let inner = lemma_filter_embeds(shorter, keep);
        let kept = shorter.filter(keep);
        let at = |k: int| if k < kept.len() { inner(k) } else { s.len() - 1 };
        assert forall|k: int| 0 <= k < s.filter(keep).len() implies 0 <= #[trigger] at(k) < s.len()
            && s.filter(keep)[k] == s[at(k)] by {
            if k < kept.len() {
                assert(kept[k] == shorter[inner(k)]);
            }
        }
        assert forall|k: int, l: int| 0 <= k < l < s.filter(keep).len() implies #[trigger] at(k)
            < #[trigger] at(l) by {
            if l < kept.len() {
                assert(inner(k) < inner(l));
            } else {
                assert(0 <= inner(k) < shorter.len());
            }
        }
        at
    }
}

/// Every element of a filtered sequence is kept by the filter.
pub proof fn lemma_filter_all_kept<T>(s: Seq<T>, keep: spec_fn(T) -> bool)
    ensures
        all_hold(s.filter(keep), keep),
    decreases s.len(),
{
    reveal(Seq::filter);
    if s.len() > 0 {
        lemma_filter_all_kept(s.drop_last(), keep);
    }
}

/// Pushing an element adds one to the count of a filter that keeps it, and
/// nothing to the count of one that does not.
pub proof fn lemma_filter_push_len<T>(s: Seq<T>, x: T, keep: spec_fn(T) -> bool)
    ensures
        s.push(x).filter(keep).len() == s.filter(keep).len() + if keep(x) {
            1int
        } else {
            0int
        },
{
    reveal(Seq::filter);
    assert(s.push(x).drop_last() =~= s);
}

/// Removing an element never raises the count of a filter.
pub proof fn lemma_filter_remove_len<T>(s: Seq<T>, i: int, keep: spec_fn(T) -> bool)
    requires
        0 <= i < s.len(),
    ensures
        s.remove(i).filter(keep).len() <= s.filter(keep).len(),
{
    let head = s.subrange(0, i);
    let tail = s.subrange(i + 1, s.len() as int);
    let middle = seq![s[i]];
    assert(s =~= head + (middle + tail));
    assert(s.remove(i) =~= head + tail);
    Seq::filter_distributes_over_add(head, middle + tail, keep);
    Seq::filter_distributes_over_add(middle, tail, keep);
    Seq::filter_distributes_over_add(head, tail, keep);
}

} // verus!
