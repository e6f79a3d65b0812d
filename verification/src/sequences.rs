//! Facts about filtered sequences that the loops and laws of this crate lean
//! on.

use vstd::prelude::*;

verus! {

/// Filtering a sequence with one more item: the item is kept behind the
/// others, or left out.
pub proof fn lemma_filter_push<A>(s: Seq<A>, pred: spec_fn(A) -> bool, last: A)
    ensures
        s.push(last).filter(pred) == if pred(last) {
            s.filter(pred).push(last)
        } else {
            s.filter(pred)
        },
{
    reveal(Seq::filter);
    assert(s.push(last).drop_last() =~= s);
}

/// A filter keeps all of a sequence whose items all pass, and nothing of one
/// whose items all fail.
pub proof fn lemma_filter_all<A>(s: Seq<A>, pred: spec_fn(A) -> bool)
    ensures
        (forall|i: int| 0 <= i < s.len() ==> pred(s[i])) ==> s.filter(pred) == s,
        (forall|i: int| 0 <= i < s.len() ==> !pred(s[i])) ==> s.filter(pred) == Seq::<A>::empty(),
    decreases s.len(),
{
    reveal(Seq::filter);
    if s.len() > 0 {
        lemma_filter_all(s.drop_last(), pred);
        assert(s.drop_last().push(s.last()) =~= s);
    }
}

/// A filter and its complement split a sequence: what the one keeps and what
/// the other keeps are together the items of the sequence, each as often as
/// it occurs there.
pub proof fn lemma_filter_split<A>(s: Seq<A>, pred: spec_fn(A) -> bool, rest: spec_fn(A) -> bool)
    requires
        forall|a: A| #[trigger] rest(a) == !pred(a),
    ensures
        (s.filter(pred) + s.filter(rest)).to_multiset() == s.to_multiset(),
    decreases s.len(),
{
    broadcast use vstd::multiset::group_multiset_axioms;
    broadcast use vstd::seq_lib::group_to_multiset_ensures;

    reveal(Seq::filter);
    if s.len() == 0 {
        assert(s.filter(pred) + s.filter(rest) =~= s);
    } else {
        let init = s.drop_last();
        let last = s.last();
        let kept = init.filter(pred);
        let left = init.filter(rest);
        lemma_filter_split(init, pred, rest);
        assert(init.push(last) =~= s);
        vstd::seq_lib::lemma_multiset_commutative(kept, left);
        vstd::seq_lib::lemma_multiset_commutative(s.filter(pred), s.filter(rest));
        assert(s.to_multiset() =~= init.to_multiset().insert(last));
        if pred(last) {
            assert(s.filter(pred).to_multiset() =~= kept.to_multiset().insert(last));
        } else {
            assert(rest(last));
            assert(s.filter(rest).to_multiset() =~= left.to_multiset().insert(last));
        }
        assert((s.filter(pred) + s.filter(rest)).to_multiset() =~= s.to_multiset());
    }
}

/// Two sequences that hold the same items equally often have duplicates
/// together or not at all.
pub proof fn lemma_same_items_distinct<A>(s: Seq<A>, t: Seq<A>)
    requires
        s.to_multiset() == t.to_multiset(),
        s.no_duplicates(),
    ensures
        t.no_duplicates(),
{
    s.lemma_multiset_has_no_duplicates();
    t.lemma_multiset_has_no_duplicates_conv();
}

/// Filtering the images of a sequence is filtering the sequence by what the
/// images are tested for.
pub proof fn lemma_filter_images<A, B>(
    s: Seq<A>,
    image: spec_fn(A) -> B,
    pred: spec_fn(B) -> bool,
    back: spec_fn(B) -> A,
)
    requires
        forall|a: A| #[trigger] back(image(a)) == a,
    ensures
        s.map_values(image).filter(pred).map_values(back) == s.filter(|a: A| pred(image(a))),
    decreases s.len(),
{
    reveal(Seq::filter);
    let through = |a: A| pred(image(a));
    if s.len() == 0 {
        assert(s.map_values(image).filter(pred).map_values(back) =~= s.filter(through));
    } else {
        let init = s.drop_last();
        let last = s.last();
        lemma_filter_images(init, image, pred, back);
        assert(s.map_values(image) =~= init.map_values(image).push(image(last)));
        lemma_filter_push(init.map_values(image), pred, image(last));
        assert(init.push(last) =~= s);
        lemma_filter_push(init, through, last);
        if pred(image(last)) {
            assert(init.map_values(image).filter(pred).push(image(last)).map_values(back)
                =~= init.map_values(image).filter(pred).map_values(back).push(last));
        }
    }
}

} // verus!
