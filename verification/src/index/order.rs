//! The order in which the tags of a query are intersected: the rarest
//! first, so that the intermediate results stay small.

use vstd::prelude::*;

verus! {

/// The tag key is the first component of one of the pairs.
pub open spec fn among(pairs: Seq<(u32, u64)>, tag: Option<u32>) -> bool {
    exists|j: int| 0 <= j < pairs.len() && tag == Some((#[trigger] pairs[j]).0)
}

/// Two sequences with the same elements, each as often in one as in the
/// other, are equally long and hold the same values.
pub proof fn lemma_same_elements<A>(a: Seq<A>, b: Seq<A>)
    requires
        a.to_multiset() == b.to_multiset(),
    ensures
        a.len() == b.len(),
        forall|x: A| a.contains(x) <==> b.contains(x),
{
    a.to_multiset_ensures();
    b.to_multiset_ensures();
    assert forall|x: A| a.contains(x) <==> b.contains(x) by {
        assert(a.contains(x) <==> a.to_multiset().count(x) > 0);
        assert(b.contains(x) <==> b.to_multiset().count(x) > 0);
    }
}

/// The pairs are in ascending order of their second component.
pub open spec fn ascending_by_frequency(s: Seq<(u32, u64)>) -> bool {
    forall|i: int, j: int| 0 <= i < j < s.len() ==> s[i].1 <= s[j].1
}

/// A tag put in its place among tags that are ordered by frequency: behind
/// every tag that is no more frequent than it, and before the others.
pub open spec fn placed(ordered: Seq<(u32, u64)>, tag: (u32, u64)) -> Seq<(u32, u64)>
    decreases ordered.len(),
{
    if ordered.len() == 0 {
        seq![tag]
    } else if ordered.last().1 <= tag.1 {
        ordered.push(tag)
    } else {
        placed(ordered.drop_last(), tag).push(ordered.last())
    }
}

/// The tags ordered by frequency, the rarest first. Tags of equal frequency
/// stay in the order in which they were given.
pub open spec fn by_frequency(tags: Seq<(u32, u64)>) -> Seq<(u32, u64)>
    decreases tags.len(),
{
    if tags.len() == 0 {
        Seq::empty()
    } else {
        placed(by_frequency(tags.drop_last()), tags.last())
    }
}

/// Putting a tag in its place is inserting it behind the last tag that is no
/// more frequent than it.
pub proof fn lemma_placed_at(ordered: Seq<(u32, u64)>, tag: (u32, u64), pos: int)
    requires
        0 <= pos <= ordered.len(),
        forall|j: int| pos <= j < ordered.len() ==> ordered[j].1 > tag.1,
        pos > 0 ==> ordered[pos - 1].1 <= tag.1,
    ensures
        placed(ordered, tag) == ordered.insert(pos, tag),
    decreases ordered.len(),
{
    if ordered.len() == 0 {
        assert(ordered.insert(pos, tag) =~= seq![tag]);
    } else if pos == ordered.len() {
        assert(ordered.insert(pos, tag) =~= ordered.push(tag));
    } else {
        lemma_placed_at(ordered.drop_last(), tag, pos);
        assert(ordered.drop_last().insert(pos, tag).push(ordered.last()) =~= ordered.insert(
            pos,
            tag,
        ));
    }
}

/// Putting a tag in its place keeps the order ascending and adds the tag,
/// and nothing else, to the tags.
pub proof fn lemma_placed(ordered: Seq<(u32, u64)>, tag: (u32, u64))
    requires
        ascending_by_frequency(ordered),
    ensures
        ascending_by_frequency(placed(ordered, tag)),
        placed(ordered, tag).to_multiset() == ordered.to_multiset().insert(tag),
        placed(ordered, tag).len() == ordered.len() + 1,
    decreases ordered.len(),
{
    if ordered.len() == 0 {
        vstd::seq_lib::to_multiset_build(ordered, tag);
        assert(ordered.push(tag) =~= seq![tag]);
    } else if ordered.last().1 <= tag.1 {
        vstd::seq_lib::to_multiset_build(ordered, tag);
    } else {
        let front = ordered.drop_last();
        let last = ordered.last();
        lemma_placed(front, tag);
        let inner = placed(front, tag);
        vstd::seq_lib::to_multiset_build(inner, last);
        vstd::seq_lib::to_multiset_build(front, last);
        assert(front.push(last) =~= ordered);
        assert(inner.to_multiset().insert(last) =~= ordered.to_multiset().insert(tag));
        inner.to_multiset_ensures();
        front.to_multiset_ensures();
        assert forall|i: int, j: int| 0 <= i < j < inner.push(last).len() implies inner.push(
            last,
        )[i].1 <= inner.push(last)[j].1 by {
            if j == inner.len() {
                assert(inner.contains(inner[i]));
                assert(inner.to_multiset().count(inner[i]) > 0);
                if inner[i] != tag {
                    assert(front.to_multiset().count(inner[i]) > 0);
                    assert(front.contains(inner[i]));
                    let k = choose|k: int| 0 <= k < front.len() && front[k] == inner[i];
                    assert(ordered[k].1 <= ordered[ordered.len() - 1].1);
                }
            }
        }
    }
}

/// Ordering by frequency yields the same tags, each as often as it was
/// given, in ascending order of frequency.
pub proof fn lemma_by_frequency(tags: Seq<(u32, u64)>)
    ensures
        ascending_by_frequency(by_frequency(tags)),
        by_frequency(tags).to_multiset() == tags.to_multiset(),
        by_frequency(tags).len() == tags.len(),
    decreases tags.len(),
{
    if tags.len() == 0 {
        assert(by_frequency(tags) =~= tags);
    } else {
        lemma_by_frequency(tags.drop_last());
        lemma_placed(by_frequency(tags.drop_last()), tags.last());
        vstd::seq_lib::to_multiset_build(tags.drop_last(), tags.last());
        assert(tags.drop_last().push(tags.last()) =~= tags);
    }
}

/// Orders tags by their frequency, the rarest first. Tags of equal frequency
/// keep their order.
pub fn rarest_first(tags: &Vec<(u32, u64)>) -> (ordered: Vec<(u32, u64)>)
    ensures
        ordered@ == by_frequency(tags@),
{
    let mut ordered: Vec<(u32, u64)> = Vec::new();
    let mut i: usize = 0;
    assert(tags@.take(0) =~= Seq::<(u32, u64)>::empty());
    while i < tags.len()
        invariant
            i <= tags.len(),
            ordered@ == by_frequency(tags@.take(i as int)),
        decreases tags.len() - i,
    {
        let tag = tags[i];
        let mut pos: usize = ordered.len();
        while pos > 0 && ordered[pos - 1].1 > tag.1
            invariant
                pos <= ordered.len(),
                forall|j: int| pos <= j < ordered.len() ==> ordered[j].1 > tag.1,
            decreases pos,
        {
            pos -= 1;
        }
        proof {
            lemma_placed_at(ordered@, tag, pos as int);
            assert(tags@.take(i + 1).drop_last() =~= tags@.take(i as int));
        }
        ordered.insert(pos, tag);
        i += 1;
    }
    assert(tags@.take(i as int) =~= tags@);
    ordered
}

} // verus!
