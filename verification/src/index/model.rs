//! What an index holds, as mathematical maps, and what entering a tag,
//! entering a post and answering a query mean over them.

use crate::models::{post_key, Post, SummaryView, Tag};
use crate::text::lowercase;
use vstd::prelude::*;
use vstd::set_lib::{lemma_int_range, lemma_len_subset, lemma_map_size_bound, set_int_range};

verus! {

/// Every set of 32-bit integers is finite and has at most 2^32 elements.
pub proof fn lemma_sets_of_u32_are_finite(s: Set<u32>)
    ensures
        s.finite(),
        s.len() <= 0x1_0000_0000,
{
    let range = set_int_range(0, 0x1_0000_0000);
    let narrow = |i: int| i as u32;
    let all = range.map(narrow);
    lemma_int_range(0, 0x1_0000_0000);
    lemma_map_size_bound(range, all, narrow);
    assert forall|v: u32| s.contains(v) implies all.contains(v) by {
        assert(range.contains(v as int) && narrow(v as int) == v);
    }
    lemma_len_subset(s, all);
}

/// The key under which the index files a tag: the low 32 bits of its id.
pub open spec fn tag_key(id: u64) -> u32 {
    (id % 0x1_0000_0000) as u32
}

/// The names, each case-folded.
pub open spec fn fold(names: Seq<Seq<char>>) -> Seq<Seq<char>> {
    Seq::new(names.len(), |i: int| lowercase(names[i]))
}

/// What an index holds, as mathematical maps.
#[verifier::ext_equal]
pub struct IndexView {
    /// The tag dictionary: lowercase tag name to tag key.
    pub tag_ids: Map<Seq<char>, u32>,
    /// For each tag key that has posts, the keys of the posts that carry it.
    pub postings: Map<u32, Set<u32>>,
    /// For each post key, the summary of the post.
    pub summaries: Map<u32, SummaryView>,
    /// For each tag key that has posts, how many.
    pub frequencies: Map<u32, u64>,
}

impl IndexView {
    /// The posts filed under a tag key; none where the key has no entry.
    pub open spec fn posts_of(self, tag: u32) -> Set<u32> {
        if self.postings.contains_key(tag) {
            self.postings[tag]
        } else {
            Set::empty()
        }
    }

    /// The count kept for a tag key; zero where the key has no entry.
    pub open spec fn frequency_of(self, tag: u32) -> u64 {
        if self.frequencies.contains_key(tag) {
            self.frequencies[tag]
        } else {
            0
        }
    }

    /// The counts agree with the sets: the same tag keys have a set and a
    /// count, no set is empty, and each count is the size of its set.
    pub open spec fn consistent(self) -> bool {
        &&& self.frequencies.dom() == self.postings.dom()
        &&& forall|tag: u32| #[trigger]
            self.postings.contains_key(tag) ==> self.postings[tag].len() > 0
                && self.postings[tag].len() == self.frequencies[tag]
    }

    /// Every post that is filed under a tag has a summary.
    pub open spec fn summarized(self) -> bool {
        forall|tag: u32, post: u32|
            self.postings.contains_key(tag) && #[trigger] self.postings[tag].contains(post)
                ==> self.summaries.contains_key(post)
    }

    /// Every summary is stored under the key that it carries.
    pub open spec fn keyed(self) -> bool {
        forall|post: u32| #[trigger]
            self.summaries.contains_key(post) ==> self.summaries[post].id == post
    }

    /// The tag key that a name stands for, as the dictionary holds it,
    /// without case folding. The names of a query are read in this way.
    pub open spec fn lookup(self, name: Seq<char>) -> Option<u32> {
        if self.tag_ids.contains_key(name) {
            Some(self.tag_ids[name])
        } else {
            None
        }
    }

    /// The tag key that a name resolves to after case folding. The tag names
    /// of a post are read in this way.
    pub open spec fn resolve(self, name: Seq<char>) -> Option<u32> {
        self.lookup(lowercase(name))
    }

    /// The tag keys that the folded tag names of a post stand for. Names that
    /// the dictionary does not hold contribute nothing.
    pub open spec fn resolved(self, names: Seq<Seq<char>>) -> Set<u32> {
        Set::new(
            |tag: u32|
                exists|i: int| 0 <= i < names.len() && #[trigger] self.lookup(names[i]) == Some(tag),
        )
    }

    /// One of the names of a query stands for the tag key.
    pub open spec fn queried(self, names: Seq<Seq<char>>, tag: u32) -> bool {
        exists|i: int| 0 <= i < names.len() && #[trigger] self.lookup(names[i]) == Some(tag)
    }

    /// A query can be answered: it names at least one tag, and each of its
    /// names stands for a tag that has posts.
    pub open spec fn searchable(self, names: Seq<Seq<char>>) -> bool {
        &&& names.len() > 0
        &&& forall|i: int|
            0 <= i < names.len() ==> ((#[trigger] self.lookup(names[i])) matches Some(tag)
                && self.postings.contains_key(tag))
    }

    /// The posts that carry every tag of a query.
    pub open spec fn common_posts(self, names: Seq<Seq<char>>) -> Set<u32> {
        Set::new(
            |post: u32|
                forall|i: int|
                    0 <= i < names.len() ==> self.posts_of(
                        (#[trigger] self.lookup(names[i])).unwrap(),
                    ).contains(post),
        )
    }

    /// The answer to a query: the posts that carry all of its tags. There is
    /// no answer where the query is empty, where a name stands for no tag or
    /// for a tag without posts, or where two or more tags have no post in
    /// common.
    pub open spec fn search(self, names: Seq<Seq<char>>) -> Option<Set<u32>> {
        if !self.searchable(names) {
            None
        } else if names.len() >= 2 && self.common_posts(names) == Set::<u32>::empty() {
            None
        } else {
            Some(self.common_posts(names))
        }
    }

    /// The index after a tag has been entered under a name that is folded
    /// already: the name now stands for the key of the tag, replacing an
    /// earlier entry for that name.
    pub open spec fn with_folded_tag(self, folded: Seq<char>, id: u64) -> IndexView {
        IndexView { tag_ids: self.tag_ids.insert(folded, tag_key(id)), ..self }
    }

    /// The index after a tag has been entered: its case-folded name now
    /// resolves to its key, replacing an earlier entry for that name.
    pub open spec fn with_tag(self, name: Seq<char>, id: u64) -> IndexView {
        self.with_folded_tag(lowercase(name), id)
    }

    /// The index after the post `key` has been filed under the tags that its
    /// folded tag names stand for: it joins the set of each of them, and a
    /// count goes up by one exactly where the post was not in the set before.
    pub open spec fn with_postings(self, key: u32, names: Seq<Seq<char>>) -> IndexView {
        let hit = self.resolved(names);
        IndexView {
            postings: Map::new(
                |tag: u32| self.postings.contains_key(tag) || hit.contains(tag),
                |tag: u32|
                    if hit.contains(tag) {
                        self.posts_of(tag).insert(key)
                    } else {
                        self.postings[tag]
                    },
            ),
            frequencies: Map::new(
                |tag: u32|
                    self.frequencies.contains_key(tag) || (hit.contains(tag) && !self.posts_of(
                        tag,
                    ).contains(key)),
                |tag: u32|
                    if hit.contains(tag) && !self.posts_of(tag).contains(key) {
                        (self.frequency_of(tag) + 1) as u64
                    } else {
                        self.frequencies[tag]
                    },
            ),
            ..self
        }
    }

    /// The index after a post has been entered with its folded tag names:
    /// filed under the tags they stand for, and its summary stored under its
    /// key.
    pub open spec fn with_post(
        self,
        key: u32,
        names: Seq<Seq<char>>,
        summary: SummaryView,
    ) -> IndexView {
        let filed = self.with_postings(key, names);
        IndexView { summaries: filed.summaries.insert(key, summary), ..filed }
    }

    /// The summaries that the index holds for the posts of a list, in the
    /// order of the list. A post without a summary is passed over.
    pub open spec fn summaries_of(self, posts: Seq<u32>) -> Seq<SummaryView>
        decreases posts.len(),
    {
        if posts.len() == 0 {
            Seq::empty()
        } else if self.summaries.contains_key(posts[0]) {
            seq![self.summaries[posts[0]]] + self.summaries_of(posts.skip(1))
        } else {
            self.summaries_of(posts.skip(1))
        }
    }

    /// The index that holds nothing.
    pub open spec fn empty() -> IndexView {
        IndexView {
            tag_ids: Map::empty(),
            postings: Map::empty(),
            summaries: Map::empty(),
            frequencies: Map::empty(),
        }
    }

    /// The index after a post with the given folded tag names has been
    /// entered.
    pub open spec fn with_folded_post(self, post: Post, folded: Seq<Seq<char>>) -> IndexView {
        self.with_post(post_key(post.id), folded, post.spec_summary().unwrap())
    }

    /// The index after a post of the log has been entered: its tag names are
    /// folded, and it is filed under the tags they then stand for.
    pub open spec fn with_logged_post(self, post: Post) -> IndexView {
        self.with_folded_post(post, fold(post.tags.deep_view()))
    }

    /// The index after the tags of a log have been entered, in the order of
    /// the log.
    pub open spec fn after_tags(self, tags: Seq<Tag>) -> IndexView
        decreases tags.len(),
    {
        if tags.len() == 0 {
            self
        } else {
            self.after_tags(tags.drop_last()).with_tag(tags.last().name@, tags.last().id)
        }
    }

    /// The index after the posts of a log have been entered, in the order of
    /// the log.
    pub open spec fn after_posts(self, posts: Seq<Post>) -> IndexView
        decreases posts.len(),
    {
        if posts.len() == 0 {
            self
        } else {
            self.after_posts(posts.drop_last()).with_logged_post(posts.last())
        }
    }
}

/// Filing a post under one more name is filing it under that name alone,
/// after the others.
pub proof fn lemma_with_postings_step(start: IndexView, key: u32, names: Seq<Seq<char>>, i: int)
    requires
        0 <= i < names.len(),
    ensures
        start.with_postings(key, names.take(i + 1)) == start.with_postings(
            key,
            names.take(i),
        ).with_postings(key, seq![names[i]]),
{
    let before = names.take(i);
    let after = names.take(i + 1);
    let one = seq![names[i]];
    let mid = start.with_postings(key, before);
    assert forall|tag: u32|
        start.resolved(after).contains(tag) <==> (start.resolved(before).contains(tag)
            || mid.resolved(one).contains(tag)) by {
        if start.resolved(after).contains(tag) {
            let j = choose|j: int|
                0 <= j < after.len() && #[trigger] start.lookup(after[j]) == Some(tag);
            if j < i {
                assert(start.lookup(before[j]) == Some(tag));
            } else {
                assert(mid.lookup(one[0]) == Some(tag));
            }
        }
        if start.resolved(before).contains(tag) {
            let j = choose|j: int|
                0 <= j < before.len() && #[trigger] start.lookup(before[j]) == Some(tag);
            assert(start.lookup(after[j]) == Some(tag));
        }
        if mid.resolved(one).contains(tag) {
            let j = choose|j: int|
                0 <= j < one.len() && #[trigger] mid.lookup(one[j]) == Some(tag);
            assert(start.lookup(after[i]) == Some(tag));
        }
    }
    assert(start.with_postings(key, after) =~~= mid.with_postings(key, one));
}

/// Filing a post keeps the counts in agreement with the sets.
pub proof fn lemma_with_postings_consistent(start: IndexView, key: u32, names: Seq<Seq<char>>)
    requires
        start.consistent(),
    ensures
        start.with_postings(key, names).consistent(),
{
    let filed = start.with_postings(key, names);
    assert(filed.frequencies.dom() =~= filed.postings.dom());
    assert forall|tag: u32| #[trigger] filed.postings.contains_key(tag) implies filed.postings[tag].len()
        > 0 && filed.postings[tag].len() == filed.frequencies[tag] by {
        lemma_sets_of_u32_are_finite(start.posts_of(tag));
        lemma_sets_of_u32_are_finite(filed.postings[tag]);
    }
}

/// A name that the dictionary does not hold files a post nowhere.
pub proof fn lemma_unresolved_names_file_nothing(start: IndexView, key: u32, names: Seq<Seq<char>>)
    requires
        forall|i: int| 0 <= i < names.len() ==> (#[trigger] start.lookup(names[i])) is None,
    ensures
        start.with_postings(key, names) == start,
{
    assert(start.with_postings(key, names) =~~= start);
}

/// A post none of whose tag names resolves joins no set and moves no count.
/// Entering it only stores its summary.
pub proof fn lemma_unknown_tags_add_no_posting(
    start: IndexView,
    key: u32,
    names: Seq<Seq<char>>,
    summary: SummaryView,
)
    requires
        forall|i: int| 0 <= i < names.len() ==> (#[trigger] start.resolve(names[i])) is None,
    ensures
        start.with_post(key, fold(names), summary).postings == start.postings,
        start.with_post(key, fold(names), summary).frequencies == start.frequencies,
        start.with_post(key, fold(names), summary).tag_ids == start.tag_ids,
{
    assert forall|i: int| 0 <= i < fold(names).len() implies (#[trigger] start.lookup(
        fold(names)[i],
    )) is None by {
        assert(start.resolve(names[i]) is None);
    }
    lemma_unresolved_names_file_nothing(start, key, fold(names));
}

/// A folded name that the dictionary does not hold changes nothing about
/// where a post is filed: the post goes where its other names send it.
pub proof fn lemma_unknown_folded_tag_is_passed_over(
    start: IndexView,
    key: u32,
    names: Seq<Seq<char>>,
    unknown: Seq<char>,
    at: int,
)
    requires
        0 <= at <= names.len(),
        start.lookup(unknown) is None,
    ensures
        start.with_postings(key, names.insert(at, unknown)) == start.with_postings(key, names),
{
    let more = names.insert(at, unknown);
    assert forall|tag: u32| start.resolved(more).contains(tag) <==> start.resolved(names).contains(
        tag,
    ) by {
        if start.resolved(more).contains(tag) {
            let j = choose|j: int|
                0 <= j < more.len() && #[trigger] start.lookup(more[j]) == Some(tag);
            if j < at {
                assert(start.lookup(names[j]) == Some(tag));
            } else {
                assert(start.lookup(names[j - 1]) == Some(tag));
            }
        }
        if start.resolved(names).contains(tag) {
            let j = choose|j: int|
                0 <= j < names.len() && #[trigger] start.lookup(names[j]) == Some(tag);
            if j < at {
                assert(start.lookup(more[j]) == Some(tag));
            } else {
                assert(start.lookup(more[j + 1]) == Some(tag));
            }
        }
    }
    assert(start.with_postings(key, more) =~~= start.with_postings(key, names));
}

/// A tag name that does not resolve changes nothing about where a post is
/// filed: the post goes where its other names send it.
pub proof fn lemma_unknown_tag_is_passed_over(
    start: IndexView,
    key: u32,
    names: Seq<Seq<char>>,
    unknown: Seq<char>,
    at: int,
)
    requires
        0 <= at <= names.len(),
        start.resolve(unknown) is None,
    ensures
        start.with_postings(key, fold(names.insert(at, unknown))) == start.with_postings(
            key,
            fold(names),
        ),
{
    assert(fold(names.insert(at, unknown)) =~= fold(names).insert(at, lowercase(unknown)));
    lemma_unknown_folded_tag_is_passed_over(start, key, fold(names), lowercase(unknown), at);
}

/// Entering the same post a second time changes nothing: it is in the sets
/// of its tags already, so no count moves.
pub proof fn lemma_insertion_is_idempotent(
    start: IndexView,
    key: u32,
    names: Seq<Seq<char>>,
    summary: SummaryView,
)
    ensures
        start.with_post(key, names, summary).with_post(key, names, summary) == start.with_post(
            key,
            names,
            summary,
        ),
{
    let once = start.with_post(key, names, summary);
    let twice = once.with_post(key, names, summary);
    assert forall|tag: u32| once.resolved(names).contains(tag) <==> start.resolved(names).contains(
        tag,
    ) by {
        if once.resolved(names).contains(tag) {
            let j = choose|j: int|
                0 <= j < names.len() && #[trigger] once.lookup(names[j]) == Some(tag);
            assert(start.lookup(names[j]) == Some(tag));
        }
        if start.resolved(names).contains(tag) {
            let j = choose|j: int|
                0 <= j < names.len() && #[trigger] start.lookup(names[j]) == Some(tag);
            assert(once.lookup(names[j]) == Some(tag));
        }
    }
    assert(twice =~~= once);
}

/// In an index whose counts agree with its sets, an answer to a query is
/// never empty.
pub proof fn lemma_answers_are_not_empty(view: IndexView, names: Seq<Seq<char>>)
    requires
        view.consistent(),
    ensures
        view.search(names) matches Some(posts) ==> posts.len() > 0,
{
    if view.search(names) is Some {
        let posts = view.common_posts(names);
        lemma_sets_of_u32_are_finite(posts);
        if names.len() == 1 {
            let tag = view.lookup(names[0]).unwrap();
            assert(posts =~= view.postings[tag]);
        } else {
            if posts.len() == 0 {
                assert(posts =~= Set::<u32>::empty());
            }
        }
    }
}

/// Posts without a summary at the head of a list add nothing to its
/// summaries: the list starts with the summary of the first post that has
/// one.
pub proof fn lemma_summaries_after_gap(view: IndexView, posts: Seq<u32>, k: int)
    requires
        0 <= k < posts.len(),
        forall|j: int| 0 <= j < k ==> !view.summaries.contains_key(#[trigger] posts[j]),
        view.summaries.contains_key(posts[k]),
    ensures
        view.summaries_of(posts) == seq![view.summaries[posts[k]]] + view.summaries_of(
            posts.skip(k + 1),
        ),
    decreases k,
{
    if k > 0 {
        let rest = posts.skip(1);
        assert forall|j: int| 0 <= j < k - 1 implies !view.summaries.contains_key(
            #[trigger] rest[j],
        ) by {
            assert(rest[j] == posts[j + 1]);
        }
        lemma_summaries_after_gap(view, rest, k - 1);
        assert(rest.skip(k) =~= posts.skip(k + 1));
    }
}

/// A list of posts none of which has a summary has no summaries.
pub proof fn lemma_summaries_of_gap(view: IndexView, posts: Seq<u32>)
    requires
        forall|j: int| 0 <= j < posts.len() ==> !view.summaries.contains_key(#[trigger] posts[j]),
    ensures
        view.summaries_of(posts) == Seq::<SummaryView>::empty(),
    decreases posts.len(),
{
    if posts.len() > 0 {
        let rest = posts.skip(1);
        assert forall|j: int| 0 <= j < rest.len() implies !view.summaries.contains_key(
            #[trigger] rest[j],
        ) by {
            assert(rest[j] == posts[j + 1]);
        }
        lemma_summaries_of_gap(view, rest);
    }
}

/// The dictionary that a list of entries makes: each folded name stands for
/// the key it is listed with, a later entry replacing an earlier one.
pub open spec fn dictionary_of(tags: Seq<(String, u32)>) -> Map<Seq<char>, u32>
    decreases tags.len(),
{
    if tags.len() == 0 {
        Map::empty()
    } else {
        dictionary_of(tags.drop_last()).insert(tags.last().0@, tags.last().1)
    }
}

/// The summaries of a list, each under the key that it carries, a later
/// summary replacing an earlier one of the same key.
pub open spec fn summaries_by_key(summaries: Seq<SummaryView>) -> Map<u32, SummaryView>
    decreases summaries.len(),
{
    if summaries.len() == 0 {
        Map::empty()
    } else {
        summaries_by_key(summaries.drop_last()).insert(summaries.last().id, summaries.last())
    }
}

/// A strictly ascending listing of a set is as long as the set is large.
pub proof fn lemma_listing_has_the_size_of_the_set(listing: Seq<u32>, set: Set<u32>)
    requires
        crate::bitmap::ascending_listing(listing, set),
    ensures
        set.finite(),
        set.len() == listing.len(),
{
    assert(listing.no_duplicates());
    assert(listing.to_set() =~= set);
    listing.unique_seq_to_set();
    lemma_sets_of_u32_are_finite(set);
}

/// A query that names a tag without posts cannot be answered.
pub proof fn lemma_tag_without_posts_is_not_searchable(
    view: IndexView,
    names: Seq<Seq<char>>,
    tag: u32,
)
    requires
        view.queried(names, tag),
        !view.postings.contains_key(tag),
    ensures
        !view.searchable(names),
        view.search(names) is None,
{
    let i = choose|i: int| 0 <= i < names.len() && #[trigger] view.lookup(names[i]) == Some(tag);
    assert(view.lookup(names[i]) == Some(tag));
}

/// A post that carries every tag of a query is filed under each tag that the
/// query names.
pub proof fn lemma_common_post_is_filed_under(
    view: IndexView,
    names: Seq<Seq<char>>,
    post: u32,
    tag: u32,
)
    requires
        view.common_posts(names).contains(post),
        view.queried(names, tag),
    ensures
        view.posts_of(tag).contains(post),
{
    let i = choose|i: int| 0 <= i < names.len() && #[trigger] view.lookup(names[i]) == Some(tag);
    assert(view.posts_of(view.lookup(names[i]).unwrap()).contains(post));
}

/// Where every summary is stored under the key that it carries, the
/// summaries of posts that are listed in ascending order come with ascending
/// ids, and each of them is the summary of a post of the list.
pub proof fn lemma_listed_summaries_ascend(view: IndexView, posts: Seq<u32>)
    requires
        view.keyed(),
        forall|i: int, j: int| 0 <= i < j < posts.len() ==> posts[i] < posts[j],
    ensures
        forall|i: int, j: int|
            0 <= i < j < view.summaries_of(posts).len() ==> view.summaries_of(posts)[i].id
                < view.summaries_of(posts)[j].id,
        forall|i: int|
            0 <= i < view.summaries_of(posts).len() ==> posts.contains(
                #[trigger] view.summaries_of(posts)[i].id,
            ),
        view.summaries_of(posts).len() <= posts.len(),
    decreases posts.len(),
{
    if posts.len() > 0 {
        let rest = posts.skip(1);
        let tail = view.summaries_of(rest);
        let all = view.summaries_of(posts);
        assert forall|i: int, j: int| 0 <= i < j < rest.len() implies rest[i] < rest[j] by {
            assert(rest[i] == posts[i + 1] && rest[j] == posts[j + 1]);
        }
        lemma_listed_summaries_ascend(view, rest);
        assert forall|i: int| 0 <= i < tail.len() implies posts[0] < (#[trigger] tail[i]).id
            && posts.contains(tail[i].id) by {
            assert(rest.contains(tail[i].id));
            let j = choose|j: int| 0 <= j < rest.len() && rest[j] == tail[i].id;
            assert(posts[j + 1] == tail[i].id);
        }
        if view.summaries.contains_key(posts[0]) {
            assert(all =~= seq![view.summaries[posts[0]]] + tail);
            assert(all[0].id == posts[0]);
            assert forall|i: int| 0 <= i < all.len() implies posts.contains(
                #[trigger] all[i].id,
            ) by {
                if i > 0 {
                    assert(all[i] == tail[i - 1]);
                }
            }
            assert forall|i: int, j: int| 0 <= i < j < all.len() implies all[i].id < all[j].id by {
                assert(all[j] == tail[j - 1]);
                if i > 0 {
                    assert(all[i] == tail[i - 1]);
                }
            }
        } else {
            assert(all == tail);
        }
    }
}

} // verus!
