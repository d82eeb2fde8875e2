//! The inverted index: which posts carry which tag.
//!
//! The index is built offline from the tag log and the post log, and is then
//! only read. It answers one question quickly: which posts carry all of a
//! given list of tags.

pub mod model;
pub mod order;

use crate::bitmap::{
    ascending_listing, bitmap_clone, bitmap_insert, bitmap_intersect_with, bitmap_into_iter,
    bitmap_is_empty, bitmap_iter_next, bitmap_new, members, pending,
};
use crate::index::model::{
    dictionary_of, fold, lemma_common_post_is_filed_under, lemma_listing_has_the_size_of_the_set,
    lemma_sets_of_u32_are_finite, lemma_tag_without_posts_is_not_searchable, lemma_summaries_after_gap, lemma_summaries_of_gap,
    lemma_unresolved_names_file_nothing, lemma_with_postings_consistent, lemma_with_postings_step,
    summaries_by_key, IndexView,
};
use crate::index::order::{among, lemma_by_frequency, lemma_same_elements, rarest_first};
use crate::models::{post_key, Post, PostSimplified, SummaryView, Tag};
use crate::text::{lowercase, to_lowercase};
use roaring::RoaringBitmap;
use std::collections::HashMap;
use vstd::hash_map::StringHashMap;
use vstd::prelude::*;

verus! {

broadcast use vstd::std_specs::hash::group_hash_axioms;

/// The tag names of a post, each case-folded, in the order in which the post
/// lists them.
pub fn folded_tags(post: &Post) -> (folded: Vec<String>)
    ensures
        folded.deep_view() == fold(post.tags.deep_view()),
{
    let mut folded: Vec<String> = Vec::new();
    let mut i: usize = 0;
    while i < post.tags.len()
        invariant
            i <= post.tags.len(),
            folded.len() == i,
            forall|j: int| 0 <= j < i ==> (#[trigger] folded[j])@ == lowercase(post.tags[j]@),
        decreases post.tags.len() - i,
    {
        folded.push(to_lowercase(post.tags[i].as_str()));
        i += 1;
    }
    assert(folded.deep_view() =~= fold(post.tags.deep_view()));
    folded
}

/// The views of the summaries of a list.
pub open spec fn summary_views(summaries: Seq<PostSimplified>) -> Seq<SummaryView> {
    Seq::new(summaries.len(), |i: int| summaries[i]@)
}

/// Whether sets of posts can be put into an index that holds the given
/// summaries: no tag key is listed twice, no set is empty, and every post of
/// every set has a summary.
pub open spec fn postings_fit(
    summaries: Map<u32, SummaryView>,
    postings: Seq<(u32, RoaringBitmap)>,
) -> bool {
    &&& forall|i: int, j: int|
        0 <= i < j < postings.len() ==> (#[trigger] postings[i]).0 != (#[trigger] postings[j]).0
    &&& forall|i: int|
        0 <= i < postings.len() ==> members((#[trigger] postings[i]).1) != Set::<u32>::empty()
    &&& forall|i: int, post: u32|
        0 <= i < postings.len() && #[trigger] members(postings[i].1).contains(post)
            ==> summaries.contains_key(post)
}

/// Counts the posts of a set; `None` where one of them has no summary.
fn count_summarized(
    bitmap: &RoaringBitmap,
    summaries: &HashMap<u32, PostSimplified>,
) -> (count: Option<u64>)
    ensures
        count is Some <==> forall|post: u32|
            members(*bitmap).contains(post) ==> summaries@.contains_key(post),
        count matches Some(n) ==> members(*bitmap).finite() && n == members(*bitmap).len(),
{
    let mut posts = bitmap_into_iter(bitmap_clone(bitmap));
    let ghost all = pending(posts);
    let mut count: u64 = 0;
    proof {
        lemma_listing_has_the_size_of_the_set(all, members(*bitmap));
        lemma_sets_of_u32_are_finite(members(*bitmap));
    }
    loop
        invariant
            0 <= count <= all.len() <= 0x1_0000_0000,
            pending(posts) == all.skip(count as int),
            crate::bitmap::ascending_listing(all, members(*bitmap)),
            members(*bitmap).finite(),
            members(*bitmap).len() == all.len(),
            forall|j: int| 0 <= j < count ==> summaries@.contains_key(#[trigger] all[j]),
        decreases all.len() - count,
    {
        let post = match bitmap_iter_next(&mut posts) {
            Some(post) => post,
            None => {
                assert forall|post: u32| members(*bitmap).contains(post) implies summaries@.contains_key(
                    post,
                ) by {
                    let j = choose|j: int| 0 <= j < all.len() && all[j] == post;
                    assert(summaries@.contains_key(all[j]));
                }
                return Some(count);
            },
        };
        assert(post == all[count as int]);
        assert(pending(posts) =~= all.skip(count + 1));
        if !summaries.contains_key(&post) {
            assert(all.contains(post));
            return None;
        }
        count += 1;
    }
}

/// The inverted index.
pub struct Index {
    /// Lowercase tag name to tag key.
    pub tag_str_to_id: StringHashMap<u32>,
    /// The names that `tag_str_to_id` holds, each once, in the order in
    /// which they were first entered.
    pub tag_names: Vec<String>,
    /// Tag key to the keys of the posts that carry the tag.
    pub tag_id_to_post_id: HashMap<u32, RoaringBitmap>,
    /// Post key to the summary of the post.
    pub post_id_to_post: HashMap<u32, PostSimplified>,
    /// Tag key to the number of posts that carry the tag.
    pub tag_id_freq: HashMap<u32, u64>,
}

impl View for Index {
    type V = IndexView;

    open spec fn view(&self) -> IndexView {
        IndexView {
            tag_ids: self.tag_str_to_id@,
            postings: Map::new(
                |tag: u32| self.tag_id_to_post_id@.contains_key(tag),
                |tag: u32| members(self.tag_id_to_post_id@[tag]),
            ),
            summaries: Map::new(
                |post: u32| self.post_id_to_post@.contains_key(post),
                |post: u32| self.post_id_to_post@[post]@,
            ),
            frequencies: self.tag_id_freq@,
        }
    }
}

impl Index {
    /// `tag_names` lists the names of the dictionary, each once.
    pub open spec fn names_listed(&self) -> bool {
        &&& forall|i: int|
            0 <= i < self.tag_names.len() ==> self.tag_str_to_id@.contains_key(
                #[trigger] self.tag_names[i]@,
            )
        &&& forall|name: Seq<char>| #[trigger]
            self.tag_str_to_id@.contains_key(name) ==> exists|i: int|
                0 <= i < self.tag_names.len() && #[trigger] self.tag_names[i]@ == name
        &&& forall|i: int, j: int|
            0 <= i < j < self.tag_names.len() ==> #[trigger] self.tag_names[i]@
                != #[trigger] self.tag_names[j]@
    }

    /// The invariant of an index that was built by this module.
    pub open spec fn wf(&self) -> bool {
        &&& self@.consistent()
        &&& self@.summarized()
        &&& self@.keyed()
        &&& self.names_listed()
    }

    /// An index that holds nothing.
    pub fn new() -> (index: Index)
        ensures
            index.wf(),
            index@.tag_ids == Map::<Seq<char>, u32>::empty(),
            index@.postings == Map::<u32, Set<u32>>::empty(),
            index@.summaries == Map::<u32, SummaryView>::empty(),
            index@.frequencies == Map::<u32, u64>::empty(),
    {
        let index = Index {
            tag_str_to_id: StringHashMap::new(),
            tag_names: Vec::new(),
            tag_id_to_post_id: HashMap::new(),
            post_id_to_post: HashMap::new(),
            tag_id_freq: HashMap::new(),
        };
        assert(index@.postings =~= Map::<u32, Set<u32>>::empty());
        assert(index@.summaries =~= Map::<u32, SummaryView>::empty());
        assert(index@.frequencies.dom() =~= index@.postings.dom());
        index
    }

    /// Puts an index together from its parts: the entries of the dictionary
    /// with their names folded already, the summaries, and for each tag key
    /// the set of the posts that carry it. The counts are taken from the
    /// sets. There is no index where a tag key is listed twice, a set is
    /// empty, or a post of a set has no summary.
    pub fn from_parts(
        tags: &Vec<(String, u32)>,
        summaries: &Vec<PostSimplified>,
        postings: Vec<(u32, RoaringBitmap)>,
    ) -> (made: Option<Index>)
        ensures
            made is Some <==> postings_fit(
                summaries_by_key(summary_views(summaries@)),
                postings@,
            ),
            made matches Some(index) ==> {
                &&& index.wf()
                &&& index@.tag_ids == dictionary_of(tags@)
                &&& index@.summaries == summaries_by_key(summary_views(summaries@))
                &&& forall|i: int|
                    0 <= i < postings.len() ==> index@.postings.contains_key(
                        (#[trigger] postings[i]).0,
                    ) && index@.postings[postings[i].0] == members(postings[i].1)
                &&& forall|tag: u32| #[trigger]
                    index@.postings.contains_key(tag) ==> exists|i: int|
                        0 <= i < postings.len() && (#[trigger] postings[i]).0 == tag
            },
    {
        let mut index = Index::new();
        let mut i: usize = 0;
        while i < tags.len()
            invariant
                i <= tags.len(),
                index.wf(),
                index@.tag_ids == dictionary_of(tags@.take(i as int)),
            decreases tags.len() - i,
        {
            index.insert_tag_folded(tags[i].0.clone(), tags[i].1 as u64);
            assert(tags@.take(i + 1).drop_last() =~= tags@.take(i as int));
            i += 1;
        }
        assert(tags@.take(i as int) =~= tags@);
        let ghost views = summary_views(summaries@);
        let mut stored: HashMap<u32, PostSimplified> = HashMap::new();
        let mut j: usize = 0;
        assert(Map::new(
            |post: u32| stored@.contains_key(post),
            |post: u32| stored@[post]@,
        ) =~= summaries_by_key(views.take(0)));
        while j < summaries.len()
            invariant
                j <= summaries.len(),
                views == summary_views(summaries@),
                Map::new(|post: u32| stored@.contains_key(post), |post: u32| stored@[post]@)
                    == summaries_by_key(views.take(j as int)),
                forall|post: u32| #[trigger]
                    stored@.contains_key(post) ==> stored@[post].id == post,
            decreases summaries.len() - j,
        {
            let ghost before = stored@;
            stored.insert(summaries[j].id, summaries[j].duplicate());
            proof {
                assert(views.take(j + 1).drop_last() =~= views.take(j as int));
                assert(views.take(j + 1).last() == summaries[j as int]@);
                assert(Map::new(
                    |post: u32| stored@.contains_key(post),
                    |post: u32| stored@[post]@,
                ) =~= Map::new(
                    |post: u32| before.contains_key(post),
                    |post: u32| before[post]@,
                ).insert(summaries[j as int].id, summaries[j as int]@));
            }
            j += 1;
        }
        assert(views.take(j as int) =~= views);
        let ghost kept = Map::new(
            |post: u32| stored@.contains_key(post),
            |post: u32| stored@[post]@,
        );
        let ghost all = postings@;
        let mut rest = postings;
        let mut sets: HashMap<u32, RoaringBitmap> = HashMap::new();
        let mut counts: HashMap<u32, u64> = HashMap::new();
        while rest.len() > 0
            invariant
                rest.len() <= all.len(),
                all == postings@,
                kept == summaries_by_key(summary_views(summaries@)),
                rest@ == all.take(rest.len() as int),
                kept == Map::new(
                    |post: u32| stored@.contains_key(post),
                    |post: u32| stored@[post]@,
                ),
                counts@.dom() == sets@.dom(),
                forall|tag: u32| #[trigger]
                    sets@.contains_key(tag) ==> members(sets@[tag]).finite() && members(
                        sets@[tag],
                    ).len() > 0 && members(sets@[tag]).len() == counts@[tag],
                forall|tag: u32, post: u32|
                    sets@.contains_key(tag) && #[trigger] members(sets@[tag]).contains(post)
                        ==> stored@.contains_key(post),
                forall|k: int|
                    rest.len() <= k < all.len() ==> sets@.contains_key((#[trigger] all[k]).0)
                        && sets@[all[k].0] == all[k].1,
                forall|tag: u32| #[trigger]
                    sets@.contains_key(tag) ==> exists|k: int|
                        rest.len() <= k < all.len() && (#[trigger] all[k]).0 == tag,
                postings_fit(kept, all.skip(rest.len() as int)),
            decreases rest.len(),
        {
            let ghost n = rest.len() - 1;
            let ghost later = all.skip(rest.len() as int);
            let (tag, bitmap) = rest.pop().unwrap();
            assert((tag, bitmap) == all[n]);
            let ghost now = all.skip(n);
            assert(now[0] == all[n]);
            assert forall|k: int| 0 < k < now.len() implies #[trigger] now[k] == later[k - 1] by {}
            if sets.contains_key(&tag) {
                proof {
                    let k = choose|k: int| n < k < all.len() && (#[trigger] all[k]).0 == tag;
                    assert(all[n].0 == all[k].0);
                }
                return None;
            }
            let count = match count_summarized(&bitmap, &stored) {
                Some(count) => count,
                None => {
                    proof {
                        let post = choose|post: u32|
                            members(bitmap).contains(post) && !stored@.contains_key(post);
                        assert(members(all[n].1).contains(post));
                    }
                    return None;
                },
            };
            if count == 0 {
                proof {
                    assert(members(all[n].1).len() == 0);
                    assert(members(all[n].1) =~= Set::<u32>::empty());
                }
                return None;
            }
            sets.insert(tag, bitmap);
            counts.insert(tag, count);
            proof {
                assert(counts@.dom() =~= sets@.dom());
                assert forall|a: int, b: int| 0 <= a < b < now.len() implies (#[trigger] now[a]).0
                    != (#[trigger] now[b]).0 by {
                    if a == 0 {
                        assert(now[b] == all[n + b]);
                    } else {
                        assert(later[a - 1].0 != later[b - 1].0);
                    }
                }
                assert forall|a: int| 0 <= a < now.len() implies members((#[trigger] now[a]).1)
                    != Set::<u32>::empty() by {
                    if a > 0 {
                        assert(members(later[a - 1].1) != Set::<u32>::empty());
                    }
                }
                assert forall|a: int, post: u32|
                    0 <= a < now.len() && #[trigger] members(now[a].1).contains(
                        post,
                    ) implies kept.contains_key(post) by {
                    if a > 0 {
                        assert(members(later[a - 1].1).contains(post));
                    }
                }
            }
        }
        assert(all.skip(0) =~= all);
        let ghost named = index;
        index.tag_id_to_post_id = sets;
        index.tag_id_freq = counts;
        index.post_id_to_post = stored;
        proof {
            assert(index.tag_names == named.tag_names);
            assert(index.tag_str_to_id == named.tag_str_to_id);
            assert(index@.summaries =~= kept);
            assert(index@.frequencies.dom() =~= index@.postings.dom());
            assert forall|i: int| 0 <= i < postings.len() implies index@.postings.contains_key(
                (#[trigger] postings[i]).0,
            ) && index@.postings[postings[i].0] == members(postings[i].1) by {
                assert(sets@.contains_key(all[i].0));
            }
            assert forall|tag: u32| #[trigger] index@.postings.contains_key(tag) implies exists|
                i: int,
            | 0 <= i < postings.len() && (#[trigger] postings[i]).0 == tag by {
                assert(sets@.contains_key(tag));
            }
        }
        Some(index)
    }

    /// Builds the index from the two logs: first every tag, then every post,
    /// each in the order of its log. A post is filed only under the tags that
    /// the tag log holds.
    pub fn generate(posts: &Vec<Post>, tags: &Vec<Tag>) -> (index: Index)
        requires
            forall|i: int| 0 <= i < posts.len() ==> (#[trigger] posts[i]).has_summary(),
        ensures
            index.wf(),
            index@ == IndexView::empty().after_tags(tags@).after_posts(posts@),
    {
        let mut index = Index::new();
        assert(index@ =~~= IndexView::empty());
        let mut i: usize = 0;
        while i < tags.len()
            invariant
                i <= tags.len(),
                index.wf(),
                index@ == IndexView::empty().after_tags(tags@.take(i as int)),
            decreases tags.len() - i,
        {
            index.insert_tag_folded(to_lowercase(tags[i].name.as_str()), tags[i].id);
            assert(tags@.take(i + 1).drop_last() =~= tags@.take(i as int));
            i += 1;
        }
        assert(tags@.take(i as int) =~= tags@);
        let ghost named = index@;
        let mut j: usize = 0;
        while j < posts.len()
            invariant
                j <= posts.len(),
                index.wf(),
                index@ == named.after_posts(posts@.take(j as int)),
                forall|i: int| 0 <= i < posts.len() ==> (#[trigger] posts[i]).has_summary(),
            decreases posts.len() - j,
        {
            let folded = folded_tags(&posts[j]);
            index.insert_post_folded(&posts[j], &folded);
            assert(posts@.take(j + 1).drop_last() =~= posts@.take(j as int));
            j += 1;
        }
        assert(posts@.take(j as int) =~= posts@);
        index
    }

    /// Enters a tag in the dictionary, under its case-folded name. A later
    /// entry for the same name replaces the earlier one.
    pub fn insert_tag(&mut self, tag: Tag)
        requires
            old(self).wf(),
        ensures
            final(self).wf(),
            final(self)@ == old(self)@.with_tag(tag.name@, tag.id),
    {
        self.insert_tag_folded(to_lowercase(tag.name.as_str()), tag.id);
    }

    /// Enters a tag in the dictionary under a name that is folded already. A
    /// later entry for the same name replaces the earlier one.
    pub fn insert_tag_folded(&mut self, folded: String, id: u64)
        requires
            old(self).wf(),
        ensures
            final(self).wf(),
            final(self)@ == old(self)@.with_folded_tag(folded@, id),
    {
        let name = folded;
        let key = (id % 0x1_0000_0000) as u32;
        let ghost before = self.tag_names@;
        if !self.tag_str_to_id.contains_key(name.as_str()) {
            self.tag_names.push(name.clone());
        }
        self.tag_str_to_id.insert(name, key);
        proof {
            assert(self@.postings =~= old(self)@.postings);
            assert(self@.summaries =~= old(self)@.summaries);
            assert forall|other: Seq<char>| #[trigger]
                self.tag_str_to_id@.contains_key(other) implies exists|i: int|
                0 <= i < self.tag_names.len() && #[trigger] self.tag_names[i]@ == other by {
                if other == name@ && !old(self).tag_str_to_id@.contains_key(name@) {
                    assert(self.tag_names[before.len() as int]@ == other);
                } else {
                    assert(old(self).tag_str_to_id@.contains_key(other));
                    let i = choose|i: int|
                        0 <= i < before.len() && #[trigger] before[i]@ == other;
                    assert(self.tag_names[i]@ == other);
                }
            }
        }
    }

    /// Enters a post: files it under each of its tags that the dictionary
    /// resolves at this moment, and stores its summary under its key. Tags
    /// that the dictionary does not hold are passed over.
    pub fn insert_post(&mut self, post: Post)
        requires
            old(self).wf(),
            post.has_summary(),
        ensures
            final(self).wf(),
            final(self)@ == old(self)@.with_logged_post(post),
    {
        let folded = folded_tags(&post);
        self.insert_post_folded(&post, &folded);
    }

    /// Enters a post with tag names that are folded already: files it under
    /// each of the names that the dictionary holds at this moment, and stores
    /// its summary under its key. Names that the dictionary does not hold are
    /// passed over.
    pub fn insert_post_folded(&mut self, post: &Post, folded: &Vec<String>)
        requires
            old(self).wf(),
            post.has_summary(),
        ensures
            final(self).wf(),
            final(self)@ == old(self)@.with_folded_post(*post, folded.deep_view()),
    {
        let key = (post.id % 0x1_0000_0000) as u32;
        let ghost start = self@;
        let ghost names = folded.deep_view();
        let mut i: usize = 0;
        proof {
            lemma_unresolved_names_file_nothing(start, key, names.take(0));
        }
        while i < folded.len()
            invariant
                i <= folded.len(),
                names == folded.deep_view(),
                key == post_key(post.id),
                self.tag_names == old(self).tag_names,
                self.tag_str_to_id == old(self).tag_str_to_id,
                self@.consistent(),
                self@ == start.with_postings(key, names.take(i as int)),
            decreases folded.len() - i,
        {
            let ghost mid = self@;
            assert(folded[i as int]@ == names[i as int]);
            match self.tag_str_to_id.get(folded[i].as_str()) {
                None => {
                    proof {
                        lemma_unresolved_names_file_nothing(mid, key, seq![names[i as int]]);
                    }
                },
                Some(id) => {
                    let tag = *id;
                    let mut bitmap = match self.tag_id_to_post_id.remove(&tag) {
                        Some(bitmap) => bitmap,
                        None => bitmap_new(),
                    };
                    assert(members(bitmap) == mid.posts_of(tag));
                    let added = bitmap_insert(&mut bitmap, key);
                    self.tag_id_to_post_id.insert(tag, bitmap);
                    if added {
                        let count = match self.tag_id_freq.get(&tag) {
                            Some(count) => *count,
                            None => 0,
                        };
                        proof {
                            lemma_sets_of_u32_are_finite(mid.posts_of(tag));
                        }
                        self.tag_id_freq.insert(tag, count + 1);
                    }
                    proof {
                        let one = seq![names[i as int]];
                        assert(mid.lookup(one[0]) == Some(tag));
                        assert forall|other: u32|
                            mid.resolved(one).contains(other) <==> other == tag by {
                            if mid.resolved(one).contains(other) {
                                let j = choose|j: int|
                                    0 <= j < one.len() && #[trigger] mid.lookup(one[j]) == Some(
                                        other,
                                    );
                            }
                        }
                        assert(self@ =~~= mid.with_postings(key, one));
                    }
                },
            }
            proof {
                lemma_with_postings_step(start, key, names, i as int);
                lemma_with_postings_consistent(mid, key, seq![names[i as int]]);
            }
            i += 1;
        }
        assert(names.take(i as int) =~= names);
        let ghost filed = self@;
        let summary = post.summary().unwrap();
        self.post_id_to_post.insert(key, summary);
        proof {
            assert(self@.postings =~= filed.postings);
            assert(self.tag_names == old(self).tag_names);
            assert(self.tag_str_to_id == old(self).tag_str_to_id);
            assert(self@ =~~= start.with_post(key, names, summary@));
        }
    }

    /// The posts filed under a tag, named as the dictionary holds it.
    pub fn get_post_ids_by_tag(&self, tag: &str) -> (posts: Option<RoaringBitmap>)
        ensures
            match self@.lookup(tag@) {
                Some(key) => if self@.postings.contains_key(key) {
                    posts matches Some(bitmap) && members(bitmap) == self@.postings[key]
                } else {
                    posts is None
                },
                None => posts is None,
            },
    {
        let key = match self.tag_str_to_id.get(tag) {
            Some(key) => *key,
            None => {
                return None;
            },
        };
        match self.tag_id_to_post_id.get(&key) {
            Some(bitmap) => Some(bitmap_clone(bitmap)),
            None => None,
        }
    }

    /// The tag key and the frequency of each name of a query, in the order of
    /// the query; `None` where a name stands for no tag. A tag without a count
    /// is given the largest frequency, so that it is looked at last.
    pub fn resolve_query(&self, tags: &Vec<String>) -> (resolved: Option<Vec<(u32, u64)>>)
        ensures
            resolved is Some <==> forall|i: int|
                0 <= i < tags.len() ==> (#[trigger] self@.lookup(tags[i]@)) is Some,
            resolved matches Some(pairs) ==> pairs.len() == tags.len() && forall|i: int|
                0 <= i < tags.len() ==> self@.lookup(tags[i]@) == Some((#[trigger] pairs[i]).0)
                    && pairs[i].1 == if self@.frequencies.contains_key(pairs[i].0) {
                    self@.frequencies[pairs[i].0]
                } else {
                    u64::MAX
                },
    {
        let mut pairs: Vec<(u32, u64)> = Vec::new();
        let mut i: usize = 0;
        while i < tags.len()
            invariant
                i <= tags.len(),
                pairs.len() == i,
                forall|j: int|
                    0 <= j < i ==> self@.lookup(tags[j]@) == Some((#[trigger] pairs[j]).0)
                        && pairs[j].1 == if self@.frequencies.contains_key(pairs[j].0) {
                        self@.frequencies[pairs[j].0]
                    } else {
                        u64::MAX
                    },
            decreases tags.len() - i,
        {
            let key = match self.tag_str_to_id.get(tags[i].as_str()) {
                Some(key) => *key,
                None => {
                    assert(self@.lookup(tags[i as int]@) is None);
                    return None;
                },
            };
            let frequency = match self.tag_id_freq.get(&key) {
                Some(frequency) => *frequency,
                None => u64::MAX,
            };
            pairs.push((key, frequency));
            i += 1;
        }
        assert forall|i: int| 0 <= i < tags.len() implies (#[trigger] self@.lookup(
            tags[i]@,
        )) is Some by {
            assert(self@.lookup(tags[i]@) == Some(pairs[i].0));
        }
        Some(pairs)
    }

    /// Answers a query for the posts that carry all of the given tags. The
    /// tags are intersected from the rarest to the most frequent, and the
    /// work stops as soon as nothing is left. The answer lists the matching
    /// posts in ascending order of their keys and hands out their summaries
    /// one at a time.
    pub fn get_images_all_tags_lazy(&self, tags: Vec<String>) -> (found: Option<Matches<'_>>)
        ensures
            match self@.search(tags.deep_view()) {
                Some(posts) => found matches Some(matches) && matches.source() == self@
                    && ascending_listing(matches.remaining(), posts),
                None => found is None,
            },
    {
        let ghost names = tags.deep_view();
        let ghost view = self@;
        assert forall|i: int| 0 <= i < tags.len() implies #[trigger] names[i] == tags[i]@ by {}
        let pairs = match self.resolve_query(&tags) {
            Some(pairs) => pairs,
            None => {
                proof {
                    let i = choose|i: int|
                        0 <= i < tags.len() && (#[trigger] view.lookup(tags[i]@)) is None;
                    assert(view.lookup(names[i]) is None);
                }
                return None;
            },
        };
        let ordered = rarest_first(&pairs);
        proof {
            lemma_by_frequency(pairs@);
            lemma_same_elements(ordered@, pairs@);
            assert forall|j: int| 0 <= j < ordered.len() implies view.queried(
                names,
                (#[trigger] ordered[j]).0,
            ) by {
                assert(ordered@.contains(ordered@[j]));
                assert(pairs@.contains(ordered@[j]));
                let i = choose|i: int| 0 <= i < pairs.len() && pairs@[i] == ordered@[j];
                assert(view.lookup(names[i]) == Some(pairs[i].0));
            }
            assert forall|i: int| 0 <= i < names.len() implies among(
                ordered@,
                #[trigger] view.lookup(names[i]),
            ) by {
                assert(pairs@.contains(pairs@[i]));
                assert(ordered@.contains(pairs@[i]));
                let j = choose|j: int| 0 <= j < ordered.len() && ordered@[j] == pairs@[i];
                assert(view.lookup(names[i]) == Some(ordered[j].0));
            }
        }
        if ordered.len() == 0 {
            return None;
        }
        let mut result = match self.tag_id_to_post_id.get(&ordered[0].0) {
            Some(bitmap) => bitmap_clone(bitmap),
            None => {
                proof {
                    lemma_tag_without_posts_is_not_searchable(view, names, ordered[0].0);
                }
                return None;
            },
        };
        let mut k: usize = 1;
        while k < ordered.len()
            invariant
                1 <= k <= ordered.len(),
                view == self@,
                names == tags.deep_view(),
                ordered.len() == names.len(),
                forall|j: int| 0 <= j < k ==> view.postings.contains_key((#[trigger] ordered[j]).0),
                forall|post: u32|
                    members(result).contains(post) <==> forall|j: int|
                        0 <= j < k ==> view.posts_of((#[trigger] ordered[j]).0).contains(post),
                k >= 2 ==> members(result) != Set::<u32>::empty(),
                forall|j: int|
                    0 <= j < ordered.len() ==> view.queried(names, (#[trigger] ordered[j]).0),
                forall|i: int|
                    0 <= i < names.len() ==> among(ordered@, #[trigger] view.lookup(names[i])),
            decreases ordered.len() - k,
        {
            let next = match self.tag_id_to_post_id.get(&ordered[k].0) {
                Some(next) => next,
                None => {
                    proof {
                        lemma_tag_without_posts_is_not_searchable(
                            view,
                            names,
                            ordered[k as int].0,
                        );
                    }
                    return None;
                },
            };
            let ghost running = members(result);
            bitmap_intersect_with(&mut result, next);
            proof {
                assert forall|post: u32|
                    members(result).contains(post) <==> forall|j: int|
                        0 <= j < k + 1 ==> view.posts_of((#[trigger] ordered[j]).0).contains(
                            post,
                        ) by {
                    if members(result).contains(post) {
                        assert(running.contains(post));
                        assert forall|j: int| 0 <= j < k + 1 implies view.posts_of(
                            (#[trigger] ordered[j]).0,
                        ).contains(post) by {
                            if j < k {
                            } else {
                                assert(view.posts_of(ordered[k as int].0) == members(*next));
                            }
                        }
                    }
                    if forall|j: int|
                        0 <= j < k + 1 ==> view.posts_of((#[trigger] ordered[j]).0).contains(
                            post,
                        ) {
                        assert(view.posts_of(ordered[k as int].0).contains(post));
                        assert(running.contains(post));
                    }
                }
            }
            if bitmap_is_empty(&result) {
                proof {
                    if view.searchable(names) {
                        assert forall|post: u32| !view.common_posts(names).contains(post) by {
                            if view.common_posts(names).contains(post) {
                                assert forall|j: int| 0 <= j < k + 1 implies view.posts_of(
                                    (#[trigger] ordered[j]).0,
                                ).contains(post) by {
                                    lemma_common_post_is_filed_under(
                                        view,
                                        names,
                                        post,
                                        ordered[j].0,
                                    );
                                }
                                assert(members(result).contains(post));
                            }
                        }
                        assert(view.common_posts(names) =~= Set::<u32>::empty());
                    }
                }
                return None;
            }
            k += 1;
        }
        proof {
            assert forall|i: int| 0 <= i < names.len() implies ((#[trigger] view.lookup(
                names[i],
            )) matches Some(tag) && view.postings.contains_key(tag)) by {
                assert(among(ordered@, view.lookup(names[i])));
                let j = choose|j: int|
                    0 <= j < ordered.len() && view.lookup(names[i]) == Some(
                        (#[trigger] ordered@[j]).0,
                    );
            }
            assert(view.searchable(names));
            assert forall|post: u32|
                view.common_posts(names).contains(post) <==> members(result).contains(post) by {
                if view.common_posts(names).contains(post) {
                    assert forall|j: int| 0 <= j < k implies view.posts_of(
                        (#[trigger] ordered[j]).0,
                    ).contains(post) by {
                        lemma_common_post_is_filed_under(view, names, post, ordered[j].0);
                    }
                }
                if members(result).contains(post) {
                    assert forall|i: int| 0 <= i < names.len() implies view.posts_of(
                        (#[trigger] view.lookup(names[i])).unwrap(),
                    ).contains(post) by {
                        assert(among(ordered@, view.lookup(names[i])));
                        let j = choose|j: int|
                            0 <= j < ordered.len() && view.lookup(names[i]) == Some(
                                (#[trigger] ordered@[j]).0,
                            );
                    }
                }
            }
            assert(view.common_posts(names) =~= members(result));
        }
        Some(Matches { ids: bitmap_into_iter(result), index: self })
    }
}

impl Default for Index {
    fn default() -> (index: Index)
        ensures
            index.wf(),
            index@.tag_ids == Map::<Seq<char>, u32>::empty(),
            index@.postings == Map::<u32, Set<u32>>::empty(),
            index@.summaries == Map::<u32, SummaryView>::empty(),
            index@.frequencies == Map::<u32, u64>::empty(),
    {
        Index::new()
    }
}

/// The answer to a query: the matching posts that have yet to be handed out.
pub struct Matches<'a> {
    ids: roaring::bitmap::IntoIter,
    index: &'a Index,
}

impl<'a> Matches<'a> {
    /// The keys of the posts that have yet to be looked at, in the order in
    /// which they will be.
    pub closed spec fn remaining(&self) -> Seq<u32> {
        pending(self.ids)
    }

    /// The index that the summaries are taken from.
    pub closed spec fn source(&self) -> IndexView {
        self.index@
    }

    /// Hands out the summary of the next matching post. A post of which the
    /// index holds no summary is passed over.
    pub fn next(&mut self) -> (item: Option<PostSimplified>)
        ensures
            final(self).source() == old(self).source(),
            item is None ==> final(self).remaining().len() == 0 && forall|j: int|
                0 <= j < old(self).remaining().len() ==> !old(self).source().summaries.contains_key(
                    #[trigger] old(self).remaining()[j],
                ),
            item matches Some(summary) ==> exists|k: int|
                0 <= k < old(self).remaining().len() && (forall|j: int|
                    0 <= j < k ==> !old(self).source().summaries.contains_key(
                        #[trigger] old(self).remaining()[j],
                    )) && old(self).source().summaries.contains_key(
                    #[trigger] old(self).remaining()[k],
                ) && summary@ == old(self).source().summaries[old(self).remaining()[k]]
                    && final(self).remaining() == old(self).remaining().skip(k + 1),
    {
        let ghost start = pending(self.ids);
        let ghost passed: int = 0;
        loop
            invariant
                self.index == old(self).index,
                0 <= passed <= start.len(),
                start == pending(old(self).ids),
                pending(self.ids) == start.skip(passed),
                forall|j: int|
                    0 <= j < passed ==> !self.index@.summaries.contains_key(#[trigger] start[j]),
            decreases pending(self.ids).len(),
        {
            let id = match bitmap_iter_next(&mut self.ids) {
                Some(id) => id,
                None => {
                    return None;
                },
            };
            assert(id == start[passed]);
            assert(pending(self.ids) =~= start.skip(passed + 1));
            match self.index.post_id_to_post.get(&id) {
                Some(summary) => {
                    assert(old(self).remaining()[passed] == id);
                    return Some(summary.duplicate());
                },
                None => {
                    proof {
                        passed = passed + 1;
                    }
                },
            }
        }
    }
    /// Hands out the summaries of all the matching posts that are left, in
    /// ascending order of their keys.
    pub fn collect(self) -> (summaries: Vec<PostSimplified>)
        ensures
            summaries.len() == self.source().summaries_of(self.remaining()).len(),
            forall|i: int|
                0 <= i < summaries.len() ==> (#[trigger] summaries[i])@
                    == self.source().summaries_of(self.remaining())[i],
    {
        let ghost view = self.source();
        let ghost all = view.summaries_of(self.remaining());
        let mut rest = self;
        let mut summaries: Vec<PostSimplified> = Vec::new();
        let ghost mut got: Seq<SummaryView> = Seq::empty();
        loop
            invariant
                rest.source() == view,
                view == self.source(),
                all == view.summaries_of(self.remaining()),
                summaries.len() == got.len(),
                forall|i: int| 0 <= i < summaries.len() ==> (#[trigger] summaries[i])@ == got[i],
                got + view.summaries_of(rest.remaining()) == all,
            decreases rest.remaining().len(),
        {
            let ghost before = rest.remaining();
            match rest.next() {
                Some(summary) => {
                    proof {
                        let k = choose|k: int|
                            0 <= k < before.len() && (forall|j: int|
                                0 <= j < k ==> !view.summaries.contains_key(#[trigger] before[j]))
                                && view.summaries.contains_key(#[trigger] before[k]) && summary@
                                == view.summaries[before[k]] && rest.remaining() == before.skip(
                                k + 1,
                            );
                        lemma_summaries_after_gap(view, before, k);
                        assert(got.push(summary@) + view.summaries_of(rest.remaining()) =~= got
                            + view.summaries_of(before));
                        got = got.push(summary@);
                    }
                    summaries.push(summary);
                },
                None => {
                    proof {
                        lemma_summaries_of_gap(view, before);
                        assert(got + Seq::<SummaryView>::empty() =~= got);
                    }
                    return summaries;
                },
            }
        }
    }
}

} // verus!
