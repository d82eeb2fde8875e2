use indexer::api::models::Timestamp;
use indexer::index::order::rarest_first;
use indexer::index::{folded_tags, Index};
use indexer::models::{Extension, Post, PostSimplified, Rating, Tag, TagType, Varient};
use roaring::RoaringBitmap;

fn tag(id: u64, name: &str) -> Tag {
    Tag { id, name: name.to_string(), count: 0, tag_type: TagType::Descriptive, ambiguous: false }
}

fn post(id: u64, tags: &[&str]) -> Post {
    Post {
        id,
        created_at: Timestamp { secs: 1_700_000_000 + id as i64, nanos: 0 },
        score: 0,
        md5: "00112233445566778899aabbccddeeff".to_string(),
        directory: "00/11".to_string(),
        image: format!("{}.jpg", id),
        rating: Rating::Safe,
        source: None,
        change: 0,
        owner: "someone".to_string(),
        creator_id: 1,
        parent_id: None,
        sample: None,
        preview: Varient { url: "p".to_string(), width: 1, height: 1 },
        original: Varient { url: "o".to_string(), width: 2, height: 2 },
        tags: tags.iter().map(|name| name.to_string()).collect(),
        title: None,
        has_notes: false,
        has_comments: false,
        status: "active".to_string(),
        post_locked: false,
        has_children: false,
    }
}

fn names(list: &[&str]) -> Vec<String> {
    list.iter().map(|name| name.to_string()).collect()
}

/// Tags `a` on posts 1, 2, 3; `b` on posts 2, 3; `c` on post 9.
fn sample_index() -> Index {
    let mut index = Index::new();
    index.insert_tag(tag(10, "a"));
    index.insert_tag(tag(20, "b"));
    index.insert_tag(tag(30, "c"));
    index.insert_post(post(1, &["a"]));
    index.insert_post(post(2, &["a", "b"]));
    index.insert_post(post(3, &["b", "a"]));
    index.insert_post(post(9, &["c"]));
    index
}

fn ids_of(index: &Index, query: &[&str]) -> Option<Vec<u32>> {
    index
        .get_images_all_tags_lazy(names(query))
        .map(|found| found.collect().iter().map(|summary| summary.id).collect())
}

#[test]
fn empty_index_answers_nothing() {
    let index = Index::new();
    assert!(index.get_images_all_tags_lazy(names(&["cat"])).is_none());
    assert!(index.get_post_ids_by_tag("cat").is_none());
}

#[test]
fn default_index_is_empty() {
    let index = Index::default();
    assert!(index.tag_names.is_empty());
    assert!(index.tag_id_to_post_id.is_empty());
    assert!(index.post_id_to_post.is_empty());
    assert!(index.tag_id_freq.is_empty());
}

#[test]
fn search_returns_posts_that_carry_all_tags() {
    let index = sample_index();
    assert_eq!(index.tag_id_freq.get(&10), Some(&3));
    assert_eq!(index.tag_id_freq.get(&20), Some(&2));
    assert_eq!(ids_of(&index, &["a", "b"]), Some(vec![2, 3]));
    assert_eq!(ids_of(&index, &["b", "a"]), Some(vec![2, 3]));
}

#[test]
fn search_for_one_tag_returns_its_posts_in_ascending_order() {
    let index = sample_index();
    assert_eq!(ids_of(&index, &["a"]), Some(vec![1, 2, 3]));
    assert_eq!(ids_of(&index, &["c"]), Some(vec![9]));
}

#[test]
fn search_with_unknown_tag_is_empty() {
    let index = sample_index();
    assert!(index.get_images_all_tags_lazy(names(&["a", "z"])).is_none());
    assert!(index.get_images_all_tags_lazy(names(&["z", "a"])).is_none());
    assert!(index.get_images_all_tags_lazy(names(&["z"])).is_none());
}

#[test]
fn search_with_disjoint_tags_is_empty() {
    let index = sample_index();
    assert!(index.get_images_all_tags_lazy(names(&["a", "b", "c"])).is_none());
    assert!(index.get_images_all_tags_lazy(names(&["c", "a"])).is_none());
}

#[test]
fn search_without_tags_is_empty() {
    let index = sample_index();
    assert!(index.get_images_all_tags_lazy(Vec::new()).is_none());
}

#[test]
fn search_for_tag_without_posts_is_empty() {
    let mut index = sample_index();
    index.insert_tag(tag(40, "d"));
    assert!(index.get_images_all_tags_lazy(names(&["d"])).is_none());
    assert!(index.get_images_all_tags_lazy(names(&["a", "d"])).is_none());
}

#[test]
fn search_names_tags_as_the_dictionary_holds_them() {
    let mut index = Index::new();
    index.insert_tag(tag(1, "Blue_Sky"));
    index.insert_post(post(5, &["BLUE_SKY"]));
    assert_eq!(ids_of(&index, &["blue_sky"]), Some(vec![5]));
    assert!(index.get_images_all_tags_lazy(names(&["Blue_Sky"])).is_none());
}

#[test]
fn matches_are_handed_out_one_at_a_time() {
    let index = sample_index();
    let mut found = index.get_images_all_tags_lazy(names(&["a"])).unwrap();
    assert_eq!(found.next().map(|summary| summary.id), Some(1));
    assert_eq!(found.next().map(|summary| summary.id), Some(2));
    assert_eq!(found.next().map(|summary| summary.id), Some(3));
    assert!(found.next().is_none());
    assert!(found.next().is_none());
}

#[test]
fn matches_pass_over_posts_without_summary() {
    let mut index = sample_index();
    index.post_id_to_post.remove(&2);
    assert_eq!(ids_of(&index, &["a"]), Some(vec![1, 3]));
    let mut found = index.get_images_all_tags_lazy(names(&["a", "b"])).unwrap();
    assert_eq!(found.next().map(|summary| summary.id), Some(3));
    assert!(found.next().is_none());
}

#[test]
fn matches_carry_the_summary_of_the_post() {
    let index = sample_index();
    let found = index.get_images_all_tags_lazy(names(&["c"])).unwrap().collect();
    assert_eq!(found.len(), 1);
    assert_eq!(found[0].id, 9);
    assert_eq!(found[0].extension, Extension::Jpg);
    assert_eq!(found[0].created_at, Timestamp { secs: 1_700_000_009, nanos: 0 });
    assert_eq!(
        found[0].md5,
        [
            0x00, 0x11, 0x22, 0x33, 0x44, 0x55, 0x66, 0x77, 0x88, 0x99, 0xaa, 0xbb, 0xcc, 0xdd,
            0xee, 0xff
        ]
    );
}

#[test]
fn inserting_a_post_twice_counts_it_once() {
    let mut index = Index::new();
    index.insert_tag(tag(10, "a"));
    index.insert_post(post(1, &["a"]));
    assert_eq!(index.tag_id_freq.get(&10), Some(&1));
    index.insert_post(post(1, &["a"]));
    assert_eq!(index.tag_id_freq.get(&10), Some(&1));
    assert_eq!(index.tag_id_to_post_id.get(&10).unwrap().len(), 1);
    assert_eq!(ids_of(&index, &["a"]), Some(vec![1]));
}

#[test]
fn a_tag_listed_twice_by_a_post_counts_once() {
    let mut index = Index::new();
    index.insert_tag(tag(10, "a"));
    index.insert_post(post(1, &["a", "A", "a"]));
    assert_eq!(index.tag_id_freq.get(&10), Some(&1));
}

#[test]
fn counts_follow_the_sets() {
    let index = sample_index();
    for (tag, bitmap) in index.tag_id_to_post_id.iter() {
        assert_eq!(index.tag_id_freq.get(tag), Some(&bitmap.len()));
        assert!(!bitmap.is_empty());
    }
    assert_eq!(index.tag_id_freq.len(), index.tag_id_to_post_id.len());
}

#[test]
fn unknown_tags_of_a_post_are_passed_over() {
    let mut index = Index::new();
    index.insert_tag(tag(10, "a"));
    index.insert_post(post(1, &["missing", "a", "also_missing"]));
    index.insert_post(post(2, &["missing"]));
    assert_eq!(index.tag_id_to_post_id.len(), 1);
    assert_eq!(index.tag_id_to_post_id.get(&10).unwrap().iter().collect::<Vec<u32>>(), vec![1]);
    assert_eq!(index.tag_id_freq.get(&10), Some(&1));
    assert_eq!(index.post_id_to_post.len(), 2);
}

#[test]
fn a_tag_entered_after_a_post_does_not_reach_it() {
    let mut index = Index::new();
    index.insert_post(post(1, &["late"]));
    index.insert_tag(tag(10, "late"));
    assert!(index.tag_id_to_post_id.is_empty());
    assert!(index.get_images_all_tags_lazy(names(&["late"])).is_none());
    index.insert_post(post(2, &["late"]));
    assert_eq!(ids_of(&index, &["late"]), Some(vec![2]));
}

#[test]
fn insert_tag_folds_case_and_replaces() {
    let mut index = Index::new();
    index.insert_tag(tag(1, "Cat"));
    assert_eq!(index.tag_str_to_id.get("cat"), Some(&1));
    assert!(index.tag_str_to_id.get("Cat").is_none());
    index.insert_tag(tag(2, "CAT"));
    assert_eq!(index.tag_str_to_id.get("cat"), Some(&2));
    assert_eq!(index.tag_names, vec!["cat".to_string()]);
}

#[test]
fn keys_are_the_low_bits_of_ids() {
    let mut index = Index::new();
    index.insert_tag(tag(0x1_0000_0007, "wide"));
    assert_eq!(index.tag_str_to_id.get("wide"), Some(&7));
    index.insert_post(post(0x2_0000_0003, &["wide"]));
    assert_eq!(ids_of(&index, &["wide"]), Some(vec![3]));
}

#[test]
fn get_post_ids_by_tag_returns_the_set() {
    let index = sample_index();
    let set = index.get_post_ids_by_tag("b").unwrap();
    assert_eq!(set.iter().collect::<Vec<u32>>(), vec![2, 3]);
    assert!(index.get_post_ids_by_tag("B").is_none());
    assert!(index.get_post_ids_by_tag("z").is_none());
}

#[test]
fn generate_enters_tags_before_posts() {
    let tags = vec![tag(10, "a"), tag(20, "b"), tag(30, "c")];
    let posts = vec![post(1, &["a"]), post(2, &["a", "b"]), post(3, &["b", "a"]), post(9, &["c", "x"])];
    let index = Index::generate(&posts, &tags);
    assert_eq!(ids_of(&index, &["a", "b"]), Some(vec![2, 3]));
    assert_eq!(ids_of(&index, &["c"]), Some(vec![9]));
    assert!(index.get_images_all_tags_lazy(names(&["x"])).is_none());
    assert_eq!(index.tag_id_freq.get(&10), Some(&3));
    assert_eq!(index.post_id_to_post.len(), 4);
}

#[test]
fn generate_from_empty_logs_is_empty() {
    let index = Index::generate(&Vec::new(), &Vec::new());
    assert!(index.tag_names.is_empty());
    assert!(index.post_id_to_post.is_empty());
}

#[test]
fn rarest_first_orders_by_frequency_and_keeps_ties_in_order() {
    let ordered = rarest_first(&vec![(1, 30), (2, 10), (3, 20), (4, 10), (5, u64::MAX)]);
    assert_eq!(ordered, vec![(2, 10), (4, 10), (3, 20), (1, 30), (5, u64::MAX)]);
    assert_eq!(rarest_first(&Vec::new()), Vec::new());
}

#[test]
fn resolve_query_pairs_tags_with_their_counts() {
    let mut index = sample_index();
    index.insert_tag(tag(40, "d"));
    assert_eq!(
        index.resolve_query(&names(&["b", "d", "a"])),
        Some(vec![(20, 2), (40, u64::MAX), (10, 3)])
    );
    assert_eq!(index.resolve_query(&names(&["b", "z"])), None);
    assert_eq!(index.resolve_query(&Vec::new()), Some(Vec::new()));
}

fn summary(id: u32) -> PostSimplified {
    PostSimplified {
        md5: [id as u8; 16],
        extension: Extension::Png,
        id,
        created_at: Timestamp { secs: id as i64, nanos: 0 },
    }
}

fn set(posts: &[u32]) -> RoaringBitmap {
    posts.iter().copied().collect()
}

#[test]
fn folded_tags_are_the_tags_in_lowercase() {
    assert_eq!(
        folded_tags(&post(1, &["Cat", "DOG", "bird", "ÉCLAIR"])),
        names(&["cat", "dog", "bird", "éclair"])
    );
    assert_eq!(folded_tags(&post(1, &[])), Vec::<String>::new());
}

#[test]
fn folded_entries_are_taken_as_they_are() {
    let mut index = Index::new();
    index.insert_tag_folded("Cat".to_string(), 0x1_0000_0001);
    assert_eq!(index.tag_str_to_id.get("Cat"), Some(&1));
    assert!(index.tag_str_to_id.get("cat").is_none());
    index.insert_tag_folded("dog".to_string(), 2);
    index.insert_post_folded(&post(7, &["ignored"]), &names(&["Cat", "dog", "cat"]));
    assert_eq!(ids_of(&index, &["Cat", "dog"]), Some(vec![7]));
    assert_eq!(index.tag_id_freq.get(&1), Some(&1));
    assert_eq!(index.tag_id_freq.get(&2), Some(&1));
    assert_eq!(index.tag_id_to_post_id.len(), 2);
}

#[test]
fn summaries_are_stored_under_the_key_they_carry() {
    let index = sample_index();
    for (key, summary) in index.post_id_to_post.iter() {
        assert_eq!(summary.id, *key);
    }
    let found = index.get_images_all_tags_lazy(names(&["a"])).unwrap().collect();
    assert!(found.windows(2).all(|pair| pair[0].id < pair[1].id));
}

#[test]
fn an_index_is_put_together_from_its_parts() {
    let tags = vec![("a".to_string(), 10), ("b".to_string(), 20), ("a".to_string(), 11)];
    let summaries = vec![summary(1), summary(2), summary(3)];
    let postings = vec![(11, set(&[1, 2, 3])), (20, set(&[2, 3]))];
    let index = Index::from_parts(&tags, &summaries, postings).unwrap();
    assert_eq!(index.tag_str_to_id.get("a"), Some(&11));
    assert_eq!(index.tag_names, names(&["a", "b"]));
    assert_eq!(index.tag_id_freq.get(&11), Some(&3));
    assert_eq!(index.tag_id_freq.get(&20), Some(&2));
    assert_eq!(index.tag_id_freq.len(), 2);
    assert_eq!(ids_of(&index, &["a", "b"]), Some(vec![2, 3]));
    let mut index = index;
    index.insert_post(post(3, &["b", "a"]));
    index.insert_post(post(4, &["b"]));
    assert_eq!(index.tag_id_freq.get(&11), Some(&3));
    assert_eq!(index.tag_id_freq.get(&20), Some(&3));
}

#[test]
fn an_index_without_parts_is_empty() {
    let index = Index::from_parts(&Vec::new(), &Vec::new(), Vec::new()).unwrap();
    assert!(index.tag_names.is_empty());
    assert!(index.post_id_to_post.is_empty());
    assert!(index.tag_id_to_post_id.is_empty());
}

#[test]
fn a_later_summary_replaces_an_earlier_one_of_the_same_key() {
    let mut second = summary(1);
    second.extension = Extension::Gif;
    let index = Index::from_parts(&Vec::new(), &vec![summary(1), second], Vec::new()).unwrap();
    assert_eq!(index.post_id_to_post.len(), 1);
    assert_eq!(index.post_id_to_post.get(&1).unwrap().extension, Extension::Gif);
}

#[test]
fn parts_that_do_not_fit_make_no_index() {
    let tags = vec![("a".to_string(), 10)];
    let summaries = vec![summary(1), summary(2)];
    assert!(Index::from_parts(&tags, &summaries, vec![(10, set(&[1, 3]))]).is_none());
    assert!(Index::from_parts(&tags, &summaries, vec![(10, set(&[]))]).is_none());
    assert!(
        Index::from_parts(&tags, &summaries, vec![(10, set(&[1])), (10, set(&[2]))]).is_none()
    );
    assert!(Index::from_parts(&tags, &summaries, vec![(10, set(&[1])), (12, set(&[2]))]).is_some());
}
