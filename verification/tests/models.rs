use indexer::api::models::{ApiPost, ApiPostResponse, ApiAttributes, ApiTag, Timestamp};
use indexer::models::{Extension, Post, PostSimplified, Rating, Tag, TagType, Varient};

fn api_post(id: u64) -> ApiPost {
    ApiPost {
        id,
        created_at: Timestamp { secs: 1_184_562_000, nanos: 0 },
        score: 7,
        width: 800,
        height: 600,
        md5: "0123456789abcdefABCDEF0123456789".to_string(),
        directory: "01/23".to_string(),
        image: "0123456789abcdef.tar.PNG".to_string(),
        rating: "general".to_string(),
        source: Some("somewhere".to_string()),
        change: 42,
        owner: "owner".to_string(),
        creator_id: 5,
        parent_id: Some(3),
        sample: true,
        preview_height: 150,
        preview_width: 200,
        tags: "  cat\tdog \n long_hair  ".to_string(),
        title: None,
        has_notes: true,
        has_comments: false,
        file_url: "https://example.org/file.png".to_string(),
        preview_url: "https://example.org/preview.png".to_string(),
        sample_url: Some("https://example.org/sample.png".to_string()),
        sample_height: Some(300),
        sample_width: Some(400),
        status: "active".to_string(),
        post_locked: false,
        has_children: true,
    }
}

#[test]
fn rating_names_are_read() {
    assert_eq!(Rating::parse("safe"), Some(Rating::Safe));
    assert_eq!(Rating::parse("general"), Some(Rating::Safe));
    assert_eq!(Rating::parse("sensitive"), Some(Rating::Sensitive));
    assert_eq!(Rating::parse("questionable"), Some(Rating::Questionable));
    assert_eq!(Rating::parse("explicit"), Some(Rating::Explicit));
    assert_eq!(Rating::parse("Safe"), None);
    assert_eq!(Rating::parse(""), None);
    assert_eq!(Rating::from("explicit".to_string()), Rating::Explicit);
    assert_eq!(Rating::from("general".to_string()), Rating::Safe);
}

#[test]
fn extensions_are_classified() {
    assert_eq!(Extension::from("png".to_string()), Extension::Png);
    assert_eq!(Extension::from("jpg".to_string()), Extension::Jpg);
    assert_eq!(Extension::from("jpeg".to_string()), Extension::Jpeg);
    assert_eq!(Extension::from("gif".to_string()), Extension::Gif);
    assert_eq!(Extension::from("mov".to_string()), Extension::Mov);
    assert_eq!(Extension::from("webm".to_string()), Extension::Other("webm".to_string()));
    assert_eq!(Extension::from("PNG".to_string()), Extension::Other("PNG".to_string()));
    assert_eq!(Extension::from(String::new()), Extension::Other(String::new()));
}

#[test]
fn extensions_are_written_as_they_were_read() {
    assert_eq!(Extension::Png.as_str(), "png");
    assert_eq!(Extension::Jpg.as_str(), "jpg");
    assert_eq!(Extension::Jpeg.as_str(), "jpeg");
    assert_eq!(Extension::Gif.as_str(), "gif");
    assert_eq!(Extension::Mov.as_str(), "mov");
    assert_eq!(Extension::Other("webm".to_string()).as_str(), "webm");
    assert_eq!(Extension::Other("webm".to_string()).duplicate(), Extension::Other("webm".to_string()));
}

#[test]
fn tag_types_are_read_from_their_numbers() {
    assert_eq!(TagType::from(0), TagType::Descriptive);
    assert_eq!(TagType::from(1), TagType::Artist);
    assert_eq!(TagType::from(2), TagType::Other(2));
    assert_eq!(TagType::from(3), TagType::Copyright);
    assert_eq!(TagType::from(4), TagType::Character);
    assert_eq!(TagType::from(5), TagType::Metadata);
    assert_eq!(TagType::from(6), TagType::Other(6));
    assert_eq!(TagType::from(u32::MAX), TagType::Other(u32::MAX));
}

#[test]
fn tags_are_normalized() {
    let tag = Tag::from(ApiTag {
        id: 12,
        name: "Long_Hair".to_string(),
        count: 99,
        tag_type: 4,
        ambiguous: true,
    });
    assert_eq!(
        tag,
        Tag {
            id: 12,
            name: "Long_Hair".to_string(),
            count: 99,
            tag_type: TagType::Character,
            ambiguous: true
        }
    );
}

#[test]
fn posts_are_normalized() {
    let post = Post::from(api_post(77));
    assert_eq!(post.id, 77);
    assert_eq!(post.created_at, Timestamp { secs: 1_184_562_000, nanos: 0 });
    assert_eq!(post.score, 7);
    assert_eq!(post.md5, "0123456789abcdefABCDEF0123456789");
    assert_eq!(post.directory, "01/23");
    assert_eq!(post.image, "0123456789abcdef.tar.PNG");
    assert_eq!(post.rating, Rating::Safe);
    assert_eq!(post.source, Some("somewhere".to_string()));
    assert_eq!(post.change, 42);
    assert_eq!(post.owner, "owner");
    assert_eq!(post.creator_id, 5);
    assert_eq!(post.parent_id, Some(3));
    assert_eq!(
        post.sample,
        Some(Varient { url: "https://example.org/sample.png".to_string(), width: 400, height: 300 })
    );
    assert_eq!(
        post.preview,
        Varient { url: "https://example.org/preview.png".to_string(), width: 200, height: 150 }
    );
    assert_eq!(
        post.original,
        Varient { url: "https://example.org/file.png".to_string(), width: 800, height: 600 }
    );
    assert_eq!(post.tags, vec!["cat".to_string(), "dog".to_string(), "long_hair".to_string()]);
    assert_eq!(post.title, None);
    assert!(post.has_notes);
    assert!(!post.has_comments);
    assert_eq!(post.status, "active");
    assert!(!post.post_locked);
    assert!(post.has_children);
}

#[test]
fn sample_needs_address_width_and_height() {
    let mut wire = api_post(1);
    wire.sample_width = None;
    assert_eq!(Post::from(wire).sample, None);
    let mut wire = api_post(1);
    wire.sample_url = None;
    assert_eq!(Post::from(wire).sample, None);
    let mut wire = api_post(1);
    wire.sample_height = None;
    assert_eq!(Post::from(wire).sample, None);
}

#[test]
fn posts_without_tags_have_none() {
    let mut wire = api_post(1);
    wire.tags = " \t ".to_string();
    assert_eq!(Post::from(wire).tags, Vec::<String>::new());
}

#[test]
fn split_tags_lists_the_tags() {
    let post = Post::from(api_post(1));
    assert_eq!(post.split_tags(), vec!["cat", "dog", "long_hair"]);
}

#[test]
fn wire_records_with_unknown_rating_cannot_be_normalized() {
    let mut wire = api_post(1);
    assert!(wire.can_normalize());
    wire.rating = "unrated".to_string();
    assert!(!wire.can_normalize());
    let page = ApiPostResponse {
        attributes: ApiAttributes { limit: 100, offset: 0, count: 2 },
        posts: vec![api_post(1), wire],
    };
    assert!(!page.can_normalize());
    let page = ApiPostResponse {
        attributes: ApiAttributes { limit: 100, offset: 0, count: 2 },
        posts: vec![api_post(1), api_post(2)],
    };
    assert!(page.can_normalize());
}

#[test]
fn summaries_decode_the_checksum_and_read_the_extension() {
    let summary = PostSimplified::from(Post::from(api_post(0x3_0000_0011)));
    assert_eq!(
        summary.md5,
        [
            0x01, 0x23, 0x45, 0x67, 0x89, 0xab, 0xcd, 0xef, 0xab, 0xcd, 0xef, 0x01, 0x23, 0x45,
            0x67, 0x89
        ]
    );
    assert_eq!(summary.extension, Extension::Other("PNG".to_string()));
    assert_eq!(summary.id, 0x11);
    assert_eq!(summary.created_at, Timestamp { secs: 1_184_562_000, nanos: 0 });
    assert_eq!(summary.duplicate(), summary);
}

#[test]
fn summaries_need_a_checksum_of_thirty_two_hex_digits() {
    let mut post = Post::from(api_post(1));
    assert!(post.can_summarize());
    post.md5 = "0123456789abcdefABCDEF012345678".to_string();
    assert!(post.summary().is_none());
    post.md5 = "0123456789abcdefABCDEF01234567890".to_string();
    assert!(post.summary().is_none());
    post.md5 = "0123456789abcdefABCDEF012345678g".to_string();
    assert!(post.summary().is_none());
    post.md5 = "0123456789abcdefABCDEF01234567é".to_string();
    assert!(!post.can_summarize());
    post.md5 = String::new();
    assert!(!post.can_summarize());
}

#[test]
fn summaries_need_an_extension() {
    let mut post = Post::from(api_post(1));
    post.image = "no_extension".to_string();
    assert!(post.summary().is_none());
    post.image = "trailing.".to_string();
    assert_eq!(post.summary().unwrap().extension, Extension::Other(String::new()));
    post.image = ".gif".to_string();
    assert_eq!(post.summary().unwrap().extension, Extension::Gif);
    post.image = "a.b.jpeg".to_string();
    assert_eq!(post.summary().unwrap().extension, Extension::Jpeg);
}

#[test]
fn tags_are_split_at_every_kind_of_white_space() {
    let mut wire = api_post(1);
    wire.tags = "a\u{00A0}b\u{3000}c\u{2003}\u{2028}d\u{0085}e\u{200B}f \r\n".to_string();
    assert_eq!(
        Post::from(wire).tags,
        vec![
            "a".to_string(),
            "b".to_string(),
            "c".to_string(),
            "d".to_string(),
            "e\u{200B}f".to_string()
        ]
    );
}
