//! The normalized records that are written to the output logs and read back
//! when the index is built.

use crate::api::models::{ApiPost, ApiPostResponse, ApiTag, Timestamp};
use crate::text::{after_last, same_text, split_whitespace, text_after_last, whitespace_fields};
use vstd::prelude::*;
use vstd::std_specs::convert::FromSpecImpl;
use vstd::utf8::encode_utf8;

verus! {

/// The content rating of a post.
#[derive(Debug, Clone, Copy, Hash, PartialEq, Eq, Structural)]
pub enum Rating {
    Safe,
    Sensitive,
    Questionable,
    Explicit,
}

/// The rating that a rating name of the remote API stands for.
pub open spec fn rating_of(name: Seq<char>) -> Option<Rating> {
    if name == "safe"@ || name == "general"@ {
        Some(Rating::Safe)
    } else if name == "sensitive"@ {
        Some(Rating::Sensitive)
    } else if name == "questionable"@ {
        Some(Rating::Questionable)
    } else if name == "explicit"@ {
        Some(Rating::Explicit)
    } else {
        None
    }
}

impl Rating {
    /// Reads a rating name; `None` for a name that is none of the known ones.
    pub fn parse(value: &str) -> (rating: Option<Rating>)
        ensures
            rating == rating_of(value@),
    {
        if same_text(value, "safe") || same_text(value, "general") {
            Some(Rating::Safe)
        } else if same_text(value, "sensitive") {
            Some(Rating::Sensitive)
        } else if same_text(value, "questionable") {
            Some(Rating::Questionable)
        } else if same_text(value, "explicit") {
            Some(Rating::Explicit)
        } else {
            None
        }
    }

    /// Reads the name of a rating.
    pub fn from(value: String) -> (rating: Rating)
        requires
            rating_of(value@) is Some,
        ensures
            rating_of(value@) == Some(rating),
    {
        Rating::parse(value.as_str()).unwrap()
    }
}

/// One rendition of a post's image.
#[derive(Debug, Clone, Hash, PartialEq, Eq)]
pub struct Varient {
    pub url: String,
    pub width: u32,
    pub height: u32,
}

/// A post in its normalized form.
#[derive(Debug, Clone, Hash, PartialEq, Eq)]
pub struct Post {
    pub id: u64,
    pub created_at: Timestamp,
    pub score: i32,
    pub md5: String,
    pub directory: String,
    pub image: String,
    pub rating: Rating,
    pub source: Option<String>,
    pub change: u64,
    pub owner: String,
    pub creator_id: u64,
    pub parent_id: Option<u64>,
    pub sample: Option<Varient>,
    pub preview: Varient,
    pub original: Varient,
    pub tags: Vec<String>,
    pub title: Option<String>,
    pub has_notes: bool,
    pub has_comments: bool,
    pub status: String,
    pub post_locked: bool,
    pub has_children: bool,
}

/// The file type of a post's image, by the extension of its file name.
#[derive(Debug, Clone, Hash, PartialEq, Eq)]
pub enum Extension {
    Png,
    Jpg,
    Jpeg,
    Gif,
    Mov,
    Other(String),
}

/// An extension as a value of the specification.
pub enum ExtensionView {
    Png,
    Jpg,
    Jpeg,
    Gif,
    Mov,
    Other(Seq<char>),
}

impl ExtensionView {
    /// The extension as it is written in a file name.
    pub open spec fn name(self) -> Seq<char> {
        match self {
            ExtensionView::Png => "png"@,
            ExtensionView::Jpg => "jpg"@,
            ExtensionView::Jpeg => "jpeg"@,
            ExtensionView::Gif => "gif"@,
            ExtensionView::Mov => "mov"@,
            ExtensionView::Other(v) => v,
        }
    }

    /// The variant that stands for the extension `text`: the named variant
    /// for each of the five known extensions, and `Other` with the text
    /// itself for any other.
    pub open spec fn of(text: Seq<char>) -> ExtensionView {
        if text == "png"@ {
            ExtensionView::Png
        } else if text == "jpg"@ {
            ExtensionView::Jpg
        } else if text == "jpeg"@ {
            ExtensionView::Jpeg
        } else if text == "gif"@ {
            ExtensionView::Gif
        } else if text == "mov"@ {
            ExtensionView::Mov
        } else {
            ExtensionView::Other(text)
        }
    }
}

impl View for Extension {
    type V = ExtensionView;

    open spec fn view(&self) -> ExtensionView {
        match *self {
            Extension::Png => ExtensionView::Png,
            Extension::Jpg => ExtensionView::Jpg,
            Extension::Jpeg => ExtensionView::Jpeg,
            Extension::Gif => ExtensionView::Gif,
            Extension::Mov => ExtensionView::Mov,
            Extension::Other(v) => ExtensionView::Other(v@),
        }
    }
}

impl Extension {
    /// The extension as it is written in a file name.
    pub fn as_str(&self) -> (text: &str)
        ensures
            text@ == self@.name(),
    {
        match self {
            Extension::Png => "png",
            Extension::Jpg => "jpg",
            Extension::Jpeg => "jpeg",
            Extension::Gif => "gif",
            Extension::Mov => "mov",
            Extension::Other(v) => v.as_str(),
        }
    }

    /// An equal extension.
    pub fn duplicate(&self) -> (copy: Extension)
        ensures
            copy == *self,
    {
        match self {
            Extension::Png => Extension::Png,
            Extension::Jpg => Extension::Jpg,
            Extension::Jpeg => Extension::Jpeg,
            Extension::Gif => Extension::Gif,
            Extension::Mov => Extension::Mov,
            Extension::Other(v) => Extension::Other(v.clone()),
        }
    }
}

/// The variant that stands for the extension `value`.
pub open spec fn extension_of(value: String) -> Extension {
    if value@ == "png"@ {
        Extension::Png
    } else if value@ == "jpg"@ {
        Extension::Jpg
    } else if value@ == "jpeg"@ {
        Extension::Jpeg
    } else if value@ == "gif"@ {
        Extension::Gif
    } else if value@ == "mov"@ {
        Extension::Mov
    } else {
        Extension::Other(value)
    }
}

impl From<String> for Extension {
    fn from(value: String) -> (extension: Extension) {
        if same_text(value.as_str(), "png") {
            Extension::Png
        } else if same_text(value.as_str(), "jpg") {
            Extension::Jpg
        } else if same_text(value.as_str(), "jpeg") {
            Extension::Jpeg
        } else if same_text(value.as_str(), "gif") {
            Extension::Gif
        } else if same_text(value.as_str(), "mov") {
            Extension::Mov
        } else {
            Extension::Other(value)
        }
    }
}

impl FromSpecImpl<String> for Extension {
    open spec fn obeys_from_spec() -> bool {
        true
    }

    open spec fn from_spec(value: String) -> Extension {
        extension_of(value)
    }
}

/// The variant made from a text is the one that stands for the text.
pub proof fn lemma_extension_of_view(value: String)
    ensures
        extension_of(value)@ == ExtensionView::of(value@),
{
}

/// The value of an ASCII hexadecimal digit, of either case.
pub open spec fn hex_digit_value(digit: u8) -> Option<u8> {
    if 48 <= digit <= 57 {
        Some((digit - 48) as u8)
    } else if 97 <= digit <= 102 {
        Some((digit - 87) as u8)
    } else if 65 <= digit <= 70 {
        Some((digit - 55) as u8)
    } else {
        None
    }
}

/// The `width` bytes that `text` spells in hexadecimal, two digits a byte,
/// the high one first; `None` unless `text` is exactly `2 * width` digits.
pub open spec fn hex_decoded(text: Seq<u8>, width: nat) -> Option<Seq<u8>> {
    if text.len() == 2 * width && (forall|i: int|
        0 <= i < text.len() ==> (#[trigger] hex_digit_value(text[i])) is Some) {
        Some(
            Seq::new(
                width,
                |i: int|
                    (hex_digit_value(text[2 * i]).unwrap() * 16 + hex_digit_value(
                        text[2 * i + 1],
                    ).unwrap()) as u8,
            ),
        )
    } else {
        None
    }
}

/// `hex::decode_to_slice` into sixteen bytes: the bytes that `text` spells,
/// or `None` where `text` is not thirty-two hexadecimal digits.
#[verifier::external_body]
fn hex_decode_16(text: &[u8]) -> (bytes: Option<[u8; 16]>)
    ensures
        match hex_decoded(text@, 16) {
            Some(decoded) => bytes matches Some(b) && b@ == decoded,
            None => bytes is None,
        },
{
    let mut out = [0u8; 16];
    match hex::decode_to_slice(text, &mut out) {
        Ok(()) => Some(out),
        Err(_) => None,
    }
}

/// The key under which the index files a post: the low 32 bits of its id.
pub open spec fn post_key(id: u64) -> u32 {
    (id % 0x1_0000_0000) as u32
}

/// What the index keeps of a post.
#[derive(Debug, Clone, Hash, PartialEq, Eq)]
pub struct PostSimplified {
    pub md5: [u8; 16],
    pub extension: Extension,
    pub id: u32,
    pub created_at: Timestamp,
}

/// A summary as a value of the specification.
pub struct SummaryView {
    pub md5: Seq<u8>,
    pub extension: ExtensionView,
    pub id: u32,
    pub created_at: Timestamp,
}

impl View for PostSimplified {
    type V = SummaryView;

    open spec fn view(&self) -> SummaryView {
        SummaryView {
            md5: self.md5@,
            extension: self.extension@,
            id: self.id,
            created_at: self.created_at,
        }
    }
}

impl PostSimplified {
    /// The summary of a post that has one.
    pub fn from(value: Post) -> (summary: PostSimplified)
        requires
            value.has_summary(),
        ensures
            value.spec_summary() == Some(summary@),
    {
        value.summary().unwrap()
    }

    /// An equal summary.
    pub fn duplicate(&self) -> (copy: PostSimplified)
        ensures
            copy == *self,
    {
        PostSimplified {
            md5: self.md5,
            extension: self.extension.duplicate(),
            id: self.id,
            created_at: self.created_at,
        }
    }
}

impl Post {
    /// The summary that the index keeps of the post: its checksum as raw
    /// bytes, the extension of its image name, the low 32 bits of its id and
    /// its creation time. `None` where the checksum is not thirty-two
    /// hexadecimal digits or the image name has no extension.
    pub open spec fn spec_summary(self) -> Option<SummaryView> {
        match (hex_decoded(encode_utf8(self.md5@), 16), text_after_last(self.image@, '.')) {
            (Some(md5), Some(text)) => Some(
                SummaryView {
                    md5,
                    extension: ExtensionView::of(text),
                    id: post_key(self.id),
                    created_at: self.created_at,
                },
            ),
            _ => None,
        }
    }

    /// Whether the post can be summarized.
    pub open spec fn has_summary(self) -> bool {
        self.spec_summary() is Some
    }

    /// The tag names of the post, in the order in which it lists them.
    pub fn split_tags(&self) -> (names: Vec<&str>)
        ensures
            names.len() == self.tags.len(),
            forall|i: int| 0 <= i < names.len() ==> (#[trigger] names[i])@ == self.tags[i]@,
    {
        let mut names: Vec<&str> = Vec::new();
        let mut i: usize = 0;
        while i < self.tags.len()
            invariant
                i <= self.tags.len(),
                names.len() == i,
                forall|j: int| 0 <= j < i ==> (#[trigger] names[j])@ == self.tags[j]@,
            decreases self.tags.len() - i,
        {
            names.push(self.tags[i].as_str());
            i += 1;
        }
        names
    }

    /// The summary that the index keeps of the post; `None` where the
    /// checksum is not thirty-two hexadecimal digits or the image name has no
    /// extension.
    pub fn summary(&self) -> (summary: Option<PostSimplified>)
        ensures
            match self.spec_summary() {
                Some(expected) => summary matches Some(s) && s@ == expected,
                None => summary is None,
            },
    {
        let md5 = match hex_decode_16(self.md5.as_str().as_bytes()) {
            Some(md5) => md5,
            None => {
                return None;
            },
        };
        let text = match after_last(self.image.as_str(), '.') {
            Some(text) => text,
            None => {
                return None;
            },
        };
        proof {
            lemma_extension_of_view(text);
        }
        Some(
            PostSimplified {
                md5,
                extension: Extension::from(text),
                id: (self.id % 0x1_0000_0000) as u32,
                created_at: self.created_at,
            },
        )
    }

    /// Whether the post can be summarized.
    pub fn can_summarize(&self) -> (yes: bool)
        ensures
            yes == self.has_summary(),
    {
        self.summary().is_some()
    }

    /// The sample rendition that a wire record describes: present only where
    /// the record gives its address, width and height.
    pub open spec fn sample_of(
        url: Option<String>,
        width: Option<u32>,
        height: Option<u32>,
    ) -> Option<Varient> {
        match (url, width, height) {
            (Some(url), Some(width), Some(height)) => Some(Varient { url, width, height }),
            _ => None,
        }
    }

    /// Whether `self` is the normalized form of the wire record `value`.
    pub open spec fn normalizes(self, value: ApiPost) -> bool {
        &&& self.id == value.id
        &&& self.created_at == value.created_at
        &&& self.score == value.score
        &&& self.md5 == value.md5
        &&& self.directory == value.directory
        &&& self.image == value.image
        &&& rating_of(value.rating@) == Some(self.rating)
        &&& self.source == value.source
        &&& self.change == value.change
        &&& self.owner == value.owner
        &&& self.creator_id == value.creator_id
        &&& self.parent_id == value.parent_id
        &&& self.sample == Post::sample_of(value.sample_url, value.sample_width, value.sample_height)
        &&& self.preview == (Varient {
            url: value.preview_url,
            width: value.preview_width,
            height: value.preview_height,
        })
        &&& self.original == (Varient {
            url: value.file_url,
            width: value.width,
            height: value.height,
        })
        &&& self.tags.deep_view() == whitespace_fields(value.tags@)
        &&& self.title == value.title
        &&& self.has_notes == value.has_notes
        &&& self.has_comments == value.has_comments
        &&& self.status == value.status
        &&& self.post_locked == value.post_locked
        &&& self.has_children == value.has_children
    }

    /// Normalizes a wire record whose rating name is a known one.
    pub fn from(value: ApiPost) -> (post: Post)
        requires
            rating_of(value.rating@) is Some,
        ensures
            post.normalizes(value),
    {
        let sample = match (value.sample_url, value.sample_width, value.sample_height) {
            (Some(url), Some(width), Some(height)) => Some(Varient { url, width, height }),
            _ => None,
        };
        let tags = split_whitespace(value.tags.as_str());
        Post {
            id: value.id,
            created_at: value.created_at,
            score: value.score,
            md5: value.md5,
            directory: value.directory,
            image: value.image,
            rating: Rating::from(value.rating),
            source: value.source,
            change: value.change,
            owner: value.owner,
            creator_id: value.creator_id,
            parent_id: value.parent_id,
            sample,
            preview: Varient {
                url: value.preview_url,
                width: value.preview_width,
                height: value.preview_height,
            },
            original: Varient { url: value.file_url, width: value.width, height: value.height },
            tags,
            title: value.title,
            has_notes: value.has_notes,
            has_comments: value.has_comments,
            status: value.status,
            post_locked: value.post_locked,
            has_children: value.has_children,
        }
    }
}

/// The kind of thing a tag names.
#[derive(Debug, Clone, Copy, Hash, PartialEq, Eq, Structural)]
pub enum TagType {
    Artist,
    Character,
    Copyright,
    Metadata,
    Descriptive,
    Other(u32),
}

/// The tag type that a type number of the remote API stands for.
pub open spec fn tag_type_of(value: u32) -> TagType {
    if value == 0 {
        TagType::Descriptive
    } else if value == 1 {
        TagType::Artist
    } else if value == 3 {
        TagType::Copyright
    } else if value == 4 {
        TagType::Character
    } else if value == 5 {
        TagType::Metadata
    } else {
        TagType::Other(value)
    }
}

impl From<u32> for TagType {
    fn from(value: u32) -> (tag_type: TagType) {
        match value {
            0 => TagType::Descriptive,
            1 => TagType::Artist,
            3 => TagType::Copyright,
            4 => TagType::Character,
            5 => TagType::Metadata,
            v => TagType::Other(v),
        }
    }
}

impl FromSpecImpl<u32> for TagType {
    open spec fn obeys_from_spec() -> bool {
        true
    }

    open spec fn from_spec(value: u32) -> TagType {
        tag_type_of(value)
    }
}

/// A tag in its normalized form.
#[derive(Debug, Clone, Hash, PartialEq, Eq)]
pub struct Tag {
    pub id: u64,
    pub name: String,
    pub count: u64,
    pub tag_type: TagType,
    pub ambiguous: bool,
}

/// The normalized form of a wire record.
pub open spec fn normalized_tag(value: ApiTag) -> Tag {
    Tag {
        id: value.id,
        name: value.name,
        count: value.count,
        tag_type: tag_type_of(value.tag_type),
        ambiguous: value.ambiguous,
    }
}

impl From<ApiTag> for Tag {
    fn from(value: ApiTag) -> (tag: Tag) {
        Tag {
            id: value.id,
            name: value.name,
            count: value.count,
            tag_type: TagType::from(value.tag_type),
            ambiguous: value.ambiguous,
        }
    }
}

impl FromSpecImpl<ApiTag> for Tag {
    open spec fn obeys_from_spec() -> bool {
        true
    }

    open spec fn from_spec(value: ApiTag) -> Tag {
        normalized_tag(value)
    }
}

} // verus!

verus! {

impl ApiPost {
    /// Whether the record can be normalized: its rating name is a known one.
    pub open spec fn has_known_rating(self) -> bool {
        rating_of(self.rating@) is Some
    }

    /// Whether the record can be normalized.
    pub fn can_normalize(&self) -> (yes: bool)
        ensures
            yes == self.has_known_rating(),
    {
        Rating::parse(self.rating.as_str()).is_some()
    }
}

impl ApiPostResponse {
    /// Whether every record of the page can be normalized.
    pub open spec fn ratings_known(self) -> bool {
        forall|i: int| 0 <= i < self.posts.len() ==> (#[trigger] self.posts[i]).has_known_rating()
    }

    /// Whether every record of the page can be normalized.
    pub fn can_normalize(&self) -> (yes: bool)
        ensures
            yes == self.ratings_known(),
    {
        let mut i: usize = 0;
        while i < self.posts.len()
            invariant
                i <= self.posts.len(),
                forall|j: int| 0 <= j < i ==> (#[trigger] self.posts[j]).has_known_rating(),
            decreases self.posts.len() - i,
        {
            if !self.posts[i].can_normalize() {
                return false;
            }
            i += 1;
        }
        true
    }
}

} // verus!
