//! Records as the remote API delivers them, after field coercion.

use vstd::prelude::*;

verus! {

/// A point in time: whole seconds since the Unix epoch, in UTC, and the
/// nanoseconds within that second.
#[derive(Debug, Clone, Copy, Hash, PartialEq, Eq, Structural)]
pub struct Timestamp {
    pub secs: i64,
    pub nanos: u32,
}

/// One page of the post listing.
#[derive(Debug, Clone)]
pub struct ApiPostResponse {
    pub attributes: ApiAttributes,
    pub posts: Vec<ApiPost>,
}

/// The paging attributes that head every listing.
#[derive(Debug, Clone, Copy, PartialEq, Eq, Structural)]
pub struct ApiAttributes {
    pub limit: u64,
    pub offset: u64,
    pub count: u64,
}

/// A post as listed by the remote API.
#[derive(Debug, Clone)]
pub struct ApiPost {
    pub id: u64,
    pub created_at: Timestamp,
    pub score: i32,
    pub width: u32,
    pub height: u32,
    pub md5: String,
    pub directory: String,
    pub image: String,
    pub rating: String,
    pub source: Option<String>,
    pub change: u64,
    pub owner: String,
    pub creator_id: u64,
    pub parent_id: Option<u64>,
    pub sample: bool,
    pub preview_height: u32,
    pub preview_width: u32,
    pub tags: String,
    pub title: Option<String>,
    pub has_notes: bool,
    pub has_comments: bool,
    pub file_url: String,
    pub preview_url: String,
    pub sample_url: Option<String>,
    pub sample_height: Option<u32>,
    pub sample_width: Option<u32>,
    pub status: String,
    pub post_locked: bool,
    pub has_children: bool,
}

/// One page of the tag listing.
#[derive(Debug, Clone)]
pub struct ApiTagResponse {
    pub attributes: ApiAttributes,
    pub tags: Vec<ApiTag>,
}

/// A tag as listed by the remote API.
#[derive(Debug, Clone)]
pub struct ApiTag {
    pub id: u64,
    pub name: String,
    pub count: u64,
    pub tag_type: u32,
    pub ambiguous: bool,
}

/// Why a page could not be obtained.
#[derive(Debug, Clone, PartialEq, Eq)]
pub enum ApiError {
    /// The transport failed or the server answered with an error status; the
    /// text is the transport's own message.
    Reqwest(String),
    /// The payload could not be decoded; the text is the decoder's message.
    Serde(String),
    /// Any other failure.
    Other,
}

impl ApiError {
    /// What the error reads as in a log line.
    pub open spec fn spec_message(self) -> Seq<char> {
        match self {
            ApiError::Reqwest(cause) => "Reqwest Error: `"@ + cause@ + "`"@,
            ApiError::Serde(cause) => "Serde Error: `"@ + cause@ + "`"@,
            ApiError::Other => "Other"@,
        }
    }

    /// Renders the error for a log line.
    pub fn message(&self) -> (text: String)
        ensures
            text@ == self.spec_message(),
    {
        match self {
            ApiError::Reqwest(cause) => String::from_str("Reqwest Error: `").concat(
                cause.as_str(),
            ).concat("`"),
            ApiError::Serde(cause) => String::from_str("Serde Error: `").concat(
                cause.as_str(),
            ).concat("`"),
            ApiError::Other => String::from_str("Other"),
        }
    }
}

} // verus!
