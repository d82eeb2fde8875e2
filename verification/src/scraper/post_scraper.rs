//! The post stream: windows of post ids, requested without end.
//!
//! A run starts just past the post cursor and asks for one window of a
//! hundred ids after another. Which windows are asked for does not depend on
//! how earlier ones went: a window that fails is noted in the error log and
//! the run goes on.

use crate::api::client::ApiClient;
use crate::api::models::{ApiError, ApiPost, ApiPostResponse};
use crate::log::{append_record, appended};
use crate::models::Post;
use crate::scraper::state_manager::{ScrapeError, StateManager, StateView};
use std::ops::Range;
use vstd::prelude::*;

verus! {

/// The number of ids in a window.
pub const WINDOW: u64 = 100;

/// The ids of the records of a page, in the order of the page.
pub open spec fn post_ids(posts: Seq<ApiPost>) -> Seq<u64> {
    Seq::new(posts.len(), |i: int| posts[i].id)
}

/// The largest of the ids, and zero where there is none.
pub open spec fn highest_id(ids: Seq<u64>) -> u64
    decreases ids.len(),
{
    if ids.len() == 0 {
        0
    } else if ids.last() >= highest_id(ids.drop_last()) {
        ids.last()
    } else {
        highest_id(ids.drop_last())
    }
}

/// The largest id is no smaller than any of the ids, and is one of them
/// where there is any.
pub proof fn lemma_highest_id(ids: Seq<u64>)
    ensures
        forall|i: int| 0 <= i < ids.len() ==> ids[i] <= highest_id(ids),
        ids.len() > 0 ==> ids.contains(highest_id(ids)),
    decreases ids.len(),
{
    if ids.len() > 0 {
        let rest = ids.drop_last();
        lemma_highest_id(rest);
        assert forall|i: int| 0 <= i < ids.len() implies ids[i] <= highest_id(ids) by {
            if i < rest.len() {
                assert(rest[i] == ids[i]);
            }
        }
        if ids.last() >= highest_id(rest) {
            assert(ids[ids.len() - 1] == highest_id(ids));
        } else {
            let k = choose|k: int| 0 <= k < rest.len() && rest[k] == highest_id(rest);
            assert(ids[k] == highest_id(ids));
        }
    }
}

/// The window of a run that starts at `start`, where the id space has room
/// for it.
pub open spec fn window_from(start: int) -> Option<Range<u64>> {
    if 0 <= start && start + WINDOW <= u64::MAX {
        Some((start as u64)..((start + WINDOW) as u64))
    } else {
        None
    }
}

/// The `k`-th window, counted from zero, of a run that began with the post
/// cursor at `cursor`: the windows lie end to end, the first of them
/// starting just past the cursor.
pub open spec fn run_window(cursor: u64, k: nat) -> Option<Range<u64>> {
    window_from(cursor + 1 + WINDOW * k)
}

/// The checkpoint after a window has completed. A page without records
/// changes nothing. A page with records moves the post cursor to the largest
/// id among them, whether that lies ahead of the cursor or behind it. A
/// failure adds the window to the error log.
pub open spec fn after_post_window(
    state: StateView,
    window: Range<u64>,
    result: Result<ApiPostResponse, ApiError>,
) -> StateView {
    match result {
        Ok(page) => if page.posts.len() == 0 {
            state
        } else {
            StateView { last_post_id: highest_id(post_ids(page.posts@)), ..state }
        },
        Err(_) => StateView { errors: state.errors.push(ScrapeError::Post(window)), ..state },
    }
}

/// Whether `records` are the normalized forms of the records of a page, in
/// the reverse of the order of the page.
pub open spec fn normalized_in_reverse(records: Seq<Post>, posts: Seq<ApiPost>) -> bool {
    &&& records.len() == posts.len()
    &&& forall|i: int|
        0 <= i < records.len() ==> (#[trigger] records[i]).normalizes(posts[posts.len() - 1 - i])
}

/// The largest id among the records of a page, and zero for an empty page.
pub fn highest_post_id(posts: &Vec<ApiPost>) -> (highest: u64)
    ensures
        highest == highest_id(post_ids(posts@)),
{
    let mut highest: u64 = 0;
    let mut i: usize = 0;
    assert(post_ids(posts@).take(0) =~= Seq::<u64>::empty());
    while i < posts.len()
        invariant
            i <= posts.len(),
            highest == highest_id(post_ids(posts@).take(i as int)),
        decreases posts.len() - i,
    {
        assert(post_ids(posts@).take(i + 1).drop_last() =~= post_ids(posts@).take(i as int));
        if posts[i].id >= highest {
            highest = posts[i].id;
        }
        i += 1;
    }
    assert(post_ids(posts@).take(i as int) =~= post_ids(posts@));
    highest
}

/// The windows of a run, handed out one after another.
#[derive(Debug)]
pub struct PostWindows {
    cursor: u64,
    issued: u64,
}

impl PostWindows {
    /// The post cursor at which the run began.
    pub closed spec fn cursor(&self) -> u64 {
        self.cursor
    }

    /// How many windows have been handed out.
    pub closed spec fn issued(&self) -> nat {
        self.issued as nat
    }

    /// The next window to ask for: the windows of the run in their order,
    /// each once. `None`, now and ever after, once a window would reach past
    /// the largest id there is.
    pub fn next(&mut self) -> (window: Option<Range<u64>>)
        ensures
            window == run_window(old(self).cursor(), old(self).issued()),
            final(self).cursor() == old(self).cursor(),
            final(self).issued() == if window is Some {
                old(self).issued() + 1
            } else {
                old(self).issued()
            },
    {
        assert(WINDOW * self.issued <= 100 * u64::MAX) by (nonlinear_arith)
            requires
                WINDOW == 100,
                self.issued <= u64::MAX,
        ;
        let start: u128 = self.cursor as u128 + 1 + (WINDOW as u128) * (self.issued as u128);
        let end: u128 = start + WINDOW as u128;
        if end <= u64::MAX as u128 {
            self.issued += 1;
            Some((start as u64)..(end as u64))
        } else {
            None
        }
    }
}

/// The post stream.
#[derive(Debug, Clone)]
pub struct PostScraper {
    /// How to reach the remote API.
    pub client: ApiClient,
    /// How many windows may be in flight at a time.
    pub parallel_requests: usize,
    /// How many requests may be issued in a second.
    pub requests_per_second: u32,
}

impl PostScraper {
    /// A post stream with two windows in flight and eight requests a second.
    pub fn new(client: ApiClient) -> (scraper: PostScraper)
        ensures
            scraper.client == client,
            scraper.parallel_requests == 2,
            scraper.requests_per_second == 8,
    {
        PostScraper { client, parallel_requests: 2, requests_per_second: 8 }
    }

    /// Begins a run: the windows to ask for start just past the post cursor.
    pub fn run(&self, state: &StateManager) -> (windows: PostWindows)
        ensures
            windows.cursor() == state@.last_post_id,
            windows.issued() == 0,
    {
        PostWindows { cursor: state.last_post_id(), issued: 0 }
    }

    /// Takes in the outcome of a window and returns the records to append to
    /// the post log, in the order in which to append them.
    ///
    /// A page without records changes nothing and yields nothing. A page with
    /// records moves the post cursor to the largest id among them and yields
    /// them normalized, the last of the page first. A failure is noted in the
    /// error log with the window it concerns.
    pub fn process_response(
        &self,
        state: &mut StateManager,
        id_range: Range<u64>,
        result: Result<ApiPostResponse, ApiError>,
    ) -> (records: Vec<Post>)
        requires
            result matches Ok(page) ==> page.ratings_known(),
        ensures
            final(state)@ == after_post_window(old(state)@, id_range, result),
            match result {
                Ok(page) => normalized_in_reverse(records@, page.posts@),
                Err(_) => records@.len() == 0,
            },
    {
        let mut records: Vec<Post> = Vec::new();
        match result {
            Ok(page) => {
                let mut posts = page.posts;
                if posts.len() == 0 {
                    return records;
                }
                state.update_last_post_id(highest_post_id(&posts));
                let ghost all = posts@;
                while posts.len() > 0
                    invariant
                        posts@ == all.take(posts.len() as int),
                        records.len() + posts.len() == all.len(),
                        forall|i: int| 0 <= i < all.len() ==> (#[trigger] all[i]).has_known_rating(),
                        forall|i: int|
                            0 <= i < records.len() ==> (#[trigger] records[i]).normalizes(
                                all[all.len() - 1 - i],
                            ),
                    decreases posts.len(),
                {
                    let post = posts.pop().unwrap();
                    assert(post == all[posts.len() as int]);
                    records.push(Post::from(post));
                }
            },
            Err(_) => {
                state.append_error(ScrapeError::Post(id_range));
            },
        }
        records
    }

    /// Writes a record, already encoded, to the post log: its bytes, then a
    /// line feed.
    pub fn process_post(&self, output: &mut Vec<u8>, post: &[u8])
        ensures
            final(output)@ == appended(old(output)@, post@),
    {
        append_record(output, post);
    }
}

/// A run asks only for windows past the cursor it began at: its `k`-th
/// window starts `100 * k` ids past the id that follows the cursor, and each
/// window starts where the one before it ends.
pub proof fn lemma_run_resumes_past_cursor(cursor: u64, k: nat)
    ensures
        run_window(cursor, k) matches Some(window) ==> window.start == cursor + 1 + WINDOW * k
            && window.end == window.start + WINDOW && window.start > cursor,
        run_window(cursor, k + 1) matches Some(next) ==> run_window(cursor, k) matches Some(window)
            && next.start == window.end,
{
    assert(WINDOW * (k + 1) == WINDOW * k + WINDOW) by (nonlinear_arith);
    assert(WINDOW * k >= 0) by (nonlinear_arith);
}

/// A window that completes with records leaves the post cursor at the
/// largest id among them: at that id exactly, which is no smaller than any id
/// of the page.
pub proof fn lemma_cursor_is_highest_seen(
    state: StateView,
    window: Range<u64>,
    page: ApiPostResponse,
)
    requires
        page.posts.len() > 0,
    ensures
        after_post_window(state, window, Ok(page)).last_post_id == highest_id(
            post_ids(page.posts@),
        ),
        forall|i: int|
            0 <= i < page.posts.len() ==> page.posts[i].id <= after_post_window(
                state,
                window,
                Ok(page),
            ).last_post_id,
        exists|i: int|
            0 <= i < page.posts.len() && page.posts[i].id == after_post_window(
                state,
                window,
                Ok(page),
            ).last_post_id,
{
    let ids = post_ids(page.posts@);
    lemma_highest_id(ids);
    assert forall|i: int| 0 <= i < page.posts.len() implies page.posts[i].id <= highest_id(
        ids,
    ) by {
        assert(ids[i] == page.posts[i].id);
    }
    let k = choose|k: int| 0 <= k < ids.len() && ids[k] == highest_id(ids);
    assert(page.posts[k].id == highest_id(ids));
}

/// A window that completes without records leaves the checkpoint as it was.
pub proof fn lemma_empty_window_makes_no_progress(
    state: StateView,
    window: Range<u64>,
    page: ApiPostResponse,
)
    requires
        page.posts.len() == 0,
    ensures
        after_post_window(state, window, Ok(page)) == state,
{
}

} // verus!
