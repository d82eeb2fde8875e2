//! The tag stream: pages of tags, one after another.
//!
//! A run starts at the tag cursor and asks for the page that follows it. Each
//! page with records moves the cursor to the largest tag id it holds, and the
//! next page is asked for from there. Unlike the post stream, the tag stream does not skip
//! over a page that fails: the first failure ends the run.

use crate::api::client::ApiClient;
use crate::api::models::{ApiError, ApiTag, ApiTagResponse};
use crate::log::{append_record, appended};
use crate::models::{normalized_tag, Tag};
use crate::scraper::post_scraper::{
    after_post_window, highest_id, lemma_run_resumes_past_cursor, run_window, window_from, WINDOW,
};
use crate::scraper::state_manager::{ScrapeError, StateManager, StateView};
use vstd::prelude::*;

verus! {

/// The ids of the records of a page, in the order of the page.
pub open spec fn tag_ids(tags: Seq<ApiTag>) -> Seq<u64> {
    Seq::new(tags.len(), |i: int| tags[i].id)
}

/// The checkpoint after a page has been answered. A page with records moves
/// the tag cursor to the largest id among them. A page without records
/// changes nothing. A failure adds the cursor that the page was asked from to
/// the error log.
pub open spec fn after_tag_page(
    state: StateView,
    after_id: u64,
    result: Result<ApiTagResponse, ApiError>,
) -> StateView {
    match result {
        Ok(page) => if page.tags.len() == 0 {
            state
        } else {
            StateView { last_tag_id: highest_id(tag_ids(page.tags@)), ..state }
        },
        Err(_) => StateView { errors: state.errors.push(ScrapeError::Tag(after_id)), ..state },
    }
}

/// The cursor from which the next page is asked after the page that was
/// asked from `after_id` has been answered: the largest id of the page, or
/// `after_id` once more where the page holds no record. `None` where no
/// further page is asked for.
pub open spec fn next_tag_request(
    after_id: u64,
    result: Result<ApiTagResponse, ApiError>,
) -> Option<u64> {
    match result {
        Ok(page) => if page.tags.len() == 0 {
            Some(after_id)
        } else {
            Some(highest_id(tag_ids(page.tags@)))
        },
        Err(_) => None,
    }
}

/// Whether `records` are the normalized forms of the records of a page, in
/// the reverse of the order of the page.
pub open spec fn normalized_in_reverse(records: Seq<Tag>, tags: Seq<ApiTag>) -> bool {
    &&& records.len() == tags.len()
    &&& forall|i: int|
        0 <= i < records.len() ==> #[trigger] records[i] == normalized_tag(
            tags[tags.len() - 1 - i],
        )
}

/// The largest id among the records of a page, and zero for an empty page.
pub fn highest_tag_id(tags: &Vec<ApiTag>) -> (highest: u64)
    ensures
        highest == highest_id(tag_ids(tags@)),
{
    let mut highest: u64 = 0;
    let mut i: usize = 0;
    assert(tag_ids(tags@).take(0) =~= Seq::<u64>::empty());
    while i < tags.len()
        invariant
            i <= tags.len(),
            highest == highest_id(tag_ids(tags@).take(i as int)),
        decreases tags.len() - i,
    {
        assert(tag_ids(tags@).take(i + 1).drop_last() =~= tag_ids(tags@).take(i as int));
        if tags[i].id >= highest {
            highest = tags[i].id;
        }
        i += 1;
    }
    assert(tag_ids(tags@).take(i as int) =~= tag_ids(tags@));
    highest
}

/// What the tag stream does next.
#[derive(Debug)]
pub enum TagStep {
    /// Append the records to the tag log, in this order, then ask for the
    /// page that follows `after_id`.
    Request { after_id: u64, records: Vec<Tag> },
    /// The run is over: no further page is asked for.
    Stop,
}

impl TagStep {
    /// The cursor from which the next page is asked; `None` where the run is
    /// over.
    pub open spec fn next_request(self) -> Option<u64> {
        match self {
            TagStep::Request { after_id, .. } => Some(after_id),
            TagStep::Stop => None,
        }
    }

    /// The records to append to the tag log.
    pub open spec fn records(self) -> Seq<Tag> {
        match self {
            TagStep::Request { records, .. } => records@,
            TagStep::Stop => Seq::empty(),
        }
    }
}

/// The tag stream.
#[derive(Debug, Clone)]
pub struct TagScraper {
    /// How to reach the remote API.
    pub client: ApiClient,
    /// How many requests may be issued in a second; never zero.
    pub requests_per_second: u32,
}

impl TagScraper {
    /// A tag stream with eight requests a second.
    pub fn new(client: ApiClient) -> (scraper: TagScraper)
        ensures
            scraper.client == client,
            scraper.requests_per_second == 8,
    {
        TagScraper { client, requests_per_second: 8 }
    }

    /// Begins a run: the first page is asked for from the tag cursor.
    pub fn run(&self, state: &StateManager) -> (step: TagStep)
        ensures
            step.next_request() == Some(state@.last_tag_id),
            step.records().len() == 0,
    {
        TagStep::Request { after_id: state.last_tag_id(), records: Vec::new() }
    }

    /// Takes in the answer to the page that was asked for from `after_id` and
    /// says what follows.
    ///
    /// A page with records moves the tag cursor to the largest id among them
    /// and yields them normalized, the last of the page first; the next page
    /// is asked for from the new cursor. A page without records changes
    /// nothing, and the same page is asked for again. A failure is noted in
    /// the error log with the cursor it concerns, and ends the run.
    pub fn process_response(
        &self,
        state: &mut StateManager,
        after_id: u64,
        result: Result<ApiTagResponse, ApiError>,
    ) -> (step: TagStep)
        ensures
            final(state)@ == after_tag_page(old(state)@, after_id, result),
            step.next_request() == next_tag_request(after_id, result),
            match result {
                Ok(page) => normalized_in_reverse(step.records(), page.tags@),
                Err(_) => step is Stop,
            },
    {
        match result {
            Ok(page) => {
                let mut tags = page.tags;
                let mut records: Vec<Tag> = Vec::new();
                if tags.len() == 0 {
                    return TagStep::Request { after_id, records };
                }
                let highest = highest_tag_id(&tags);
                state.update_last_tag_id(highest);
                let ghost all = tags@;
                while tags.len() > 0
                    invariant
                        tags@ == all.take(tags.len() as int),
                        records.len() + tags.len() == all.len(),
                        forall|i: int|
                            0 <= i < records.len() ==> #[trigger] records[i] == normalized_tag(
                                all[all.len() - 1 - i],
                            ),
                    decreases tags.len(),
                {
                    let tag = tags.pop().unwrap();
                    assert(tag == all[tags.len() as int]);
                    records.push(Tag::from(tag));
                }
                TagStep::Request { after_id: highest, records }
            },
            Err(_) => {
                state.append_error(ScrapeError::Tag(after_id));
                TagStep::Stop
            },
        }
    }

    /// Writes a record, already encoded, to the tag log: its bytes, then a
    /// line feed.
    pub fn process_tag(&self, output: &mut Vec<u8>, tag: &[u8])
        ensures
            final(output)@ == appended(old(output)@, tag@),
    {
        append_record(output, tag);
    }
}

/// The two streams treat a failure differently. A page of tags that fails
/// ends the tag stream: no further page is asked for. A window of posts that
/// fails only adds to the error log: the cursors stay as they are, and the
/// run goes on to the window that follows, which starts where the failed one
/// ends.
pub proof fn lemma_fault_asymmetry(
    state: StateView,
    after_id: u64,
    error: ApiError,
    cursor: u64,
    k: nat,
)
    requires
        run_window(cursor, k + 1) is Some,
    ensures
        next_tag_request(after_id, Err(error)) is None,
        after_tag_page(state, after_id, Err(error)) == (StateView {
            errors: state.errors.push(ScrapeError::Tag(after_id)),
            ..state
        }),
        run_window(cursor, k) matches Some(failed) && after_post_window(state, failed, Err(error))
            == (StateView { errors: state.errors.push(ScrapeError::Post(failed)), ..state })
            && run_window(cursor, k + 1) == window_from(failed.end as int),
{
    lemma_run_resumes_past_cursor(cursor, k);
    assert(WINDOW * (k + 1) == WINDOW * k + WINDOW) by (nonlinear_arith);
}

} // verus!
