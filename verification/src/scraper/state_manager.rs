//! The checkpoint: how far each stream has come, and what went wrong.
//!
//! The checkpoint is held in memory and changed in place. It is written out
//! only when the caller asks for the state to save, so progress made after
//! the last save is lost in a crash; a restart then begins at the saved
//! cursors and may harvest some records a second time.

use std::ops::Range;
use vstd::prelude::*;

verus! {

/// A page that could not be obtained.
#[derive(Debug, PartialEq, Eq)]
pub enum ScrapeError {
    /// The window of post ids that failed, from `start` up to but not
    /// including `end`.
    Post(Range<u64>),
    /// The cursor after which a page of tags failed.
    Tag(u64),
}

/// The checkpoint as it is saved.
#[derive(Debug, PartialEq, Eq)]
pub struct ScrapeState {
    pub last_post_id: u64,
    pub last_tag_id: u64,
    pub errors: Vec<ScrapeError>,
}

/// A checkpoint as a value of the specification.
pub struct StateView {
    pub last_post_id: u64,
    pub last_tag_id: u64,
    pub errors: Seq<ScrapeError>,
}

impl StateView {
    /// The checkpoint of a first run: both cursors at zero, no errors.
    pub open spec fn zero() -> StateView {
        StateView { last_post_id: 0, last_tag_id: 0, errors: Seq::empty() }
    }
}

impl View for ScrapeState {
    type V = StateView;

    open spec fn view(&self) -> StateView {
        StateView {
            last_post_id: self.last_post_id,
            last_tag_id: self.last_tag_id,
            errors: self.errors@,
        }
    }
}

impl ScrapeError {
    /// An equal error record.
    pub fn duplicate(&self) -> (copy: ScrapeError)
        ensures
            copy == *self,
    {
        match self {
            ScrapeError::Post(window) => ScrapeError::Post(window.start..window.end),
            ScrapeError::Tag(after_id) => ScrapeError::Tag(*after_id),
        }
    }
}

impl ScrapeState {
    /// The checkpoint of a first run.
    pub fn new() -> (state: ScrapeState)
        ensures
            state@ == StateView::zero(),
    {
        ScrapeState { last_post_id: 0, last_tag_id: 0, errors: Vec::new() }
    }

    /// An equal checkpoint.
    pub fn duplicate(&self) -> (copy: ScrapeState)
        ensures
            copy@ == self@,
    {
        let mut errors: Vec<ScrapeError> = Vec::new();
        let mut i: usize = 0;
        while i < self.errors.len()
            invariant
                i <= self.errors.len(),
                errors@ == self.errors@.take(i as int),
            decreases self.errors.len() - i,
        {
            errors.push(self.errors[i].duplicate());
            assert(self.errors@.take(i + 1) =~= self.errors@.take(i as int).push(
                self.errors[i as int],
            ));
            i += 1;
        }
        assert(self.errors@.take(i as int) =~= self.errors@);
        ScrapeState { last_post_id: self.last_post_id, last_tag_id: self.last_tag_id, errors }
    }
}

/// The owner of the checkpoint. Every change to the checkpoint goes through
/// its methods.
#[derive(Debug)]
pub struct StateManager {
    state: ScrapeState,
}

impl View for StateManager {
    type V = StateView;

    closed spec fn view(&self) -> StateView {
        self.state@
    }
}

impl StateManager {
    /// Takes up the checkpoint that was loaded. Where there is none, because
    /// the file is missing or cannot be read, the run starts from zero.
    pub fn new(loaded: Option<ScrapeState>) -> (manager: StateManager)
        ensures
            manager@ == match loaded {
                Some(state) => state@,
                None => StateView::zero(),
            },
    {
        match loaded {
            Some(state) => StateManager { state },
            None => StateManager { state: ScrapeState::new() },
        }
    }

    /// Sets the post cursor. The cursor is overwritten, whether the new value
    /// lies ahead of the old one or behind it.
    pub fn update_last_post_id(&mut self, last_post_id: u64)
        ensures
            final(self)@ == (StateView { last_post_id, ..old(self)@ }),
    {
        self.state.last_post_id = last_post_id;
    }

    /// Sets the tag cursor. The cursor is overwritten, whether the new value
    /// lies ahead of the old one or behind it.
    pub fn update_last_tag_id(&mut self, last_tag_id: u64)
        ensures
            final(self)@ == (StateView { last_tag_id, ..old(self)@ }),
    {
        self.state.last_tag_id = last_tag_id;
    }

    /// The post cursor.
    pub fn last_post_id(&self) -> (cursor: u64)
        ensures
            cursor == self@.last_post_id,
    {
        self.state.last_post_id
    }

    /// The tag cursor.
    pub fn last_tag_id(&self) -> (cursor: u64)
        ensures
            cursor == self@.last_tag_id,
    {
        self.state.last_tag_id
    }

    /// Adds a failure at the end of the error log.
    pub fn append_error(&mut self, error: ScrapeError)
        ensures
            final(self)@ == (StateView { errors: old(self)@.errors.push(error), ..old(self)@ }),
    {
        self.state.errors.push(error);
    }

    /// The checkpoint as it stands.
    pub fn get_state(&self) -> (state: &ScrapeState)
        ensures
            state@ == self@,
    {
        &self.state
    }

    /// The checkpoint to write out: a copy of the checkpoint as it stands.
    pub fn save_state(&self) -> (saved: ScrapeState)
        ensures
            saved@ == self@,
    {
        self.state.duplicate()
    }
}

} // verus!
