use indexer::api::client::ApiClient;
use indexer::api::models::{
    ApiAttributes, ApiError, ApiPost, ApiPostResponse, ApiTag, ApiTagResponse, Timestamp,
};
use indexer::models::{Rating, Tag, TagType};
use indexer::scraper::post_scraper::{highest_post_id, PostScraper, WINDOW};
use indexer::scraper::state_manager::{ScrapeError, ScrapeState, StateManager};
use indexer::scraper::tag_scraper::{highest_tag_id, TagScraper, TagStep};

fn client() -> ApiClient {
    ApiClient::new("https://example.org/index.php".to_string(), None, None)
}

fn api_post(id: u64) -> ApiPost {
    ApiPost {
        id,
        created_at: Timestamp { secs: 0, nanos: 0 },
        score: 0,
        width: 1,
        height: 1,
        md5: "00112233445566778899aabbccddeeff".to_string(),
        directory: String::new(),
        image: "x.png".to_string(),
        rating: "explicit".to_string(),
        source: None,
        change: 0,
        owner: String::new(),
        creator_id: 0,
        parent_id: None,
        sample: false,
        preview_height: 1,
        preview_width: 1,
        tags: "a b".to_string(),
        title: None,
        has_notes: false,
        has_comments: false,
        file_url: String::new(),
        preview_url: String::new(),
        sample_url: None,
        sample_height: None,
        sample_width: None,
        status: String::new(),
        post_locked: false,
        has_children: false,
    }
}

fn post_page(ids: &[u64]) -> ApiPostResponse {
    ApiPostResponse {
        attributes: ApiAttributes { limit: 100, offset: 0, count: ids.len() as u64 },
        posts: ids.iter().map(|id| api_post(*id)).collect(),
    }
}

fn tag_page(ids: &[u64]) -> ApiTagResponse {
    ApiTagResponse {
        attributes: ApiAttributes { limit: 100, offset: 0, count: ids.len() as u64 },
        tags: ids
            .iter()
            .map(|id| ApiTag {
                id: *id,
                name: format!("tag{}", id),
                count: *id * 2,
                tag_type: 1,
                ambiguous: false,
            })
            .collect(),
    }
}

fn manager(last_post_id: u64, last_tag_id: u64) -> StateManager {
    StateManager::new(Some(ScrapeState { last_post_id, last_tag_id, errors: Vec::new() }))
}

#[test]
fn a_missing_checkpoint_starts_from_zero() {
    let manager = StateManager::new(None);
    assert_eq!(manager.last_post_id(), 0);
    assert_eq!(manager.last_tag_id(), 0);
    assert!(manager.get_state().errors.is_empty());
    assert_eq!(
        *manager.get_state(),
        ScrapeState { last_post_id: 0, last_tag_id: 0, errors: Vec::new() }
    );
    assert_eq!(ScrapeState::new(), *manager.get_state());
}

#[test]
fn a_loaded_checkpoint_is_taken_up() {
    let loaded = ScrapeState {
        last_post_id: 500,
        last_tag_id: 30,
        errors: vec![ScrapeError::Post(1..101), ScrapeError::Tag(7)],
    };
    let manager = StateManager::new(Some(loaded));
    assert_eq!(manager.last_post_id(), 500);
    assert_eq!(manager.last_tag_id(), 30);
    assert_eq!(manager.get_state().errors, vec![ScrapeError::Post(1..101), ScrapeError::Tag(7)]);
}

#[test]
fn cursors_are_overwritten() {
    let mut manager = manager(500, 30);
    manager.update_last_post_id(700);
    assert_eq!(manager.last_post_id(), 700);
    assert_eq!(manager.last_tag_id(), 30);
    manager.update_last_post_id(600);
    assert_eq!(manager.last_post_id(), 600);
    manager.update_last_tag_id(10);
    assert_eq!(manager.last_tag_id(), 10);
    assert_eq!(manager.last_post_id(), 600);
}

#[test]
fn errors_are_appended_in_order() {
    let mut manager = manager(0, 0);
    manager.append_error(ScrapeError::Tag(3));
    manager.append_error(ScrapeError::Post(201..301));
    manager.append_error(ScrapeError::Tag(3));
    assert_eq!(
        manager.get_state().errors,
        vec![ScrapeError::Tag(3), ScrapeError::Post(201..301), ScrapeError::Tag(3)]
    );
    assert_eq!(manager.last_post_id(), 0);
}

#[test]
fn the_state_to_save_is_the_state_as_it_stands() {
    let mut manager = manager(5, 6);
    manager.append_error(ScrapeError::Post(1..101));
    let saved = manager.save_state();
    assert_eq!(
        saved,
        ScrapeState { last_post_id: 5, last_tag_id: 6, errors: vec![ScrapeError::Post(1..101)] }
    );
    manager.update_last_post_id(9);
    assert_eq!(saved.last_post_id, 5);
    let resumed = StateManager::new(Some(saved));
    assert_eq!(resumed.last_post_id(), 5);
    assert_eq!(resumed.get_state().errors, vec![ScrapeError::Post(1..101)]);
    assert_eq!(ScrapeError::Post(3..4).duplicate(), ScrapeError::Post(3..4));
    assert_eq!(resumed.get_state().duplicate(), *resumed.get_state());
}

#[test]
fn a_run_resumes_just_past_the_cursor() {
    let scraper = PostScraper::new(client());
    let mut windows = scraper.run(&manager(250, 0));
    assert_eq!(windows.next(), Some(251..351));
    assert_eq!(windows.next(), Some(351..451));
    assert_eq!(windows.next(), Some(451..551));
    let mut windows = scraper.run(&StateManager::new(None));
    assert_eq!(windows.next(), Some(1..101));
    assert_eq!(WINDOW, 100);
}

#[test]
fn a_run_ends_where_the_id_space_ends() {
    let scraper = PostScraper::new(client());
    let mut windows = scraper.run(&manager(u64::MAX - 201, 0));
    assert_eq!(windows.next(), Some(u64::MAX - 200..u64::MAX - 100));
    assert_eq!(windows.next(), Some(u64::MAX - 100..u64::MAX));
    assert_eq!(windows.next(), None);
    assert_eq!(windows.next(), None);
    let mut windows = scraper.run(&manager(u64::MAX, 0));
    assert_eq!(windows.next(), None);
    let mut windows = scraper.run(&manager(u64::MAX - 100, 0));
    assert_eq!(windows.next(), None);
}

#[test]
fn the_post_stream_has_its_defaults() {
    let scraper = PostScraper::new(client());
    assert_eq!(scraper.parallel_requests, 2);
    assert_eq!(scraper.requests_per_second, 8);
    assert_eq!(scraper.client.endpoint, "https://example.org/index.php");
    assert_eq!(TagScraper::new(client()).requests_per_second, 8);
}

#[test]
fn a_window_with_records_moves_the_cursor_to_the_highest_id() {
    let scraper = PostScraper::new(client());
    let mut state = manager(100, 9);
    let records = scraper.process_response(&mut state, 101..201, Ok(post_page(&[150, 199, 120])));
    assert_eq!(state.last_post_id(), 199);
    assert_eq!(state.last_tag_id(), 9);
    assert!(state.get_state().errors.is_empty());
    assert_eq!(records.iter().map(|post| post.id).collect::<Vec<u64>>(), vec![120, 199, 150]);
    assert_eq!(records[0].rating, Rating::Explicit);
    assert_eq!(records[0].tags, vec!["a".to_string(), "b".to_string()]);
}

#[test]
fn an_empty_window_makes_no_progress() {
    let scraper = PostScraper::new(client());
    let mut state = manager(100, 9);
    let records = scraper.process_response(&mut state, 101..201, Ok(post_page(&[])));
    assert!(records.is_empty());
    assert_eq!(state.last_post_id(), 100);
    assert!(state.get_state().errors.is_empty());
    let mut page = post_page(&[]);
    page.attributes.count = 3;
    let records = scraper.process_response(&mut state, 101..201, Ok(page));
    assert!(records.is_empty());
    assert_eq!(state.last_post_id(), 100);
}

#[test]
fn a_late_window_moves_the_cursor_back() {
    let scraper = PostScraper::new(client());
    let mut state = manager(100, 0);
    scraper.process_response(&mut state, 201..301, Ok(post_page(&[250, 300])));
    assert_eq!(state.last_post_id(), 300);
    scraper.process_response(&mut state, 101..201, Ok(post_page(&[150])));
    assert_eq!(state.last_post_id(), 150);
}

#[test]
fn a_failed_window_is_logged_and_the_run_goes_on() {
    let scraper = PostScraper::new(client());
    let mut state = manager(100, 0);
    let mut windows = scraper.run(&state);
    let first = windows.next().unwrap();
    let records =
        scraper.process_response(&mut state, first, Err(ApiError::Reqwest("down".to_string())));
    assert!(records.is_empty());
    assert_eq!(state.last_post_id(), 100);
    assert_eq!(state.get_state().errors, vec![ScrapeError::Post(101..201)]);
    assert_eq!(windows.next(), Some(201..301));
}

#[test]
fn the_highest_id_of_a_page_is_found() {
    assert_eq!(highest_post_id(&post_page(&[3, 9, 4]).posts), 9);
    assert_eq!(highest_post_id(&post_page(&[7]).posts), 7);
    assert_eq!(highest_post_id(&post_page(&[]).posts), 0);
    assert_eq!(highest_tag_id(&tag_page(&[u64::MAX, 1]).tags), u64::MAX);
    assert_eq!(highest_tag_id(&tag_page(&[]).tags), 0);
}

#[test]
fn a_tag_run_starts_at_the_cursor() {
    let scraper = TagScraper::new(client());
    match scraper.run(&manager(0, 42)) {
        TagStep::Request { after_id, records } => {
            assert_eq!(after_id, 42);
            assert!(records.is_empty());
        }
        TagStep::Stop => panic!("the run must start"),
    }
}

#[test]
fn a_page_of_tags_moves_the_cursor_and_the_next_request() {
    let scraper = TagScraper::new(client());
    let mut state = manager(5, 42);
    match scraper.process_response(&mut state, 42, Ok(tag_page(&[43, 44, 50]))) {
        TagStep::Request { after_id, records } => {
            assert_eq!(after_id, 50);
            assert_eq!(records.iter().map(|tag| tag.id).collect::<Vec<u64>>(), vec![50, 44, 43]);
            assert_eq!(
                records[0],
                Tag {
                    id: 50,
                    name: "tag50".to_string(),
                    count: 100,
                    tag_type: TagType::Artist,
                    ambiguous: false
                }
            );
        }
        TagStep::Stop => panic!("a page must not end the run"),
    }
    assert_eq!(state.last_tag_id(), 50);
    assert_eq!(state.last_post_id(), 5);
    assert!(state.get_state().errors.is_empty());
}

#[test]
fn an_empty_page_of_tags_makes_no_progress() {
    let scraper = TagScraper::new(client());
    let mut state = manager(5, 42);
    match scraper.process_response(&mut state, 42, Ok(tag_page(&[]))) {
        TagStep::Request { after_id, records } => {
            assert_eq!(after_id, 42);
            assert!(records.is_empty());
        }
        TagStep::Stop => panic!("a page must not end the run"),
    }
    assert_eq!(state.last_tag_id(), 42);
    assert_eq!(state.last_post_id(), 5);
    assert!(state.get_state().errors.is_empty());
}

#[test]
fn a_failed_page_of_tags_ends_the_run() {
    let scraper = TagScraper::new(client());
    let mut state = manager(5, 42);
    let step = scraper.process_response(&mut state, 42, Err(ApiError::Other));
    assert!(matches!(step, TagStep::Stop));
    assert_eq!(state.last_tag_id(), 42);
    assert_eq!(state.get_state().errors, vec![ScrapeError::Tag(42)]);
}

#[test]
fn records_are_framed_one_to_a_line() {
    let mut log = b"first\n".to_vec();
    PostScraper::new(client()).process_post(&mut log, b"{\"id\":1}");
    TagScraper::new(client()).process_tag(&mut log, b"");
    TagScraper::new(client()).process_tag(&mut log, b"{\"id\":2}");
    assert_eq!(log, b"first\n{\"id\":1}\n\n{\"id\":2}\n".to_vec());
}
