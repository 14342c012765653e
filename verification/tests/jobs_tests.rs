use scraper_service::crawl::{Recorded, Scraper};
use scraper_service::dispatch::{
    after_crawl, after_summary, poll_job, poll_response, scrape_url, scrape_url_with, CrawlEnd,
    JobPollResponse, JobStep, Launch, ScrapeUrlPayload, SummaryEnd,
};
use scraper_service::fetch::{Attempt, FetchOutcome, FetchResponse};
use scraper_service::jobs::{shard_of, AppState, JobCreated, JobStatus};
use scraper_service::page::Page;

fn done(summary: &str) -> JobStatus {
    JobStatus::Done { summary: summary.to_string() }
}

fn failed(error: &str) -> JobStatus {
    JobStatus::Failed { error: error.to_string() }
}

fn pending_answer() -> JobPollResponse {
    JobPollResponse { status: "pending".to_string(), summary: None, error: None }
}

#[test]
fn a_new_registry_knows_no_job() {
    let state = AppState::new();
    assert_eq!(state.poll(0), None);
    assert_eq!(state.poll(42), None);
    assert_eq!(poll_job(&state, 42), None);
}

#[test]
fn a_registered_job_is_pending() {
    let mut state = AppState::new();
    assert!(state.register(1));
    assert_eq!(state.poll(1), Some(JobStatus::Pending));
    assert_eq!(state.poll(2), None);
}

#[test]
fn an_identifier_is_registered_once() {
    let mut state = AppState::new();
    assert!(state.register(1));
    assert!(!state.register(1));
    assert!(state.finish(1, done("s")));
    assert!(!state.register(1));
    assert_eq!(state.poll(1), Some(done("s")));
}

#[test]
fn a_pending_job_moves_to_done() {
    let mut state = AppState::new();
    state.register(1);
    assert!(state.finish(1, done("the summary")));
    assert_eq!(state.poll(1), Some(done("the summary")));
}

#[test]
fn a_pending_job_moves_to_failed() {
    let mut state = AppState::new();
    state.register(1);
    assert!(state.finish(1, failed("the error")));
    assert_eq!(state.poll(1), Some(failed("the error")));
}

#[test]
fn a_terminal_job_keeps_its_state() {
    let mut state = AppState::new();
    state.register(1);
    state.register(2);
    assert!(state.finish(1, done("first")));
    assert!(state.finish(2, failed("broken")));
    assert!(!state.finish(1, done("second")));
    assert!(!state.finish(1, failed("late")));
    assert!(!state.finish(2, done("late")));
    assert!(!state.finish(1, JobStatus::Pending));
    assert!(!state.register(1));
    state.register(3);
    let mut polls = 0;
    while polls < 3 {
        assert_eq!(state.poll(1), Some(done("first")));
        assert_eq!(state.poll(2), Some(failed("broken")));
        polls += 1;
    }
}

#[test]
fn a_job_cannot_move_to_pending_or_from_nothing() {
    let mut state = AppState::new();
    assert!(!state.finish(1, done("s")));
    assert_eq!(state.poll(1), None);
    state.register(1);
    assert!(!state.finish(1, JobStatus::Pending));
    assert_eq!(state.poll(1), Some(JobStatus::Pending));
}

#[test]
fn jobs_do_not_touch_each_other() {
    let mut state = AppState::new();
    state.register(1);
    state.register(2);
    state.register(u128::MAX);
    assert!(state.finish(2, done("two")));
    assert_eq!(state.poll(1), Some(JobStatus::Pending));
    assert_eq!(state.poll(2), Some(done("two")));
    assert_eq!(state.poll(u128::MAX), Some(JobStatus::Pending));
}

#[test]
fn a_submission_gives_an_identifier_of_a_pending_job_at_once() {
    let mut state = AppState::new();
    let payload = ScrapeUrlPayload { url: "https://example.com/".to_string() };
    let launch = scrape_url(&mut state, &payload).unwrap();
    assert_eq!(launch.url, "https://example.com/");
    assert_eq!(poll_job(&state, launch.job.job_id), Some(pending_answer()));
    assert_eq!(state.poll(launch.job.job_id), Some(JobStatus::Pending));
}

#[test]
fn submissions_give_different_identifiers() {
    let mut state = AppState::new();
    let first = state.submit().unwrap();
    let second = state.submit().unwrap();
    let third = state.submit().unwrap();
    assert_ne!(first.job_id, second.job_id);
    assert_ne!(first.job_id, third.job_id);
    assert_ne!(second.job_id, third.job_id);
    assert!(state.finish(second.job_id, done("s")));
    assert_eq!(state.poll(first.job_id), Some(JobStatus::Pending));
    assert_eq!(state.poll(third.job_id), Some(JobStatus::Pending));
}

#[test]
fn a_poll_answers_by_state() {
    assert_eq!(poll_response(&JobStatus::Pending), pending_answer());
    assert_eq!(
        poll_response(&done("text")),
        JobPollResponse { status: "done".to_string(), summary: Some("text".to_string()), error: None }
    );
    assert_eq!(
        poll_response(&failed("why")),
        JobPollResponse { status: "failed".to_string(), summary: None, error: Some("why".to_string()) }
    );
}

#[test]
fn a_poll_of_the_registry_answers_by_the_state_of_the_job() {
    let mut state = AppState::new();
    state.register(5);
    assert_eq!(poll_job(&state, 5), Some(pending_answer()));
    state.finish(5, failed("no pages collected"));
    assert_eq!(poll_job(&state, 5), Some(poll_response(&failed("no pages collected"))));
    assert_eq!(poll_job(&state, 6), None);
}

#[test]
fn a_crawl_without_pages_fails_the_job() {
    assert_eq!(
        after_crawl(CrawlEnd::Collected(vec![])),
        JobStep::Finish(failed("no pages collected"))
    );
}

#[test]
fn a_crawl_with_pages_goes_to_the_summarizer() {
    let pages = vec![
        Page::new("https://example.com/".to_string(), "a".to_string()),
        Page::new("https://example.com/b".to_string(), "b".to_string()),
    ];
    assert_eq!(after_crawl(CrawlEnd::Collected(pages.clone())), JobStep::Summarize(pages));
}

#[test]
fn a_crawl_that_did_not_run_fails_the_job_with_its_reason() {
    assert_eq!(
        after_crawl(CrawlEnd::InitFailed("relative URL without a base".to_string())),
        JobStep::Finish(failed("Init error: relative URL without a base"))
    );
    assert_eq!(
        after_crawl(CrawlEnd::ScrapeFailed("x".to_string())),
        JobStep::Finish(failed("Scrape error: x"))
    );
    assert_eq!(
        after_crawl(CrawlEnd::JoinFailed("task panicked".to_string())),
        JobStep::Finish(failed("Thread join error: task panicked"))
    );
    assert_eq!(after_crawl(CrawlEnd::JoinFailed(String::new())), JobStep::Finish(failed("Thread join error: ")));
}

#[test]
fn a_summary_ends_the_job() {
    assert_eq!(after_summary(SummaryEnd::Ready("text".to_string())), done("text"));
    assert_eq!(after_summary(SummaryEnd::Ready(String::new())), done(""));
    assert_eq!(after_summary(SummaryEnd::MissingKey), failed("Missing OPENAI_API_KEY"));
    assert_eq!(after_summary(SummaryEnd::Failed("timeout".to_string())), failed("AI error: timeout"));
}

#[test]
fn a_start_url_that_answers_500_fails_the_job() {
    let mut state = AppState::new();
    let payload = ScrapeUrlPayload { url: "https://example.com/".to_string() };
    let launch = scrape_url(&mut state, &payload).unwrap();
    let job = launch.job;
    assert_eq!(poll_job(&state, job.job_id), Some(pending_answer()));

    let mut scraper = Scraper::new(&launch.url, 100, 5, 10_000).unwrap();
    let answer = Attempt::Answered(FetchResponse {
        status: 500,
        server: None,
        body: "<p>Internal Server Error</p>".to_string(),
    });
    while !scraper.is_done() {
        for url in scraper.next_batch() {
            assert_eq!(scraper.record(&url, &answer), Recorded::Dropped(FetchOutcome::Skipped));
        }
    }
    let step = after_crawl(CrawlEnd::Collected(scraper.into_pages()));
    let status = match step {
        JobStep::Finish(status) => status,
        JobStep::Summarize(_) => panic!("nothing to summarize"),
    };
    assert!(state.finish(job.job_id, status));
    assert_eq!(state.poll(job.job_id), Some(failed("no pages collected")));
    assert_eq!(
        poll_job(&state, job.job_id),
        Some(JobPollResponse {
            status: "failed".to_string(),
            summary: None,
            error: Some("no pages collected".to_string()),
        })
    );
}

#[test]
fn terminal_states_are_told_from_pending() {
    assert!(!JobStatus::Pending.is_terminal());
    assert!(done("").is_terminal());
    assert!(failed("").is_terminal());
    assert_eq!(done("x").duplicate(), done("x"));
    assert_eq!(JobStatus::Pending.duplicate(), JobStatus::Pending);
}

#[test]
fn a_submission_to_a_registry_without_jobs_succeeds() {
    let mut round = 0;
    while round < 50 {
        let mut state = AppState::new();
        let job = state.submit().unwrap();
        assert_eq!(state.poll(job.job_id), Some(JobStatus::Pending));
        let mut state = AppState::new();
        let payload = ScrapeUrlPayload { url: "https://example.com/".to_string() };
        assert!(scrape_url(&mut state, &payload).is_some());
        round += 1;
    }
}

#[test]
fn a_submission_under_a_given_identifier_registers_it_once() {
    let mut state = AppState::new();
    let payload = ScrapeUrlPayload { url: "https://example.com/".to_string() };
    assert_eq!(
        scrape_url_with(&mut state, 9, &payload),
        Some(Launch { job: JobCreated { job_id: 9 }, url: "https://example.com/".to_string() })
    );
    assert_eq!(state.poll(9), Some(JobStatus::Pending));
    assert_eq!(scrape_url_with(&mut state, 9, &payload), None);
    assert!(state.finish(9, done("s")));
    assert_eq!(scrape_url_with(&mut state, 9, &payload), None);
    assert_eq!(state.poll(9), Some(done("s")));
    assert!(scrape_url_with(&mut state, u128::MAX, &payload).is_some());
}

#[test]
fn the_shard_of_a_job_is_its_identifier_modulo_the_shards() {
    assert_eq!(shard_of(0, 16), 0);
    assert_eq!(shard_of(15, 16), 15);
    assert_eq!(shard_of(16, 16), 0);
    assert_eq!(shard_of(35, 16), 3);
    assert_eq!(shard_of(u128::MAX, 16), 15);
    assert_eq!(shard_of(u128::MAX, 1), 0);
    assert_eq!(shard_of(7, 3), 1);
    assert_eq!(shard_of(7, usize::MAX), 7);
    assert_eq!(shard_of(7, 0), 0);
}

#[test]
fn jobs_spread_over_shards_keep_their_states() {
    let mut shards: Vec<AppState> = (0..4).map(|_| AppState::new()).collect();
    let payload = ScrapeUrlPayload { url: "https://example.com/".to_string() };
    for id in 0..20u128 {
        let shard = shard_of(id, shards.len());
        assert!(scrape_url_with(&mut shards[shard], id, &payload).is_some());
    }
    for id in 0..20u128 {
        let shard = shard_of(id, shards.len());
        if id % 2 == 0 {
            assert!(shards[shard].finish(id, done("even")));
        }
    }
    for id in 0..20u128 {
        let shard = shard_of(id, shards.len());
        let expected = if id % 2 == 0 { done("even") } else { JobStatus::Pending };
        assert_eq!(shards[shard].poll(id), Some(expected));
        assert_eq!(shards[(shard + 1) % 4].poll(id), None);
    }
}
