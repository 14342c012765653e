//! The decisions of the job dispatcher: what a submission registers, what
//! follows the end of a crawl and of a summary, and what a poll answers.
//!
//! The dispatcher's driver runs the crawl and the summarizer off the thread
//! that takes submissions; it comes here with what each of them ended in.

use vstd::prelude::*;
use crate::crawl::page_views;
use crate::jobs::{lookup, follows, AppState, JobCreated, JobStatus, StatusView};
use crate::page::{opt_text, Page, PageView};

verus! {

/// A request to crawl and summarize the site at a URL.
#[derive(Clone, Debug, PartialEq, Eq)]
pub struct ScrapeUrlPayload {
    pub url: String,
}

/// The answer to a poll.
#[derive(Clone, Debug, PartialEq, Eq)]
pub struct JobPollResponse {
    pub status: String,
    pub summary: Option<String>,
    pub error: Option<String>,
}

/// What a `JobPollResponse` holds, as plain values.
pub ghost struct PollView {
    pub status: Seq<char>,
    pub summary: Option<Seq<char>>,
    pub error: Option<Seq<char>>,
}

impl View for JobPollResponse {
    type V = PollView;

    open spec fn view(&self) -> PollView {
        PollView {
            status: self.status@,
            summary: opt_text(self.summary),
            error: opt_text(self.error),
        }
    }
}

/// How the crawl of a job ended.
#[derive(Clone, Debug, PartialEq, Eq)]
pub enum CrawlEnd {
    /// The crawl ran to its end and collected these pages.
    Collected(Vec<Page>),
    /// The crawl could not be set up.
    InitFailed(String),
    /// The crawl broke off.
    ScrapeFailed(String),
    /// The task that ran the crawl could not be joined.
    JoinFailed(String),
}

/// What a `CrawlEnd` holds, as plain values.
pub ghost enum CrawlEndView {
    Collected(Seq<PageView>),
    InitFailed(Seq<char>),
    ScrapeFailed(Seq<char>),
    JoinFailed(Seq<char>),
}

impl View for CrawlEnd {
    type V = CrawlEndView;

    open spec fn view(&self) -> CrawlEndView {
        match self {
            CrawlEnd::Collected(pages) => CrawlEndView::Collected(page_views(pages@)),
            CrawlEnd::InitFailed(error) => CrawlEndView::InitFailed(error@),
            CrawlEnd::ScrapeFailed(error) => CrawlEndView::ScrapeFailed(error@),
            CrawlEnd::JoinFailed(error) => CrawlEndView::JoinFailed(error@),
        }
    }
}

/// How the summary of a job's pages ended.
#[derive(Clone, Debug, PartialEq, Eq)]
pub enum SummaryEnd {
    /// The summarizer answered with this text.
    Ready(String),
    /// The summarizer could not be called for want of its key.
    MissingKey,
    /// The call of the summarizer failed.
    Failed(String),
}

/// What a `SummaryEnd` holds, as plain values.
pub ghost enum SummaryEndView {
    Ready(Seq<char>),
    MissingKey,
    Failed(Seq<char>),
}

impl View for SummaryEnd {
    type V = SummaryEndView;

    open spec fn view(&self) -> SummaryEndView {
        match self {
            SummaryEnd::Ready(text) => SummaryEndView::Ready(text@),
            SummaryEnd::MissingKey => SummaryEndView::MissingKey,
            SummaryEnd::Failed(error) => SummaryEndView::Failed(error@),
        }
    }
}

/// What the dispatcher does when the crawl has ended.
#[derive(Clone, Debug, PartialEq, Eq)]
pub enum JobStep {
    /// Hand these pages to the summarizer.
    Summarize(Vec<Page>),
    /// Move the job to this terminal state.
    Finish(JobStatus),
}

/// What a `JobStep` holds, as plain values.
pub ghost enum JobStepView {
    Summarize(Seq<PageView>),
    Finish(StatusView),
}

impl View for JobStep {
    type V = JobStepView;

    open spec fn view(&self) -> JobStepView {
        match self {
            JobStep::Summarize(pages) => JobStepView::Summarize(page_views(pages@)),
            JobStep::Finish(status) => JobStepView::Finish(status@),
        }
    }
}

/// What follows the end of a crawl: pages go to the summarizer; a crawl
/// without pages fails the job at once, and so does a crawl that did not run
/// to its end.
pub open spec fn crawl_step(end: CrawlEndView) -> JobStepView {
    match end {
        CrawlEndView::Collected(pages) => if pages.len() == 0 {
            JobStepView::Finish(StatusView::Failed { error: "no pages collected"@ })
        } else {
            JobStepView::Summarize(pages)
        },
        CrawlEndView::InitFailed(error) => JobStepView::Finish(
            StatusView::Failed { error: "Init error: "@ + error },
        ),
        CrawlEndView::ScrapeFailed(error) => JobStepView::Finish(
            StatusView::Failed { error: "Scrape error: "@ + error },
        ),
        CrawlEndView::JoinFailed(error) => JobStepView::Finish(
            StatusView::Failed { error: "Thread join error: "@ + error },
        ),
    }
}

/// The terminal state that the end of a summary gives.
pub open spec fn summary_status(end: SummaryEndView) -> StatusView {
    match end {
        SummaryEndView::Ready(text) => StatusView::Done { summary: text },
        SummaryEndView::MissingKey => StatusView::Failed { error: "Missing OPENAI_API_KEY"@ },
        SummaryEndView::Failed(error) => StatusView::Failed { error: "AI error: "@ + error },
    }
}

/// What a poll answers for a state.
pub open spec fn poll_view(status: StatusView) -> PollView {
    match status {
        StatusView::Pending => PollView { status: "pending"@, summary: None, error: None },
        StatusView::Done { summary } => PollView {
            status: "done"@,
            summary: Some(summary),
            error: None,
        },
        StatusView::Failed { error } => PollView {
            status: "failed"@,
            summary: None,
            error: Some(error),
        },
    }
}

/// The text `prefix` followed by `rest`.
fn prefixed(prefix: &str, rest: &str) -> (text: String)
    ensures
        text@ == prefix@ + rest@,
{
    let mut text = prefix.to_owned();
    text.append(rest);
    text
}

/// Decides what follows the end of a crawl.
pub fn after_crawl(end: CrawlEnd) -> (step: JobStep)
    ensures
        step@ == crawl_step(end@),
        step@ matches JobStepView::Finish(status) ==> status.is_terminal(),
{
    match end {
        CrawlEnd::Collected(pages) => if pages.len() == 0 {
            JobStep::Finish(JobStatus::Failed { error: "no pages collected".to_owned() })
        } else {
            JobStep::Summarize(pages)
        },
        CrawlEnd::InitFailed(error) => JobStep::Finish(
            JobStatus::Failed { error: prefixed("Init error: ", error.as_str()) },
        ),
        CrawlEnd::ScrapeFailed(error) => JobStep::Finish(
            JobStatus::Failed { error: prefixed("Scrape error: ", error.as_str()) },
        ),
        CrawlEnd::JoinFailed(error) => JobStep::Finish(
            JobStatus::Failed { error: prefixed("Thread join error: ", error.as_str()) },
        ),
    }
}

/// The terminal state of a job whose summary ended in `end`.
pub fn after_summary(end: SummaryEnd) -> (status: JobStatus)
    ensures
        status@ == summary_status(end@),
        status@.is_terminal(),
{
    match end {
        SummaryEnd::Ready(text) => JobStatus::Done { summary: text },
        SummaryEnd::MissingKey => JobStatus::Failed { error: "Missing OPENAI_API_KEY".to_owned() },
        SummaryEnd::Failed(error) => JobStatus::Failed {
            error: prefixed("AI error: ", error.as_str()),
        },
    }
}

/// The answer to a poll of a job in the state `status`.
pub fn poll_response(status: &JobStatus) -> (response: JobPollResponse)
    ensures
        response@ == poll_view(status@),
{
    match status {
        JobStatus::Pending => JobPollResponse {
            status: "pending".to_owned(),
            summary: None,
            error: None,
        },
        JobStatus::Done { summary } => JobPollResponse {
            status: "done".to_owned(),
            summary: Some(summary.clone()),
            error: None,
        },
        JobStatus::Failed { error } => JobPollResponse {
            status: "failed".to_owned(),
            summary: None,
            error: Some(error.clone()),
        },
    }
}

/// The view of an optional answer.
pub open spec fn opt_poll(response: Option<JobPollResponse>) -> Option<PollView> {
    match response {
        Some(r) => Some(r@),
        None => None,
    }
}

/// The background work that a submission launches: the crawl of `url`, whose
/// end decides the state of the job `job`.
#[derive(Clone, Debug, PartialEq, Eq)]
pub struct Launch {
    pub job: JobCreated,
    pub url: String,
}

/// Takes a submission: registers a pending job under a new identifier and
/// gives the identifier, with the URL to crawl for it. No crawl has begun
/// when it returns. It fails only where the identifier drawn belongs to a
/// job already: then nothing is registered. On a registry without jobs it
/// therefore always succeeds.
pub fn scrape_url(state: &mut AppState, payload: &ScrapeUrlPayload) -> (launch: Option<Launch>)
    ensures
        match launch {
            Some(launch) => {
                &&& launch.url@ == payload.url@
                &&& !old(state).entries().contains_key(launch.job.job_id)
                &&& final(state).entries() == old(state).entries().insert(
                    launch.job.job_id,
                    StatusView::Pending,
                )
            },
            None => {
                &&& final(state).entries() == old(state).entries()
                &&& exists|taken: u128| old(state).entries().contains_key(taken)
            },
        },
        follows(old(state).entries(), final(state).entries()),
{
    match state.submit() {
        Some(job) => Some(Launch { job, url: payload.url.clone() }),
        None => None,
    }
}

/// Takes a submission under the identifier `id`: registers a pending job
/// under it and gives it back with the URL to crawl, unless a job has that
/// identifier already: then nothing is registered.
pub fn scrape_url_with(
    state: &mut AppState,
    id: u128,
    payload: &ScrapeUrlPayload,
) -> (launch: Option<Launch>)
    ensures
        launch is Some <==> !old(state).entries().contains_key(id),
        match launch {
            Some(launch) => {
                &&& launch.job.job_id == id
                &&& launch.url@ == payload.url@
                &&& final(state).entries() == old(state).entries().insert(id, StatusView::Pending)
            },
            None => final(state).entries() == old(state).entries(),
        },
        follows(old(state).entries(), final(state).entries()),
{
    if state.register(id) {
        Some(Launch { job: JobCreated { job_id: id }, url: payload.url.clone() })
    } else {
        None
    }
}

/// Answers a poll of the job `id` from its current state, which it leaves as
/// it is; `None` where there is no such job.
pub fn poll_job(state: &AppState, id: u128) -> (response: Option<JobPollResponse>)
    ensures
        opt_poll(response) == match lookup(state.entries(), id) {
            Some(status) => Some(poll_view(status)),
            None => None,
        },
{
    match state.poll(id) {
        Some(status) => Some(poll_response(&status)),
        None => None,
    }
}

} // verus!
