//! Verified core of a same-site crawler and of the job registry that tracks
//! crawl-and-summarize requests.

pub mod account;
pub mod crawl;
pub mod dispatch;
pub mod extract;
pub mod fetch;
pub mod html;
pub mod jobs;
pub mod link;
pub mod page;
pub mod retry;
pub mod summary;
pub mod text;
