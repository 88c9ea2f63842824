//! The records that travel between the adapters, the pipeline and the host.

use vstd::prelude::*;
use crate::text::{copy_str, str_equal};

verus! {

/// The two platforms the downloader knows.
#[derive(Clone, Copy, Debug, PartialEq, Eq, Structural)]
pub enum Platform {
    Fanqie,
    Qidian,
}

/// What a progress event reports.
#[derive(Clone, Copy, Debug, PartialEq, Eq, Structural)]
pub enum Status {
    Running,
    Completed,
    Error,
    Skipped,
    Start,
    Done,
}

/// A progress event as the host emits it.
#[derive(Clone, Debug)]
pub struct Progress {
    pub message: String,
    pub status: String,
}

/// What is known of a novel, as stored in its `info.json`.
#[derive(Clone, Debug)]
pub struct NovelMetadata {
    pub title: String,
    pub url: String,
    pub tags: Vec<String>,
    pub word_count: String,
    pub description: String,
}

pub struct NovelMetadataView {
    pub title: Seq<char>,
    pub url: Seq<char>,
    pub tags: Seq<Seq<char>>,
    pub word_count: Seq<char>,
    pub description: Seq<char>,
}

impl DeepView for NovelMetadata {
    type V = NovelMetadataView;

    open spec fn deep_view(&self) -> NovelMetadataView {
        NovelMetadataView {
            title: self.title@,
            url: self.url@,
            tags: self.tags.deep_view(),
            word_count: self.word_count@,
            description: self.description@,
        }
    }
}

/// The platform that a tag names.
pub open spec fn platform_of(tag: Seq<char>) -> Option<Platform> {
    if tag == "fanqie"@ {
        Some(Platform::Fanqie)
    } else if tag == "qidian"@ {
        Some(Platform::Qidian)
    } else {
        None
    }
}

/// The wire name of a status.
pub open spec fn status_name(status: Status) -> Seq<char> {
    match status {
        Status::Running => "running"@,
        Status::Completed => "completed"@,
        Status::Error => "error"@,
        Status::Skipped => "skipped"@,
        Status::Start => "start"@,
        Status::Done => "done"@,
    }
}

impl Platform {
    /// Reads a platform tag; `None` for a tag that names no platform.
    pub fn from_tag(tag: &str) -> (r: Option<Platform>)
        ensures
            r == platform_of(tag@),
    {
        if str_equal(tag, "fanqie") {
            Some(Platform::Fanqie)
        } else if str_equal(tag, "qidian") {
            Some(Platform::Qidian)
        } else {
            None
        }
    }
}

impl Status {
    /// The wire name of the status.
    pub fn as_str(&self) -> (r: &'static str)
        ensures
            r@ == status_name(*self),
    {
        match self {
            Status::Running => "running",
            Status::Completed => "completed",
            Status::Error => "error",
            Status::Skipped => "skipped",
            Status::Start => "start",
            Status::Done => "done",
        }
    }
}

impl Progress {
    /// A progress event with the given message.
    pub fn new(message: &str, status: Status) -> (r: Progress)
        ensures
            r.message@ == message@,
            r.status@ == status_name(status),
    {
        Progress { message: copy_str(message), status: copy_str(status.as_str()) }
    }
}

} // verus!
