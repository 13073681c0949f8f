//! Notifications that the manager hands to its subscriber.

use crate::download::task::DownloadProgress;
use vstd::prelude::*;

verus! {

/// How many events may wait for the subscriber.
pub const EVENT_QUEUE_CAPACITY: usize = 100;

/// Something that happened to a task. Every event names the task.
#[derive(Debug, Clone)]
pub enum DownloadEvent {
    /// The size is known and the segments are about to be fetched.
    Started(String),
    /// More bytes have arrived; carries a snapshot of the progress.
    ProgressUpdated(String, DownloadProgress),
    /// The task was paused.
    Paused(String),
    /// The task is being restarted after a pause.
    Resumed(String),
    /// The file is complete and in place.
    Completed(String),
    /// The task failed; carries the reason.
    Failed(String, String),
    /// The task was cancelled.
    Cancelled(String),
}

/// An event with its texts as character sequences.
pub enum EventView {
    Started(Seq<char>),
    ProgressUpdated(Seq<char>, DownloadProgress),
    Paused(Seq<char>),
    Resumed(Seq<char>),
    Completed(Seq<char>),
    Failed(Seq<char>, Seq<char>),
    Cancelled(Seq<char>),
}

impl View for DownloadEvent {
    type V = EventView;

    open spec fn view(&self) -> EventView {
        match self {
            DownloadEvent::Started(id) => EventView::Started(id@),
            DownloadEvent::ProgressUpdated(id, p) => EventView::ProgressUpdated(id@, *p),
            DownloadEvent::Paused(id) => EventView::Paused(id@),
            DownloadEvent::Resumed(id) => EventView::Resumed(id@),
            DownloadEvent::Completed(id) => EventView::Completed(id@),
            DownloadEvent::Failed(id, reason) => EventView::Failed(id@, reason@),
            DownloadEvent::Cancelled(id) => EventView::Cancelled(id@),
        }
    }
}

impl EventView {
    /// The task that the event is about.
    pub open spec fn task_id(self) -> Seq<char> {
        match self {
            EventView::Started(id) => id,
            EventView::ProgressUpdated(id, _) => id,
            EventView::Paused(id) => id,
            EventView::Resumed(id) => id,
            EventView::Completed(id) => id,
            EventView::Failed(id, _) => id,
            EventView::Cancelled(id) => id,
        }
    }

    /// Whether the event closes the life of a run: completion, failure or
    /// cancellation.
    pub open spec fn is_terminal(self) -> bool {
        self is Completed || self is Failed || self is Cancelled
    }
}

impl DownloadEvent {
    /// The task that the event is about.
    pub fn task_id(&self) -> (id: &str)
        ensures
            id@ == self@.task_id(),
    {
        match self {
            DownloadEvent::Started(id) => id.as_str(),
            DownloadEvent::ProgressUpdated(id, _) => id.as_str(),
            DownloadEvent::Paused(id) => id.as_str(),
            DownloadEvent::Resumed(id) => id.as_str(),
            DownloadEvent::Completed(id) => id.as_str(),
            DownloadEvent::Failed(id, _) => id.as_str(),
            DownloadEvent::Cancelled(id) => id.as_str(),
        }
    }
}

} // verus!
