//! The repository initializer: makes sure that the destination repository
//! exists before anything is written to it.

use vstd::prelude::*;
use crate::address::{create_address, create_url};
use crate::protocol::{
    Action, ActionView, Event, EventView, Progress, ProgressView, Request, RequestView, SyncError,
    SyncErrorView,
};
use crate::status::{is_success, success_code};

verus! {

/// The machine that creates the destination repository if it is absent.
///
/// The request is idempotent: a repository that exists already answers with
/// success as well. Any other answer ends the run.
#[derive(Clone, Debug, PartialEq, Eq)]
pub struct RepoInit {
    /// The address of the create request.
    pub url: String,
}

/// What a `RepoInit` holds, as plain values.
pub struct RepoInitView {
    pub url: Seq<char>,
}

impl View for RepoInit {
    type V = RepoInitView;

    open spec fn view(&self) -> RepoInitView {
        RepoInitView { url: self.url@ }
    }
}

/// The state in which the initializer starts for the repository at `dest`,
/// and its first action.
pub open spec fn init_start(dest: Seq<char>) -> (RepoInitView, ActionView) {
    (
        RepoInitView { url: create_address(dest) },
        ActionView::Send(RequestView::create(create_address(dest))),
    )
}

/// What the initializer does on `event`.
pub open spec fn init_step(state: RepoInitView, event: EventView) -> ProgressView<
    RepoInitView,
    (),
> {
    match event {
        EventView::Status(status) => if success_code(status) {
            ProgressView::Done(())
        } else {
            ProgressView::Failed(SyncErrorView::CreateRejected { url: state.url, status })
        },
        EventView::Unreachable => ProgressView::Failed(SyncErrorView::Transport { url: state.url }),
        _ => ProgressView::Failed(SyncErrorView::UnexpectedEvent { url: state.url }),
    }
}

impl RepoInit {
    /// Starts the initializer for the repository at `dest`, a normalized
    /// base address.
    pub fn start(dest: &str) -> (started: (RepoInit, Action))
        ensures
            (started.0@, started.1@) == init_start(dest@),
    {
        let url = create_url(dest);
        let request = Request::create(url.clone());
        (RepoInit { url }, Action::Send(request))
    }

    /// Takes the answer to the create request.
    pub fn step(self, event: Event) -> (progress: Progress<RepoInit, ()>)
        ensures
            progress@ == init_step(self@, event@),
    {
        match event {
            Event::Status(status) => {
                if is_success(status) {
                    Progress::Done(())
                } else {
                    Progress::Failed(SyncError::CreateRejected { url: self.url, status })
                }
            },
            Event::Unreachable => Progress::Failed(SyncError::Transport { url: self.url }),
            _ => Progress::Failed(SyncError::UnexpectedEvent { url: self.url }),
        }
    }
}

} // verus!
