//! The listing fetcher: retrieves the listing of one category from one
//! repository.

use vstd::prelude::*;
use crate::address::{listing_address, listing_url};
use crate::category::Category;
use crate::listing::{Entry, Listing};
use crate::protocol::{
    Action, ActionView, Event, EventView, Progress, ProgressView, Request, RequestView, SyncError,
    SyncErrorView,
};
use crate::status::{is_success, success_code, NOT_FOUND};

verus! {

/// What a listing fetch waits for.
#[derive(Clone, Copy, Debug, PartialEq, Eq, Structural)]
pub enum ListingPhase {
    /// The status of the listing request.
    AwaitStatus,
    /// The entries that the response holds.
    AwaitEntries,
}

/// The machine that fetches one listing.
///
/// A repository that has never materialized the category answers "not
/// found": that is an empty listing, no failure. Any other refusal, and a
/// body that is no structured listing, ends the run.
#[derive(Clone, Debug, PartialEq, Eq)]
pub struct ListingFetch {
    /// The address of the listing.
    pub url: String,
    pub category: Category,
    pub phase: ListingPhase,
}

/// What a `ListingFetch` holds, as plain values.
pub struct ListingFetchView {
    pub url: Seq<char>,
    pub category: Category,
    pub phase: ListingPhase,
}

impl View for ListingFetch {
    type V = ListingFetchView;

    open spec fn view(&self) -> ListingFetchView {
        ListingFetchView { url: self.url@, category: self.category, phase: self.phase }
    }
}

/// The state in which the fetch of the listing of `category` at `repo`
/// starts, and its first action.
pub open spec fn listing_start(repo: Seq<char>, category: Category) -> (
    ListingFetchView,
    ActionView,
) {
    (
        ListingFetchView {
            url: listing_address(repo, category),
            category,
            phase: ListingPhase::AwaitStatus,
        },
        ActionView::Send(RequestView::list(listing_address(repo, category))),
    )
}

/// What a listing fetch does on `event`.
pub open spec fn listing_step(state: ListingFetchView, event: EventView) -> ProgressView<
    ListingFetchView,
    Seq<Entry>,
> {
    match event {
        EventView::Unreachable => ProgressView::Failed(SyncErrorView::Transport { url: state.url }),
        EventView::Status(status) => match state.phase {
            ListingPhase::AwaitStatus => if success_code(status) {
                ProgressView::Next(
                    ListingFetchView { phase: ListingPhase::AwaitEntries, ..state },
                    ActionView::ReadListing,
                )
            } else if status == NOT_FOUND {
                ProgressView::Done(Seq::empty())
            } else {
                ProgressView::Failed(
                    SyncErrorView::ListRejected {
                        url: state.url,
                        category: state.category,
                        status,
                    },
                )
            },
            ListingPhase::AwaitEntries => ProgressView::Failed(
                SyncErrorView::UnexpectedEvent { url: state.url },
            ),
        },
        EventView::Listing(entries) => match state.phase {
            ListingPhase::AwaitEntries => ProgressView::Done(entries),
            ListingPhase::AwaitStatus => ProgressView::Failed(
                SyncErrorView::UnexpectedEvent { url: state.url },
            ),
        },
        EventView::Malformed => match state.phase {
            ListingPhase::AwaitEntries => ProgressView::Failed(
                SyncErrorView::ListMalformed { url: state.url, category: state.category },
            ),
            ListingPhase::AwaitStatus => ProgressView::Failed(
                SyncErrorView::UnexpectedEvent { url: state.url },
            ),
        },
        EventView::Body(_) => ProgressView::Failed(
            SyncErrorView::UnexpectedEvent { url: state.url },
        ),
    }
}

impl ListingFetch {
    /// Starts the fetch of the listing of `category` from the repository at
    /// `repo`, a normalized base address.
    pub fn start(repo: &str, category: Category) -> (started: (ListingFetch, Action))
        ensures
            (started.0@, started.1@) == listing_start(repo@, category),
    {
        let url = listing_url(repo, category);
        let request = Request::list(url.clone());
        (ListingFetch { url, category, phase: ListingPhase::AwaitStatus }, Action::Send(request))
    }

    /// Takes the answer to the listing request, or the entries read from it.
    pub fn step(self, event: Event) -> (progress: Progress<ListingFetch, Listing>)
        ensures
            progress@ == listing_step(self@, event@),
    {
        let ListingFetch { url, category, phase } = self;
        match event {
            Event::Unreachable => Progress::Failed(SyncError::Transport { url }),
            Event::Status(status) => match phase {
                ListingPhase::AwaitStatus => {
                    if is_success(status) {
                        Progress::Next(
                            ListingFetch { url, category, phase: ListingPhase::AwaitEntries },
                            Action::ReadListing,
                        )
                    } else if status == NOT_FOUND {
                        Progress::Done(Listing::empty())
                    } else {
                        Progress::Failed(SyncError::ListRejected { url, category, status })
                    }
                },
                ListingPhase::AwaitEntries => Progress::Failed(SyncError::UnexpectedEvent { url }),
            },
            Event::Listing(listing) => match phase {
                ListingPhase::AwaitEntries => Progress::Done(listing),
                ListingPhase::AwaitStatus => Progress::Failed(SyncError::UnexpectedEvent { url }),
            },
            Event::Malformed => match phase {
                ListingPhase::AwaitEntries => Progress::Failed(
                    SyncError::ListMalformed { url, category },
                ),
                ListingPhase::AwaitStatus => Progress::Failed(SyncError::UnexpectedEvent { url }),
            },
            Event::Body(_) => Progress::Failed(SyncError::UnexpectedEvent { url }),
        }
    }
}

} // verus!
