//! The reconciliation of one category: both listings, the plan, then the
//! transfers and the deletions, one at a time.

use vstd::prelude::*;
use std::collections::VecDeque;
use crate::address::object_address;
use crate::category::Category;
use crate::content::content_name;
use crate::delete::{delete_start, delete_step, ObjectDelete, ObjectDeleteView};
use crate::fetch::{listing_start, listing_step, ListingFetch, ListingFetchView};
use crate::listing::{Entry, Listing};
use crate::plan::{plan_for, plan_sync, queued, TransferPlan};
use crate::protocol::{
    Action, ActionView, Event, EventView, Method, Progress, ProgressView, RequestView,
    SyncErrorView,
};
use crate::transfer::{
    lemma_stored_content_is_verified, transfer_start, transfer_step, BlobTransfer,
    BlobTransferView,
};

verus! {

/// What the reconciliation of a category is busy with.
#[derive(Clone, Debug, PartialEq, Eq)]
pub enum CategoryPhase {
    /// Fetching the listing of the source.
    ListSource(ListingFetch),
    /// Fetching the listing of the destination; `listed` is the source's.
    ListDest { listed: Listing, fetch: ListingFetch },
    /// Transferring `current`; `transfers` and `deletes` are still to do.
    Transfer { current: BlobTransfer, transfers: VecDeque<String>, deletes: VecDeque<String> },
    /// Deleting `removal`; `deletes` are still to do.
    Delete { removal: ObjectDelete, deletes: VecDeque<String> },
}

/// What a `CategoryPhase` holds, as plain values.
pub enum CategoryPhaseView {
    ListSource(ListingFetchView),
    ListDest { listed: Seq<Entry>, fetch: ListingFetchView },
    Transfer { current: BlobTransferView, transfers: Seq<Seq<char>>, deletes: Seq<Seq<char>> },
    Delete { removal: ObjectDeleteView, deletes: Seq<Seq<char>> },
}

impl View for CategoryPhase {
    type V = CategoryPhaseView;

    open spec fn view(&self) -> CategoryPhaseView {
        match self {
            CategoryPhase::ListSource(fetch) => CategoryPhaseView::ListSource(fetch@),
            CategoryPhase::ListDest { listed, fetch } => CategoryPhaseView::ListDest {
                listed: listed@,
                fetch: fetch@,
            },
            CategoryPhase::Transfer { current, transfers, deletes } => CategoryPhaseView::Transfer {
                current: current@,
                transfers: queued(transfers@),
                deletes: queued(deletes@),
            },
            CategoryPhase::Delete { removal, deletes } => CategoryPhaseView::Delete {
                removal: removal@,
                deletes: queued(deletes@),
            },
        }
    }
}

/// The machine that reconciles one category.
///
/// Objects are transferred and deleted strictly one after another, and the
/// first failure ends the run: what was transferred before stays, and
/// nothing further is attempted.
#[derive(Clone, Debug, PartialEq, Eq)]
pub struct CategorySync {
    /// The normalized base address of the source.
    pub source: String,
    /// The normalized base address of the destination.
    pub dest: String,
    pub category: Category,
    /// Whether objects that only the destination holds are deleted.
    pub prune: bool,
    pub phase: CategoryPhase,
}

/// What a `CategorySync` holds, as plain values.
pub struct CategorySyncView {
    pub source: Seq<char>,
    pub dest: Seq<char>,
    pub category: Category,
    pub prune: bool,
    pub phase: CategoryPhaseView,
}

impl View for CategorySync {
    type V = CategorySyncView;

    open spec fn view(&self) -> CategorySyncView {
        CategorySyncView {
            source: self.source@,
            dest: self.dest@,
            category: self.category,
            prune: self.prune,
            phase: self.phase@,
        }
    }
}

/// The state in which the reconciliation of `category` starts, and its
/// first action: the request for the source's listing.
pub open spec fn category_start(
    source: Seq<char>,
    dest: Seq<char>,
    category: Category,
    prune: bool,
) -> (CategorySyncView, ActionView) {
    let (fetch, action) = listing_start(source, category);
    (
        CategorySyncView {
            source,
            dest,
            category,
            prune,
            phase: CategoryPhaseView::ListSource(fetch),
        },
        action,
    )
}

/// Where the reconciliation stands with `transfers` and `deletes` left to
/// do: at the first transfer; with none left, at the first deletion; with
/// nothing left, at its end.
pub open spec fn category_proceed(
    state: CategorySyncView,
    transfers: Seq<Seq<char>>,
    deletes: Seq<Seq<char>>,
) -> ProgressView<CategorySyncView, ()> {
    if transfers.len() > 0 {
        let (current, action) = transfer_start(
            state.source,
            state.dest,
            state.category,
            transfers.first(),
        );
        ProgressView::Next(
            CategorySyncView {
                phase: CategoryPhaseView::Transfer {
                    current,
                    transfers: transfers.drop_first(),
                    deletes,
                },
                ..state
            },
            action,
        )
    } else if deletes.len() > 0 {
        let (removal, action) = delete_start(state.dest, state.category, deletes.first());
        ProgressView::Next(
            CategorySyncView {
                phase: CategoryPhaseView::Delete { removal, deletes: deletes.drop_first() },
                ..state
            },
            action,
        )
    } else {
        ProgressView::Done(())
    }
}

/// What the reconciliation of a category does on `event`.
pub open spec fn category_step(state: CategorySyncView, event: EventView) -> ProgressView<
    CategorySyncView,
    (),
> {
    match state.phase {
        CategoryPhaseView::ListSource(fetch) => match listing_step(fetch, event) {
            ProgressView::Next(fetch, action) => ProgressView::Next(
                CategorySyncView { phase: CategoryPhaseView::ListSource(fetch), ..state },
                action,
            ),
            ProgressView::Done(listed) => {
                let (fetch, action) = listing_start(state.dest, state.category);
                ProgressView::Next(
                    CategorySyncView {
                        phase: CategoryPhaseView::ListDest { listed, fetch },
                        ..state
                    },
                    action,
                )
            },
            ProgressView::Failed(error) => ProgressView::Failed(error),
        },
        CategoryPhaseView::ListDest { listed, fetch } => match listing_step(fetch, event) {
            ProgressView::Next(fetch, action) => ProgressView::Next(
                CategorySyncView { phase: CategoryPhaseView::ListDest { listed, fetch }, ..state },
                action,
            ),
            ProgressView::Done(present) => {
                let plan = plan_for(listed, present, state.prune);
                category_proceed(state, plan.to_transfer, plan.to_delete)
            },
            ProgressView::Failed(error) => ProgressView::Failed(error),
        },
        CategoryPhaseView::Transfer { current, transfers, deletes } => match transfer_step(
            current,
            event,
        ) {
            ProgressView::Next(current, action) => ProgressView::Next(
                CategorySyncView {
                    phase: CategoryPhaseView::Transfer { current, transfers, deletes },
                    ..state
                },
                action,
            ),
            ProgressView::Done(_) => category_proceed(state, transfers, deletes),
            ProgressView::Failed(error) => ProgressView::Failed(error),
        },
        CategoryPhaseView::Delete { removal, deletes } => match delete_step(removal, event) {
            ProgressView::Next(removal, action) => ProgressView::Next(
                CategorySyncView { phase: CategoryPhaseView::Delete { removal, deletes }, ..state },
                action,
            ),
            ProgressView::Done(_) => category_proceed(state, Seq::empty(), deletes),
            ProgressView::Failed(error) => ProgressView::Failed(error),
        },
    }
}

/// Carries on with what is left to do of a category.
fn proceed(
    source: String,
    dest: String,
    category: Category,
    prune: bool,
    transfers: VecDeque<String>,
    deletes: VecDeque<String>,
) -> (progress: Progress<CategorySync, ()>)
    ensures
        forall|phase: CategoryPhaseView|
            progress@ == category_proceed(
                CategorySyncView { source: source@, dest: dest@, category, prune, phase },
                queued(transfers@),
                queued(deletes@),
            ),
{
    let mut transfers = transfers;
    let mut deletes = deletes;
    let ghost transfers_before = queued(transfers@);
    let ghost deletes_before = queued(deletes@);
    match transfers.pop_front() {
        Some(name) => {
            assert(queued(transfers@) =~= transfers_before.drop_first());
            let (current, action) = BlobTransfer::start(
                source.as_str(),
                dest.as_str(),
                category,
                name,
            );
            Progress::Next(
                CategorySync {
                    source,
                    dest,
                    category,
                    prune,
                    phase: CategoryPhase::Transfer { current, transfers, deletes },
                },
                action,
            )
        },
        None => match deletes.pop_front() {
            Some(name) => {
                assert(queued(deletes@) =~= deletes_before.drop_first());
                let (removal, action) = ObjectDelete::start(dest.as_str(), category, name.as_str());
                Progress::Next(
                    CategorySync {
                        source,
                        dest,
                        category,
                        prune,
                        phase: CategoryPhase::Delete { removal, deletes },
                    },
                    action,
                )
            },
            None => Progress::Done(()),
        },
    }
}

impl CategorySync {
    /// Starts the reconciliation of `category` between the repositories at
    /// `source` and `dest`, both normalized base addresses.
    pub fn start(source: String, dest: String, category: Category, prune: bool) -> (started: (
        CategorySync,
        Action,
    ))
        ensures
            (started.0@, started.1@) == category_start(source@, dest@, category, prune),
    {
        let (fetch, action) = ListingFetch::start(source.as_str(), category);
        (
            CategorySync { source, dest, category, prune, phase: CategoryPhase::ListSource(fetch) },
            action,
        )
    }

    /// Takes the event that the last action led to.
    pub fn step(self, event: Event) -> (progress: Progress<CategorySync, ()>)
        ensures
            progress@ == category_step(self@, event@),
    {
        let ghost before = self@;
        let CategorySync { source, dest, category, prune, phase } = self;
        match phase {
            CategoryPhase::ListSource(fetch) => match fetch.step(event) {
                Progress::Next(fetch, action) => Progress::Next(
                    CategorySync {
                        source,
                        dest,
                        category,
                        prune,
                        phase: CategoryPhase::ListSource(fetch),
                    },
                    action,
                ),
                Progress::Done(listed) => {
                    let (fetch, action) = ListingFetch::start(dest.as_str(), category);
                    Progress::Next(
                        CategorySync {
                            source,
                            dest,
                            category,
                            prune,
                            phase: CategoryPhase::ListDest { listed, fetch },
                        },
                        action,
                    )
                },
                Progress::Failed(error) => Progress::Failed(error),
            },
            CategoryPhase::ListDest { listed, fetch } => match fetch.step(event) {
                Progress::Next(fetch, action) => Progress::Next(
                    CategorySync {
                        source,
                        dest,
                        category,
                        prune,
                        phase: CategoryPhase::ListDest { listed, fetch },
                    },
                    action,
                ),
                Progress::Done(present) => {
                    let TransferPlan { to_transfer, to_delete } = plan_sync(
                        &listed,
                        &present,
                        prune,
                    );
                    proceed(source, dest, category, prune, to_transfer, to_delete)
                },
                Progress::Failed(error) => Progress::Failed(error),
            },
            CategoryPhase::Transfer { current, transfers, deletes } => match current.step(event) {
                Progress::Next(current, action) => Progress::Next(
                    CategorySync {
                        source,
                        dest,
                        category,
                        prune,
                        phase: CategoryPhase::Transfer { current, transfers, deletes },
                    },
                    action,
                ),
                Progress::Done(_) => proceed(source, dest, category, prune, transfers, deletes),
                Progress::Failed(error) => Progress::Failed(error),
            },
            CategoryPhase::Delete { removal, deletes } => match removal.step(event) {
                Progress::Next(removal, action) => Progress::Next(
                    CategorySync {
                        source,
                        dest,
                        category,
                        prune,
                        phase: CategoryPhase::Delete { removal, deletes },
                    },
                    action,
                ),
                Progress::Done(_) => {
                    proceed(source, dest, category, prune, VecDeque::new(), deletes)
                },
                Progress::Failed(error) => Progress::Failed(error),
            },
        }
    }
}

/// A request with content that the reconciliation of a category asks for
/// belongs to the transfer at work, goes to that object's address at the
/// destination, and carries bytes that hash to the object's name.
pub proof fn lemma_category_stores_verified_content(
    state: CategorySyncView,
    event: EventView,
    following: CategorySyncView,
    request: RequestView,
)
    requires
        category_step(state, event) == ProgressView::<CategorySyncView, ()>::Next(
            following,
            ActionView::Send(request),
        ),
        request.body is Some,
    ensures
        state.phase is Transfer,
        request.method == Method::Post,
        request.url == state.phase->Transfer_current.dest_url,
        content_name(request.body->0) == state.phase->Transfer_current.name,
{
    match state.phase {
        CategoryPhaseView::Transfer { current, transfers, deletes } => {
            match transfer_step(current, event) {
                ProgressView::Next(moved, action) => {
                    lemma_stored_content_is_verified(current, event, moved, request);
                },
                _ => {},
            }
        },
        _ => {},
    }
}

/// Whether nothing is, or is yet to be, deleted.
pub open spec fn deletes_nothing(state: CategorySyncView) -> bool {
    match state.phase {
        CategoryPhaseView::ListSource(_) => true,
        CategoryPhaseView::ListDest { .. } => true,
        CategoryPhaseView::Transfer { deletes, .. } => deletes.len() == 0,
        CategoryPhaseView::Delete { .. } => false,
    }
}

/// Without pruning nothing is ever deleted: the reconciliation of a
/// category starts with no deletion in sight, stays so with every step, and
/// in that condition never asks for a removal.
pub proof fn lemma_no_deletion_without_prune(state: CategorySyncView, event: EventView)
    requires
        !state.prune,
        deletes_nothing(state),
    ensures
        deletes_nothing(category_start(state.source, state.dest, state.category, false).0),
        category_step(state, event) matches ProgressView::Next(following, action) ==> {
            &&& !following.prune
            &&& deletes_nothing(following)
            &&& action matches ActionView::Send(request) ==> request.method != Method::Delete
        },
{
}

/// Deletions follow transfers: while a transfer is at work, a removal is
/// asked for only by the step on which that transfer ends well with no other
/// transfer left. So when a transfer fails, nothing of the category has been
/// deleted.
pub proof fn lemma_deletions_follow_transfers(
    state: CategorySyncView,
    event: EventView,
    following: CategorySyncView,
    request: RequestView,
)
    requires
        state.phase is Transfer,
        category_step(state, event) == ProgressView::<CategorySyncView, ()>::Next(
            following,
            ActionView::Send(request),
        ),
        request.method == Method::Delete,
    ensures
        transfer_step(state.phase->Transfer_current, event) is Done,
        state.phase->Transfer_transfers.len() == 0,
        state.phase->Transfer_deletes.len() > 0,
        request == RequestView::remove(
            object_address(state.dest, state.category, state.phase->Transfer_deletes.first()),
        ),
{
}

/// The failure of the fetch, transfer or removal at work on `event`, if it
/// fails.
pub open spec fn failure_at_work(state: CategorySyncView, event: EventView) -> Option<
    SyncErrorView,
> {
    match state.phase {
        CategoryPhaseView::ListSource(fetch) => match listing_step(fetch, event) {
            ProgressView::Failed(error) => Some(error),
            _ => None,
        },
        CategoryPhaseView::ListDest { fetch, .. } => match listing_step(fetch, event) {
            ProgressView::Failed(error) => Some(error),
            _ => None,
        },
        CategoryPhaseView::Transfer { current, .. } => match transfer_step(current, event) {
            ProgressView::Failed(error) => Some(error),
            _ => None,
        },
        CategoryPhaseView::Delete { removal, .. } => match delete_step(removal, event) {
            ProgressView::Failed(error) => Some(error),
            _ => None,
        },
    }
}

/// The reconciliation of a category fails exactly when the fetch, transfer
/// or removal at work fails, at once and with the same failure. What is
/// still queued is dropped, and what was done before is not undone.
pub proof fn lemma_failure_at_work_ends_category(state: CategorySyncView, event: EventView)
    ensures
        match failure_at_work(state, event) {
            Some(error) => category_step(state, event) == ProgressView::<
                CategorySyncView,
                (),
            >::Failed(error),
            None => !(category_step(state, event) is Failed),
        },
{
}

} // verus!
