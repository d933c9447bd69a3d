//! Runs of a category's reconciliation against a driver whose answers are
//! given: what is asked for, in which order, and how the run ends.

use vstd::prelude::*;
use crate::address::{listing_address, object_address};
use crate::category::Category;
use crate::category_sync::{category_proceed, category_start, category_step, CategorySyncView};
use crate::content::content_name;
use crate::listing::{names, snapshot, Entry};
use crate::plan::{carried_out, lemma_second_plan_is_empty, plan_for};
use crate::protocol::{ActionView, EventView, ProgressView, RequestView, SyncErrorView};
use crate::status::{success_code, NOT_FOUND};

verus! {

/// Where the reconciliation of a category stands once the driver has
/// reported `events` one after another, and the actions that it has asked
/// for on the way. Events reported after the end are ignored.
pub open spec fn category_run(
    progress: ProgressView<CategorySyncView, ()>,
    events: Seq<EventView>,
) -> (ProgressView<CategorySyncView, ()>, Seq<ActionView>)
    decreases events.len(),
{
    match progress {
        ProgressView::Next(state, action) => if events.len() == 0 {
            (progress, seq![action])
        } else {
            let (end, asked) = category_run(
                category_step(state, events.first()),
                events.drop_first(),
            );
            (end, seq![action] + asked)
        },
        _ => (progress, Seq::empty()),
    }
}

/// What the driver reports while both listings of a category are fetched
/// without incident: `listed` from the source, `present` from the
/// destination.
pub open spec fn listing_events(listed: Seq<Entry>, present: Seq<Entry>) -> Seq<EventView> {
    seq![
        EventView::Status(200),
        EventView::Listing(listed),
        EventView::Status(200),
        EventView::Listing(present),
    ]
}

/// What fetching both listings of a category asks for.
pub open spec fn listing_actions(state: CategorySyncView) -> Seq<ActionView> {
    seq![
        ActionView::Send(RequestView::list(listing_address(state.source, state.category))),
        ActionView::ReadListing,
        ActionView::Send(RequestView::list(listing_address(state.dest, state.category))),
        ActionView::ReadListing,
    ]
}

/// What the driver reports while an object with `content` is transferred
/// without incident.
pub open spec fn transfer_events(content: Seq<u8>) -> Seq<EventView> {
    seq![EventView::Status(200), EventView::Body(content), EventView::Status(200)]
}

/// What the transfer of the object `name` with `content` asks for.
pub open spec fn transfer_actions(
    state: CategorySyncView,
    name: Seq<char>,
    content: Seq<u8>,
) -> Seq<ActionView> {
    seq![
        ActionView::Send(RequestView::fetch(object_address(state.source, state.category, name))),
        ActionView::ReadBody,
        ActionView::Send(
            RequestView::store(object_address(state.dest, state.category, name), content),
        ),
    ]
}

/// What the driver reports while objects with `contents` are transferred
/// one after another without incident.
pub open spec fn transfers_events(contents: Seq<Seq<u8>>) -> Seq<EventView>
    decreases contents.len(),
{
    if contents.len() == 0 {
        Seq::empty()
    } else {
        transfer_events(contents.first()) + transfers_events(contents.drop_first())
    }
}

/// What the transfers of the objects `names` with `contents` ask for.
pub open spec fn transfers_actions(
    state: CategorySyncView,
    names: Seq<Seq<char>>,
    contents: Seq<Seq<u8>>,
) -> Seq<ActionView>
    decreases names.len(),
{
    if names.len() == 0 {
        Seq::empty()
    } else {
        transfer_actions(state, names.first(), contents.first()) + transfers_actions(
            state,
            names.drop_first(),
            contents.drop_first(),
        )
    }
}

/// What the driver reports while `count` objects are deleted without
/// incident.
pub open spec fn deletes_events(count: nat) -> Seq<EventView> {
    Seq::new(count, |at: int| EventView::Status(200))
}

/// What the deletions of the objects `names` ask for.
pub open spec fn deletes_actions(state: CategorySyncView, names: Seq<Seq<char>>) -> Seq<
    ActionView,
> {
    Seq::new(
        names.len(),
        |at: int|
            ActionView::Send(
                RequestView::remove(object_address(state.dest, state.category, names[at])),
            ),
    )
}

/// Whether `contents` are what `names` stand for, one by one.
pub open spec fn authentic(names: Seq<Seq<char>>, contents: Seq<Seq<u8>>) -> bool {
    &&& names.len() == contents.len()
    &&& forall|at: int| 0 <= at < names.len() ==> content_name(#[trigger] contents[at]) == names[at]
}

/// How the transfer of one object goes wrong.
pub enum Fault {
    /// The source refuses the download with `status`.
    DownloadRefused { status: u16 },
    /// The source hands out `content`, which hashes to another name.
    Corrupt { content: Seq<u8> },
    /// The source hands out `content`, and the destination refuses the
    /// upload with `status`.
    UploadRefused { content: Seq<u8>, status: u16 },
}

impl Fault {
    /// Whether the transfer of the object `name` can go wrong in this way.
    pub open spec fn befalls(self, name: Seq<char>) -> bool {
        match self {
            Fault::DownloadRefused { status } => !success_code(status),
            Fault::Corrupt { content } => content_name(content) != name,
            Fault::UploadRefused { content, status } => content_name(content) == name
                && !success_code(status),
        }
    }

    /// What the driver reports while the transfer goes wrong.
    pub open spec fn events(self) -> Seq<EventView> {
        match self {
            Fault::DownloadRefused { status } => seq![EventView::Status(status)],
            Fault::Corrupt { content } => seq![EventView::Status(200), EventView::Body(content)],
            Fault::UploadRefused { content, status } => seq![
                EventView::Status(200),
                EventView::Body(content),
                EventView::Status(status),
            ],
        }
    }

    /// What the transfer of the object `name` asks for until it fails.
    pub open spec fn actions(self, state: CategorySyncView, name: Seq<char>) -> Seq<ActionView> {
        let download = ActionView::Send(
            RequestView::fetch(object_address(state.source, state.category, name)),
        );
        match self {
            Fault::DownloadRefused { .. } => seq![download],
            Fault::Corrupt { .. } => seq![download, ActionView::ReadBody],
            Fault::UploadRefused { content, .. } => transfer_actions(state, name, content),
        }
    }

    /// The failure with which the transfer of the object `name` ends.
    pub open spec fn failure(self, state: CategorySyncView, name: Seq<char>) -> SyncErrorView {
        match self {
            Fault::DownloadRefused { status } => SyncErrorView::DownloadRejected {
                url: object_address(state.source, state.category, name),
                status,
            },
            Fault::Corrupt { content } => SyncErrorView::HashMismatch {
                name,
                actual: content_name(content),
            },
            Fault::UploadRefused { status, .. } => SyncErrorView::UploadRejected {
                url: object_address(state.dest, state.category, name),
                status,
            },
        }
    }
}

/// One exchange of a run: the pending action is asked for, the first event
/// is taken, and the run goes on with the events that are left.
proof fn lemma_exchange(
    state: CategorySyncView,
    action: ActionView,
    event: EventView,
    rest: Seq<EventView>,
)
    ensures
        category_run(ProgressView::Next(state, action), seq![event] + rest) == ({
            let (end, asked) = category_run(category_step(state, event), rest);
            (end, seq![action] + asked)
        }),
{
    let events = seq![event] + rest;
    assert(events.first() == event);
    assert(events.drop_first() =~= rest);
}

/// Listings without incident: the run asks for the source's listing and
/// then for the destination's, and goes on with the plan for the two.
pub proof fn lemma_listings_in_run(
    source: Seq<char>,
    dest: Seq<char>,
    category: Category,
    prune: bool,
    listed: Seq<Entry>,
    present: Seq<Entry>,
    more: Seq<EventView>,
)
    ensures
        ({
            let (state, first) = category_start(source, dest, category, prune);
            let plan = plan_for(listed, present, prune);
            let (end, asked) = category_run(
                category_proceed(state, plan.to_transfer, plan.to_delete),
                more,
            );
            category_run(ProgressView::Next(state, first), listing_events(listed, present) + more)
                == (end, listing_actions(state) + asked)
        }),
{
    let (state, first) = category_start(source, dest, category, prune);
    let plan = plan_for(listed, present, prune);
    let (end, asked) = category_run(
        category_proceed(state, plan.to_transfer, plan.to_delete),
        more,
    );
    let reads_source = category_step(state, EventView::Status(200))->Next_0;
    let second = category_step(reads_source, EventView::Listing(listed));
    let reads_dest = category_step(second->Next_0, EventView::Status(200))->Next_0;
    let e4 = seq![EventView::Listing(present)] + more;
    let e3 = seq![EventView::Status(200)] + e4;
    let e2 = seq![EventView::Listing(listed)] + e3;
    lemma_exchange(state, first, EventView::Status(200), e2);
    lemma_exchange(reads_source, ActionView::ReadListing, EventView::Listing(listed), e3);
    lemma_exchange(second->Next_0, second->Next_1, EventView::Status(200), e4);
    lemma_exchange(reads_dest, ActionView::ReadListing, EventView::Listing(present), more);
    assert(listing_events(listed, present) + more =~= seq![EventView::Status(200)] + e2);
    assert(seq![first] + (seq![ActionView::ReadListing] + (seq![second->Next_1] + (seq![
        ActionView::ReadListing,
    ] + asked))) =~= listing_actions(state) + asked);
}

/// Where neither repository has materialized a category, its reconciliation
/// asks for the two listings and for nothing else, and ends well, with or
/// without pruning.
pub proof fn lemma_absent_category_needs_nothing(
    source: Seq<char>,
    dest: Seq<char>,
    category: Category,
    prune: bool,
)
    ensures
        ({
            let (state, first) = category_start(source, dest, category, prune);
            category_run(
                ProgressView::Next(state, first),
                seq![EventView::Status(NOT_FOUND), EventView::Status(NOT_FOUND)],
            ) == (
                ProgressView::<CategorySyncView, ()>::Done(()),
                seq![
                    ActionView::Send(RequestView::list(listing_address(source, category))),
                    ActionView::Send(RequestView::list(listing_address(dest, category))),
                ],
            )
        }),
{
    let (state, first) = category_start(source, dest, category, prune);
    let second = category_step(state, EventView::Status(NOT_FOUND));
    let nothing = Seq::<EventView>::empty();
    lemma_exchange(state, first, EventView::Status(NOT_FOUND), seq![EventView::Status(NOT_FOUND)]);
    lemma_exchange(second->Next_0, second->Next_1, EventView::Status(NOT_FOUND), nothing);
    assert(names(Seq::<Entry>::empty()) =~= Seq::<Seq<char>>::empty());
    assert(category_step(second->Next_0, EventView::Status(NOT_FOUND)) == ProgressView::<
        CategorySyncView,
        (),
    >::Done(()));
    assert(seq![EventView::Status(NOT_FOUND)] + nothing =~= seq![EventView::Status(NOT_FOUND)]);
    assert(seq![EventView::Status(NOT_FOUND), EventView::Status(NOT_FOUND)] =~= seq![
        EventView::Status(NOT_FOUND),
    ] + seq![EventView::Status(NOT_FOUND)]);
    assert(seq![first] + (seq![second->Next_1] + Seq::<ActionView>::empty()) =~= seq![
        first,
        second->Next_1,
    ]);
}

/// One transfer without incident: the run asks for the download, the body
/// and the upload of the first queued object, and then goes on with what is
/// left as if it had started there.
proof fn lemma_transfer_in_run(
    state: CategorySyncView,
    name: Seq<char>,
    content: Seq<u8>,
    rest: Seq<Seq<char>>,
    deletes: Seq<Seq<char>>,
    more: Seq<EventView>,
)
    requires
        content_name(content) == name,
    ensures
        category_run(
            category_proceed(state, seq![name] + rest, deletes),
            transfer_events(content) + more,
        ) == ({
            let (end, asked) = category_run(category_proceed(state, rest, deletes), more);
            (end, transfer_actions(state, name, content) + asked)
        }),
{
    let (end, asked) = category_run(category_proceed(state, rest, deletes), more);
    let queue = seq![name] + rest;
    assert(queue.first() == name);
    assert(queue.drop_first() =~= rest);
    let first = category_proceed(state, queue, deletes);
    let reading = category_step(first->Next_0, EventView::Status(200))->Next_0;
    let third = category_step(reading, EventView::Body(content));
    let e3 = seq![EventView::Status(200)] + more;
    let e2 = seq![EventView::Body(content)] + e3;
    lemma_exchange(first->Next_0, first->Next_1, EventView::Status(200), e2);
    lemma_exchange(reading, ActionView::ReadBody, EventView::Body(content), e3);
    lemma_exchange(third->Next_0, third->Next_1, EventView::Status(200), more);
    assert(category_step(third->Next_0, EventView::Status(200)) == category_proceed(
        state,
        rest,
        deletes,
    ));
    assert(transfer_events(content) + more =~= seq![EventView::Status(200)] + e2);
    assert(seq![first->Next_1] + (seq![ActionView::ReadBody] + (seq![third->Next_1] + asked))
        =~= transfer_actions(state, name, content) + asked);
}

/// Transfers without incident: the run asks for each queued object in
/// turn, and then goes on with what is left as if it had started there.
pub proof fn lemma_transfers_in_run(
    state: CategorySyncView,
    names: Seq<Seq<char>>,
    contents: Seq<Seq<u8>>,
    rest: Seq<Seq<char>>,
    deletes: Seq<Seq<char>>,
    more: Seq<EventView>,
)
    requires
        authentic(names, contents),
    ensures
        category_run(
            category_proceed(state, names + rest, deletes),
            transfers_events(contents) + more,
        ) == ({
            let (end, asked) = category_run(category_proceed(state, rest, deletes), more);
            (end, transfers_actions(state, names, contents) + asked)
        }),
    decreases names.len(),
{
    let (end, asked) = category_run(category_proceed(state, rest, deletes), more);
    if names.len() == 0 {
        assert(names + rest =~= rest);
        assert(transfers_events(contents) + more =~= more);
        assert(transfers_actions(state, names, contents) + asked =~= asked);
    } else {
        let name = names.first();
        let content = contents.first();
        let later_names = names.drop_first();
        let later_contents = contents.drop_first();
        assert(authentic(later_names, later_contents)) by {
            assert forall|at: int| 0 <= at < later_names.len() implies content_name(
                #[trigger] later_contents[at],
            ) == later_names[at] by {
                assert(later_contents[at] == contents[at + 1]);
                assert(later_names[at] == names[at + 1]);
            }
        }
        lemma_transfers_in_run(state, later_names, later_contents, rest, deletes, more);
        lemma_transfer_in_run(
            state,
            name,
            content,
            later_names + rest,
            deletes,
            transfers_events(later_contents) + more,
        );
        assert(seq![name] + (later_names + rest) =~= names + rest);
        assert(transfer_events(content) + (transfers_events(later_contents) + more)
            =~= transfers_events(contents) + more);
        assert(transfer_actions(state, name, content) + (transfers_actions(
            state,
            later_names,
            later_contents,
        ) + asked) =~= transfers_actions(state, names, contents) + asked);
    }
}

/// Deletions without incident: with no transfer left, the run asks for the
/// removal of each queued object in turn and ends well.
pub proof fn lemma_deletes_in_run(state: CategorySyncView, deletes: Seq<Seq<char>>)
    ensures
        category_run(
            category_proceed(state, Seq::empty(), deletes),
            deletes_events(deletes.len()),
        ) == (ProgressView::<CategorySyncView, ()>::Done(()), deletes_actions(state, deletes)),
    decreases deletes.len(),
{
    if deletes.len() == 0 {
        assert(deletes_actions(state, deletes) =~= Seq::<ActionView>::empty());
    } else {
        let later = deletes.drop_first();
        let first = category_proceed(state, Seq::empty(), deletes);
        lemma_deletes_in_run(state, later);
        lemma_exchange(
            first->Next_0,
            first->Next_1,
            EventView::Status(200),
            deletes_events(later.len()),
        );
        assert(category_step(first->Next_0, EventView::Status(200)) == category_proceed(
            state,
            Seq::empty(),
            later,
        ));
        assert(deletes_events(deletes.len()) =~= seq![EventView::Status(200)] + deletes_events(
            later.len(),
        ));
        assert(seq![first->Next_1] + deletes_actions(state, later) =~= deletes_actions(
            state,
            deletes,
        ));
    }
}

/// One transfer that goes wrong: the run fails with the transfer's failure.
/// It has asked for nothing beyond that transfer, and asks for nothing more
/// whatever is reported afterwards.
proof fn lemma_fault_in_run(
    state: CategorySyncView,
    name: Seq<char>,
    fault: Fault,
    rest: Seq<Seq<char>>,
    deletes: Seq<Seq<char>>,
    afterwards: Seq<EventView>,
)
    requires
        fault.befalls(name),
    ensures
        category_run(
            category_proceed(state, seq![name] + rest, deletes),
            fault.events() + afterwards,
        ) == (
            ProgressView::<CategorySyncView, ()>::Failed(fault.failure(state, name)),
            fault.actions(state, name),
        ),
{
    let queue = seq![name] + rest;
    assert(queue.first() == name);
    assert(queue.drop_first() =~= rest);
    let first = category_proceed(state, queue, deletes);
    let nothing = Seq::<ActionView>::empty();
    match fault {
        Fault::DownloadRefused { status } => {
            lemma_exchange(first->Next_0, first->Next_1, EventView::Status(status), afterwards);
            assert(seq![first->Next_1] + nothing =~= fault.actions(state, name));
        },
        Fault::Corrupt { content } => {
            let reading = category_step(first->Next_0, EventView::Status(200))->Next_0;
            let e2 = seq![EventView::Body(content)] + afterwards;
            lemma_exchange(first->Next_0, first->Next_1, EventView::Status(200), e2);
            lemma_exchange(reading, ActionView::ReadBody, EventView::Body(content), afterwards);
            assert(fault.events() + afterwards =~= seq![EventView::Status(200)] + e2);
            assert(seq![first->Next_1] + (seq![ActionView::ReadBody] + nothing)
                =~= fault.actions(state, name));
        },
        Fault::UploadRefused { content, status } => {
            let reading = category_step(first->Next_0, EventView::Status(200))->Next_0;
            let third = category_step(reading, EventView::Body(content));
            let e3 = seq![EventView::Status(status)] + afterwards;
            let e2 = seq![EventView::Body(content)] + e3;
            lemma_exchange(first->Next_0, first->Next_1, EventView::Status(200), e2);
            lemma_exchange(reading, ActionView::ReadBody, EventView::Body(content), e3);
            lemma_exchange(third->Next_0, third->Next_1, EventView::Status(status), afterwards);
            assert(fault.events() + afterwards =~= seq![EventView::Status(200)] + e2);
            assert(seq![first->Next_1] + (seq![ActionView::ReadBody] + (seq![third->Next_1]
                + nothing)) =~= fault.actions(state, name));
        },
    }
}

/// The reconciliation of a category does what the plan says and nothing
/// else. Where nothing goes wrong, it fetches the source's listing and the
/// destination's, transfers the objects that the plan names for transfer,
/// in the plan's order and each with the bytes that the source handed out,
/// then deletes the objects that the plan names for deletion, in the plan's
/// order, and ends well.
pub proof fn lemma_category_follows_plan(
    source: Seq<char>,
    dest: Seq<char>,
    category: Category,
    prune: bool,
    listed: Seq<Entry>,
    present: Seq<Entry>,
    contents: Seq<Seq<u8>>,
)
    requires
        authentic(plan_for(listed, present, prune).to_transfer, contents),
    ensures
        ({
            let (state, first) = category_start(source, dest, category, prune);
            let plan = plan_for(listed, present, prune);
            category_run(
                ProgressView::Next(state, first),
                listing_events(listed, present) + (transfers_events(contents) + deletes_events(
                    plan.to_delete.len(),
                )),
            ) == (
                ProgressView::<CategorySyncView, ()>::Done(()),
                listing_actions(state) + (transfers_actions(state, plan.to_transfer, contents)
                    + deletes_actions(state, plan.to_delete)),
            )
        }),
{
    let (state, first) = category_start(source, dest, category, prune);
    let plan = plan_for(listed, present, prune);
    let removals = deletes_events(plan.to_delete.len());
    lemma_listings_in_run(
        source,
        dest,
        category,
        prune,
        listed,
        present,
        transfers_events(contents) + removals,
    );
    lemma_transfers_in_run(
        state,
        plan.to_transfer,
        contents,
        Seq::empty(),
        plan.to_delete,
        removals,
    );
    lemma_deletes_in_run(state, plan.to_delete);
    assert(plan.to_transfer + Seq::<Seq<char>>::empty() =~= plan.to_transfer);
}

/// A run repeated changes nothing: once the plan for a category has been
/// carried out against an unchanged source, the next reconciliation of that
/// category fetches both listings and ends well, without a single transfer
/// or deletion.
pub proof fn lemma_second_run_is_idle(
    source: Seq<char>,
    dest: Seq<char>,
    category: Category,
    prune: bool,
    listed: Seq<Entry>,
    present: Seq<Entry>,
    after: Seq<Entry>,
)
    requires
        snapshot(after) == carried_out(
            snapshot(listed),
            snapshot(present),
            plan_for(listed, present, prune),
        ),
    ensures
        ({
            let (state, first) = category_start(source, dest, category, prune);
            category_run(ProgressView::Next(state, first), listing_events(listed, after)) == (
                ProgressView::<CategorySyncView, ()>::Done(()),
                listing_actions(state),
            )
        }),
{
    let (state, first) = category_start(source, dest, category, prune);
    lemma_second_plan_is_empty(listed, present, after, prune);
    lemma_listings_in_run(source, dest, category, prune, listed, after, Seq::empty());
    assert(listing_events(listed, after) + Seq::<EventView>::empty() =~= listing_events(
        listed,
        after,
    ));
    assert(listing_actions(state) + Seq::<ActionView>::empty() =~= listing_actions(state));
}

/// The first failure ends the reconciliation of a category. When the plan
/// names `done`, then `name`, then `rest` for transfer, the objects of
/// `done` are transferred without incident, and the transfer of `name` goes
/// wrong, the reconciliation fails with that transfer's failure. It has
/// asked for both listings, for the transfers of `done`, and for the
/// transfer of `name` as far as that went. It has asked for nothing else:
/// no object of `rest` is touched and nothing is deleted. It asks for
/// nothing more whatever is reported afterwards.
pub proof fn lemma_category_stops_at_first_fault(
    source: Seq<char>,
    dest: Seq<char>,
    category: Category,
    prune: bool,
    listed: Seq<Entry>,
    present: Seq<Entry>,
    done: Seq<Seq<char>>,
    contents: Seq<Seq<u8>>,
    name: Seq<char>,
    fault: Fault,
    rest: Seq<Seq<char>>,
    afterwards: Seq<EventView>,
)
    requires
        plan_for(listed, present, prune).to_transfer == done + (seq![name] + rest),
        authentic(done, contents),
        fault.befalls(name),
    ensures
        ({
            let (state, first) = category_start(source, dest, category, prune);
            category_run(
                ProgressView::Next(state, first),
                listing_events(listed, present) + (transfers_events(contents) + (fault.events()
                    + afterwards)),
            ) == (
                ProgressView::<CategorySyncView, ()>::Failed(fault.failure(state, name)),
                listing_actions(state) + (transfers_actions(state, done, contents)
                    + fault.actions(state, name)),
            )
        }),
{
    let (state, first) = category_start(source, dest, category, prune);
    let plan = plan_for(listed, present, prune);
    let failing = fault.events() + afterwards;
    lemma_listings_in_run(
        source,
        dest,
        category,
        prune,
        listed,
        present,
        transfers_events(contents) + failing,
    );
    lemma_transfers_in_run(state, done, contents, seq![name] + rest, plan.to_delete, failing);
    lemma_fault_in_run(state, name, fault, rest, plan.to_delete, afterwards);
}

} // verus!
