//! Whole runs against a driver whose answers are given: the order of the
//! components, and what a failure leaves undone.

use vstd::prelude::*;
use crate::address::{config_address, create_address, normalized};
use crate::category::Category;
use crate::category_run::{
    authentic, category_run, deletes_actions, deletes_events, lemma_category_follows_plan,
    lemma_category_stops_at_first_fault, listing_actions, listing_events, transfers_actions,
    transfers_events, Fault,
};
use crate::category_sync::{category_start, category_step, CategorySyncView};
use crate::engine::{engine_enter, engine_start, engine_step, StageView, SyncEngineView};
use crate::listing::Entry;
use crate::plan::plan_for;
use crate::protocol::{ActionView, EventView, ProgressView, RequestView};
use crate::status::{FORBIDDEN, NOT_FOUND};

verus! {

/// Where a run stands once the driver has reported `events` one after
/// another, and the actions that it has asked for on the way. Events
/// reported after the end are ignored.
pub open spec fn engine_run(
    progress: ProgressView<SyncEngineView, ()>,
    events: Seq<EventView>,
) -> (ProgressView<SyncEngineView, ()>, Seq<ActionView>)
    decreases events.len(),
{
    match progress {
        ProgressView::Next(state, action) => if events.len() == 0 {
            (progress, seq![action])
        } else {
            let (end, asked) = engine_run(engine_step(state, events.first()), events.drop_first());
            (end, seq![action] + asked)
        },
        _ => (progress, Seq::empty()),
    }
}

/// The run `engine`, busy with the reconciliation `sync` of a category.
pub open spec fn engine_within(engine: SyncEngineView, sync: CategorySyncView) -> SyncEngineView {
    SyncEngineView { stage: StageView::Category(sync), ..engine }
}

/// Where a run stands when it has reconciled `category`: at the start of
/// the category that follows, or at its end.
pub open spec fn engine_leave(engine: SyncEngineView, category: Category) -> ProgressView<
    SyncEngineView,
    (),
> {
    match category.successor() {
        Some(following) => engine_enter(engine, following),
        None => ProgressView::Done(()),
    }
}

/// What the driver meets in one category where nothing goes wrong: the two
/// listings, and the bytes that the source hands out for the objects to
/// transfer, in the order of the plan.
pub struct CategoryScript {
    /// The listing of the source.
    pub listed: Seq<Entry>,
    /// The listing of the destination.
    pub present: Seq<Entry>,
    /// The content of each object that the plan names for transfer.
    pub contents: Seq<Seq<u8>>,
}

impl CategoryScript {
    /// Whether the source hands out, for each object to transfer, bytes that
    /// hash to the object's name.
    pub open spec fn fits(self, prune: bool) -> bool {
        authentic(plan_for(self.listed, self.present, prune).to_transfer, self.contents)
    }

    /// What the driver reports while the category is reconciled.
    pub open spec fn events(self, prune: bool) -> Seq<EventView> {
        listing_events(self.listed, self.present) + (transfers_events(self.contents)
            + deletes_events(plan_for(self.listed, self.present, prune).to_delete.len()))
    }

    /// What the reconciliation of `category` asks for within the run
    /// `engine`.
    pub open spec fn actions(self, engine: SyncEngineView, category: Category) -> Seq<
        ActionView,
    > {
        let (state, _) = category_start(engine.source, engine.dest, category, engine.prune);
        let plan = plan_for(self.listed, self.present, engine.prune);
        listing_actions(state) + (transfers_actions(state, plan.to_transfer, self.contents)
            + deletes_actions(state, plan.to_delete))
    }
}

/// How the reconciliation of the configuration goes where it ends well.
pub enum ConfigScript {
    /// The source holds no configuration.
    Absent,
    /// The source holds `config`, and the destination accepts it.
    Written { config: Seq<u8> },
    /// The source holds `config`, and the destination holds the same.
    Matching { config: Seq<u8> },
}

impl ConfigScript {
    /// What the driver reports while the configuration is reconciled.
    pub open spec fn events(self) -> Seq<EventView> {
        match self {
            ConfigScript::Absent => seq![EventView::Status(NOT_FOUND)],
            ConfigScript::Written { config } => seq![
                EventView::Status(200),
                EventView::Body(config),
                EventView::Status(200),
            ],
            ConfigScript::Matching { config } => seq![
                EventView::Status(200),
                EventView::Body(config),
                EventView::Status(FORBIDDEN),
                EventView::Status(200),
                EventView::Body(config),
            ],
        }
    }

    /// What the reconciliation of the configuration asks for within the run
    /// `engine`.
    pub open spec fn actions(self, engine: SyncEngineView) -> Seq<ActionView> {
        let fetch = ActionView::Send(RequestView::fetch(config_address(engine.source)));
        let store = |config: Seq<u8>|
            ActionView::Send(RequestView::store(config_address(engine.dest), config));
        match self {
            ConfigScript::Absent => seq![fetch],
            ConfigScript::Written { config } => seq![fetch, ActionView::ReadBody, store(config)],
            ConfigScript::Matching { config } => seq![
                fetch,
                ActionView::ReadBody,
                store(config),
                ActionView::Send(RequestView::fetch(config_address(engine.dest))),
                ActionView::ReadBody,
            ],
        }
    }
}

/// One exchange of a run: the pending action is asked for, the first event
/// is taken, and the run goes on with the events that are left.
proof fn lemma_exchange(
    state: SyncEngineView,
    action: ActionView,
    event: EventView,
    rest: Seq<EventView>,
)
    ensures
        engine_run(ProgressView::Next(state, action), seq![event] + rest) == ({
            let (end, asked) = engine_run(engine_step(state, event), rest);
            (end, seq![action] + asked)
        }),
{
    let events = seq![event] + rest;
    assert(events.first() == event);
    assert(events.drop_first() =~= rest);
}

/// A category that fails ends the whole run: the run fails with the same
/// failure, having asked for what the category asked for and nothing else.
/// No further category is attempted, whatever is reported afterwards.
pub proof fn lemma_failed_category_ends_run(
    engine: SyncEngineView,
    sync: CategorySyncView,
    action: ActionView,
    events: Seq<EventView>,
    afterwards: Seq<EventView>,
)
    requires
        category_run(ProgressView::Next(sync, action), events).0 is Failed,
    ensures
        engine_run(ProgressView::Next(engine_within(engine, sync), action), events + afterwards)
            == (
            ProgressView::<SyncEngineView, ()>::Failed(
                category_run(ProgressView::Next(sync, action), events).0->Failed_0,
            ),
            category_run(ProgressView::Next(sync, action), events).1,
        ),
    decreases events.len(),
{
    let run = category_run(ProgressView::Next(sync, action), events);
    if events.len() == 0 {
        assert(run.0 is Next);
    } else {
        let event = events.first();
        let rest = events.drop_first();
        let stepped = category_step(sync, event);
        let inner = category_run(stepped, rest);
        assert(run == (inner.0, seq![action] + inner.1));
        lemma_exchange(engine_within(engine, sync), action, event, rest + afterwards);
        assert(events + afterwards =~= seq![event] + (rest + afterwards));
        match stepped {
            ProgressView::Next(moved, asked) => {
                lemma_failed_category_ends_run(engine, moved, asked, rest, afterwards);
                assert(engine_step(engine_within(engine, sync), event) == ProgressView::<
                    SyncEngineView,
                    (),
                >::Next(engine_within(engine, moved), asked));
            },
            ProgressView::Failed(error) => {
                assert(inner == (stepped, Seq::<ActionView>::empty()));
                assert(engine_step(engine_within(engine, sync), event) == ProgressView::<
                    SyncEngineView,
                    (),
                >::Failed(error));
            },
            ProgressView::Done(_) => {
                assert(inner.0 is Done);
            },
        }
    }
}

/// A category that ends well hands over: the run has asked for what the
/// category asked for, and goes on with the category that follows as if it
/// had started there; after the last category it ends well.
pub proof fn lemma_finished_category_hands_over(
    engine: SyncEngineView,
    sync: CategorySyncView,
    action: ActionView,
    events: Seq<EventView>,
    more: Seq<EventView>,
)
    requires
        category_run(ProgressView::Next(sync, action), events).0 is Done,
        category_run(ProgressView::Next(sync, action), events).1.len() == events.len(),
    ensures
        engine_run(ProgressView::Next(engine_within(engine, sync), action), events + more) == ({
            let (end, later) = engine_run(engine_leave(engine, sync.category), more);
            (end, category_run(ProgressView::Next(sync, action), events).1 + later)
        }),
    decreases events.len(),
{
    let run = category_run(ProgressView::Next(sync, action), events);
    let (end, later) = engine_run(engine_leave(engine, sync.category), more);
    if events.len() == 0 {
        assert(run.0 is Next);
    } else {
        let event = events.first();
        let rest = events.drop_first();
        let stepped = category_step(sync, event);
        let inner = category_run(stepped, rest);
        assert(run == (inner.0, seq![action] + inner.1));
        lemma_exchange(engine_within(engine, sync), action, event, rest + more);
        assert(events + more =~= seq![event] + (rest + more));
        match stepped {
            ProgressView::Next(moved, asked) => {
                lemma_finished_category_hands_over(engine, moved, asked, rest, more);
                assert(moved.category == sync.category);
                assert(engine_step(engine_within(engine, sync), event) == ProgressView::<
                    SyncEngineView,
                    (),
                >::Next(engine_within(engine, moved), asked));
                assert(seq![action] + (inner.1 + later) =~= (seq![action] + inner.1) + later);
            },
            ProgressView::Done(_) => {
                assert(inner == (stepped, Seq::<ActionView>::empty()));
                assert(run.1.len() == 1);
                assert(rest + more =~= more);
                assert(engine_step(engine_within(engine, sync), event) == engine_leave(
                    engine,
                    sync.category,
                ));
                assert(seq![action] + later =~= (seq![action] + Seq::<ActionView>::empty())
                    + later);
            },
            ProgressView::Failed(_) => {
                assert(inner.0 is Failed);
            },
        }
    }
}

/// A run aborts at the first failure. When, while a run reconciles a
/// category, the objects `done` have been transferred without incident and
/// the transfer of the object that the plan names next goes wrong, the run
/// fails with that transfer's failure. The objects transferred before have
/// been uploaded and stay. The run has asked for nothing beyond the failed
/// transfer: bytes that hash to another name are not uploaded, nothing of
/// the category is deleted, and no further category is attempted, whatever
/// is reported afterwards.
pub proof fn lemma_run_aborts_at_first_fault(
    engine: SyncEngineView,
    category: Category,
    listed: Seq<Entry>,
    present: Seq<Entry>,
    done: Seq<Seq<char>>,
    contents: Seq<Seq<u8>>,
    name: Seq<char>,
    fault: Fault,
    rest: Seq<Seq<char>>,
    afterwards: Seq<EventView>,
)
    requires
        plan_for(listed, present, engine.prune).to_transfer == done + (seq![name] + rest),
        authentic(done, contents),
        fault.befalls(name),
    ensures
        ({
            let (state, first) = category_start(engine.source, engine.dest, category, engine.prune);
            engine_run(
                engine_enter(engine, category),
                listing_events(listed, present) + (transfers_events(contents) + (fault.events()
                    + afterwards)),
            ) == (
                ProgressView::<SyncEngineView, ()>::Failed(fault.failure(state, name)),
                listing_actions(state) + (transfers_actions(state, done, contents)
                    + fault.actions(state, name)),
            )
        }),
{
    let (state, first) = category_start(engine.source, engine.dest, category, engine.prune);
    let nothing = Seq::<EventView>::empty();
    let events = listing_events(listed, present) + (transfers_events(contents) + (fault.events()
        + nothing));
    lemma_category_stops_at_first_fault(
        engine.source,
        engine.dest,
        category,
        engine.prune,
        listed,
        present,
        done,
        contents,
        name,
        fault,
        rest,
        nothing,
    );
    lemma_failed_category_ends_run(engine, state, first, events, afterwards);
    assert(events + afterwards =~= listing_events(listed, present) + (transfers_events(contents)
        + (fault.events() + afterwards)));
}

/// Each transfer without incident answers three actions with three events.
proof fn lemma_transfers_are_answered(
    state: CategorySyncView,
    names: Seq<Seq<char>>,
    contents: Seq<Seq<u8>>,
)
    requires
        names.len() == contents.len(),
    ensures
        transfers_events(contents).len() == 3 * contents.len(),
        transfers_actions(state, names, contents).len() == 3 * names.len(),
    decreases names.len(),
{
    if names.len() > 0 {
        lemma_transfers_are_answered(state, names.drop_first(), contents.drop_first());
    }
}

/// One category within a run: where nothing goes wrong, the run asks for
/// what the category's plan says, and then goes on with the category that
/// follows as if it had started there; after the last category it ends
/// well.
pub proof fn lemma_category_in_run(
    engine: SyncEngineView,
    category: Category,
    script: CategoryScript,
    more: Seq<EventView>,
)
    requires
        script.fits(engine.prune),
    ensures
        engine_run(engine_enter(engine, category), script.events(engine.prune) + more) == ({
            let (end, later) = engine_run(engine_leave(engine, category), more);
            (end, script.actions(engine, category) + later)
        }),
{
    let (state, first) = category_start(engine.source, engine.dest, category, engine.prune);
    let plan = plan_for(script.listed, script.present, engine.prune);
    lemma_category_follows_plan(
        engine.source,
        engine.dest,
        category,
        engine.prune,
        script.listed,
        script.present,
        script.contents,
    );
    lemma_transfers_are_answered(state, plan.to_transfer, script.contents);
    assert(script.events(engine.prune).len() == script.actions(engine, category).len());
    lemma_finished_category_hands_over(engine, state, first, script.events(engine.prune), more);
    assert(engine_enter(engine, category) == ProgressView::<SyncEngineView, ()>::Next(
        engine_within(engine, state),
        first,
    ));
}

/// The beginning of a run: it asks for the creation of the destination
/// repository, reconciles the configuration, and then turns to the first
/// category.
pub proof fn lemma_run_begins(
    source: Seq<char>,
    dest: Seq<char>,
    prune: bool,
    config: ConfigScript,
    more: Seq<EventView>,
)
    ensures
        ({
            let (engine, create) = engine_start(source, dest, prune);
            let (end, later) = engine_run(engine_enter(engine, Category::Data), more);
            &&& create == ActionView::Send(RequestView::create(create_address(normalized(dest))))
            &&& engine_run(
                ProgressView::Next(engine, create),
                seq![EventView::Status(200)] + (config.events() + more),
            ) == (end, seq![create] + (config.actions(engine) + later))
        }),
{
    let (engine, create) = engine_start(source, dest, prune);
    let (end, later) = engine_run(engine_enter(engine, Category::Data), more);
    let first = engine_step(engine, EventView::Status(200));
    let asking = first->Next_0;
    let fetch = first->Next_1;
    lemma_exchange(engine, create, EventView::Status(200), config.events() + more);
    match config {
        ConfigScript::Absent => {
            lemma_exchange(asking, fetch, EventView::Status(NOT_FOUND), more);
            assert(config.events() + more =~= seq![EventView::Status(NOT_FOUND)] + more);
            assert(engine_step(asking, EventView::Status(NOT_FOUND)) == engine_enter(
                engine,
                Category::Data,
            ));
            assert(seq![fetch] + later =~= config.actions(engine) + later);
        },
        ConfigScript::Written { config: bytes } => {
            let reading = engine_step(asking, EventView::Status(200))->Next_0;
            let third = engine_step(reading, EventView::Body(bytes));
            let e3 = seq![EventView::Status(200)] + more;
            let e2 = seq![EventView::Body(bytes)] + e3;
            lemma_exchange(asking, fetch, EventView::Status(200), e2);
            lemma_exchange(reading, ActionView::ReadBody, EventView::Body(bytes), e3);
            lemma_exchange(third->Next_0, third->Next_1, EventView::Status(200), more);
            assert(config.events() + more =~= seq![EventView::Status(200)] + e2);
            assert(engine_step(third->Next_0, EventView::Status(200)) == engine_enter(
                engine,
                Category::Data,
            ));
            assert(seq![fetch] + (seq![ActionView::ReadBody] + (seq![third->Next_1] + later))
                =~= config.actions(engine) + later);
        },
        ConfigScript::Matching { config: bytes } => {
            let reading = engine_step(asking, EventView::Status(200))->Next_0;
            let third = engine_step(reading, EventView::Body(bytes));
            let fourth = engine_step(third->Next_0, EventView::Status(FORBIDDEN));
            let comparing = engine_step(fourth->Next_0, EventView::Status(200))->Next_0;
            let e5 = seq![EventView::Body(bytes)] + more;
            let e4 = seq![EventView::Status(200)] + e5;
            let e3 = seq![EventView::Status(FORBIDDEN)] + e4;
            let e2 = seq![EventView::Body(bytes)] + e3;
            lemma_exchange(asking, fetch, EventView::Status(200), e2);
            lemma_exchange(reading, ActionView::ReadBody, EventView::Body(bytes), e3);
            lemma_exchange(third->Next_0, third->Next_1, EventView::Status(FORBIDDEN), e4);
            lemma_exchange(fourth->Next_0, fourth->Next_1, EventView::Status(200), e5);
            lemma_exchange(comparing, ActionView::ReadBody, EventView::Body(bytes), more);
            assert(config.events() + more =~= seq![EventView::Status(200)] + e2);
            assert(engine_step(comparing, EventView::Body(bytes)) == engine_enter(
                engine,
                Category::Data,
            ));
            assert(seq![fetch] + (seq![ActionView::ReadBody] + (seq![third->Next_1] + (seq![
                fourth->Next_1,
            ] + (seq![ActionView::ReadBody] + later)))) =~= config.actions(engine) + later);
        },
    }
}

/// A run without incident: the destination repository is created, the
/// configuration is reconciled, and the five categories are reconciled in
/// their order, each as its plan says. The run asks for nothing else and
/// ends well.
pub proof fn lemma_run_without_incident(
    source: Seq<char>,
    dest: Seq<char>,
    prune: bool,
    config: ConfigScript,
    data: CategoryScript,
    keys: CategoryScript,
    locks: CategoryScript,
    snapshots: CategoryScript,
    index: CategoryScript,
)
    requires
        data.fits(prune),
        keys.fits(prune),
        locks.fits(prune),
        snapshots.fits(prune),
        index.fits(prune),
    ensures
        ({
            let (engine, create) = engine_start(source, dest, prune);
            engine_run(
                ProgressView::Next(engine, create),
                seq![EventView::Status(200)] + (config.events() + (data.events(prune) + (
                keys.events(prune) + (locks.events(prune) + (snapshots.events(prune)
                    + index.events(prune)))))),
            ) == (
                ProgressView::<SyncEngineView, ()>::Done(()),
                seq![create] + (config.actions(engine) + (data.actions(engine, Category::Data) + (
                keys.actions(engine, Category::Keys) + (locks.actions(engine, Category::Locks) + (
                snapshots.actions(engine, Category::Snapshots) + index.actions(
                    engine,
                    Category::Index,
                )))))),
            )
        }),
{
    let (engine, create) = engine_start(source, dest, prune);
    let none = Seq::<EventView>::empty();
    let after_snapshots = index.events(prune);
    let after_locks = snapshots.events(prune) + after_snapshots;
    let after_keys = locks.events(prune) + after_locks;
    let after_data = keys.events(prune) + after_keys;
    let after_config = data.events(prune) + after_data;
    lemma_category_in_run(engine, Category::Index, index, none);
    assert(index.events(prune) + none =~= after_snapshots);
    assert(index.actions(engine, Category::Index) + Seq::<ActionView>::empty()
        =~= index.actions(engine, Category::Index));
    lemma_category_in_run(engine, Category::Snapshots, snapshots, after_snapshots);
    lemma_category_in_run(engine, Category::Locks, locks, after_locks);
    lemma_category_in_run(engine, Category::Keys, keys, after_keys);
    lemma_category_in_run(engine, Category::Data, data, after_data);
    lemma_run_begins(source, dest, prune, config, after_config);
}

} // verus!
