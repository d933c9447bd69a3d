//! The sync orchestrator: one run from the creation of the destination
//! repository through the configuration to the last category.

use vstd::prelude::*;
use crate::address::{normalize_url, normalized};
use crate::category::Category;
use crate::category_sync::{
    category_start, category_step, deletes_nothing, failure_at_work,
    lemma_category_stores_verified_content, lemma_failure_at_work_ends_category,
    lemma_no_deletion_without_prune, CategorySync, CategorySyncView,
};
use crate::config::{config_start, config_step, ConfigSync, ConfigSyncView};
use crate::content::content_name;
use crate::init::{init_start, init_step, RepoInit, RepoInitView};
use crate::protocol::{
    Action, ActionView, Event, EventView, Method, Progress, ProgressView, RequestView,
    SyncErrorView,
};

verus! {

/// The component that a run is busy with.
#[derive(Clone, Debug, PartialEq, Eq)]
pub enum Stage {
    /// Making sure that the destination repository exists.
    Create(RepoInit),
    /// Reconciling the configuration.
    Config(ConfigSync),
    /// Reconciling one category.
    Category(CategorySync),
}

/// What a `Stage` holds, as plain values.
pub enum StageView {
    Create(RepoInitView),
    Config(ConfigSyncView),
    Category(CategorySyncView),
}

impl View for Stage {
    type V = StageView;

    open spec fn view(&self) -> StageView {
        match self {
            Stage::Create(init) => StageView::Create(init@),
            Stage::Config(config) => StageView::Config(config@),
            Stage::Category(sync) => StageView::Category(sync@),
        }
    }
}

/// One run of the reconciliation, as a machine.
///
/// A run is a single pass: the destination repository is created if absent,
/// the configuration is reconciled, and then the categories are reconciled
/// in their order. The first failure of any component ends the run. There is
/// no resuming: the next run starts from the beginning and finds cheaply
/// what is already in place.
#[derive(Clone, Debug, PartialEq, Eq)]
pub struct SyncEngine {
    /// The normalized base address of the source.
    pub source: String,
    /// The normalized base address of the destination.
    pub dest: String,
    /// Whether objects that only the destination holds are deleted.
    pub prune: bool,
    pub stage: Stage,
}

/// What a `SyncEngine` holds, as plain values.
pub struct SyncEngineView {
    pub source: Seq<char>,
    pub dest: Seq<char>,
    pub prune: bool,
    pub stage: StageView,
}

impl View for SyncEngine {
    type V = SyncEngineView;

    open spec fn view(&self) -> SyncEngineView {
        SyncEngineView {
            source: self.source@,
            dest: self.dest@,
            prune: self.prune,
            stage: self.stage@,
        }
    }
}

/// The state in which a run starts, and its first action: the request that
/// creates the destination repository. Both addresses are normalized first.
pub open spec fn engine_start(source: Seq<char>, dest: Seq<char>, prune: bool) -> (
    SyncEngineView,
    ActionView,
) {
    let (init, action) = init_start(normalized(dest));
    (
        SyncEngineView {
            source: normalized(source),
            dest: normalized(dest),
            prune,
            stage: StageView::Create(init),
        },
        action,
    )
}

/// Where a run stands when it turns to `category`.
pub open spec fn engine_enter(state: SyncEngineView, category: Category) -> ProgressView<
    SyncEngineView,
    (),
> {
    let (sync, action) = category_start(state.source, state.dest, category, state.prune);
    ProgressView::Next(SyncEngineView { stage: StageView::Category(sync), ..state }, action)
}

/// What a run does on `event`.
pub open spec fn engine_step(state: SyncEngineView, event: EventView) -> ProgressView<
    SyncEngineView,
    (),
> {
    match state.stage {
        StageView::Create(init) => match init_step(init, event) {
            ProgressView::Next(init, action) => ProgressView::Next(
                SyncEngineView { stage: StageView::Create(init), ..state },
                action,
            ),
            ProgressView::Done(_) => {
                let (config, action) = config_start(state.source, state.dest);
                ProgressView::Next(
                    SyncEngineView { stage: StageView::Config(config), ..state },
                    action,
                )
            },
            ProgressView::Failed(error) => ProgressView::Failed(error),
        },
        StageView::Config(config) => match config_step(config, event) {
            ProgressView::Next(config, action) => ProgressView::Next(
                SyncEngineView { stage: StageView::Config(config), ..state },
                action,
            ),
            ProgressView::Done(_) => engine_enter(state, Category::Data),
            ProgressView::Failed(error) => ProgressView::Failed(error),
        },
        StageView::Category(sync) => match category_step(sync, event) {
            ProgressView::Next(sync, action) => ProgressView::Next(
                SyncEngineView { stage: StageView::Category(sync), ..state },
                action,
            ),
            ProgressView::Done(_) => match sync.category.successor() {
                Some(following) => engine_enter(state, following),
                None => ProgressView::Done(()),
            },
            ProgressView::Failed(error) => ProgressView::Failed(error),
        },
    }
}

impl SyncEngine {
    /// Starts a run that makes the repository at `dest` hold what the one at
    /// `source` holds and, with `prune`, nothing else.
    pub fn start(source: &str, dest: &str, prune: bool) -> (started: (SyncEngine, Action))
        ensures
            (started.0@, started.1@) == engine_start(source@, dest@, prune),
    {
        let source = normalize_url(source);
        let dest = normalize_url(dest);
        let (init, action) = RepoInit::start(dest.as_str());
        (SyncEngine { source, dest, prune, stage: Stage::Create(init) }, action)
    }

    /// Turns to `category`.
    fn enter(source: String, dest: String, prune: bool, category: Category) -> (progress: Progress<
        SyncEngine,
        (),
    >)
        ensures
            forall|stage: StageView|
                progress@ == engine_enter(
                    SyncEngineView { source: source@, dest: dest@, prune, stage },
                    category,
                ),
    {
        let (sync, action) = CategorySync::start(source.clone(), dest.clone(), category, prune);
        Progress::Next(SyncEngine { source, dest, prune, stage: Stage::Category(sync) }, action)
    }

    /// Takes the event that the last action led to, and says how the run
    /// goes on.
    pub fn step(self, event: Event) -> (progress: Progress<SyncEngine, ()>)
        ensures
            progress@ == engine_step(self@, event@),
    {
        let SyncEngine { source, dest, prune, stage } = self;
        match stage {
            Stage::Create(init) => match init.step(event) {
                Progress::Next(init, action) => Progress::Next(
                    SyncEngine { source, dest, prune, stage: Stage::Create(init) },
                    action,
                ),
                Progress::Done(_) => {
                    let (config, action) = ConfigSync::start(source.as_str(), dest.as_str());
                    Progress::Next(
                        SyncEngine { source, dest, prune, stage: Stage::Config(config) },
                        action,
                    )
                },
                Progress::Failed(error) => Progress::Failed(error),
            },
            Stage::Config(config) => match config.step(event) {
                Progress::Next(config, action) => Progress::Next(
                    SyncEngine { source, dest, prune, stage: Stage::Config(config) },
                    action,
                ),
                Progress::Done(_) => SyncEngine::enter(source, dest, prune, Category::first()),
                Progress::Failed(error) => Progress::Failed(error),
            },
            Stage::Category(sync) => {
                let category = sync.category;
                match sync.step(event) {
                    Progress::Next(sync, action) => Progress::Next(
                        SyncEngine { source, dest, prune, stage: Stage::Category(sync) },
                        action,
                    ),
                    Progress::Done(_) => match category.next() {
                        Some(following) => SyncEngine::enter(source, dest, prune, following),
                        None => Progress::Done(()),
                    },
                    Progress::Failed(error) => Progress::Failed(error),
                }
            },
        }
    }
}

/// The failure of the component at work on `event`, if it fails.
pub open spec fn failure_in_stage(state: SyncEngineView, event: EventView) -> Option<
    SyncErrorView,
> {
    match state.stage {
        StageView::Create(init) => match init_step(init, event) {
            ProgressView::Failed(error) => Some(error),
            _ => None,
        },
        StageView::Config(config) => match config_step(config, event) {
            ProgressView::Failed(error) => Some(error),
            _ => None,
        },
        StageView::Category(sync) => failure_at_work(sync, event),
    }
}

/// A run fails exactly when the component at work fails, at once and with
/// the same failure. A failed run holds no state and asks for nothing more,
/// so that no further object and no further category is attempted.
pub proof fn lemma_first_failure_ends_run(state: SyncEngineView, event: EventView)
    ensures
        match failure_in_stage(state, event) {
            Some(error) => engine_step(state, event) == ProgressView::<SyncEngineView, ()>::Failed(
                error,
            ),
            None => !(engine_step(state, event) is Failed),
        },
{
    match state.stage {
        StageView::Category(sync) => {
            lemma_failure_at_work_ends_category(sync, event);
        },
        _ => {},
    }
}

/// Whether a run without pruning has no deletion in sight.
pub open spec fn keeps_everything(state: SyncEngineView) -> bool {
    !state.prune && match state.stage {
        StageView::Category(sync) => !sync.prune && deletes_nothing(sync),
        _ => true,
    }
}

/// Without pruning a run never deletes: it starts with no deletion in
/// sight, stays so with every step, and in that condition never asks for a
/// removal. What a run has transferred therefore stays at the destination,
/// however the run ends.
pub proof fn lemma_run_without_prune_keeps_everything(
    source: Seq<char>,
    dest: Seq<char>,
    state: SyncEngineView,
    event: EventView,
)
    requires
        keeps_everything(state),
    ensures
        keeps_everything(engine_start(source, dest, false).0),
        match engine_step(state, event) {
            ProgressView::Next(following, action) => {
                &&& keeps_everything(following)
                &&& match action {
                    ActionView::Send(request) => request.method != Method::Delete,
                    _ => true,
                }
            },
            _ => true,
        },
{
    match state.stage {
        StageView::Category(sync) => {
            lemma_no_deletion_without_prune(sync, event);
        },
        _ => {},
    }
}

/// What a run writes: a request with content is either the write of the
/// source's configuration to the destination's configuration address, or
/// the upload of bytes that hash to the name of the object being
/// transferred, to that object's address at the destination.
pub proof fn lemma_run_stores_config_or_verified_content(
    state: SyncEngineView,
    event: EventView,
    following: SyncEngineView,
    request: RequestView,
)
    requires
        engine_step(state, event) == ProgressView::<SyncEngineView, ()>::Next(
            following,
            ActionView::Send(request),
        ),
        request.body is Some,
    ensures
        request.method == Method::Post,
        match state.stage {
            StageView::Create(_) => false,
            StageView::Config(config) => {
                &&& config.phase is AwaitSourceContent
                &&& request.url == config.dest_url
                &&& event == EventView::Body(request.body->0)
            },
            StageView::Category(sync) => {
                &&& sync.phase is Transfer
                &&& request.url == sync.phase->Transfer_current.dest_url
                &&& content_name(request.body->0) == sync.phase->Transfer_current.name
            },
        },
{
    match state.stage {
        StageView::Category(sync) => {
            match category_step(sync, event) {
                ProgressView::Next(moved, action) => {
                    lemma_category_stores_verified_content(sync, event, moved, request);
                },
                _ => {},
            }
        },
        _ => {},
    }
}

} // verus!
