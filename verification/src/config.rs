//! The config reconciler: establishes or validates the destination's
//! configuration without ever overwriting one that differs.
//!
//! The configuration is the one object of a repository that is mutable and
//! not named by its hash, so that two copies can only be compared byte for
//! byte. The reconciler writes the source's configuration as a create
//! operation. If the destination refuses because it holds one already, the
//! reconciler reads that one back and compares.

use vstd::prelude::*;
use crate::address::{config_address, config_url};
use crate::protocol::{
    Action, ActionView, Event, EventView, Method, Progress, ProgressView, Request, RequestView,
    SyncError, SyncErrorView,
};
use crate::status::{is_success, success_code, FORBIDDEN, NOT_FOUND};

verus! {

/// How the reconciliation of the configuration ended well.
#[derive(Clone, Copy, Debug, PartialEq, Eq, Structural)]
pub enum ConfigOutcome {
    /// The source holds no configuration: there is nothing to synchronize.
    Absent,
    /// The destination held none and now holds the source's.
    Written,
    /// The destination already held the source's configuration.
    AlreadyMatching,
}

impl View for ConfigOutcome {
    type V = ConfigOutcome;

    open spec fn view(&self) -> ConfigOutcome {
        *self
    }
}

/// What the config reconciler waits for.
#[derive(Clone, Debug, PartialEq, Eq)]
pub enum ConfigPhase {
    /// The status of the request for the source's configuration.
    AwaitSource,
    /// The bytes of the source's configuration.
    AwaitSourceContent,
    /// The status of the request that writes `config` to the destination.
    AwaitWrite { config: Vec<u8> },
    /// The status of the request for the destination's configuration, which
    /// is to be compared with `config`.
    AwaitExisting { config: Vec<u8> },
    /// The bytes of the destination's configuration.
    AwaitExistingContent { config: Vec<u8> },
}

/// What a `ConfigPhase` holds, as plain values.
pub enum ConfigPhaseView {
    AwaitSource,
    AwaitSourceContent,
    AwaitWrite { config: Seq<u8> },
    AwaitExisting { config: Seq<u8> },
    AwaitExistingContent { config: Seq<u8> },
}

impl View for ConfigPhase {
    type V = ConfigPhaseView;

    open spec fn view(&self) -> ConfigPhaseView {
        match self {
            ConfigPhase::AwaitSource => ConfigPhaseView::AwaitSource,
            ConfigPhase::AwaitSourceContent => ConfigPhaseView::AwaitSourceContent,
            ConfigPhase::AwaitWrite { config } => ConfigPhaseView::AwaitWrite { config: config@ },
            ConfigPhase::AwaitExisting { config } => ConfigPhaseView::AwaitExisting {
                config: config@,
            },
            ConfigPhase::AwaitExistingContent { config } => ConfigPhaseView::AwaitExistingContent {
                config: config@,
            },
        }
    }
}

/// The machine that reconciles the configuration.
#[derive(Clone, Debug, PartialEq, Eq)]
pub struct ConfigSync {
    /// The address of the configuration at the source.
    pub source_url: String,
    /// The address of the configuration at the destination.
    pub dest_url: String,
    pub phase: ConfigPhase,
}

/// What a `ConfigSync` holds, as plain values.
pub struct ConfigSyncView {
    pub source_url: Seq<char>,
    pub dest_url: Seq<char>,
    pub phase: ConfigPhaseView,
}

impl View for ConfigSync {
    type V = ConfigSyncView;

    open spec fn view(&self) -> ConfigSyncView {
        ConfigSyncView {
            source_url: self.source_url@,
            dest_url: self.dest_url@,
            phase: self.phase@,
        }
    }
}

/// The state in which the reconciler starts, and its first action.
pub open spec fn config_start(source: Seq<char>, dest: Seq<char>) -> (ConfigSyncView, ActionView) {
    (
        ConfigSyncView {
            source_url: config_address(source),
            dest_url: config_address(dest),
            phase: ConfigPhaseView::AwaitSource,
        },
        ActionView::Send(RequestView::fetch(config_address(source))),
    )
}

/// The address of the request that the reconciler waits on.
pub open spec fn config_peer(state: ConfigSyncView) -> Seq<char> {
    match state.phase {
        ConfigPhaseView::AwaitSource => state.source_url,
        ConfigPhaseView::AwaitSourceContent => state.source_url,
        _ => state.dest_url,
    }
}

/// What the reconciler does on a status code.
pub open spec fn config_on_status(state: ConfigSyncView, status: u16) -> ProgressView<
    ConfigSyncView,
    ConfigOutcome,
> {
    match state.phase {
        ConfigPhaseView::AwaitSource => if success_code(status) {
            ProgressView::Next(
                ConfigSyncView { phase: ConfigPhaseView::AwaitSourceContent, ..state },
                ActionView::ReadBody,
            )
        } else if status == NOT_FOUND {
            ProgressView::Done(ConfigOutcome::Absent)
        } else {
            ProgressView::Failed(
                SyncErrorView::ConfigFetchRejected { url: state.source_url, status },
            )
        },
        ConfigPhaseView::AwaitWrite { config } => if success_code(status) {
            ProgressView::Done(ConfigOutcome::Written)
        } else if status == FORBIDDEN {
            ProgressView::Next(
                ConfigSyncView { phase: ConfigPhaseView::AwaitExisting { config }, ..state },
                ActionView::Send(RequestView::fetch(state.dest_url)),
            )
        } else {
            ProgressView::Failed(SyncErrorView::ConfigWriteRejected { url: state.dest_url, status })
        },
        ConfigPhaseView::AwaitExisting { config } => if success_code(status) {
            ProgressView::Next(
                ConfigSyncView { phase: ConfigPhaseView::AwaitExistingContent { config }, ..state },
                ActionView::ReadBody,
            )
        } else {
            ProgressView::Failed(SyncErrorView::ConfigCheckRejected { url: state.dest_url, status })
        },
        _ => ProgressView::Failed(SyncErrorView::UnexpectedEvent { url: config_peer(state) }),
    }
}

/// What the reconciler does on the bytes of a response.
pub open spec fn config_on_body(state: ConfigSyncView, bytes: Seq<u8>) -> ProgressView<
    ConfigSyncView,
    ConfigOutcome,
> {
    match state.phase {
        ConfigPhaseView::AwaitSourceContent => ProgressView::Next(
            ConfigSyncView { phase: ConfigPhaseView::AwaitWrite { config: bytes }, ..state },
            ActionView::Send(RequestView::store(state.dest_url, bytes)),
        ),
        ConfigPhaseView::AwaitExistingContent { config } => if bytes == config {
            ProgressView::Done(ConfigOutcome::AlreadyMatching)
        } else {
            ProgressView::Failed(SyncErrorView::ConfigMismatch { url: state.dest_url })
        },
        _ => ProgressView::Failed(SyncErrorView::UnexpectedEvent { url: config_peer(state) }),
    }
}

/// What the reconciler does on `event`.
pub open spec fn config_step(state: ConfigSyncView, event: EventView) -> ProgressView<
    ConfigSyncView,
    ConfigOutcome,
> {
    match event {
        EventView::Unreachable => ProgressView::Failed(
            SyncErrorView::Transport { url: config_peer(state) },
        ),
        EventView::Status(status) => config_on_status(state, status),
        EventView::Body(bytes) => config_on_body(state, bytes),
        _ => ProgressView::Failed(SyncErrorView::UnexpectedEvent { url: config_peer(state) }),
    }
}

/// Whether two byte strings are equal.
pub fn same_bytes(left: &[u8], right: &[u8]) -> (same: bool)
    ensures
        same == (left@ == right@),
{
    if left.len() != right.len() {
        return false;
    }
    let count: usize = left.len();
    let mut at: usize = 0;
    while at < count
        invariant
            count == left@.len(),
            count == right@.len(),
            at <= count,
            forall|k: int| 0 <= k < at ==> left@[k] == right@[k],
        decreases count - at,
    {
        if left[at] != right[at] {
            return false;
        }
        at += 1;
    }
    assert(left@ =~= right@);
    true
}

impl ConfigSync {
    /// Starts the reconciliation of the configuration between the
    /// repositories at `source` and `dest`, both normalized base addresses.
    pub fn start(source: &str, dest: &str) -> (started: (ConfigSync, Action))
        ensures
            (started.0@, started.1@) == config_start(source@, dest@),
    {
        let source_url = config_url(source);
        let dest_url = config_url(dest);
        let request = Request::fetch(source_url.clone());
        (
            ConfigSync { source_url, dest_url, phase: ConfigPhase::AwaitSource },
            Action::Send(request),
        )
    }

    /// The address of the request that the reconciler waits on.
    fn peer(self) -> (url: String)
        ensures
            url@ == config_peer(self@),
    {
        match self.phase {
            ConfigPhase::AwaitSource => self.source_url,
            ConfigPhase::AwaitSourceContent => self.source_url,
            _ => self.dest_url,
        }
    }

    /// Takes the answer to a request of the reconciler, or the bytes of a
    /// configuration.
    pub fn step(self, event: Event) -> (progress: Progress<ConfigSync, ConfigOutcome>)
        ensures
            progress@ == config_step(self@, event@),
    {
        match event {
            Event::Unreachable => Progress::Failed(SyncError::Transport { url: self.peer() }),
            Event::Status(status) => self.on_status(status),
            Event::Body(bytes) => self.on_body(bytes),
            _ => Progress::Failed(SyncError::UnexpectedEvent { url: self.peer() }),
        }
    }

    fn on_status(self, status: u16) -> (progress: Progress<ConfigSync, ConfigOutcome>)
        ensures
            progress@ == config_on_status(self@, status),
    {
        let ConfigSync { source_url, dest_url, phase } = self;
        match phase {
            ConfigPhase::AwaitSource => {
                if is_success(status) {
                    Progress::Next(
                        ConfigSync { source_url, dest_url, phase: ConfigPhase::AwaitSourceContent },
                        Action::ReadBody,
                    )
                } else if status == NOT_FOUND {
                    Progress::Done(ConfigOutcome::Absent)
                } else {
                    Progress::Failed(SyncError::ConfigFetchRejected { url: source_url, status })
                }
            },
            ConfigPhase::AwaitWrite { config } => {
                if is_success(status) {
                    Progress::Done(ConfigOutcome::Written)
                } else if status == FORBIDDEN {
                    let request = Request::fetch(dest_url.clone());
                    Progress::Next(
                        ConfigSync {
                            source_url,
                            dest_url,
                            phase: ConfigPhase::AwaitExisting { config },
                        },
                        Action::Send(request),
                    )
                } else {
                    Progress::Failed(SyncError::ConfigWriteRejected { url: dest_url, status })
                }
            },
            ConfigPhase::AwaitExisting { config } => {
                if is_success(status) {
                    Progress::Next(
                        ConfigSync {
                            source_url,
                            dest_url,
                            phase: ConfigPhase::AwaitExistingContent { config },
                        },
                        Action::ReadBody,
                    )
                } else {
                    Progress::Failed(SyncError::ConfigCheckRejected { url: dest_url, status })
                }
            },
            ConfigPhase::AwaitSourceContent => Progress::Failed(
                SyncError::UnexpectedEvent { url: source_url },
            ),
            ConfigPhase::AwaitExistingContent { config } => Progress::Failed(
                SyncError::UnexpectedEvent { url: dest_url },
            ),
        }
    }

    fn on_body(self, bytes: Vec<u8>) -> (progress: Progress<ConfigSync, ConfigOutcome>)
        ensures
            progress@ == config_on_body(self@, bytes@),
    {
        let ConfigSync { source_url, dest_url, phase } = self;
        match phase {
            ConfigPhase::AwaitSourceContent => {
                let config = bytes.clone();
                let request = Request::store(dest_url.clone(), bytes);
                Progress::Next(
                    ConfigSync { source_url, dest_url, phase: ConfigPhase::AwaitWrite { config } },
                    Action::Send(request),
                )
            },
            ConfigPhase::AwaitExistingContent { config } => {
                if same_bytes(bytes.as_slice(), config.as_slice()) {
                    Progress::Done(ConfigOutcome::AlreadyMatching)
                } else {
                    Progress::Failed(SyncError::ConfigMismatch { url: dest_url })
                }
            },
            ConfigPhase::AwaitSource => Progress::Failed(
                SyncError::UnexpectedEvent { url: source_url },
            ),
            _ => Progress::Failed(SyncError::UnexpectedEvent { url: dest_url }),
        }
    }
}

/// The configurations of two repositories, as the reconciler meets them.
///
/// Each repository hands out the configuration that it holds under its own
/// address. The destination accepts a configuration only while it holds
/// none; otherwise it refuses with `FORBIDDEN` and keeps what it holds.
pub struct ConfigStores {
    /// The address of the configuration at the source.
    pub source_url: Seq<char>,
    /// The address of the configuration at the destination.
    pub dest_url: Seq<char>,
    /// What the source holds.
    pub source: Option<Seq<u8>>,
    /// What the destination holds.
    pub dest: Option<Seq<u8>>,
    /// The body of the response last given.
    pub at_hand: Seq<u8>,
}

/// How the stores answer a request for the configuration that `held` is.
pub open spec fn store_hands_out(stores: ConfigStores, held: Option<Seq<u8>>) -> (
    EventView,
    ConfigStores,
) {
    match held {
        Some(bytes) => (EventView::Status(200), ConfigStores { at_hand: bytes, ..stores }),
        None => (EventView::Status(NOT_FOUND), stores),
    }
}

/// The event with which the stores answer `action`, and what they hold
/// afterwards.
pub open spec fn stores_answer(stores: ConfigStores, action: ActionView) -> (
    EventView,
    ConfigStores,
) {
    match action {
        ActionView::Send(request) => if request.method == Method::Get && request.url
            == stores.source_url {
            store_hands_out(stores, stores.source)
        } else if request.method == Method::Get && request.url == stores.dest_url {
            store_hands_out(stores, stores.dest)
        } else if request.method == Method::Post && request.url == stores.dest_url {
            match (stores.dest, request.body) {
                (None, Some(bytes)) => (
                    EventView::Status(200),
                    ConfigStores { dest: Some(bytes), ..stores },
                ),
                _ => (EventView::Status(FORBIDDEN), stores),
            }
        } else {
            (EventView::Status(NOT_FOUND), stores)
        },
        ActionView::ReadBody => (EventView::Body(stores.at_hand), stores),
        ActionView::ReadListing => (EventView::Malformed, stores),
    }
}

/// Where the reconciler and the stores stand after at most `exchanges`
/// actions, each answered by the stores.
pub open spec fn config_run(
    progress: ProgressView<ConfigSyncView, ConfigOutcome>,
    stores: ConfigStores,
    exchanges: nat,
) -> (ProgressView<ConfigSyncView, ConfigOutcome>, ConfigStores)
    decreases exchanges,
{
    match progress {
        ProgressView::Next(state, action) => if exchanges == 0 {
            (progress, stores)
        } else {
            let (event, answered) = stores_answer(stores, action);
            config_run(config_step(state, event), answered, (exchanges - 1) as nat)
        },
        _ => (progress, stores),
    }
}

/// Two repositories with different base addresses keep their
/// configurations under different addresses.
pub proof fn lemma_config_addresses_differ(source: Seq<char>, dest: Seq<char>)
    requires
        source != dest,
    ensures
        config_address(source) != config_address(dest),
{
    let tail = "config"@;
    if config_address(source) == config_address(dest) {
        assert((source + tail).len() == source.len() + tail.len());
        assert((dest + tail).len() == dest.len() + tail.len());
        assert forall|at: int| 0 <= at < source.len() implies source[at] == dest[at] by {
            assert((source + tail)[at] == source[at]);
            assert((dest + tail)[at] == dest[at]);
        }
        assert(source =~= dest);
    }
}

/// The reconciler never leaves the destination with a configuration other
/// than the source's, and never replaces one.
///
/// Against two repositories that answer as `stores_answer` says, or one
/// repository that is both, the reconciler ends within five exchanges. The
/// source's configuration is never touched. If the source holds none,
/// nothing is written. If the destination holds none, it then holds the
/// source's. If it holds the source's already, it keeps it and the
/// reconciler ends well. If it holds another, it keeps that one and the
/// reconciler fails with a mismatch.
pub proof fn lemma_config_is_never_corrupted(
    source_base: Seq<char>,
    dest_base: Seq<char>,
    source: Option<Seq<u8>>,
    dest: Option<Seq<u8>>,
    at_hand: Seq<u8>,
)
    requires
        source_base == dest_base ==> source == dest,
    ensures
        ({
            let stores = ConfigStores {
                source_url: config_address(source_base),
                dest_url: config_address(dest_base),
                source,
                dest,
                at_hand,
            };
            let (state, action) = config_start(source_base, dest_base);
            let (end, after) = config_run(ProgressView::Next(state, action), stores, 5);
            &&& after.source == source
            &&& match (source, dest) {
                (None, _) => end == ProgressView::<ConfigSyncView, ConfigOutcome>::Done(
                    ConfigOutcome::Absent,
                ) && after.dest == dest,
                (Some(wanted), None) => end == ProgressView::<ConfigSyncView, ConfigOutcome>::Done(
                    ConfigOutcome::Written,
                ) && after.dest == Some(wanted),
                (Some(wanted), Some(held)) => after.dest == Some(held) && end == (if held
                    == wanted {
                    ProgressView::<ConfigSyncView, ConfigOutcome>::Done(
                        ConfigOutcome::AlreadyMatching,
                    )
                } else {
                    ProgressView::<ConfigSyncView, ConfigOutcome>::Failed(
                        SyncErrorView::ConfigMismatch { url: config_address(dest_base) },
                    )
                }),
            }
        }),
{
    if source_base != dest_base {
        lemma_config_addresses_differ(source_base, dest_base);
    }
    reveal_with_fuel(config_run, 6);
}

} // verus!
