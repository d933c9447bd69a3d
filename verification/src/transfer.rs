//! The blob transfer: copies one object from source to destination and
//! never forwards content that it has not verified.

use vstd::prelude::*;
use crate::address::{object_address, object_url};
use crate::category::Category;
use crate::content::{content_name, verify_content};
use crate::protocol::{
    Action, ActionView, Event, EventView, Progress, ProgressView, Request, RequestView, SyncError,
    SyncErrorView,
};
use crate::status::{is_success, success_code};

verus! {

/// What a blob transfer waits for.
#[derive(Clone, Copy, Debug, PartialEq, Eq, Structural)]
pub enum TransferPhase {
    /// The status of the download request.
    AwaitDownload,
    /// The bytes that the source handed out.
    AwaitContent,
    /// The status of the upload request.
    AwaitUpload,
}

/// The machine that transfers one object.
///
/// The bytes fetched from the source are hashed, and they go to the
/// destination only if the hash, written as lowercase hexadecimal text, is
/// the object's name. Any refusal, and any mismatch, ends the run.
#[derive(Clone, Debug, PartialEq, Eq)]
pub struct BlobTransfer {
    /// The object's name, which is also the hash that its content must have.
    pub name: String,
    /// The address of the object at the source.
    pub source_url: String,
    /// The address of the object at the destination.
    pub dest_url: String,
    pub phase: TransferPhase,
}

/// What a `BlobTransfer` holds, as plain values.
pub struct BlobTransferView {
    pub name: Seq<char>,
    pub source_url: Seq<char>,
    pub dest_url: Seq<char>,
    pub phase: TransferPhase,
}

impl View for BlobTransfer {
    type V = BlobTransferView;

    open spec fn view(&self) -> BlobTransferView {
        BlobTransferView {
            name: self.name@,
            source_url: self.source_url@,
            dest_url: self.dest_url@,
            phase: self.phase,
        }
    }
}

/// The state in which the transfer of `name` starts, and its first action.
pub open spec fn transfer_start(
    source: Seq<char>,
    dest: Seq<char>,
    category: Category,
    name: Seq<char>,
) -> (BlobTransferView, ActionView) {
    (
        BlobTransferView {
            name,
            source_url: object_address(source, category, name),
            dest_url: object_address(dest, category, name),
            phase: TransferPhase::AwaitDownload,
        },
        ActionView::Send(RequestView::fetch(object_address(source, category, name))),
    )
}

/// The address of the request that a transfer waits on.
pub open spec fn transfer_peer(state: BlobTransferView) -> Seq<char> {
    match state.phase {
        TransferPhase::AwaitDownload => state.source_url,
        TransferPhase::AwaitContent => state.source_url,
        TransferPhase::AwaitUpload => state.dest_url,
    }
}

/// What a blob transfer does on `event`.
pub open spec fn transfer_step(state: BlobTransferView, event: EventView) -> ProgressView<
    BlobTransferView,
    (),
> {
    match event {
        EventView::Unreachable => ProgressView::Failed(
            SyncErrorView::Transport { url: transfer_peer(state) },
        ),
        EventView::Status(status) => match state.phase {
            TransferPhase::AwaitDownload => if success_code(status) {
                ProgressView::Next(
                    BlobTransferView { phase: TransferPhase::AwaitContent, ..state },
                    ActionView::ReadBody,
                )
            } else {
                ProgressView::Failed(
                    SyncErrorView::DownloadRejected { url: state.source_url, status },
                )
            },
            TransferPhase::AwaitUpload => if success_code(status) {
                ProgressView::Done(())
            } else {
                ProgressView::Failed(SyncErrorView::UploadRejected { url: state.dest_url, status })
            },
            TransferPhase::AwaitContent => ProgressView::Failed(
                SyncErrorView::UnexpectedEvent { url: state.source_url },
            ),
        },
        EventView::Body(bytes) => match state.phase {
            TransferPhase::AwaitContent => if content_name(bytes) == state.name {
                ProgressView::Next(
                    BlobTransferView { phase: TransferPhase::AwaitUpload, ..state },
                    ActionView::Send(RequestView::store(state.dest_url, bytes)),
                )
            } else {
                ProgressView::Failed(
                    SyncErrorView::HashMismatch { name: state.name, actual: content_name(bytes) },
                )
            },
            _ => ProgressView::Failed(
                SyncErrorView::UnexpectedEvent { url: transfer_peer(state) },
            ),
        },
        _ => ProgressView::Failed(SyncErrorView::UnexpectedEvent { url: transfer_peer(state) }),
    }
}

impl BlobTransfer {
    /// Starts the transfer of the object `name` of `category` from the
    /// repository at `source` to the one at `dest`, both normalized base
    /// addresses.
    pub fn start(source: &str, dest: &str, category: Category, name: String) -> (started: (
        BlobTransfer,
        Action,
    ))
        ensures
            (started.0@, started.1@) == transfer_start(source@, dest@, category, name@),
    {
        let source_url = object_url(source, category, name.as_str());
        let dest_url = object_url(dest, category, name.as_str());
        let request = Request::fetch(source_url.clone());
        (
            BlobTransfer { name, source_url, dest_url, phase: TransferPhase::AwaitDownload },
            Action::Send(request),
        )
    }

    /// Takes the answer to a request of the transfer, or the bytes read
    /// from the source.
    pub fn step(self, event: Event) -> (progress: Progress<BlobTransfer, ()>)
        ensures
            progress@ == transfer_step(self@, event@),
    {
        let BlobTransfer { name, source_url, dest_url, phase } = self;
        match event {
            Event::Unreachable => match phase {
                TransferPhase::AwaitUpload => Progress::Failed(
                    SyncError::Transport { url: dest_url },
                ),
                _ => Progress::Failed(SyncError::Transport { url: source_url }),
            },
            Event::Status(status) => match phase {
                TransferPhase::AwaitDownload => {
                    if is_success(status) {
                        Progress::Next(
                            BlobTransfer {
                                name,
                                source_url,
                                dest_url,
                                phase: TransferPhase::AwaitContent,
                            },
                            Action::ReadBody,
                        )
                    } else {
                        Progress::Failed(SyncError::DownloadRejected { url: source_url, status })
                    }
                },
                TransferPhase::AwaitUpload => {
                    if is_success(status) {
                        Progress::Done(())
                    } else {
                        Progress::Failed(SyncError::UploadRejected { url: dest_url, status })
                    }
                },
                TransferPhase::AwaitContent => Progress::Failed(
                    SyncError::UnexpectedEvent { url: source_url },
                ),
            },
            Event::Body(bytes) => match phase {
                TransferPhase::AwaitContent => {
                    match verify_content(name.as_str(), bytes.as_slice()) {
                        Ok(()) => {
                            let request = Request::store(dest_url.clone(), bytes);
                            Progress::Next(
                                BlobTransfer {
                                    name,
                                    source_url,
                                    dest_url,
                                    phase: TransferPhase::AwaitUpload,
                                },
                                Action::Send(request),
                            )
                        },
                        Err(actual) => Progress::Failed(SyncError::HashMismatch { name, actual }),
                    }
                },
                TransferPhase::AwaitUpload => Progress::Failed(
                    SyncError::UnexpectedEvent { url: dest_url },
                ),
                TransferPhase::AwaitDownload => Progress::Failed(
                    SyncError::UnexpectedEvent { url: source_url },
                ),
            },
            _ => match phase {
                TransferPhase::AwaitUpload => Progress::Failed(
                    SyncError::UnexpectedEvent { url: dest_url },
                ),
                _ => Progress::Failed(SyncError::UnexpectedEvent { url: source_url }),
            },
        }
    }
}

/// A transfer fails on bytes that do not hash to the object's name,
/// whatever it was waiting for, and so asks for nothing more. Where it was
/// waiting for the object's content, the failure names both hashes.
pub proof fn lemma_unverified_content_is_refused(state: BlobTransferView, bytes: Seq<u8>)
    requires
        content_name(bytes) != state.name,
    ensures
        transfer_step(state, EventView::Body(bytes)) is Failed,
        state.phase == TransferPhase::AwaitContent ==> transfer_step(state, EventView::Body(bytes))
            == ProgressView::<BlobTransferView, ()>::Failed(
            SyncErrorView::HashMismatch { name: state.name, actual: content_name(bytes) },
        ),
{
}

/// Whenever a transfer asks for a request to be sent, that request stores,
/// at the object's address at the destination, the bytes just received, and
/// these hash to the object's name.
pub proof fn lemma_stored_content_is_verified(
    state: BlobTransferView,
    event: EventView,
    following: BlobTransferView,
    request: RequestView,
)
    requires
        transfer_step(state, event) == ProgressView::<BlobTransferView, ()>::Next(
            following,
            ActionView::Send(request),
        ),
    ensures
        event is Body,
        request == RequestView::store(state.dest_url, event->Body_0),
        content_name(event->Body_0) == state.name,
{
}

} // verus!
