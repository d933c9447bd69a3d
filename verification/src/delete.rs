//! The delete path: removes one object from the destination.

use vstd::prelude::*;
use crate::address::{object_address, object_url};
use crate::category::Category;
use crate::protocol::{
    Action, ActionView, Event, EventView, Progress, ProgressView, Request, RequestView, SyncError,
    SyncErrorView,
};
use crate::status::{is_success, success_code};

verus! {

/// The machine that removes one object from the destination.
///
/// A refusal ends the run: an object left behind could later be taken for
/// valid data.
#[derive(Clone, Debug, PartialEq, Eq)]
pub struct ObjectDelete {
    /// The address of the object at the destination.
    pub url: String,
}

/// What an `ObjectDelete` holds, as plain values.
pub struct ObjectDeleteView {
    pub url: Seq<char>,
}

impl View for ObjectDelete {
    type V = ObjectDeleteView;

    open spec fn view(&self) -> ObjectDeleteView {
        ObjectDeleteView { url: self.url@ }
    }
}

/// The state in which the removal of `name` starts, and its first action.
pub open spec fn delete_start(dest: Seq<char>, category: Category, name: Seq<char>) -> (
    ObjectDeleteView,
    ActionView,
) {
    (
        ObjectDeleteView { url: object_address(dest, category, name) },
        ActionView::Send(RequestView::remove(object_address(dest, category, name))),
    )
}

/// What the removal does on `event`.
pub open spec fn delete_step(state: ObjectDeleteView, event: EventView) -> ProgressView<
    ObjectDeleteView,
    (),
> {
    match event {
        EventView::Status(status) => if success_code(status) {
            ProgressView::Done(())
        } else {
            ProgressView::Failed(SyncErrorView::DeleteRejected { url: state.url, status })
        },
        EventView::Unreachable => ProgressView::Failed(SyncErrorView::Transport { url: state.url }),
        _ => ProgressView::Failed(SyncErrorView::UnexpectedEvent { url: state.url }),
    }
}

impl ObjectDelete {
    /// Starts the removal of the object `name` of `category` from the
    /// repository at `dest`, a normalized base address.
    pub fn start(dest: &str, category: Category, name: &str) -> (started: (ObjectDelete, Action))
        ensures
            (started.0@, started.1@) == delete_start(dest@, category, name@),
    {
        let url = object_url(dest, category, name);
        let request = Request::remove(url.clone());
        (ObjectDelete { url }, Action::Send(request))
    }

    /// Takes the answer to the delete request.
    pub fn step(self, event: Event) -> (progress: Progress<ObjectDelete, ()>)
        ensures
            progress@ == delete_step(self@, event@),
    {
        match event {
            Event::Status(status) => {
                if is_success(status) {
                    Progress::Done(())
                } else {
                    Progress::Failed(SyncError::DeleteRejected { url: self.url, status })
                }
            },
            Event::Unreachable => Progress::Failed(SyncError::Transport { url: self.url }),
            _ => Progress::Failed(SyncError::UnexpectedEvent { url: self.url }),
        }
    }
}

} // verus!
