//! The exchange between the library and the driver that performs its I/O.
//!
//! Every component of the library is a small machine. Started, it names an
//! `Action` for the driver; told the `Event` that the action led to, it names
//! the next action, finishes, or fails. A failure ends the run: nothing is
//! retried and nothing is undone.

use vstd::prelude::*;
use crate::category::Category;
use crate::listing::{Entry, Listing};

verus! {

/// The request methods that the protocol uses.
#[derive(Clone, Copy, Debug, PartialEq, Eq, Structural)]
pub enum Method {
    Get,
    Post,
    Delete,
}

/// A request for a repository.
#[derive(Clone, Debug, PartialEq, Eq)]
pub struct Request {
    pub method: Method,
    pub url: String,
    /// Whether to ask for the listing format that gives each object's name
    /// and size (see `structured_listing_format`).
    pub structured: bool,
    /// The bytes to send, if the request carries any.
    pub body: Option<Vec<u8>>,
}

/// What a `Request` holds, as plain values.
pub struct RequestView {
    pub method: Method,
    pub url: Seq<char>,
    pub structured: bool,
    pub body: Option<Seq<u8>>,
}

impl View for Request {
    type V = RequestView;

    open spec fn view(&self) -> RequestView {
        RequestView {
            method: self.method,
            url: self.url@,
            structured: self.structured,
            body: match self.body {
                Some(bytes) => Some(bytes@),
                None => None,
            },
        }
    }
}

impl RequestView {
    /// A request to fetch what `url` names.
    pub open spec fn fetch(url: Seq<char>) -> RequestView {
        RequestView { method: Method::Get, url, structured: false, body: None }
    }

    /// A request for the structured listing at `url`.
    pub open spec fn list(url: Seq<char>) -> RequestView {
        RequestView { method: Method::Get, url, structured: true, body: None }
    }

    /// A request to create what `url` names, without content.
    pub open spec fn create(url: Seq<char>) -> RequestView {
        RequestView { method: Method::Post, url, structured: false, body: None }
    }

    /// A request to create what `url` names with the content `bytes`.
    pub open spec fn store(url: Seq<char>, bytes: Seq<u8>) -> RequestView {
        RequestView { method: Method::Post, url, structured: false, body: Some(bytes) }
    }

    /// A request to remove what `url` names.
    pub open spec fn remove(url: Seq<char>) -> RequestView {
        RequestView { method: Method::Delete, url, structured: false, body: None }
    }
}

impl Request {
    /// A request to fetch what `url` names.
    pub fn fetch(url: String) -> (request: Request)
        ensures
            request@ == RequestView::fetch(url@),
    {
        Request { method: Method::Get, url, structured: false, body: None }
    }

    /// A request for the structured listing at `url`.
    pub fn list(url: String) -> (request: Request)
        ensures
            request@ == RequestView::list(url@),
    {
        Request { method: Method::Get, url, structured: true, body: None }
    }

    /// A request to create what `url` names, without content.
    pub fn create(url: String) -> (request: Request)
        ensures
            request@ == RequestView::create(url@),
    {
        Request { method: Method::Post, url, structured: false, body: None }
    }

    /// A request to create what `url` names with the content `bytes`.
    pub fn store(url: String, bytes: Vec<u8>) -> (request: Request)
        ensures
            request@ == RequestView::store(url@, bytes@),
    {
        Request { method: Method::Post, url, structured: false, body: Some(bytes) }
    }

    /// A request to remove what `url` names.
    pub fn remove(url: String) -> (request: Request)
        ensures
            request@ == RequestView::remove(url@),
    {
        Request { method: Method::Delete, url, structured: false, body: None }
    }
}

/// The value of the `Accept` header that asks a repository for the listing
/// format with names and sizes.
pub fn structured_listing_format() -> (format: &'static str)
    ensures
        format@ == "application/vnd.x.restic.rest.v2"@,
{
    "application/vnd.x.restic.rest.v2"
}

/// What the driver is to do next.
#[derive(Clone, Debug, PartialEq, Eq)]
pub enum Action {
    /// Send the request and keep the response at hand. Answer with
    /// `Event::Status`, or with `Event::Unreachable` if no response came.
    Send(Request),
    /// Read the body of the response at hand. Answer with `Event::Body`, or
    /// with `Event::Unreachable` if the body could not be read.
    ReadBody,
    /// Read the body of the response at hand as a structured listing. Answer
    /// with `Event::Listing`, with `Event::Malformed` if the body is no such
    /// listing, or with `Event::Unreachable` if it could not be read.
    ReadListing,
}

/// What an `Action` holds, as plain values.
pub enum ActionView {
    Send(RequestView),
    ReadBody,
    ReadListing,
}

impl View for Action {
    type V = ActionView;

    open spec fn view(&self) -> ActionView {
        match self {
            Action::Send(request) => ActionView::Send(request@),
            Action::ReadBody => ActionView::ReadBody,
            Action::ReadListing => ActionView::ReadListing,
        }
    }
}

/// What an action led to.
#[derive(Clone, Debug, PartialEq, Eq)]
pub enum Event {
    /// The status code of the response to the request sent.
    Status(u16),
    /// The body of the response at hand.
    Body(Vec<u8>),
    /// The body of the response at hand, read as a structured listing.
    Listing(Listing),
    /// The body of the response at hand is not a structured listing.
    Malformed,
    /// The transport gave up: no response, or no complete body.
    Unreachable,
}

/// What an `Event` holds, as plain values.
pub enum EventView {
    Status(u16),
    Body(Seq<u8>),
    Listing(Seq<Entry>),
    Malformed,
    Unreachable,
}

impl View for Event {
    type V = EventView;

    open spec fn view(&self) -> EventView {
        match self {
            Event::Status(status) => EventView::Status(*status),
            Event::Body(bytes) => EventView::Body(bytes@),
            Event::Listing(listing) => EventView::Listing(listing@),
            Event::Malformed => EventView::Malformed,
            Event::Unreachable => EventView::Unreachable,
        }
    }
}

/// Why a run ended without success. Each failure names the operation, the
/// address or object concerned, and the status code where there is one.
#[derive(Clone, Debug, PartialEq, Eq)]
pub enum SyncError {
    /// The destination did not confirm that the repository exists.
    CreateRejected { url: String, status: u16 },
    /// The source did not hand out its configuration.
    ConfigFetchRejected { url: String, status: u16 },
    /// The destination refused the configuration for a reason other than
    /// holding one already.
    ConfigWriteRejected { url: String, status: u16 },
    /// The destination holds a configuration and did not hand it out, so
    /// that it could not be compared.
    ConfigCheckRejected { url: String, status: u16 },
    /// The destination holds a configuration that differs from the source's.
    ConfigMismatch { url: String },
    /// A repository did not hand out the listing of a category.
    ListRejected { url: String, category: Category, status: u16 },
    /// A repository answered a listing request with something else.
    ListMalformed { url: String, category: Category },
    /// The source did not hand out an object.
    DownloadRejected { url: String, status: u16 },
    /// The bytes that the source handed out for `name` hash to `actual`.
    HashMismatch { name: String, actual: String },
    /// The destination did not accept an object.
    UploadRejected { url: String, status: u16 },
    /// The destination did not remove an object.
    DeleteRejected { url: String, status: u16 },
    /// The transport gave up on the exchange with `url`.
    Transport { url: String },
    /// The driver reported an event that does not answer the action asked
    /// of it in the exchange with `url`.
    UnexpectedEvent { url: String },
}

/// What a `SyncError` holds, as plain values.
pub enum SyncErrorView {
    CreateRejected { url: Seq<char>, status: u16 },
    ConfigFetchRejected { url: Seq<char>, status: u16 },
    ConfigWriteRejected { url: Seq<char>, status: u16 },
    ConfigCheckRejected { url: Seq<char>, status: u16 },
    ConfigMismatch { url: Seq<char> },
    ListRejected { url: Seq<char>, category: Category, status: u16 },
    ListMalformed { url: Seq<char>, category: Category },
    DownloadRejected { url: Seq<char>, status: u16 },
    HashMismatch { name: Seq<char>, actual: Seq<char> },
    UploadRejected { url: Seq<char>, status: u16 },
    DeleteRejected { url: Seq<char>, status: u16 },
    Transport { url: Seq<char> },
    UnexpectedEvent { url: Seq<char> },
}

impl View for SyncError {
    type V = SyncErrorView;

    open spec fn view(&self) -> SyncErrorView {
        match self {
            SyncError::CreateRejected { url, status } => SyncErrorView::CreateRejected {
                url: url@,
                status: *status,
            },
            SyncError::ConfigFetchRejected { url, status } => SyncErrorView::ConfigFetchRejected {
                url: url@,
                status: *status,
            },
            SyncError::ConfigWriteRejected { url, status } => SyncErrorView::ConfigWriteRejected {
                url: url@,
                status: *status,
            },
            SyncError::ConfigCheckRejected { url, status } => SyncErrorView::ConfigCheckRejected {
                url: url@,
                status: *status,
            },
            SyncError::ConfigMismatch { url } => SyncErrorView::ConfigMismatch { url: url@ },
            SyncError::ListRejected { url, category, status } => SyncErrorView::ListRejected {
                url: url@,
                category: *category,
                status: *status,
            },
            SyncError::ListMalformed { url, category } => SyncErrorView::ListMalformed {
                url: url@,
                category: *category,
            },
            SyncError::DownloadRejected { url, status } => SyncErrorView::DownloadRejected {
                url: url@,
                status: *status,
            },
            SyncError::HashMismatch { name, actual } => SyncErrorView::HashMismatch {
                name: name@,
                actual: actual@,
            },
            SyncError::UploadRejected { url, status } => SyncErrorView::UploadRejected {
                url: url@,
                status: *status,
            },
            SyncError::DeleteRejected { url, status } => SyncErrorView::DeleteRejected {
                url: url@,
                status: *status,
            },
            SyncError::Transport { url } => SyncErrorView::Transport { url: url@ },
            SyncError::UnexpectedEvent { url } => SyncErrorView::UnexpectedEvent { url: url@ },
        }
    }
}

/// Where a machine stands after a start or a step.
#[derive(Clone, Debug, PartialEq, Eq)]
pub enum Progress<S, T> {
    /// The machine waits in state `S` for the event that the action leads to.
    Next(S, Action),
    /// The machine has finished with the result `T`.
    Done(T),
    /// The machine has failed. Nothing more is asked of the driver.
    Failed(SyncError),
}

/// What a `Progress` holds, as plain values.
pub enum ProgressView<S, T> {
    Next(S, ActionView),
    Done(T),
    Failed(SyncErrorView),
}

impl<S: View, T: View> View for Progress<S, T> {
    type V = ProgressView<S::V, T::V>;

    open spec fn view(&self) -> ProgressView<S::V, T::V> {
        match self {
            Progress::Next(state, action) => ProgressView::Next(state@, action@),
            Progress::Done(result) => ProgressView::Done(result@),
            Progress::Failed(error) => ProgressView::Failed(error@),
        }
    }
}

} // verus!
