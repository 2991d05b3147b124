//! The connection handler as a state machine: it is told what was read and
//! found, and answers with what to write and what to do next.

use vstd::prelude::*;
use vstd::string::StringSliceAdditionalSpecFns;
use crate::listing::{entry_line, link_view, listing_close, listing_entry, listing_head_to,
    listing_head_to_parent, listing_tail};
use crate::mime::{get_mime_type, mime_of};
use crate::request::{parse_request, read_of, Progress, ProgressView, Request};
use crate::resolve::{candidate_of, candidate_path, resolve, served, Probe, ServedPath,
    ServedPathView};
use crate::response::{header_end, header_line, status_line, ResponseWriter};
use crate::text::{decimal, decimal_digits, same_bytes};

verus! {

/// How many bytes are asked of the connection, or of a file, in one read.
pub const CHUNK_SIZE: usize = 1024;

/// Where a connection stands.
#[derive(Clone, Debug, PartialEq, Eq)]
pub enum State {
    /// The head of the request has not arrived in full; `received` is what
    /// has.
    AwaitingRequest { received: Vec<u8> },
    /// A GET for `url_path` is waiting for the file system's word on its
    /// candidate path.
    Routing { url_path: Vec<u8> },
    /// The directory asked for by `url_path` holds something under the name
    /// of the index file; the file system's word on that, at `index`, is
    /// awaited.
    RoutingIndex { url_path: Vec<u8>, index: Vec<u8> },
    /// The head of a file response is out and the file is being sent.
    RespondingFile,
    /// The head of a listing is out and the entries are being sent.
    RespondingListing { url_path: Vec<u8> },
    /// Nothing more is read or written; the connection is closed.
    Closed,
}

/// What happened outside since the last step.
#[derive(Clone, Debug, PartialEq, Eq)]
pub enum Event {
    /// Bytes were read from the connection; none means that the peer closed.
    Received(Vec<u8>),
    /// The file system's word on the path that was asked about.
    Probed(Probe),
    /// Bytes were read from the file; none means its end.
    FileChunk(Vec<u8>),
    /// Reading the file failed.
    FileFailed,
    /// The next entry of the directory.
    Entry(Vec<u8>),
    /// The directory has no more entries.
    EntriesDone,
    /// Reading or writing the connection, or enumerating the directory,
    /// failed.
    Failed,
}

/// What to do once the bytes of an action are written.
#[derive(Clone, Debug, PartialEq, Eq)]
pub enum Next {
    /// Read from the connection.
    Read,
    /// Ask the file system about this path.
    Probe(Vec<u8>),
    /// Open the file at this path and read its first chunk.
    OpenFile(Vec<u8>),
    /// Read the next chunk of the file.
    ReadChunk,
    /// Open the directory at this path and read its first entry.
    OpenDirectory(Vec<u8>),
    /// Read the next entry of the directory.
    NextEntry,
    /// Close the connection.
    Close,
}

/// One step's orders: write these bytes to the connection, then do `next`.
#[derive(Clone, Debug, PartialEq, Eq)]
pub struct Action {
    pub write: Vec<u8>,
    pub next: Next,
}

/// The mathematical value of a `State`.
pub ghost enum StateView {
    AwaitingRequest { received: Seq<u8> },
    Routing { url_path: Seq<u8> },
    RoutingIndex { url_path: Seq<u8>, index: Seq<u8> },
    RespondingFile,
    RespondingListing { url_path: Seq<u8> },
    Closed,
}

/// The mathematical value of an `Event`.
pub ghost enum EventView {
    Received(Seq<u8>),
    Probed(Probe),
    FileChunk(Seq<u8>),
    FileFailed,
    Entry(Seq<u8>),
    EntriesDone,
    Failed,
}

/// The mathematical value of a `Next`.
pub ghost enum NextView {
    Read,
    Probe(Seq<u8>),
    OpenFile(Seq<u8>),
    ReadChunk,
    OpenDirectory(Seq<u8>),
    NextEntry,
    Close,
}

/// The mathematical value of an `Action`.
pub ghost struct ActionView {
    pub write: Seq<u8>,
    pub next: NextView,
}

impl View for State {
    type V = StateView;

    open spec fn view(&self) -> StateView {
        match *self {
            State::AwaitingRequest { received } => StateView::AwaitingRequest {
                received: received@,
            },
            State::Routing { url_path } => StateView::Routing { url_path: url_path@ },
            State::RoutingIndex { url_path, index } => StateView::RoutingIndex {
                url_path: url_path@,
                index: index@,
            },
            State::RespondingFile => StateView::RespondingFile,
            State::RespondingListing { url_path } => StateView::RespondingListing {
                url_path: url_path@,
            },
            State::Closed => StateView::Closed,
        }
    }
}

impl View for Event {
    type V = EventView;

    open spec fn view(&self) -> EventView {
        match *self {
            Event::Received(b) => EventView::Received(b@),
            Event::Probed(p) => EventView::Probed(p),
            Event::FileChunk(b) => EventView::FileChunk(b@),
            Event::FileFailed => EventView::FileFailed,
            Event::Entry(n) => EventView::Entry(n@),
            Event::EntriesDone => EventView::EntriesDone,
            Event::Failed => EventView::Failed,
        }
    }
}

impl View for Next {
    type V = NextView;

    open spec fn view(&self) -> NextView {
        match *self {
            Next::Read => NextView::Read,
            Next::Probe(p) => NextView::Probe(p@),
            Next::OpenFile(p) => NextView::OpenFile(p@),
            Next::ReadChunk => NextView::ReadChunk,
            Next::OpenDirectory(p) => NextView::OpenDirectory(p@),
            Next::NextEntry => NextView::NextEntry,
            Next::Close => NextView::Close,
        }
    }
}

impl View for Action {
    type V = ActionView;

    open spec fn view(&self) -> ActionView {
        ActionView { write: self.write@, next: self.next@ }
    }
}

/// The head of the answer to a request whose method is not GET.
pub open spec fn method_not_allowed_of() -> Seq<u8> {
    status_line(405) + header_line("Content-Type".spec_bytes(), "text/plain".spec_bytes())
        + header_end()
}

/// The head of the answer for a path that resolves to nothing.
pub open spec fn not_found_of() -> Seq<u8> {
    status_line(404) + header_end()
}

/// The head of the answer that carries the file at `path`, of `size` bytes.
pub open spec fn file_head_of(path: Seq<u8>, size: u64) -> Seq<u8> {
    status_line(200) + header_line("Content-Type".spec_bytes(), mime_of(path)) + header_line(
        "Content-Length".spec_bytes(),
        decimal(size as nat),
    ) + header_end()
}

/// The head of the answer that carries a listing. It states no length: the
/// end of the connection is the end of the body.
pub open spec fn listing_response_head_of() -> Seq<u8> {
    status_line(200) + header_line("Content-Type".spec_bytes(), "text/html".spec_bytes())
        + header_end()
}

/// `bytes` starts with `prefix`.
pub open spec fn begins_with(bytes: Seq<u8>, prefix: Seq<u8>) -> bool {
    prefix.len() <= bytes.len() && bytes.take(prefix.len() as int) == prefix
}

/// The step that closes the connection without a word.
pub open spec fn close_of() -> (StateView, ActionView) {
    (StateView::Closed, ActionView { write: Seq::<u8>::empty(), next: NextView::Close })
}

/// The step that writes `bytes` and closes the connection.
pub open spec fn reply_of(bytes: Seq<u8>) -> (StateView, ActionView) {
    (StateView::Closed, ActionView { write: bytes, next: NextView::Close })
}

/// The step taken on a request: 405 for any method but GET, else the
/// question to the file system about the path's candidate.
pub open spec fn route_of(root: Seq<u8>, method: Seq<u8>, path: Seq<u8>) -> (
    StateView,
    ActionView,
) {
    if method != "GET".spec_bytes() {
        reply_of(method_not_allowed_of())
    } else {
        (
            StateView::Routing { url_path: path },
            ActionView { write: Seq::<u8>::empty(), next: NextView::Probe(candidate_of(root, path)) },
        )
    }
}

/// The step taken on what a path resolved to.
pub open spec fn respond_of(url_path: Seq<u8>, target: ServedPathView) -> (StateView, ActionView) {
    match target {
        ServedPathView::File { path, size } => (
            StateView::RespondingFile,
            ActionView { write: file_head_of(path, size), next: NextView::OpenFile(path) },
        ),
        ServedPathView::DirectoryWithIndex { index } => (
            StateView::RoutingIndex { url_path, index },
            ActionView { write: Seq::<u8>::empty(), next: NextView::Probe(index) },
        ),
        ServedPathView::DirectoryListing { path, parent_link } => (
            StateView::RespondingListing { url_path },
            ActionView {
                write: listing_response_head_of() + listing_head_to(parent_link),
                next: NextView::OpenDirectory(path),
            },
        ),
        ServedPathView::NotFound => reply_of(not_found_of()),
    }
}

/// The step taken on the file system's word about what stands under the
/// name of the index file: if it is a file, it is sent; if it cannot be
/// opened, the answer is 404; if it is itself a directory, it is no index
/// file, and the directory that was asked for is answered with its listing.
pub open spec fn respond_index_of(
    root: Seq<u8>,
    url_path: Seq<u8>,
    index: Seq<u8>,
    probe: Probe,
) -> (StateView, ActionView) {
    match probe {
        Probe::File { size } => (
            StateView::RespondingFile,
            ActionView { write: file_head_of(index, size), next: NextView::OpenFile(index) },
        ),
        Probe::Missing => reply_of(not_found_of()),
        Probe::Directory { has_index } => respond_of(
            url_path,
            served(root, url_path, Probe::Directory { has_index: false }),
        ),
    }
}

/// The step taken on bytes from the peer while the head is awaited. Where
/// the peer closed, nothing is answered. A head that is no request gets no
/// answer either: the connection is closed without a word.
pub open spec fn receive_of(root: Seq<u8>, received: Seq<u8>, bytes: Seq<u8>) -> (
    StateView,
    ActionView,
) {
    match read_of(received, bytes) {
        Err(_) => close_of(),
        Ok(ProgressView::NeedMore { received }) => (
            StateView::AwaitingRequest { received },
            ActionView { write: Seq::<u8>::empty(), next: NextView::Read },
        ),
        Ok(ProgressView::Complete { request }) => route_of(root, request.method, request.path),
    }
}

/// The handler's transition function. An event that the state does not wait
/// for, and any failure, closes the connection.
#[verifier::opaque]
pub open spec fn step_of(root: Seq<u8>, state: StateView, event: EventView) -> (
    StateView,
    ActionView,
) {
    match (state, event) {
        (StateView::AwaitingRequest { received }, EventView::Received(bytes)) => receive_of(
            root,
            received,
            bytes,
        ),
        (StateView::Routing { url_path }, EventView::Probed(probe)) => respond_of(
            url_path,
            served(root, url_path, probe),
        ),
        (StateView::RoutingIndex { url_path, index }, EventView::Probed(probe)) => respond_index_of(
            root,
            url_path,
            index,
            probe,
        ),
        (StateView::RespondingFile, EventView::FileChunk(bytes)) => if bytes.len() == 0 {
            close_of()
        } else {
            (StateView::RespondingFile, ActionView { write: bytes, next: NextView::ReadChunk })
        },
        (StateView::RespondingListing { url_path }, EventView::Entry(name)) => (
            StateView::RespondingListing { url_path },
            ActionView { write: entry_line(url_path, name), next: NextView::NextEntry },
        ),
        (StateView::RespondingListing { url_path }, EventView::EntriesDone) => reply_of(
            listing_close(),
        ),
        _ => close_of(),
    }
}

/// The state reached from `state` by a run of events, and all that was
/// written to the connection on the way.
pub open spec fn run_of(root: Seq<u8>, state: StateView, events: Seq<EventView>) -> (
    StateView,
    Seq<u8>,
)
    decreases events.len(),
{
    if events.len() == 0 {
        (state, Seq::<u8>::empty())
    } else {
        let before = run_of(root, state, events.drop_last());
        let last = step_of(root, before.0, events.last());
        (last.0, before.1 + last.1.write)
    }
}

/// The chunks one behind the other.
pub open spec fn concat_of(chunks: Seq<Seq<u8>>) -> Seq<u8>
    decreases chunks.len(),
{
    if chunks.len() == 0 {
        Seq::<u8>::empty()
    } else {
        concat_of(chunks.drop_last()) + chunks.last()
    }
}

/// The state in which a connection starts.
pub fn initial_state() -> (s: State)
    ensures
        s@ == (StateView::AwaitingRequest { received: Seq::<u8>::empty() }),
{
    State::AwaitingRequest { received: Vec::new() }
}

/// The step that closes the connection without a word.
fn close() -> (r: (State, Action))
    ensures
        (r.0@, r.1@) == close_of(),
{
    (State::Closed, Action { write: Vec::new(), next: Next::Close })
}

/// The head of the answer to a request whose method is not GET.
pub fn method_not_allowed() -> (r: Vec<u8>)
    ensures
        r@ == method_not_allowed_of(),
{
    let mut w = ResponseWriter::new();
    w.start_response(405);
    w.send_header("Content-Type".as_bytes(), "text/plain".as_bytes());
    w.end_headers();
    let r = w.into_bytes();
    assert(r@ =~= method_not_allowed_of());
    r
}

/// The head of the answer for a path that resolves to nothing.
pub fn not_found() -> (r: Vec<u8>)
    ensures
        r@ == not_found_of(),
{
    let mut w = ResponseWriter::new();
    w.start_response(404);
    w.end_headers();
    let r = w.into_bytes();
    assert(r@ =~= not_found_of());
    r
}

/// The head of the answer that carries a file.
pub fn file_head(path: &[u8], size: u64) -> (r: Vec<u8>)
    ensures
        r@ == file_head_of(path@, size),
{
    let mime = get_mime_type(path);
    let length = decimal_digits(size);
    let mut w = ResponseWriter::new();
    w.start_response(200);
    w.send_header("Content-Type".as_bytes(), mime.as_slice());
    w.send_header("Content-Length".as_bytes(), length.as_slice());
    w.end_headers();
    let r = w.into_bytes();
    assert(r@ =~= file_head_of(path@, size));
    r
}

/// The head of the answer that carries a listing, with the first part of
/// the listing behind it: the opening and the link to `parent`.
pub fn listing_start(parent: &Option<Vec<u8>>) -> (r: Vec<u8>)
    ensures
        r@ == listing_response_head_of() + listing_head_to(link_view(*parent)),
{
    let first = listing_head_to_parent(parent);
    let mut w = ResponseWriter::new();
    w.start_response(200);
    w.send_header("Content-Type".as_bytes(), "text/html".as_bytes());
    w.end_headers();
    w.write_body(first.as_slice());
    let r = w.into_bytes();
    assert(r@ =~= listing_response_head_of() + listing_head_to(link_view(*parent)));
    r
}

/// Routes a request.
pub fn route(root: &[u8], method: &[u8], path: Vec<u8>) -> (r: (State, Action))
    ensures
        (r.0@, r.1@) == route_of(root@, method@, path@),
{
    if !same_bytes(method, "GET".as_bytes()) {
        (State::Closed, Action { write: method_not_allowed(), next: Next::Close })
    } else {
        let candidate = candidate_path(root, path.as_slice());
        (State::Routing { url_path: path }, Action { write: Vec::new(), next: Next::Probe(candidate) })
    }
}

/// Answers for what a path resolved to.
pub fn respond(url_path: Vec<u8>, target: ServedPath) -> (r: (State, Action))
    ensures
        (r.0@, r.1@) == respond_of(url_path@, target@),
{
    match target {
        ServedPath::File { path, size } => {
            let head = file_head(path.as_slice(), size);
            (State::RespondingFile, Action { write: head, next: Next::OpenFile(path) })
        },
        ServedPath::DirectoryWithIndex { index } => {
            let again = index.clone();
            (
                State::RoutingIndex { url_path, index },
                Action { write: Vec::new(), next: Next::Probe(again) },
            )
        },
        ServedPath::DirectoryListing { path, parent_link } => {
            let head = listing_start(&parent_link);
            (
                State::RespondingListing { url_path },
                Action { write: head, next: Next::OpenDirectory(path) },
            )
        },
        ServedPath::NotFound => (State::Closed, Action { write: not_found(), next: Next::Close }),
    }
}

/// Answers for what stands under the name of a directory's index file.
pub fn respond_index(root: &[u8], url_path: Vec<u8>, index: Vec<u8>, probe: Probe) -> (r: (
    State,
    Action,
))
    ensures
        (r.0@, r.1@) == respond_index_of(root@, url_path@, index@, probe),
{
    match probe {
        Probe::File { size } => {
            let head = file_head(index.as_slice(), size);
            (State::RespondingFile, Action { write: head, next: Next::OpenFile(index) })
        },
        Probe::Missing => (State::Closed, Action { write: not_found(), next: Next::Close }),
        Probe::Directory { has_index } => {
            let target = resolve(root, url_path.as_slice(), Probe::Directory { has_index: false });
            respond(url_path, target)
        },
    }
}

/// Takes in bytes from the peer while the head is awaited.
pub fn receive(root: &[u8], received: Vec<u8>, bytes: &[u8]) -> (r: (State, Action))
    ensures
        (r.0@, r.1@) == receive_of(root@, received@, bytes@),
{
    match parse_request(received, bytes) {
        Err(_) => close(),
        Ok(Progress::NeedMore { received }) => (
            State::AwaitingRequest { received },
            Action { write: Vec::new(), next: Next::Read },
        ),
        Ok(Progress::Complete { request }) => {
            let Request { method, path, headers } = request;
            route(root, method.as_slice(), path)
        },
    }
}

/// One step of the handler: from the state and what happened to the next
/// state and what to do.
pub fn step(root: &[u8], state: State, event: Event) -> (r: (State, Action))
    ensures
        (r.0@, r.1@) == step_of(root@, state@, event@),
{
    reveal(step_of);
    match (state, event) {
        (State::AwaitingRequest { received }, Event::Received(bytes)) => receive(
            root,
            received,
            bytes.as_slice(),
        ),
        (State::Routing { url_path }, Event::Probed(probe)) => {
            let target = resolve(root, url_path.as_slice(), probe);
            respond(url_path, target)
        },
        (State::RoutingIndex { url_path, index }, Event::Probed(probe)) => respond_index(
            root,
            url_path,
            index,
            probe,
        ),
        (State::RespondingFile, Event::FileChunk(bytes)) => {
            if bytes.len() == 0 {
                close()
            } else {
                (State::RespondingFile, Action { write: bytes, next: Next::ReadChunk })
            }
        },
        (State::RespondingListing { url_path }, Event::Entry(name)) => {
            let line = listing_entry(url_path.as_slice(), name.as_slice());
            (State::RespondingListing { url_path }, Action { write: line, next: Next::NextEntry })
        },
        (State::RespondingListing { url_path }, Event::EntriesDone) => (
            State::Closed,
            Action { write: listing_tail(), next: Next::Close },
        ),
        _ => close(),
    }
}

} // verus!
