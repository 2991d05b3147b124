//! What a whole exchange puts on the wire: the handler's steps taken one
//! after the other.

use vstd::prelude::*;
use vstd::string::StringSliceAdditionalSpecFns;
use crate::handler::{begins_with, concat_of, file_head_of, listing_response_head_of,
    method_not_allowed_of, not_found_of, reply_of, run_of, step_of, ActionView, EventView,
    NextView, StateView};
use crate::listing::{entry_lines, listing_head_of, listing_of};
use crate::request::{read_of, ProgressView, RequestError, RequestView};
use crate::resolve::{candidate_of, index_of, Probe};
use crate::response::status_line;

verus! {

/// The events of a file read chunk by chunk.
pub open spec fn chunk_events(chunks: Seq<Seq<u8>>) -> Seq<EventView> {
    Seq::new(chunks.len(), |i: int| EventView::FileChunk(chunks[i]))
}

/// The events of a directory read entry by entry.
pub open spec fn entry_events(names: Seq<Seq<u8>>) -> Seq<EventView> {
    Seq::new(names.len(), |i: int| EventView::Entry(names[i]))
}

/// The events of a GET that finds a file: the file system's word, the
/// chunks, the end of the file.
pub open spec fn file_events(size: u64, chunks: Seq<Seq<u8>>) -> Seq<EventView> {
    seq![EventView::Probed(Probe::File { size })] + chunk_events(chunks)
        + seq![EventView::FileChunk(Seq::<u8>::empty())]
}

/// The events of a GET that finds a directory without an index file: the
/// file system's word, the entries, their end.
pub open spec fn listing_events(names: Seq<Seq<u8>>) -> Seq<EventView> {
    seq![EventView::Probed(Probe::Directory { has_index: false })] + entry_events(names)
        + seq![EventView::EntriesDone]
}

/// A run of one event is one step.
pub proof fn lemma_run_one(root: Seq<u8>, state: StateView, event: EventView)
    ensures
        run_of(root, state, seq![event]).0 == step_of(root, state, event).0,
        run_of(root, state, seq![event]).1 == step_of(root, state, event).1.write,
{
    let events = seq![event];
    assert(events.drop_last() =~= Seq::<EventView>::empty());
    assert(events.last() == event);
    assert(run_of(root, state, events.drop_last()) == (state, Seq::<u8>::empty()));
    assert(Seq::<u8>::empty() + step_of(root, state, event).1.write =~= step_of(
        root,
        state,
        event,
    ).1.write);
}

/// A run of two runs of events is the second run made from where the first
/// ends, and writes what the first wrote and then what the second wrote.
pub proof fn lemma_run_append(
    root: Seq<u8>,
    state: StateView,
    first: Seq<EventView>,
    second: Seq<EventView>,
)
    ensures
        run_of(root, state, first + second).0 == run_of(
            root,
            run_of(root, state, first).0,
            second,
        ).0,
        run_of(root, state, first + second).1 == run_of(root, state, first).1 + run_of(
            root,
            run_of(root, state, first).0,
            second,
        ).1,
    decreases second.len(),
{
    let middle = run_of(root, state, first);
    if second.len() == 0 {
        assert(first + second =~= first);
        assert(middle.1 + Seq::<u8>::empty() =~= middle.1);
    } else {
        lemma_run_append(root, state, first, second.drop_last());
        assert((first + second).drop_last() =~= first + second.drop_last());
        assert((first + second).last() == second.last());
        let before = run_of(root, middle.0, second.drop_last());
        let last = step_of(root, before.0, second.last());
        assert((middle.1 + before.1) + last.1.write =~= middle.1 + (before.1 + last.1.write));
    }
}

/// While a file is sent, every chunk that is read goes out as it is, in the
/// order in which it was read, and nothing else does.
pub proof fn lemma_chunks_forwarded(root: Seq<u8>, chunks: Seq<Seq<u8>>)
    requires
        forall|i: int| 0 <= i < chunks.len() ==> (#[trigger] chunks[i]).len() > 0,
    ensures
        run_of(root, StateView::RespondingFile, chunk_events(chunks)).0
            == StateView::RespondingFile,
        run_of(root, StateView::RespondingFile, chunk_events(chunks)).1 == concat_of(chunks),
    decreases chunks.len(),
{
    reveal(step_of);
    if chunks.len() > 0 {
        lemma_chunks_forwarded(root, chunks.drop_last());
        assert(chunk_events(chunks).drop_last() =~= chunk_events(chunks.drop_last()));
        assert(chunk_events(chunks).last() == EventView::FileChunk(chunks.last()));
        assert(chunks.last() == chunks[chunks.len() - 1]);
    }
}

/// While a listing is sent, every entry that is read goes out as one line,
/// in the order in which it was read.
pub proof fn lemma_entries_listed(root: Seq<u8>, url_path: Seq<u8>, names: Seq<Seq<u8>>)
    ensures
        run_of(root, StateView::RespondingListing { url_path }, entry_events(names)).0 == (
            StateView::RespondingListing { url_path }),
        run_of(root, StateView::RespondingListing { url_path }, entry_events(names)).1
            == entry_lines(url_path, names),
    decreases names.len(),
{
    reveal(step_of);
    if names.len() > 0 {
        lemma_entries_listed(root, url_path, names.drop_last());
        assert(entry_events(names).drop_last() =~= entry_events(names.drop_last()));
        assert(entry_events(names).last() == EventView::Entry(names.last()));
    }
}

/// From a state that answers the file system's word on a file with the
/// head for `path`, the whole exchange writes that head and then the chunks,
/// and ends closed.
proof fn lemma_file_run(
    root: Seq<u8>,
    start: StateView,
    path: Seq<u8>,
    size: u64,
    chunks: Seq<Seq<u8>>,
)
    requires
        forall|i: int| 0 <= i < chunks.len() ==> (#[trigger] chunks[i]).len() > 0,
        step_of(root, start, EventView::Probed(Probe::File { size })) == (
            StateView::RespondingFile,
            ActionView { write: file_head_of(path, size), next: NextView::OpenFile(path) },
        ),
    ensures
        run_of(root, start, file_events(size, chunks)).0 == StateView::Closed,
        run_of(root, start, file_events(size, chunks)).1 == file_head_of(path, size) + concat_of(
            chunks,
        ),
{
    reveal(step_of);
    let probed = seq![EventView::Probed(Probe::File { size })];
    let end = seq![EventView::FileChunk(Seq::<u8>::empty())];
    lemma_run_one(root, start, EventView::Probed(Probe::File { size }));
    lemma_chunks_forwarded(root, chunks);
    lemma_run_append(root, start, probed, chunk_events(chunks));
    lemma_run_one(root, StateView::RespondingFile, EventView::FileChunk(Seq::<u8>::empty()));
    lemma_run_append(root, start, probed + chunk_events(chunks), end);
    let head = file_head_of(path, size);
    assert((head + concat_of(chunks)) + Seq::<u8>::empty() =~= head + concat_of(chunks));
}

/// A GET for a regular file is answered with status 200, the content type
/// of its name, a content length that is the file's size, and then the
/// file's bytes: whatever chunks the file is read in, however many of them,
/// what goes out behind the head is those chunks one behind the other, and
/// the connection is closed when the end of the file is read.
pub proof fn lemma_get_file(root: Seq<u8>, url_path: Seq<u8>, size: u64, chunks: Seq<Seq<u8>>)
    requires
        forall|i: int| 0 <= i < chunks.len() ==> (#[trigger] chunks[i]).len() > 0,
    ensures
        run_of(root, StateView::Routing { url_path }, file_events(size, chunks)).0
            == StateView::Closed,
        run_of(root, StateView::Routing { url_path }, file_events(size, chunks)).1
            == file_head_of(candidate_of(root, url_path), size) + concat_of(chunks),
{
    reveal(step_of);
    lemma_file_run(
        root,
        StateView::Routing { url_path },
        candidate_of(root, url_path),
        size,
        chunks,
    );
}

/// A GET for a directory that holds an index file puts on the wire, byte
/// for byte, what a GET for the index file itself does.
pub proof fn lemma_get_directory_with_index(
    root: Seq<u8>,
    url_path: Seq<u8>,
    size: u64,
    chunks: Seq<Seq<u8>>,
)
    requires
        forall|i: int| 0 <= i < chunks.len() ==> (#[trigger] chunks[i]).len() > 0,
    ensures
        run_of(
            root,
            StateView::Routing { url_path },
            seq![EventView::Probed(Probe::Directory { has_index: true })] + file_events(
                size,
                chunks,
            ),
        ) == run_of(
            root,
            StateView::Routing { url_path: url_path + "/index.html".spec_bytes() },
            file_events(size, chunks),
        ),
{
    reveal(step_of);
    let start = StateView::Routing { url_path };
    let found = EventView::Probed(Probe::Directory { has_index: true });
    let index = index_of(candidate_of(root, url_path));
    let direct = url_path + "/index.html".spec_bytes();
    assert(index =~= candidate_of(root, direct));
    lemma_run_one(root, start, found);
    lemma_run_append(root, start, seq![found], file_events(size, chunks));
    lemma_file_run(root, StateView::RoutingIndex { url_path, index }, index, size, chunks);
    lemma_get_file(root, direct, size, chunks);
    let via = run_of(root, start, seq![found] + file_events(size, chunks));
    let straight = run_of(root, StateView::Routing { url_path: direct }, file_events(size, chunks));
    assert(via.1 =~= straight.1);
    assert(via.0 == straight.0);
}

/// A GET for a path that cannot be opened is answered with status 404 and
/// nothing behind the head, and the connection is closed.
pub proof fn lemma_get_missing(root: Seq<u8>, url_path: Seq<u8>)
    ensures
        step_of(root, StateView::Routing { url_path }, EventView::Probed(Probe::Missing))
            == reply_of(not_found_of()),
{
    reveal(step_of);
}

/// A request whose method is not GET is answered with status 405 and the
/// content type `text/plain`, with nothing behind the head, whatever its
/// path and headers, and the file system is not asked.
pub proof fn lemma_other_method(
    root: Seq<u8>,
    received: Seq<u8>,
    bytes: Seq<u8>,
    request: RequestView,
)
    requires
        read_of(received, bytes) == Ok::<ProgressView, RequestError>(
            ProgressView::Complete { request },
        ),
        request.method != "GET".spec_bytes(),
    ensures
        step_of(root, StateView::AwaitingRequest { received }, EventView::Received(bytes))
            == reply_of(method_not_allowed_of()),
{
    reveal(step_of);
}

/// A GET is not answered before the file system was asked about the
/// candidate path of the request path.
pub proof fn lemma_get_routed(
    root: Seq<u8>,
    received: Seq<u8>,
    bytes: Seq<u8>,
    request: RequestView,
)
    requires
        read_of(received, bytes) == Ok::<ProgressView, RequestError>(
            ProgressView::Complete { request },
        ),
        request.method == "GET".spec_bytes(),
    ensures
        step_of(root, StateView::AwaitingRequest { received }, EventView::Received(bytes)) == (
            StateView::Routing { url_path: request.path },
            ActionView {
                write: Seq::<u8>::empty(),
                next: NextView::Probe(candidate_of(root, request.path)),
            },
        ),
{
    reveal(step_of);
}

/// A GET for a directory that holds an index file asks for that file, and is
/// then answered as a GET for the index file itself is: with the same step,
/// whether the file system gives the file or cannot open it.
pub proof fn lemma_get_index(root: Seq<u8>, url_path: Seq<u8>, probe: Probe)
    requires
        !(probe is Directory),
    ensures
        step_of(
            root,
            StateView::Routing { url_path },
            EventView::Probed(Probe::Directory { has_index: true }),
        ).0 == (StateView::RoutingIndex {
            url_path,
            index: index_of(candidate_of(root, url_path)),
        }),
        step_of(
            root,
            StateView::RoutingIndex { url_path, index: index_of(candidate_of(root, url_path)) },
            EventView::Probed(probe),
        ) == step_of(
            root,
            StateView::Routing { url_path: url_path + "/index.html".spec_bytes() },
            EventView::Probed(probe),
        ),
{
    reveal(step_of);
    assert(index_of(candidate_of(root, url_path)) =~= candidate_of(
        root,
        url_path + "/index.html".spec_bytes(),
    ));
}

/// Where what stands under the name of the index file is itself a directory,
/// the directory that was asked for is answered as one without an index
/// file is: with its listing.
pub proof fn lemma_index_directory_is_listed(
    root: Seq<u8>,
    url_path: Seq<u8>,
    index: Seq<u8>,
    has_index: bool,
)
    ensures
        step_of(
            root,
            StateView::RoutingIndex { url_path, index },
            EventView::Probed(Probe::Directory { has_index }),
        ) == step_of(
            root,
            StateView::Routing { url_path },
            EventView::Probed(Probe::Directory { has_index: false }),
        ),
{
    reveal(step_of);
}

/// Each head starts with the status line of its code: 405 where the method
/// is not allowed, 404 where nothing is found, 200 before a file and before
/// a listing.
pub proof fn lemma_heads_begin_with_status(path: Seq<u8>, size: u64, rest: Seq<u8>)
    ensures
        begins_with(method_not_allowed_of(), status_line(405)),
        begins_with(not_found_of(), status_line(404)),
        begins_with(file_head_of(path, size), status_line(200)),
        begins_with(listing_response_head_of() + rest, status_line(200)),
{
    let n405 = status_line(405).len() as int;
    let n404 = status_line(404).len() as int;
    let n200 = status_line(200).len() as int;
    assert(method_not_allowed_of().take(n405) =~= status_line(405));
    assert(not_found_of().take(n404) =~= status_line(404));
    assert(file_head_of(path, size).take(n200) =~= status_line(200));
    assert((listing_response_head_of() + rest).take(n200) =~= status_line(200));
}

/// Every GET is answered with a status line, whatever the file system says
/// of its path. The code is 404 where nothing can be opened at the path, and
/// 200 for a regular file and for a directory without an index file, with
/// that answer's first bytes. For a directory with something under the name
/// of the index file nothing is written before the file system was asked
/// about that; then the code is 404 where it cannot be opened and 200
/// otherwise, be it a file or a directory.
pub proof fn lemma_get_is_answered(
    root: Seq<u8>,
    url_path: Seq<u8>,
    probe: Probe,
    index_probe: Probe,
)
    ensures
        ({
            let first = step_of(root, StateView::Routing { url_path }, EventView::Probed(probe));
            let second = step_of(root, first.0, EventView::Probed(index_probe));
            match probe {
                Probe::Missing => begins_with(first.1.write, status_line(404)),
                Probe::File { size } => begins_with(first.1.write, status_line(200)),
                Probe::Directory { has_index } => if !has_index {
                    begins_with(first.1.write, status_line(200))
                } else {
                    &&& first.1.write.len() == 0
                    &&& first.1.next == NextView::Probe(index_of(candidate_of(root, url_path)))
                    &&& match index_probe {
                        Probe::Missing => begins_with(second.1.write, status_line(404)),
                        _ => begins_with(second.1.write, status_line(200)),
                    }
                },
            }
        }),
{
    reveal(step_of);
    let index = index_of(candidate_of(root, url_path));
    match probe {
        Probe::Missing => {
            lemma_heads_begin_with_status(url_path, 0, Seq::<u8>::empty());
        },
        Probe::File { size } => {
            lemma_heads_begin_with_status(candidate_of(root, url_path), size, Seq::<u8>::empty());
        },
        Probe::Directory { has_index } => {
            lemma_heads_begin_with_status(url_path, 0, listing_head_of(url_path));
            match index_probe {
                Probe::File { size } => {
                    lemma_heads_begin_with_status(index, size, Seq::<u8>::empty());
                },
                _ => {},
            }
        },
    }
}

/// A GET for a directory in which the name of the index file is taken by a
/// directory is answered, byte for byte, as a GET for a directory without an
/// index file is.
pub proof fn lemma_get_directory_with_index_directory(
    root: Seq<u8>,
    url_path: Seq<u8>,
    has_index: bool,
    names: Seq<Seq<u8>>,
)
    ensures
        run_of(
            root,
            StateView::Routing { url_path },
            seq![EventView::Probed(Probe::Directory { has_index: true })] + (seq![
                EventView::Probed(Probe::Directory { has_index }),
            ] + entry_events(names) + seq![EventView::EntriesDone]),
        ).0 == StateView::Closed,
        run_of(
            root,
            StateView::Routing { url_path },
            seq![EventView::Probed(Probe::Directory { has_index: true })] + (seq![
                EventView::Probed(Probe::Directory { has_index }),
            ] + entry_events(names) + seq![EventView::EntriesDone]),
        ).1 == listing_response_head_of() + listing_of(url_path, names),
{
    reveal(step_of);
    let start = StateView::Routing { url_path };
    let index = index_of(candidate_of(root, url_path));
    let waiting = StateView::RoutingIndex { url_path, index };
    let listing = StateView::RespondingListing { url_path };
    let found = EventView::Probed(Probe::Directory { has_index: true });
    let again = EventView::Probed(Probe::Directory { has_index });
    let end = seq![EventView::EntriesDone];
    let tail = seq![again] + entry_events(names) + end;
    lemma_run_one(root, start, found);
    lemma_run_append(root, start, seq![found], tail);
    lemma_run_one(root, waiting, again);
    lemma_entries_listed(root, url_path, names);
    lemma_run_append(root, waiting, seq![again], entry_events(names));
    lemma_run_one(root, listing, EventView::EntriesDone);
    lemma_run_append(root, waiting, seq![again] + entry_events(names), end);
    assert(run_of(root, start, seq![found] + tail).1 =~= listing_response_head_of() + listing_of(
        url_path,
        names,
    ));
}

/// A GET for a directory without an index file is answered with status 200,
/// the content type `text/html` and the listing of the directory: the parent
/// link unless the path is the root, then one link for each entry that was
/// read, in the order in which they were read.
pub proof fn lemma_get_listing(root: Seq<u8>, url_path: Seq<u8>, names: Seq<Seq<u8>>)
    ensures
        run_of(root, StateView::Routing { url_path }, listing_events(names)).0
            == StateView::Closed,
        run_of(root, StateView::Routing { url_path }, listing_events(names)).1
            == listing_response_head_of() + listing_of(url_path, names),
{
    reveal(step_of);
    let start = StateView::Routing { url_path };
    let listing = StateView::RespondingListing { url_path };
    let probed = seq![EventView::Probed(Probe::Directory { has_index: false })];
    let end = seq![EventView::EntriesDone];
    lemma_run_one(root, start, EventView::Probed(Probe::Directory { has_index: false }));
    lemma_entries_listed(root, url_path, names);
    lemma_run_append(root, start, probed, entry_events(names));
    lemma_run_one(root, listing, EventView::EntriesDone);
    lemma_run_append(root, start, probed + entry_events(names), end);
    assert(run_of(root, start, listing_events(names)).1 =~= listing_response_head_of()
        + listing_of(url_path, names));
}

/// Once closed, a connection stays closed and nothing more is written.
pub proof fn lemma_closed_stays_closed(root: Seq<u8>, events: Seq<EventView>)
    ensures
        run_of(root, StateView::Closed, events).0 == StateView::Closed,
        run_of(root, StateView::Closed, events).1 == Seq::<u8>::empty(),
    decreases events.len(),
{
    reveal(step_of);
    if events.len() > 0 {
        lemma_closed_stays_closed(root, events.drop_last());
        assert(Seq::<u8>::empty() + Seq::<u8>::empty() =~= Seq::<u8>::empty());
    }
}

} // verus!
