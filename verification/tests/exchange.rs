use http_files::handler::{
    file_head, initial_state, listing_start, method_not_allowed, not_found, receive, respond,
    respond_index, route, step, Action, Event, Next, State,
};
use http_files::kv::{start, KvError};
use http_files::resolve::{Probe, ServedPath};

fn run(root: &[u8], events: Vec<Event>) -> (State, Vec<u8>) {
    let mut state = initial_state();
    let mut out = Vec::new();
    for e in events {
        let (s, a) = step(root, state, e);
        out.extend_from_slice(&a.write);
        state = s;
    }
    (state, out)
}

#[test]
fn connection_starts_awaiting_the_request() {
    assert_eq!(initial_state(), State::AwaitingRequest { received: Vec::new() });
}

#[test]
fn heads_of_the_answers() {
    assert_eq!(
        method_not_allowed(),
        b"HTTP/1.0 405 Method Not Allowed\r\nContent-Type: text/plain\r\n\r\n".to_vec()
    );
    assert_eq!(not_found(), b"HTTP/1.0 404 Not Found\r\n\r\n".to_vec());
    assert_eq!(
        file_head(b"./a/b.css", 1500),
        b"HTTP/1.0 200 OK\r\nContent-Type: text/css\r\nContent-Length: 1500\r\n\r\n".to_vec()
    );
    assert_eq!(
        listing_start(&None),
        b"HTTP/1.0 200 OK\r\nContent-Type: text/html\r\n\r\n<html><body><br/>".to_vec()
    );
    assert_eq!(
        listing_start(&Some(b"/".to_vec())),
        b"HTTP/1.0 200 OK\r\nContent-Type: text/html\r\n\r\n<html><body><br/><a href=\"/\">..</a><br/>"
            .to_vec()
    );
}

#[test]
fn partial_head_asks_for_more() {
    let (s, a) = step(b".", initial_state(), Event::Received(b"GET / HT".to_vec()));
    assert_eq!(s, State::AwaitingRequest { received: b"GET / HT".to_vec() });
    assert_eq!(a, Action { write: Vec::new(), next: Next::Read });
    let (s, a) = step(b".", s, Event::Received(b"TP/1.0\r\n\r\n".to_vec()));
    assert_eq!(s, State::Routing { url_path: b"/".to_vec() });
    assert_eq!(a, Action { write: Vec::new(), next: Next::Probe(b"./".to_vec()) });
}

#[test]
fn peer_closing_before_the_head_gets_no_answer() {
    let (s, a) = step(b".", initial_state(), Event::Received(Vec::new()));
    assert_eq!(s, State::Closed);
    assert_eq!(a, Action { write: Vec::new(), next: Next::Close });
    let (s, a) = receive(b".", b"GET / HTTP/1.0\r\n".to_vec(), b"");
    assert_eq!(s, State::Closed);
    assert_eq!(a, Action { write: Vec::new(), next: Next::Close });
}

#[test]
fn malformed_head_gets_no_answer() {
    let (s, a) = step(b".", initial_state(), Event::Received(b"nonsense\r\n\r\n".to_vec()));
    assert_eq!(s, State::Closed);
    assert_eq!(a, Action { write: Vec::new(), next: Next::Close });
}

#[test]
fn other_methods_get_405() {
    for m in ["POST", "PUT", "DELETE", "get", "GETX"] {
        let head = format!("{} /some/path HTTP/1.0\r\nHost: x\r\n\r\n", m).into_bytes();
        let (s, out) = run(b".", vec![Event::Received(head)]);
        assert_eq!(s, State::Closed);
        assert_eq!(
            out,
            b"HTTP/1.0 405 Method Not Allowed\r\nContent-Type: text/plain\r\n\r\n".to_vec()
        );
    }
}

#[test]
fn route_sends_get_to_the_file_system() {
    let (s, a) = route(b"/srv", b"GET", b"/x".to_vec());
    assert_eq!(s, State::Routing { url_path: b"/x".to_vec() });
    assert_eq!(a, Action { write: Vec::new(), next: Next::Probe(b"/srv/x".to_vec()) });
    let (s, a) = route(b"/srv", b"HEAD", b"/x".to_vec());
    assert_eq!(s, State::Closed);
    assert_eq!(a, Action { write: method_not_allowed(), next: Next::Close });
}

#[test]
fn missing_path_gets_404() {
    let (s, out) = run(
        b".",
        vec![
            Event::Received(b"GET /nope HTTP/1.0\r\n\r\n".to_vec()),
            Event::Probed(Probe::Missing),
        ],
    );
    assert_eq!(s, State::Closed);
    assert_eq!(out, b"HTTP/1.0 404 Not Found\r\n\r\n".to_vec());
}

#[test]
fn file_is_sent_with_its_length() {
    let (s, out) = run(
        b".",
        vec![
            Event::Received(b"GET /hello.txt HTTP/1.0\r\n\r\n".to_vec()),
            Event::Probed(Probe::File { size: 5 }),
            Event::FileChunk(b"hello".to_vec()),
            Event::FileChunk(Vec::new()),
        ],
    );
    assert_eq!(s, State::Closed);
    assert_eq!(
        out,
        b"HTTP/1.0 200 OK\r\nContent-Type: text/plain\r\nContent-Length: 5\r\n\r\nhello".to_vec()
    );
}

#[test]
fn file_step_orders_the_file_to_be_opened() {
    let (s, a) = respond(
        b"/a.png".to_vec(),
        ServedPath::File { path: b"./a.png".to_vec(), size: 3 },
    );
    assert_eq!(s, State::RespondingFile);
    assert_eq!(a.next, Next::OpenFile(b"./a.png".to_vec()));
    assert_eq!(
        a.write,
        b"HTTP/1.0 200 OK\r\nContent-Type: image/png\r\nContent-Length: 3\r\n\r\n".to_vec()
    );
    let (s, a) = step(b".", s, Event::FileChunk(b"abc".to_vec()));
    assert_eq!(s, State::RespondingFile);
    assert_eq!(a, Action { write: b"abc".to_vec(), next: Next::ReadChunk });
}

#[test]
fn large_file_is_sent_whole_in_chunks() {
    let content: Vec<u8> = (0..5000u32).map(|i| (i % 251) as u8).collect();
    let mut events = vec![
        Event::Received(b"GET /big.bin HTTP/1.0\r\n\r\n".to_vec()),
        Event::Probed(Probe::File { size: content.len() as u64 }),
    ];
    for c in content.chunks(http_files::handler::CHUNK_SIZE) {
        events.push(Event::FileChunk(c.to_vec()));
    }
    events.push(Event::FileChunk(Vec::new()));
    let (s, out) = run(b".", events);
    assert_eq!(s, State::Closed);
    let mut expected =
        b"HTTP/1.0 200 OK\r\nContent-Type: application/octet-stream\r\nContent-Length: 5000\r\n\r\n"
            .to_vec();
    expected.extend_from_slice(&content);
    assert_eq!(out, expected);
}

#[test]
fn read_error_cuts_the_file_short() {
    let (s, out) = run(
        b".",
        vec![
            Event::Received(b"GET /a.txt HTTP/1.0\r\n\r\n".to_vec()),
            Event::Probed(Probe::File { size: 10 }),
            Event::FileChunk(b"01234".to_vec()),
            Event::FileFailed,
        ],
    );
    assert_eq!(s, State::Closed);
    assert_eq!(
        out,
        b"HTTP/1.0 200 OK\r\nContent-Type: text/plain\r\nContent-Length: 10\r\n\r\n01234".to_vec()
    );
}

#[test]
fn directory_with_index_is_answered_like_the_index_file() {
    let via_directory = run(
        b".",
        vec![
            Event::Received(b"GET /docs HTTP/1.0\r\n\r\n".to_vec()),
            Event::Probed(Probe::Directory { has_index: true }),
            Event::Probed(Probe::File { size: 4 }),
            Event::FileChunk(b"<p/>".to_vec()),
            Event::FileChunk(Vec::new()),
        ],
    );
    let direct = run(
        b".",
        vec![
            Event::Received(b"GET /docs/index.html HTTP/1.0\r\n\r\n".to_vec()),
            Event::Probed(Probe::File { size: 4 }),
            Event::FileChunk(b"<p/>".to_vec()),
            Event::FileChunk(Vec::new()),
        ],
    );
    assert_eq!(via_directory, direct);
    assert_eq!(
        direct.1,
        b"HTTP/1.0 200 OK\r\nContent-Type: text/html\r\nContent-Length: 4\r\n\r\n<p/>".to_vec()
    );
}

#[test]
fn directory_with_index_asks_about_the_index_file() {
    let (s, a) = step(
        b".",
        State::Routing { url_path: b"/docs".to_vec() },
        Event::Probed(Probe::Directory { has_index: true }),
    );
    assert_eq!(
        s,
        State::RoutingIndex { url_path: b"/docs".to_vec(), index: b"./docs/index.html".to_vec() }
    );
    assert_eq!(a, Action { write: Vec::new(), next: Next::Probe(b"./docs/index.html".to_vec()) });
    let (s2, a2) = step(b".", s, Event::Probed(Probe::Missing));
    assert_eq!(s2, State::Closed);
    assert_eq!(a2.write, not_found());
}

#[test]
fn index_that_is_a_directory_gives_the_listing() {
    for has_index in [false, true] {
        let (s, out) = run(
            b".",
            vec![
                Event::Received(b"GET /docs HTTP/1.0\r\n\r\n".to_vec()),
                Event::Probed(Probe::Directory { has_index: true }),
                Event::Probed(Probe::Directory { has_index }),
                Event::Entry(b"index.html".to_vec()),
                Event::EntriesDone,
            ],
        );
        assert_eq!(s, State::Closed);
        assert_eq!(
            out,
            b"HTTP/1.0 200 OK\r\nContent-Type: text/html\r\n\r\n<html><body><br/><a href=\"/\">..</a><br/><a href=\"/docs/index.html\">index.html</a><br/></body></html>"
                .to_vec()
        );
    }
    let (s, a) = respond_index(
        b".",
        b"/docs".to_vec(),
        b"./docs/index.html".to_vec(),
        Probe::Directory { has_index: false },
    );
    assert_eq!(s, State::RespondingListing { url_path: b"/docs".to_vec() });
    assert_eq!(a.next, Next::OpenDirectory(b"./docs".to_vec()));
}

#[test]
fn every_get_gets_a_status_line() {
    let probes = [
        Probe::Missing,
        Probe::File { size: 3 },
        Probe::Directory { has_index: false },
        Probe::Directory { has_index: true },
    ];
    for first in probes {
        for second in probes {
            let (s, a) = step(b".", State::Routing { url_path: b"/d".to_vec() }, Event::Probed(first));
            let write = if first == (Probe::Directory { has_index: true }) {
                assert!(a.write.is_empty());
                step(b".", s, Event::Probed(second)).1.write
            } else {
                a.write
            };
            let missing = first == Probe::Missing
                || (first == (Probe::Directory { has_index: true }) && second == Probe::Missing);
            if missing {
                assert!(write.starts_with(b"HTTP/1.0 404 Not Found\r\n"));
            } else {
                assert!(write.starts_with(b"HTTP/1.0 200 OK\r\n"));
            }
        }
    }
}

#[test]
fn directory_without_index_is_listed() {
    let (s, out) = run(
        b".",
        vec![
            Event::Received(b"GET /docs HTTP/1.0\r\n\r\n".to_vec()),
            Event::Probed(Probe::Directory { has_index: false }),
            Event::Entry(b"b.txt".to_vec()),
            Event::Entry(b"a.txt".to_vec()),
            Event::EntriesDone,
        ],
    );
    assert_eq!(s, State::Closed);
    assert_eq!(
        out,
        b"HTTP/1.0 200 OK\r\nContent-Type: text/html\r\n\r\n<html><body><br/><a href=\"/\">..</a><br/><a href=\"/docs/b.txt\">b.txt</a><br/><a href=\"/docs/a.txt\">a.txt</a><br/></body></html>"
            .to_vec()
    );
}

#[test]
fn listing_step_orders_the_directory_to_be_opened() {
    let (s, a) = step(
        b".",
        State::Routing { url_path: b"/".to_vec() },
        Event::Probed(Probe::Directory { has_index: false }),
    );
    assert_eq!(s, State::RespondingListing { url_path: b"/".to_vec() });
    assert_eq!(a.next, Next::OpenDirectory(b"./".to_vec()));
    assert_eq!(
        a.write,
        b"HTTP/1.0 200 OK\r\nContent-Type: text/html\r\n\r\n<html><body><br/>".to_vec()
    );
}

#[test]
fn failure_closes_from_every_state() {
    let states = vec![
        initial_state(),
        State::Routing { url_path: b"/".to_vec() },
        State::RoutingIndex { url_path: b"/".to_vec(), index: b"./index.html".to_vec() },
        State::RespondingFile,
        State::RespondingListing { url_path: b"/".to_vec() },
        State::Closed,
    ];
    for st in states {
        let (s, a) = step(b".", st, Event::Failed);
        assert_eq!(s, State::Closed);
        assert_eq!(a, Action { write: Vec::new(), next: Next::Close });
    }
}

#[test]
fn unexpected_event_closes() {
    let (s, a) = step(b".", State::RespondingFile, Event::Entry(b"x".to_vec()));
    assert_eq!(s, State::Closed);
    assert_eq!(a, Action { write: Vec::new(), next: Next::Close });
    let (s, a) = step(b".", State::Closed, Event::Received(b"GET / HTTP/1.0\r\n\r\n".to_vec()));
    assert_eq!(s, State::Closed);
    assert_eq!(a, Action { write: Vec::new(), next: Next::Close });
}

#[test]
fn exchanges_do_not_touch_each_other() {
    let files: Vec<(Vec<u8>, Vec<u8>)> = (0..8u8)
        .map(|i| (format!("/f{}.txt", i).into_bytes(), vec![b'a' + i; 100 + i as usize]))
        .collect();
    let mut states: Vec<State> = files.iter().map(|_| initial_state()).collect();
    let mut outs: Vec<Vec<u8>> = files.iter().map(|_| Vec::new()).collect();
    for round in 0..4 {
        for (k, (path, content)) in files.iter().enumerate() {
            let event = match round {
                0 => {
                    let mut head = b"GET ".to_vec();
                    head.extend_from_slice(path);
                    head.extend_from_slice(b" HTTP/1.0\r\n\r\n");
                    Event::Received(head)
                }
                1 => Event::Probed(Probe::File { size: content.len() as u64 }),
                2 => Event::FileChunk(content.clone()),
                _ => Event::FileChunk(Vec::new()),
            };
            let (s, a) = step(b".", states[k].clone(), event);
            outs[k].extend_from_slice(&a.write);
            states[k] = s;
        }
    }
    for (k, (_, content)) in files.iter().enumerate() {
        assert_eq!(states[k], State::Closed);
        let mut expected = format!(
            "HTTP/1.0 200 OK\r\nContent-Type: text/plain\r\nContent-Length: {}\r\n\r\n",
            content.len()
        )
        .into_bytes();
        expected.extend_from_slice(content);
        assert_eq!(outs[k], expected);
    }
}

#[test]
fn store_starts_empty() {
    let store = start();
    assert_eq!(store.get(b"k"), Err(KvError::NotFound));
}

#[test]
fn store_put_then_get() {
    let mut store = start();
    store.put(b"k".to_vec(), b"v".to_vec());
    store.put(b"other".to_vec(), b"w".to_vec());
    assert_eq!(store.get(b"k"), Ok(b"v".to_vec()));
    assert_eq!(store.get(b"other"), Ok(b"w".to_vec()));
    assert_eq!(store.get(b"missing"), Err(KvError::NotFound));
}

#[test]
fn store_put_overwrites() {
    let mut store = start();
    store.put(b"k".to_vec(), b"v1".to_vec());
    store.put(b"k".to_vec(), b"v2".to_vec());
    assert_eq!(store.get(b"k"), Ok(b"v2".to_vec()));
    store.put(Vec::new(), Vec::new());
    assert_eq!(store.get(b""), Ok(Vec::new()));
    assert_eq!(store.get(b"k"), Ok(b"v2".to_vec()));
}

#[test]
fn store_echo_and_example() {
    let store = start();
    assert_eq!(store.echo(String::from("hello")), "hello");
    assert_eq!(store.example(41), 42);
    assert_eq!(store.example(0), 1);
}

#[test]
fn store_example_on_the_largest_number() {
    let store = start();
    assert_eq!(store.example(u32::MAX - 1), u32::MAX);
    assert_eq!(store.example(u32::MAX), 0);
}
