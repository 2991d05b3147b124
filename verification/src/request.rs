//! The request parser: from the bytes of a request head to method, path and
//! headers.

use vstd::prelude::*;
use crate::text::copy_range;

verus! {

/// Carriage return.
pub const CR: u8 = 13;

/// Line feed.
pub const LF: u8 = 10;

/// Space.
pub const SPACE: u8 = 32;

/// Horizontal tab.
pub const TAB: u8 = 9;

/// Colon.
pub const COLON: u8 = 58;

/// Why no request came out of a connection.
#[derive(Clone, Copy, Debug, PartialEq, Eq, Structural)]
pub enum RequestError {
    /// The peer closed the connection before a whole head had arrived.
    ConnectionClosed,
    /// A whole head arrived and is not a request.
    MalformedRequest,
}

/// A request: the method and the request target as they were sent, and the
/// header lines in the order in which they were sent. A name that was sent
/// twice stands twice; a lookup by name finds the one sent last.
#[derive(Clone, Debug, PartialEq, Eq)]
pub struct Request {
    pub method: Vec<u8>,
    pub path: Vec<u8>,
    pub headers: Vec<(Vec<u8>, Vec<u8>)>,
}

/// The mathematical value of a `Request`.
pub ghost struct RequestView {
    pub method: Seq<u8>,
    pub path: Seq<u8>,
    pub headers: Seq<(Seq<u8>, Seq<u8>)>,
}

/// How far the reading of a request has come.
#[derive(Clone, Debug, PartialEq, Eq)]
pub enum Progress {
    /// No whole head yet; `received` is all that has arrived.
    NeedMore { received: Vec<u8> },
    /// The head has arrived and holds this request.
    Complete { request: Request },
}

/// The mathematical value of a `Progress`.
pub ghost enum ProgressView {
    NeedMore { received: Seq<u8> },
    Complete { request: RequestView },
}

impl View for Progress {
    type V = ProgressView;

    open spec fn view(&self) -> ProgressView {
        match *self {
            Progress::NeedMore { received } => ProgressView::NeedMore { received: received@ },
            Progress::Complete { request } => ProgressView::Complete { request: request@ },
        }
    }
}

/// Name and value of each header as sequences of bytes.
pub open spec fn pairs_of(headers: Seq<(Vec<u8>, Vec<u8>)>) -> Seq<(Seq<u8>, Seq<u8>)> {
    Seq::new(headers.len(), |i: int| (headers[i].0@, headers[i].1@))
}

impl View for Request {
    type V = RequestView;

    open spec fn view(&self) -> RequestView {
        RequestView { method: self.method@, path: self.path@, headers: pairs_of(self.headers@) }
    }
}

/// The first place at or after `from` where `s` holds `b`; the length of `s`
/// where it holds none.
pub open spec fn first_at(s: Seq<u8>, from: int, b: u8) -> int
    decreases s.len() - from,
{
    if from < 0 || from >= s.len() {
        s.len() as int
    } else if s[from] == b {
        from
    } else {
        first_at(s, from + 1, b)
    }
}

/// A head ends at `i`: the four bytes before `i` are an empty line behind a
/// line end.
pub open spec fn is_head_end(buf: Seq<u8>, i: int) -> bool {
    4 <= i <= buf.len() && buf[i - 4] == CR && buf[i - 3] == LF && buf[i - 2] == CR && buf[i - 1]
        == LF
}

/// A line starts at `start` and is closed by a carriage return and a line
/// feed.
pub open spec fn line_ok(head: Seq<u8>, start: int) -> bool {
    let e = first_at(head, start, LF);
    0 <= start < e < head.len() && head[e - 1] == CR
}

/// The line that starts at `start`, without its line end.
pub open spec fn line_at(head: Seq<u8>, start: int) -> Seq<u8> {
    head.subrange(start, first_at(head, start, LF) - 1)
}

/// Where the line behind the one at `start` starts.
pub open spec fn next_line(head: Seq<u8>, start: int) -> int {
    first_at(head, start, LF) + 1
}

/// Method and path of a request line: three words, none of them empty, with
/// one space between them. The third, the version, is not looked into.
pub open spec fn request_line_of(line: Seq<u8>) -> Option<(Seq<u8>, Seq<u8>)> {
    let a = first_at(line, 0, SPACE);
    let b = first_at(line, a + 1, SPACE);
    let c = first_at(line, b + 1, SPACE);
    if 0 < a && a + 1 < b && b + 1 < line.len() && c == line.len() {
        Some((line.take(a), line.subrange(a + 1, b)))
    } else {
        None
    }
}

/// The first place at or after `from` where `s` holds neither a space nor a
/// tab.
pub open spec fn after_blanks(s: Seq<u8>, from: int) -> int
    decreases s.len() - from,
{
    if 0 <= from < s.len() && (s[from] == SPACE || s[from] == TAB) {
        after_blanks(s, from + 1)
    } else {
        from
    }
}

/// Name and value of a header line: the name is what stands before the first
/// colon and is not empty; the value is what follows the colon, without the
/// blanks at its start.
pub open spec fn header_of(line: Seq<u8>) -> Option<(Seq<u8>, Seq<u8>)> {
    let c = first_at(line, 0, COLON);
    if 0 < c < line.len() {
        Some((line.take(c), line.skip(after_blanks(line, c + 1))))
    } else {
        None
    }
}

/// The headers that the lines from `start` on hold, up to the first empty
/// line. None where a line is not closed, or is no header, before an empty
/// line was seen.
pub open spec fn headers_from(head: Seq<u8>, start: int) -> Option<Seq<(Seq<u8>, Seq<u8>)>>
    decreases head.len() - start,
{
    if !line_ok(head, start) {
        None
    } else if line_at(head, start).len() == 0 {
        Some(Seq::<(Seq<u8>, Seq<u8>)>::empty())
    } else {
        match header_of(line_at(head, start)) {
            None => None,
            Some(h) => match headers_from(head, next_line(head, start)) {
                None => None,
                Some(rest) => Some(seq![h] + rest),
            },
        }
    }
}

/// The request that a head holds: a request line, then header lines, then an
/// empty line. None where the head is not of that form.
pub open spec fn parsed(head: Seq<u8>) -> Option<RequestView> {
    if !line_ok(head, 0) {
        None
    } else {
        match request_line_of(line_at(head, 0)) {
            None => None,
            Some(mp) => match headers_from(head, next_line(head, 0)) {
                None => None,
                Some(hs) => Some(RequestView { method: mp.0, path: mp.1, headers: hs }),
            },
        }
    }
}

/// `buf` holds a whole head.
pub open spec fn has_head(buf: Seq<u8>) -> bool {
    exists|i: int| is_head_end(buf, i)
}

/// Where the first head in `buf` ends.
pub open spec fn first_head_end(buf: Seq<u8>) -> int {
    choose|i: int| is_head_end(buf, i) && forall|j: int| j < i ==> !is_head_end(buf, j)
}

/// What reading `bytes` behind `received` leads to. No byte at all means
/// that the peer closed the connection, which is no malformed request. As
/// long as no whole head is there, more is needed and nothing is parsed.
/// Once one is there, it is a request or it is malformed; what stands behind
/// the head is not looked at.
pub open spec fn read_of(received: Seq<u8>, bytes: Seq<u8>) -> Result<ProgressView, RequestError> {
    let buf = received + bytes;
    if bytes.len() == 0 {
        Err(RequestError::ConnectionClosed)
    } else if !has_head(buf) {
        Ok(ProgressView::NeedMore { received: buf })
    } else {
        match parsed(buf.take(first_head_end(buf))) {
            None => Err(RequestError::MalformedRequest),
            Some(request) => Ok(ProgressView::Complete { request }),
        }
    }
}

/// The lower-case form of an ASCII letter; any other byte as it is.
pub open spec fn lower(b: u8) -> u8 {
    if 65 <= b <= 90 {
        (b + 32) as u8
    } else {
        b
    }
}

/// Two header names are the same but for the case of their letters.
pub open spec fn same_name(a: Seq<u8>, b: Seq<u8>) -> bool {
    a.len() == b.len() && forall|i: int| 0 <= i < a.len() ==> lower(#[trigger] a[i]) == lower(b[i])
}

/// The value of the last header of that name, whatever the case of its
/// letters.
pub open spec fn lookup(headers: Seq<(Seq<u8>, Seq<u8>)>, name: Seq<u8>) -> Option<Seq<u8>>
    decreases headers.len(),
{
    if headers.len() == 0 {
        None
    } else if same_name(headers.last().0, name) {
        Some(headers.last().1)
    } else {
        lookup(headers.drop_last(), name)
    }
}

/// Finds the first `b` at or after `from`.
pub fn find_byte(s: &[u8], from: usize, b: u8) -> (r: usize)
    requires
        from <= s@.len(),
    ensures
        r == first_at(s@, from as int, b),
        from <= r <= s@.len(),
{
    let mut i: usize = from;
    while i < s.len() && s[i] != b
        invariant
            from <= i <= s@.len(),
            first_at(s@, i as int, b) == first_at(s@, from as int, b),
        decreases s@.len() - i,
    {
        i += 1;
    }
    i
}

/// Where the first head in `buf` ends, if `buf` holds a whole head.
pub fn head_end(buf: &[u8]) -> (r: Option<usize>)
    ensures
        match r {
            Some(i) => is_head_end(buf@, i as int) && forall|j: int|
                j < i ==> !is_head_end(buf@, j),
            None => forall|j: int| !is_head_end(buf@, j),
        },
{
    let n = buf.len();
    if n < 4 {
        return None;
    }
    let mut i: usize = 4;
    loop
        invariant
            n == buf@.len(),
            4 <= i <= n,
            forall|j: int| j < i ==> !is_head_end(buf@, j),
        decreases n - i,
    {
        if buf[i - 4] == CR && buf[i - 3] == LF && buf[i - 2] == CR && buf[i - 1] == LF {
            return Some(i);
        }
        if i == n {
            return None;
        }
        i += 1;
    }
}

/// Splits a request line into method and path.
pub fn parse_request_line(line: &[u8]) -> (r: Option<(Vec<u8>, Vec<u8>)>)
    ensures
        match r {
            Some(mp) => request_line_of(line@) == Some((mp.0@, mp.1@)),
            None => request_line_of(line@).is_none(),
        },
{
    let n = line.len();
    let a = find_byte(line, 0, SPACE);
    if a == 0 || a >= n {
        return None;
    }
    let b = find_byte(line, a + 1, SPACE);
    if b <= a + 1 || b >= n || b + 1 >= n {
        return None;
    }
    let c = find_byte(line, b + 1, SPACE);
    if c != n {
        return None;
    }
    let method = copy_range(line, 0, a);
    let path = copy_range(line, a + 1, b);
    assert(method@ =~= line@.take(a as int));
    Some((method, path))
}

/// Skips spaces and tabs.
fn skip_blanks(s: &[u8], from: usize) -> (r: usize)
    requires
        from <= s@.len(),
    ensures
        r == after_blanks(s@, from as int),
        from <= r <= s@.len(),
{
    let mut i: usize = from;
    while i < s.len() && (s[i] == SPACE || s[i] == TAB)
        invariant
            from <= i <= s@.len(),
            after_blanks(s@, i as int) == after_blanks(s@, from as int),
        decreases s@.len() - i,
    {
        i += 1;
    }
    i
}

/// Splits a header line into name and value.
pub fn parse_header_line(line: &[u8]) -> (r: Option<(Vec<u8>, Vec<u8>)>)
    ensures
        match r {
            Some(h) => header_of(line@) == Some((h.0@, h.1@)),
            None => header_of(line@).is_none(),
        },
{
    let n = line.len();
    let c = find_byte(line, 0, COLON);
    if c == 0 || c >= n {
        return None;
    }
    let v = skip_blanks(line, c + 1);
    let name = copy_range(line, 0, c);
    let value = copy_range(line, v, n);
    assert(name@ =~= line@.take(c as int));
    assert(value@ =~= line@.skip(v as int));
    Some((name, value))
}

/// What the headers read so far and those still to come make together.
pub open spec fn joined(
    before: Seq<(Seq<u8>, Seq<u8>)>,
    rest: Option<Seq<(Seq<u8>, Seq<u8>)>>,
) -> Option<Seq<(Seq<u8>, Seq<u8>)>> {
    match rest {
        None => None,
        Some(r) => Some(before + r),
    }
}

/// Parses a request head. Succeeds exactly on the heads that hold a request;
/// any other is malformed.
pub fn parse_head(head: &[u8]) -> (r: Result<Request, RequestError>)
    ensures
        match r {
            Ok(req) => parsed(head@) == Some(req@),
            Err(e) => e == RequestError::MalformedRequest && parsed(head@).is_none(),
        },
{
    let n = head.len();
    let e = find_byte(head, 0, LF);
    if e == 0 || e >= n || head[e - 1] != CR {
        return Err(RequestError::MalformedRequest);
    }
    let line = vstd::slice::slice_subrange(head, 0, e - 1);
    let (method, path) = match parse_request_line(line) {
        None => {
            return Err(RequestError::MalformedRequest);
        },
        Some(mp) => mp,
    };
    let first: usize = e + 1;
    let mut pos: usize = first;
    let mut headers: Vec<(Vec<u8>, Vec<u8>)> = Vec::new();
    assert(pairs_of(headers@) + headers_from(head@, pos as int).unwrap() =~= headers_from(
        head@,
        pos as int,
    ).unwrap());
    loop
        invariant
            n == head@.len(),
            first <= pos <= n,
            headers_from(head@, first as int) == joined(
                pairs_of(headers@),
                headers_from(head@, pos as int),
            ),
            parsed(head@) == match headers_from(head@, first as int) {
                None => None::<RequestView>,
                Some(hs) => Some(RequestView { method: method@, path: path@, headers: hs }),
            },
        decreases n - pos,
    {
        let e = find_byte(head, pos, LF);
        if e == pos || e >= n || head[e - 1] != CR {
            return Err(RequestError::MalformedRequest);
        }
        if e - 1 == pos {
            let req = Request { method, path, headers };
            proof {
                assert(line_at(head@, pos as int).len() == 0);
                assert(pairs_of(headers@) + Seq::<(Seq<u8>, Seq<u8>)>::empty() =~= pairs_of(
                    headers@,
                ));
            }
            return Ok(req);
        }
        let line = vstd::slice::slice_subrange(head, pos, e - 1);
        match parse_header_line(line) {
            None => {
                return Err(RequestError::MalformedRequest);
            },
            Some(h) => {
                let ghost before = pairs_of(headers@);
                let ghost hv = (h.0@, h.1@);
                headers.push(h);
                proof {
                    assert(pairs_of(headers@) =~= before.push(hv));
                    match headers_from(head@, e + 1) {
                        None => {},
                        Some(rest) => {
                            assert(before.push(hv) + rest =~= before + (seq![hv] + rest));
                        },
                    }
                }
                pos = e + 1;
            },
        }
    }
}

/// Takes in what one read from the connection gave, behind what was
/// received before, and parses the head as soon as it is whole.
pub fn parse_request(received: Vec<u8>, bytes: &[u8]) -> (r: Result<Progress, RequestError>)
    ensures
        match r {
            Ok(p) => read_of(received@, bytes@) == Ok::<ProgressView, RequestError>(p@),
            Err(e) => read_of(received@, bytes@) == Err::<ProgressView, RequestError>(e),
        },
{
    if bytes.len() == 0 {
        return Err(RequestError::ConnectionClosed);
    }
    let mut buf = received;
    buf.extend_from_slice(bytes);
    assert(buf@ == received@ + bytes@);
    match head_end(buf.as_slice()) {
        None => Ok(Progress::NeedMore { received: buf }),
        Some(i) => {
            assert(is_head_end(buf@, i as int));
            assert(first_head_end(buf@) == i);
            let head = vstd::slice::slice_subrange(buf.as_slice(), 0, i);
            assert(head@ =~= buf@.take(i as int));
            match parse_head(head) {
                Err(e) => Err(e),
                Ok(request) => Ok(Progress::Complete { request }),
            }
        },
    }
}

/// No request comes out of a partial head: where reading gives a request,
/// a whole head has arrived, and the request is the one that this head holds.
pub proof fn lemma_request_needs_whole_head(
    received: Seq<u8>,
    bytes: Seq<u8>,
    request: RequestView,
)
    requires
        read_of(received, bytes) == Ok::<ProgressView, RequestError>(
            ProgressView::Complete { request },
        ),
    ensures
        has_head(received + bytes),
        parsed((received + bytes).take(first_head_end(received + bytes))) == Some(request),
{
}

/// Whether two header names are the same but for the case of their letters.
pub fn names_match(a: &[u8], b: &[u8]) -> (r: bool)
    ensures
        r == same_name(a@, b@),
{
    if a.len() != b.len() {
        return false;
    }
    let mut i: usize = 0;
    while i < a.len()
        invariant
            a@.len() == b@.len(),
            i <= a@.len(),
            forall|j: int| 0 <= j < i ==> lower(#[trigger] a@[j]) == lower(b@[j]),
        decreases a@.len() - i,
    {
        let x: u8 = a[i];
        let y: u8 = b[i];
        let lx: u8 = if 65 <= x && x <= 90 { x + 32 } else { x };
        let ly: u8 = if 65 <= y && y <= 90 { y + 32 } else { y };
        if lx != ly {
            return false;
        }
        i += 1;
    }
    true
}

impl Request {
    /// The value of the header of that name, whatever the case of its
    /// letters; of several, the one sent last.
    pub fn header(&self, name: &[u8]) -> (r: Option<Vec<u8>>)
        ensures
            match r {
                Some(v) => lookup(self@.headers, name@) == Some(v@),
                None => lookup(self@.headers, name@).is_none(),
            },
    {
        let ghost all = pairs_of(self.headers@);
        let mut i: usize = self.headers.len();
        assert(all.take(i as int) =~= all);
        while i > 0
            invariant
                i <= self.headers@.len(),
                all == pairs_of(self.headers@),
                lookup(all.take(i as int), name@) == lookup(all, name@),
            decreases i,
        {
            assert(all.take(i as int).drop_last() =~= all.take(i - 1));
            assert(all.take(i as int).last() == all[i - 1]);
            if names_match(self.headers[i - 1].0.as_slice(), name) {
                return Some(self.headers[i - 1].1.clone());
            }
            i -= 1;
        }
        None
    }
}

} // verus!
