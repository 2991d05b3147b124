//! The path resolver: from a request path and what the file system says of
//! it to the thing that is served.

use vstd::prelude::*;
use vstd::string::StringSliceAdditionalSpecFns;
use crate::text::copy_range;

verus! {

/// The byte that separates the segments of a path.
pub const SLASH: u8 = 47;

/// The byte that, alone in a segment, stands for the place itself.
pub const DOT: u8 = 46;

/// What the file system says of a candidate path. Whatever keeps a file from
/// being opened counts as `Missing`.
#[derive(Clone, Copy, Debug, PartialEq, Eq, Structural)]
pub enum Probe {
    /// A directory; `has_index` tells whether anything stands in it under
    /// the name of the index file.
    Directory { has_index: bool },
    /// A regular file of `size` bytes.
    File { size: u64 },
    /// Nothing that can be opened.
    Missing,
}

/// What a request path resolves to.
#[derive(Clone, Debug, PartialEq, Eq)]
pub enum ServedPath {
    /// A regular file and its length in bytes.
    File { path: Vec<u8>, size: u64 },
    /// A directory with something at `index`, the place of its index file:
    /// answered with that file, if it is one.
    DirectoryWithIndex { index: Vec<u8> },
    /// A directory that is answered with a listing; `parent_link` is the
    /// URL-space path one level up, absent at the root.
    DirectoryListing { path: Vec<u8>, parent_link: Option<Vec<u8>> },
    /// Nothing to serve.
    NotFound,
}

/// The mathematical value of a `ServedPath`.
pub ghost enum ServedPathView {
    File { path: Seq<u8>, size: u64 },
    DirectoryWithIndex { index: Seq<u8> },
    DirectoryListing { path: Seq<u8>, parent_link: Option<Seq<u8>> },
    NotFound,
}

impl View for ServedPath {
    type V = ServedPathView;

    open spec fn view(&self) -> ServedPathView {
        match *self {
            ServedPath::File { path, size } => ServedPathView::File { path: path@, size },
            ServedPath::DirectoryWithIndex { index } => ServedPathView::DirectoryWithIndex {
                index: index@,
            },
            ServedPath::DirectoryListing { path, parent_link } => ServedPathView::DirectoryListing {
                path: path@,
                parent_link: match parent_link {
                    Some(p) => Some(p@),
                    None => None,
                },
            },
            ServedPath::NotFound => ServedPathView::NotFound,
        }
    }
}

/// The file-system path that a request path stands for: the served root with
/// the request path behind it, segments such as `..` left as they are.
pub open spec fn candidate_of(root: Seq<u8>, request_path: Seq<u8>) -> Seq<u8> {
    root + request_path
}

/// The index file of a directory.
pub open spec fn index_of(dir: Seq<u8>) -> Seq<u8> {
    dir + "/index.html".spec_bytes()
}

/// `p` ends in a segment that is a single dot and stands behind a slash.
/// Such a segment names the place that the path before it names.
pub open spec fn ends_in_dot_segment(p: Seq<u8>) -> bool {
    p.len() > 1 && p.last() == DOT && p[p.len() - 2] == SLASH
}

/// `p` without what adds nothing at its end: slashes, and segments that are
/// a single dot behind a slash.
pub open spec fn trimmed(p: Seq<u8>) -> Seq<u8>
    decreases p.len(),
{
    if p.len() > 0 && (p.last() == SLASH || ends_in_dot_segment(p)) {
        trimmed(p.drop_last())
    } else {
        p
    }
}

/// The place of the last slash in `p`, or -1 where it has none.
pub open spec fn last_slash(p: Seq<u8>) -> int
    decreases p.len(),
{
    if p.len() == 0 {
        -1
    } else if p.last() == SLASH {
        p.len() - 1
    } else {
        last_slash(p.drop_last())
    }
}

/// The URL-space path one level above `p`: `p` without its last segment and
/// the slashes around it. A segment that is a single dot behind a slash
/// counts for nothing, so the parent of `/a/b/.` is `/a`. The root, and the
/// empty path, have none; a path of one segment below the root has the root,
/// and a path of one segment that does not start at the root has the empty
/// path.
pub open spec fn parent_of(p: Seq<u8>) -> Option<Seq<u8>> {
    let t = trimmed(p);
    if t.len() == 0 {
        None
    } else {
        let k = last_slash(t);
        if k < 0 {
            Some(Seq::<u8>::empty())
        } else {
            let d = trimmed(t.take(k));
            if d.len() == 0 {
                Some(seq![SLASH])
            } else {
                Some(d)
            }
        }
    }
}

/// The URL-space path of an entry `name` of the directory at `url_path`.
pub open spec fn join_of(url_path: Seq<u8>, name: Seq<u8>) -> Seq<u8> {
    if url_path.len() > 0 && url_path.last() == SLASH {
        url_path + name
    } else {
        url_path + seq![SLASH] + name
    }
}

/// What a request path resolves to under `root`, given what the file system
/// says of its candidate path.
pub open spec fn served(root: Seq<u8>, request_path: Seq<u8>, probe: Probe) -> ServedPathView {
    match probe {
        Probe::Directory { has_index } => if has_index {
            ServedPathView::DirectoryWithIndex {
                index: index_of(candidate_of(root, request_path)),
            }
        } else {
            ServedPathView::DirectoryListing {
                path: candidate_of(root, request_path),
                parent_link: parent_of(request_path),
            }
        },
        Probe::File { size } => ServedPathView::File {
            path: candidate_of(root, request_path),
            size,
        },
        Probe::Missing => ServedPathView::NotFound,
    }
}

/// The candidate path of a request path.
pub fn candidate_path(root: &[u8], request_path: &[u8]) -> (r: Vec<u8>)
    ensures
        r@ == candidate_of(root@, request_path@),
{
    let mut r: Vec<u8> = Vec::new();
    r.extend_from_slice(root);
    r.extend_from_slice(request_path);
    assert(r@ =~= root@ + request_path@);
    r
}

/// The path of a directory's index file.
pub fn format_index(dir: &[u8]) -> (r: Vec<u8>)
    ensures
        r@ == index_of(dir@),
{
    let mut r: Vec<u8> = Vec::new();
    r.extend_from_slice(dir);
    r.extend_from_slice("/index.html".as_bytes());
    assert(r@ =~= index_of(dir@));
    r
}

/// How many bytes of the first `n` of `p` are left without what adds nothing
/// at their end.
fn trimmed_len(p: &[u8], n: usize) -> (m: usize)
    requires
        n <= p@.len(),
    ensures
        m <= n,
        p@.take(m as int) == trimmed(p@.take(n as int)),
{
    let mut m: usize = n;
    while m > 0 && (p[m - 1] == SLASH || (m > 1 && p[m - 1] == DOT && p[m - 2] == SLASH))
        invariant
            m <= n <= p@.len(),
            trimmed(p@.take(m as int)) == trimmed(p@.take(n as int)),
        decreases m,
    {
        assert(p@.take(m as int).drop_last() =~= p@.take(m - 1));
        m -= 1;
    }
    m
}

/// The place of the last slash among the first `n` bytes of `p`.
fn last_slash_in(p: &[u8], n: usize) -> (r: Option<usize>)
    requires
        n <= p@.len(),
    ensures
        match r {
            Some(k) => k < n && k == last_slash(p@.take(n as int)),
            None => last_slash(p@.take(n as int)) == -1,
        },
{
    let mut m: usize = n;
    while m > 0
        invariant
            m <= n <= p@.len(),
            last_slash(p@.take(m as int)) == last_slash(p@.take(n as int)),
        decreases m,
    {
        if p[m - 1] == SLASH {
            return Some(m - 1);
        }
        assert(p@.take(m as int).drop_last() =~= p@.take(m - 1));
        m -= 1;
    }
    None
}

/// The URL-space path one level above `request_path`, if there is one.
pub fn parent_link(request_path: &[u8]) -> (r: Option<Vec<u8>>)
    ensures
        match r {
            Some(p) => parent_of(request_path@) == Some(p@),
            None => parent_of(request_path@).is_none(),
        },
{
    assert(request_path@.take(request_path@.len() as int) =~= request_path@);
    let n = trimmed_len(request_path, request_path.len());
    if n == 0 {
        return None;
    }
    match last_slash_in(request_path, n) {
        None => Some(Vec::new()),
        Some(k) => {
            assert(request_path@.take(n as int).take(k as int) =~= request_path@.take(k as int));
            let m = trimmed_len(request_path, k);
            if m == 0 {
                let r: Vec<u8> = vec![SLASH];
                assert(r@ =~= seq![SLASH]);
                Some(r)
            } else {
                let r = copy_range(request_path, 0, m);
                assert(r@ =~= request_path@.take(m as int));
                Some(r)
            }
        },
    }
}

/// The URL-space path of an entry of a directory.
pub fn join_path(url_path: &[u8], name: &[u8]) -> (r: Vec<u8>)
    ensures
        r@ == join_of(url_path@, name@),
{
    let mut r: Vec<u8> = Vec::new();
    r.extend_from_slice(url_path);
    if !(url_path.len() > 0 && url_path[url_path.len() - 1] == SLASH) {
        r.push(SLASH);
    }
    r.extend_from_slice(name);
    assert(r@ =~= join_of(url_path@, name@));
    r
}

/// Resolves a request path: a directory with an index file to that file, a
/// directory without one to a listing, a regular file to itself with its
/// length, anything else to `NotFound`.
pub fn resolve(root: &[u8], request_path: &[u8], probe: Probe) -> (r: ServedPath)
    ensures
        r@ == served(root@, request_path@, probe),
{
    match probe {
        Probe::Directory { has_index } => {
            let candidate = candidate_path(root, request_path);
            if has_index {
                ServedPath::DirectoryWithIndex { index: format_index(candidate.as_slice()) }
            } else {
                let parent = parent_link(request_path);
                ServedPath::DirectoryListing { path: candidate, parent_link: parent }
            }
        },
        Probe::File { size } => ServedPath::File {
            path: candidate_path(root, request_path),
            size,
        },
        Probe::Missing => ServedPath::NotFound,
    }
}

} // verus!
