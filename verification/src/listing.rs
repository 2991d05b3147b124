//! The directory listing: a small HTML page with one link per entry.

use vstd::prelude::*;
use vstd::string::StringSliceAdditionalSpecFns;
use crate::resolve::{join_of, join_path, parent_link, parent_of};

verus! {

/// What opens a listing.
pub open spec fn listing_open() -> Seq<u8> {
    "<html><body><br/>".spec_bytes()
}

/// What closes a listing.
pub open spec fn listing_close() -> Seq<u8> {
    "</body></html>".spec_bytes()
}

/// The line break behind each link.
pub open spec fn line_break() -> Seq<u8> {
    "<br/>".spec_bytes()
}

/// A hyperlink to `target` that shows `label`.
pub open spec fn href_of(target: Seq<u8>, label: Seq<u8>) -> Seq<u8> {
    "<a href=\"".spec_bytes() + target + "\">".spec_bytes() + label + "</a>".spec_bytes()
}

/// The line of one entry: a link to the entry's URL-space path under its
/// name, and a line break.
pub open spec fn entry_line(url_path: Seq<u8>, name: Seq<u8>) -> Seq<u8> {
    href_of(join_of(url_path, name), name) + line_break()
}

/// The line that leads to `parent`; empty where there is no parent.
pub open spec fn parent_line_to(parent: Option<Seq<u8>>) -> Seq<u8> {
    match parent {
        Some(p) => href_of(p, "..".spec_bytes()) + line_break(),
        None => Seq::<u8>::empty(),
    }
}

/// The line that leads one level up; empty where there is no level above.
pub open spec fn parent_line(url_path: Seq<u8>) -> Seq<u8> {
    parent_line_to(parent_of(url_path))
}

/// What a listing starts with where its parent link leads to `parent`.
pub open spec fn listing_head_to(parent: Option<Seq<u8>>) -> Seq<u8> {
    listing_open() + parent_line_to(parent)
}

/// The link as a sequence of bytes.
pub open spec fn link_view(parent: Option<Vec<u8>>) -> Option<Seq<u8>> {
    match parent {
        Some(p) => Some(p@),
        None => None,
    }
}

/// The lines of the entries, in the order in which they were enumerated.
pub open spec fn entry_lines(url_path: Seq<u8>, names: Seq<Seq<u8>>) -> Seq<u8>
    decreases names.len(),
{
    if names.len() == 0 {
        Seq::<u8>::empty()
    } else {
        entry_lines(url_path, names.drop_last()) + entry_line(url_path, names.last())
    }
}

/// What a listing starts with: the opening and the parent link.
pub open spec fn listing_head_of(url_path: Seq<u8>) -> Seq<u8> {
    listing_open() + parent_line(url_path)
}

/// The whole page for the directory reached by `url_path` with the entries
/// `names`.
pub open spec fn listing_of(url_path: Seq<u8>, names: Seq<Seq<u8>>) -> Seq<u8> {
    listing_head_of(url_path) + entry_lines(url_path, names) + listing_close()
}

/// The hyperlinks of a listing, in the order in which they stand on the page:
/// the parent link, where there is a parent, then one link for each entry.
pub open spec fn links_of(url_path: Seq<u8>, names: Seq<Seq<u8>>) -> Seq<Seq<u8>> {
    let entries = Seq::new(names.len(), |i: int| href_of(join_of(url_path, names[i]), names[i]));
    match parent_of(url_path) {
        Some(p) => seq![href_of(p, "..".spec_bytes())] + entries,
        None => entries,
    }
}

/// The links one behind the other, each with a line break behind it.
pub open spec fn lines_of(links: Seq<Seq<u8>>) -> Seq<u8>
    decreases links.len(),
{
    if links.len() == 0 {
        Seq::<u8>::empty()
    } else {
        lines_of(links.drop_last()) + links.last() + line_break()
    }
}

/// The names as sequences of bytes.
pub open spec fn names_of(names: Seq<Vec<u8>>) -> Seq<Seq<u8>> {
    Seq::new(names.len(), |i: int| names[i]@)
}

/// A hyperlink.
pub fn format_href(target: &[u8], label: &[u8]) -> (r: Vec<u8>)
    ensures
        r@ == href_of(target@, label@),
{
    let mut r: Vec<u8> = Vec::new();
    r.extend_from_slice("<a href=\"".as_bytes());
    r.extend_from_slice(target);
    r.extend_from_slice("\">".as_bytes());
    r.extend_from_slice(label);
    r.extend_from_slice("</a>".as_bytes());
    assert(r@ =~= href_of(target@, label@));
    r
}

/// The first part of a listing whose parent link is already known.
pub fn listing_head_to_parent(parent: &Option<Vec<u8>>) -> (r: Vec<u8>)
    ensures
        r@ == listing_head_to(link_view(*parent)),
{
    let mut r: Vec<u8> = Vec::new();
    r.extend_from_slice("<html><body><br/>".as_bytes());
    match parent {
        Some(p) => {
            let link = format_href(p.as_slice(), "..".as_bytes());
            r.extend_from_slice(link.as_slice());
            r.extend_from_slice("<br/>".as_bytes());
        },
        None => {},
    }
    assert(r@ =~= listing_head_to(link_view(*parent)));
    r
}

/// The first part of a listing, sent before any entry is read.
pub fn listing_head(url_path: &[u8]) -> (r: Vec<u8>)
    ensures
        r@ == listing_head_of(url_path@),
{
    let parent = parent_link(url_path);
    listing_head_to_parent(&parent)
}

/// The line of one entry, sent as soon as the entry is read.
pub fn listing_entry(url_path: &[u8], name: &[u8]) -> (r: Vec<u8>)
    ensures
        r@ == entry_line(url_path@, name@),
{
    let target = join_path(url_path, name);
    let mut r = format_href(target.as_slice(), name);
    r.extend_from_slice("<br/>".as_bytes());
    r
}

/// The last part of a listing.
pub fn listing_tail() -> (r: Vec<u8>)
    ensures
        r@ == listing_close(),
{
    let mut r: Vec<u8> = Vec::new();
    r.extend_from_slice("</body></html>".as_bytes());
    assert(r@ =~= listing_close());
    r
}

/// The whole page at once.
pub fn listing_page(url_path: &[u8], names: &Vec<Vec<u8>>) -> (r: Vec<u8>)
    ensures
        r@ == listing_of(url_path@, names_of(names@)),
{
    let mut r = listing_head(url_path);
    let ghost all = names_of(names@);
    let mut i: usize = 0;
    while i < names.len()
        invariant
            i <= names@.len(),
            all == names_of(names@),
            r@ == listing_head_of(url_path@) + entry_lines(url_path@, all.take(i as int)),
        decreases names@.len() - i,
    {
        let line = listing_entry(url_path, names[i].as_slice());
        proof {
            assert(all.take(i + 1).drop_last() =~= all.take(i as int));
            assert(all.take(i + 1).last() == names@[i as int]@);
        }
        r.extend_from_slice(line.as_slice());
        assert(r@ =~= listing_head_of(url_path@) + entry_lines(url_path@, all.take(i + 1)));
        i += 1;
    }
    assert(all.take(i as int) =~= all);
    let tail = listing_tail();
    r.extend_from_slice(tail.as_slice());
    r
}

/// A listing holds one line per entry: with one more entry at the end it
/// grows by exactly that entry's line, and with no entry it holds none.
pub proof fn lemma_listing_one_line_per_entry(url_path: Seq<u8>, names: Seq<Seq<u8>>, name: Seq<u8>)
    ensures
        entry_lines(url_path, Seq::<Seq<u8>>::empty()) == Seq::<u8>::empty(),
        entry_lines(url_path, names.push(name)) == entry_lines(url_path, names) + entry_line(
            url_path,
            name,
        ),
{
    assert(names.push(name).drop_last() =~= names);
}

/// The lines of a listing's links are the parent line and then the lines of
/// the entries.
proof fn lemma_lines_of_links(url_path: Seq<u8>, names: Seq<Seq<u8>>)
    ensures
        lines_of(links_of(url_path, names)) == parent_line(url_path) + entry_lines(
            url_path,
            names,
        ),
    decreases names.len(),
{
    let links = links_of(url_path, names);
    let none = Seq::<u8>::empty();
    if names.len() == 0 {
        if parent_of(url_path).is_some() {
            let link = href_of(parent_of(url_path).unwrap(), "..".spec_bytes());
            assert(links =~= seq![link]);
            assert(links.drop_last() =~= Seq::<Seq<u8>>::empty());
            assert(lines_of(links.drop_last()) == none);
            assert(links.last() == link);
            assert(none + link + line_break() =~= link + line_break());
            assert((link + line_break()) + none =~= link + line_break());
        } else {
            assert(links =~= Seq::<Seq<u8>>::empty());
            assert(none + none =~= none);
        }
    } else {
        lemma_lines_of_links(url_path, names.drop_last());
        let shorter = links_of(url_path, names.drop_last());
        let fewer = entry_lines(url_path, names.drop_last());
        let link = href_of(join_of(url_path, names.last()), names.last());
        assert(links.drop_last() =~= shorter);
        assert(links.last() == link);
        assert((parent_line(url_path) + fewer) + link + line_break() =~= parent_line(url_path) + (
        fewer + (link + line_break())));
    }
}

/// Between its opening and its closing a listing holds its hyperlinks and
/// nothing else: exactly one for each entry, under the entry's name and to
/// the entry's URL-space path, in the order of the entries, and before them
/// exactly one to the parent, unless the path is the root, which has none.
pub proof fn lemma_listing_links(url_path: Seq<u8>, names: Seq<Seq<u8>>)
    ensures
        listing_of(url_path, names) == listing_open() + lines_of(links_of(url_path, names))
            + listing_close(),
        links_of(url_path, names).len() == names.len() + (if parent_of(url_path).is_some() {
            1int
        } else {
            0int
        }),
        forall|i: int|
            0 <= i < names.len() ==> links_of(url_path, names)[links_of(url_path, names).len()
                - names.len() + i] == href_of(join_of(url_path, #[trigger] names[i]), names[i]),
        parent_of(url_path).is_some() ==> links_of(url_path, names)[0] == href_of(
            parent_of(url_path).unwrap(),
            "..".spec_bytes(),
        ),
{
    lemma_lines_of_links(url_path, names);
    assert(listing_open() + (parent_line(url_path) + entry_lines(url_path, names))
        + listing_close() =~= listing_of(url_path, names));
}

} // verus!
