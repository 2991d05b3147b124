//! Content types by file name.

use vstd::prelude::*;
use vstd::string::StringSliceAdditionalSpecFns;
use crate::text::{ends_with, has_suffix, literal};

verus! {

/// The content type that a file of the given name is served with: decided by
/// the name's ending, `application/octet-stream` where the ending is unknown.
pub open spec fn mime_of(name: Seq<u8>) -> Seq<u8> {
    if ends_with(name, ".html".spec_bytes()) || ends_with(name, ".htm".spec_bytes()) {
        "text/html".spec_bytes()
    } else if ends_with(name, ".css".spec_bytes()) {
        "text/css".spec_bytes()
    } else if ends_with(name, ".js".spec_bytes()) {
        "application/javascript".spec_bytes()
    } else if ends_with(name, ".txt".spec_bytes()) {
        "text/plain".spec_bytes()
    } else if ends_with(name, ".jpg".spec_bytes()) || ends_with(name, ".jpeg".spec_bytes()) {
        "image/jpeg".spec_bytes()
    } else if ends_with(name, ".png".spec_bytes()) {
        "image/png".spec_bytes()
    } else if ends_with(name, ".gif".spec_bytes()) {
        "image/gif".spec_bytes()
    } else if ends_with(name, ".pdf".spec_bytes()) {
        "application/pdf".spec_bytes()
    } else {
        "application/octet-stream".spec_bytes()
    }
}

/// The content type for a file name. Always answers; never fails.
pub fn get_mime_type(name: &[u8]) -> (r: Vec<u8>)
    ensures
        r@ == mime_of(name@),
{
    if has_suffix(name, ".html".as_bytes()) || has_suffix(name, ".htm".as_bytes()) {
        literal("text/html")
    } else if has_suffix(name, ".css".as_bytes()) {
        literal("text/css")
    } else if has_suffix(name, ".js".as_bytes()) {
        literal("application/javascript")
    } else if has_suffix(name, ".txt".as_bytes()) {
        literal("text/plain")
    } else if has_suffix(name, ".jpg".as_bytes()) || has_suffix(name, ".jpeg".as_bytes()) {
        literal("image/jpeg")
    } else if has_suffix(name, ".png".as_bytes()) {
        literal("image/png")
    } else if has_suffix(name, ".gif".as_bytes()) {
        literal("image/gif")
    } else if has_suffix(name, ".pdf".as_bytes()) {
        literal("application/pdf")
    } else {
        literal("application/octet-stream")
    }
}

} // verus!
