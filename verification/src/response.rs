//! The response writer: status line, headers, blank line, body, in that order.

use vstd::prelude::*;
use vstd::string::StringSliceAdditionalSpecFns;
use crate::text::{decimal, decimal_digits, literal};

verus! {

/// How far a response has been written.
#[derive(Clone, Copy, Debug, PartialEq, Eq, Structural)]
pub enum Phase {
    /// Nothing written yet.
    Start,
    /// The status line is out; header lines may follow.
    Headers,
    /// The blank line is out; only body bytes may follow.
    Body,
}

/// The reason phrase that goes with a status code.
pub open spec fn reason_of(code: u16) -> Seq<u8> {
    if code == 200 {
        "OK".spec_bytes()
    } else if code == 400 {
        "Bad Request".spec_bytes()
    } else if code == 404 {
        "Not Found".spec_bytes()
    } else if code == 405 {
        "Method Not Allowed".spec_bytes()
    } else {
        "Internal Server Error".spec_bytes()
    }
}

/// The status line for a code: version, code, reason phrase, line end.
pub open spec fn status_line(code: u16) -> Seq<u8> {
    "HTTP/1.0 ".spec_bytes() + decimal(code as nat) + " ".spec_bytes() + reason_of(code)
        + "\r\n".spec_bytes()
}

/// One header line: name, colon and space, value, line end.
pub open spec fn header_line(name: Seq<u8>, value: Seq<u8>) -> Seq<u8> {
    name + ": ".spec_bytes() + value + "\r\n".spec_bytes()
}

/// The blank line that closes the header section.
pub open spec fn header_end() -> Seq<u8> {
    "\r\n".spec_bytes()
}

/// The reason phrase for a status code.
pub fn reason_phrase(code: u16) -> (r: Vec<u8>)
    ensures
        r@ == reason_of(code),
{
    if code == 200 {
        literal("OK")
    } else if code == 400 {
        literal("Bad Request")
    } else if code == 404 {
        literal("Not Found")
    } else if code == 405 {
        literal("Method Not Allowed")
    } else {
        literal("Internal Server Error")
    }
}

/// Collects the bytes of one response and keeps track of the phase, so that
/// no body byte can come before the blank line and no header after it.
pub struct ResponseWriter {
    out: Vec<u8>,
    phase: Phase,
}

impl ResponseWriter {
    /// The bytes written so far.
    pub closed spec fn bytes(&self) -> Seq<u8> {
        self.out@
    }

    /// The phase the writer is in.
    pub closed spec fn phase(&self) -> Phase {
        self.phase
    }

    /// A writer with nothing written.
    pub fn new() -> (w: ResponseWriter)
        ensures
            w.bytes() == Seq::<u8>::empty(),
            w.phase() == Phase::Start,
    {
        ResponseWriter { out: Vec::new(), phase: Phase::Start }
    }

    /// Writes the status line. First operation of every response.
    pub fn start_response(&mut self, code: u16)
        requires
            old(self).phase() == Phase::Start,
        ensures
            final(self).bytes() == old(self).bytes() + status_line(code),
            final(self).phase() == Phase::Headers,
    {
        let ghost before = self.out@;
        self.out.extend_from_slice("HTTP/1.0 ".as_bytes());
        let digits = decimal_digits(code as u64);
        self.out.extend_from_slice(digits.as_slice());
        self.out.extend_from_slice(" ".as_bytes());
        let reason = reason_phrase(code);
        self.out.extend_from_slice(reason.as_slice());
        self.out.extend_from_slice("\r\n".as_bytes());
        self.phase = Phase::Headers;
        assert(self.out@ =~= before + status_line(code));
    }

    /// Writes one header line.
    pub fn send_header(&mut self, name: &[u8], value: &[u8])
        requires
            old(self).phase() == Phase::Headers,
        ensures
            final(self).bytes() == old(self).bytes() + header_line(name@, value@),
            final(self).phase() == Phase::Headers,
    {
        let ghost before = self.out@;
        self.out.extend_from_slice(name);
        self.out.extend_from_slice(": ".as_bytes());
        self.out.extend_from_slice(value);
        self.out.extend_from_slice("\r\n".as_bytes());
        assert(self.out@ =~= before + header_line(name@, value@));
    }

    /// Writes the blank line that closes the header section.
    pub fn end_headers(&mut self)
        requires
            old(self).phase() == Phase::Headers,
        ensures
            final(self).bytes() == old(self).bytes() + header_end(),
            final(self).phase() == Phase::Body,
    {
        self.out.extend_from_slice("\r\n".as_bytes());
        self.phase = Phase::Body;
    }

    /// Writes body bytes.
    pub fn write_body(&mut self, chunk: &[u8])
        requires
            old(self).phase() == Phase::Body,
        ensures
            final(self).bytes() == old(self).bytes() + chunk@,
            final(self).phase() == Phase::Body,
    {
        self.out.extend_from_slice(chunk);
    }

    /// Which phase the writer is in.
    pub fn current_phase(&self) -> (p: Phase)
        ensures
            p == self.phase(),
    {
        self.phase
    }

    /// Hands out what was written.
    pub fn into_bytes(self) -> (r: Vec<u8>)
        ensures
            r@ == self.bytes(),
    {
        self.out
    }
}

} // verus!
