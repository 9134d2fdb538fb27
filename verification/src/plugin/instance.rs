//! The host-side half of one plugin connection: the handshake line that
//! discovers the plugin's listening address, and the pending-call slot
//! that carries one request from a caller thread to the connection
//! worker and one response back. The worker owns the socket exclusively;
//! callers touch only their slot, which is filled exactly once and
//! consumed exactly once.

use vstd::prelude::*;

use crate::plugin::request::{Request, RequestModel};
use crate::plugin::response::PluginResponse;
use crate::plugin::wire::{
    encode_request, decode_response, spec_decode_response, spec_encode_request,
};

verus! {

/// What it takes to launch one plugin instance.
#[derive(Debug)]
pub struct InstanceConfig {
    /// The command that starts the plugin executable.
    pub command: String,
}

/// Why a handshake failed: the pipe closed before any output, or the
/// line did not announce a listening address in the agreed form.
#[derive(Clone, Copy, Debug, PartialEq, Eq, Structural)]
pub enum HandshakeError {
    /// Zero bytes came out of the plugin before its stdout closed.
    Disconnected,
    /// A line arrived, but not `LISTENING <host>:<port>`.
    ProtocolViolation,
}

/// The line with trailing newline characters removed.
pub open spec fn spec_trim_end(s: Seq<char>) -> Seq<char>
    decreases s.len(),
{
    if s.len() > 0 && (s.last() == '\n' || s.last() == '\r') {
        spec_trim_end(s.drop_last())
    } else {
        s
    }
}

/// The index of the last colon of `addr`, if any.
pub open spec fn spec_last_colon(addr: Seq<char>) -> Option<int>
    decreases addr.len(),
{
    if addr.len() == 0 {
        None
    } else if addr.last() == ':' {
        Some(addr.len() - 1)
    } else {
        spec_last_colon(addr.drop_last())
    }
}

/// Whether every character is a decimal digit.
pub open spec fn spec_all_digits(s: Seq<char>) -> bool {
    forall|i: int| 0 <= i < s.len() ==> 48 <= (#[trigger] s[i]) as u32 <= 57
}

/// The number the decimal digits spell.
pub open spec fn spec_digits_value(s: Seq<char>) -> int
    decreases s.len(),
{
    if s.len() == 0 {
        0
    } else {
        spec_digits_value(s.drop_last()) * 10 + ((s.last() as u32) - 48)
    }
}

/// The port the digit run stands for, when it is one and fits.
pub open spec fn spec_parse_port(s: Seq<char>) -> Option<u16> {
    if s.len() == 0 || !spec_all_digits(s) {
        None
    } else if spec_digits_value(s) > 0xffff {
        None
    } else {
        Some(spec_digits_value(s) as u16)
    }
}

/// What parsing a handshake line yields: the connect address split into
/// host and port, or the failure class. An empty line (after trailing
/// newlines) is a disconnection; a line without the `LISTENING ` prefix,
/// or whose address token has no colon, empty host, or bad port, is a
/// protocol violation.
pub open spec fn spec_parse_handshake(line: Seq<char>) -> Result<
    (Seq<char>, u16),
    HandshakeError,
> {
    let t = spec_trim_end(line);
    if t.len() == 0 {
        Err(HandshakeError::Disconnected)
    } else if t.len() < 10 || t.subrange(0, 10) != "LISTENING "@ {
        Err(HandshakeError::ProtocolViolation)
    } else {
        let addr = t.subrange(10, t.len() as int);
        match spec_last_colon(addr) {
            None => Err(HandshakeError::ProtocolViolation),
            Some(c) => {
                let host = addr.subrange(0, c);
                let digits = addr.subrange(c + 1, addr.len() as int);
                if host.len() == 0 {
                    Err(HandshakeError::ProtocolViolation)
                } else {
                    match spec_parse_port(digits) {
                        None => Err(HandshakeError::ProtocolViolation),
                        Some(port) => Ok((host, port)),
                    }
                }
            },
        }
    }
}

/// A longer digit run spells at least as large a number.
proof fn lemma_digits_value_monotone(s: Seq<char>, i: int)
    requires
        0 <= i <= s.len(),
        spec_all_digits(s),
    ensures
        spec_digits_value(s.take(i)) <= spec_digits_value(s),
        spec_digits_value(s) >= 0,
    decreases s.len() - i,
{
    if i < s.len() {
        lemma_digits_value_monotone(s, i + 1);
        assert(s.take(i + 1).drop_last() =~= s.take(i));
        assert(s.take(i + 1).last() == s[i]);
        lemma_digits_value_nonneg(s.take(i));
    } else {
        assert(s.take(i) =~= s);
        lemma_digits_value_nonneg(s);
    }
}

proof fn lemma_digits_value_nonneg(s: Seq<char>)
    requires
        spec_all_digits(s),
    ensures
        spec_digits_value(s) >= 0,
    decreases s.len(),
{
    if s.len() > 0 {
        assert(spec_all_digits(s.drop_last()));
        lemma_digits_value_nonneg(s.drop_last());
    }
}

/// Parses one handshake line read from the plugin's standard output into
/// the address to connect to.
#[verifier::rlimit(100)]
#[verifier::spinoff_prover]
pub fn parse_handshake(line: &str) -> (r: Result<(String, u16), HandshakeError>)
    ensures
        match spec_parse_handshake(line@) {
            Ok((host, port)) => r matches Ok((h, p)) && h@ == host && p == port,
            Err(e) => r matches Err(e2) && e2 == e,
        },
{
    proof {
        reveal_strlit("LISTENING ");
    }
    let total = line.unicode_len();
    proof {
        assert(line@.take(line@.len() as int) =~= line@);
    }
    // strip trailing newline characters
    let mut n = total;
    let mut trimming = true;
    while trimming && n > 0
        invariant
            n <= line@.len(),
            spec_trim_end(line@) == spec_trim_end(line@.take(n as int)),
            !trimming ==> spec_trim_end(line@.take(n as int)) == line@.take(n as int),
        decreases (if trimming {
            n as int + 1
        } else {
            0int
        }),
    {
        let c = line.get_char(n - 1);
        if c == '\n' || c == '\r' {
            proof {
                assert(line@.take(n as int).drop_last() =~= line@.take(n - 1));
            }
            n = n - 1;
        } else {
            trimming = false;
        }
    }
    let ghost t = spec_trim_end(line@);
    proof {
        assert(t =~= line@.take(n as int));
    }
    if n == 0 {
        return Err(HandshakeError::Disconnected);
    }
    // the fixed prefix announcing an address
    if n < 10 {
        return Err(HandshakeError::ProtocolViolation);
    }
    let prefix = "LISTENING ";
    proof {
        assert(prefix@ == "LISTENING "@);
        assert(prefix@.len() == 10);
    }
    let mut i: usize = 0;
    while i < 10
        invariant
            n >= 10,
            i <= 10,
            n <= line@.len(),
            t == spec_trim_end(line@),
            t == line@.take(n as int),
            prefix@ == "LISTENING "@,
            prefix@.len() == 10,
            forall|j: int| 0 <= j < i ==> t[j] == "LISTENING "@[j],
        decreases 10 - i,
    {
        if line.get_char(i) != prefix.get_char(i) {
            proof {
                assert(t[i as int] == line@[i as int]);
                assert(t.subrange(0, 10)[i as int] != "LISTENING "@[i as int]);
            }
            return Err(HandshakeError::ProtocolViolation);
        }
        i += 1;
    }
    proof {
        assert(t.subrange(0, 10) =~= "LISTENING "@);
    }
    let ghost addr = t.subrange(10, t.len() as int);
    // the last colon splits host from port
    let mut colon: usize = 0;
    let mut found = false;
    let mut k = n;
    proof {
        assert(addr.take(n - 10) =~= addr);
    }
    while k > 10 && !found
        invariant
            10 <= k <= n,
            n <= line@.len(),
            t == line@.take(n as int),
            addr == t.subrange(10, t.len() as int),
            !found ==> spec_last_colon(addr) == spec_last_colon(addr.take(k - 10)),
            found ==> 10 <= colon < n && spec_last_colon(addr) == Some(colon - 10)
                && line@[colon as int] == ':',
        decreases (if found {
            0int
        } else {
            k as int
        }),
    {
        let c = line.get_char(k - 1);
        if c == ':' {
            found = true;
            colon = k - 1;
            proof {
                assert(addr.take(k - 10).last() == line@[k - 1]);
                assert(addr.take(k - 10).last() == ':');
                assert(spec_last_colon(addr.take(k - 10)) == Some(k - 11));
            }
        } else {
            proof {
                assert(addr.take(k - 10).drop_last() =~= addr.take(k - 11));
                assert(addr.take(k - 10).last() == line@[k - 1]);
                assert(addr.take(k - 10).last() != ':');
            }
            k = k - 1;
        }
    }
    if !found {
        proof {
            assert(addr.take(0) =~= Seq::<char>::empty());
        }
        return Err(HandshakeError::ProtocolViolation);
    }
    if colon == 10 {
        // empty host
        proof {
            assert(addr.subrange(0, colon - 10).len() == 0);
        }
        return Err(HandshakeError::ProtocolViolation);
    }
    let host = line.substring_char(10, colon).to_owned();
    proof {
        assert(host@ =~= addr.subrange(0, colon - 10));
    }
    // the digit run after the colon
    let ghost digits = addr.subrange(colon - 10 + 1, addr.len() as int);
    if colon + 1 == n {
        proof {
            assert(digits.len() == 0);
        }
        return Err(HandshakeError::ProtocolViolation);
    }
    let mut acc: u32 = 0;
    let mut d: usize = colon + 1;
    proof {
        assert(digits.take(0) =~= Seq::<char>::empty());
    }
    while d < n
        invariant
            n >= 10,
            10 < colon < n,
            colon + 1 <= d <= n,
            n <= line@.len(),
            t == spec_trim_end(line@),
            t == line@.take(n as int),
            t.subrange(0, 10) == "LISTENING "@,
            addr == t.subrange(10, t.len() as int),
            spec_last_colon(addr) == Some(colon - 10),
            digits == addr.subrange(colon - 10 + 1, addr.len() as int),
            spec_all_digits(digits.take(d - colon - 1)),
            acc <= 0xffff,
            acc == spec_digits_value(digits.take(d - colon - 1)),
        decreases n - d,
    {
        let c = line.get_char(d);
        let code = c as u32;
        proof {
            assert(digits[d - colon - 1] == addr[d - 10]);
            assert(addr[d - 10] == t[d as int]);
            assert(t[d as int] == line@[d as int]);
            assert(digits[d - colon - 1] == c);
        }
        if code < 48 || code > 57 {
            proof {
                assert(!(48 <= digits[d - colon - 1] as u32 <= 57));
                assert(!spec_all_digits(digits));
            }
            return Err(HandshakeError::ProtocolViolation);
        }
        let next: u32 = acc * 10 + (code - 48);
        proof {
            assert(digits.take(d - colon).drop_last() =~= digits.take(d - colon - 1));
            assert(digits.take(d - colon).last() == digits[d - colon - 1]);
        }
        if next > 0xffff {
            proof {
                if spec_all_digits(digits) {
                    lemma_digits_value_monotone(digits, d - colon);
                }
            }
            return Err(HandshakeError::ProtocolViolation);
        }
        acc = next;
        d += 1;
    }
    proof {
        assert(digits.take(n - colon - 1) =~= digits);
    }
    Ok((host, acc as u16))
}

/// One caller's slot in the dispatcher: the outbound request and an
/// empty response cell, filled exactly once by the connection worker and
/// consumed exactly once by the caller.
pub struct PendingCall {
    request: Request,
    response: Option<PluginResponse>,
}

impl PendingCall {
    /// The request this slot carries.
    pub closed spec fn spec_request(&self) -> RequestModel {
        self.request@
    }

    /// The response cell.
    pub closed spec fn spec_response(&self) -> Option<PluginResponse> {
        self.response
    }

    /// A fresh slot: the request to send, the response cell empty.
    pub fn new(request: Request) -> (r: PendingCall)
        ensures
            r.spec_request() == request@,
            r.spec_response() is None,
    {
        PendingCall { request, response: None }
    }

    /// Whether the worker has filled the response cell yet.
    pub fn is_complete(&self) -> (r: bool)
        ensures
            r == (self.spec_response() is Some),
    {
        match &self.response {
            Some(_) => true,
            None => false,
        }
    }

    /// The bytes the worker writes to the connection for this slot.
    pub fn wire_request(&self) -> (r: Vec<u8>)
        ensures
            r@ == spec_encode_request(self.spec_request()),
    {
        let mut out: Vec<u8> = Vec::new();
        encode_request(&self.request, &mut out);
        out
    }

    /// The worker's completion step: decode the one response datum read
    /// from the connection and fill the cell. A slot is filled exactly
    /// once; a datum that does not decode leaves the slot untouched.
    pub fn complete_from(&mut self, buf: &[u8], pos: usize) -> (r: Option<usize>)
        requires
            old(self).spec_response() is None,
            pos <= buf@.len(),
        ensures
            final(self).spec_request() == old(self).spec_request(),
            match spec_decode_response(buf@, pos as int) {
                Some((m, end)) => r is Some && r.unwrap() == end && (final(self).spec_response()
                    matches Some(resp) && resp@ == m),
                None => r is None && *final(self) == *old(self),
            },
    {
        match decode_response(buf, pos) {
            Some((response, end)) => {
                self.response = Some(response);
                Some(end)
            },
            None => None,
        }
    }

    /// The caller's consumption step: take the response out, discarding
    /// the slot.
    pub fn take_response(self) -> (r: PluginResponse)
        requires
            self.spec_response() is Some,
        ensures
            Some(r) == self.spec_response(),
    {
        match self.response {
            Some(response) => response,
            None => vstd::pervasive::unreached(),
        }
    }
}

} // verus!
