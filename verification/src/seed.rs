//! The time-derived 4-byte seed that prefixes every generated identifier.

use vstd::prelude::*;

verus! {

/// The big-endian (network byte order) encoding of a 32-bit value:
/// most significant byte first.
pub open spec fn u32_be_bytes(v: u32) -> Seq<u8> {
    seq![
        (v >> 24) as u8,
        ((v >> 16) & 0xff) as u8,
        ((v >> 8) & 0xff) as u8,
        (v & 0xff) as u8,
    ]
}

/// Type representing the seed value: a 32-bit counter of whole seconds
/// since the Unix epoch (or any explicitly chosen 32-bit value).
#[derive(Debug, PartialEq, Eq, PartialOrd, Ord, Structural)]
pub struct Seed {
    value: u32,
}

impl View for Seed {
    type V = u32;

    closed spec fn view(&self) -> u32 {
        self.value
    }
}

impl Seed {
    /// Creates a new seed with a specific value.
    pub fn new(value: u32) -> (r: Self)
        ensures
            r@ == value,
    {
        Self { value }
    }

    /// Creates a new seed from the current wall-clock time: whole seconds
    /// since the Unix epoch, truncated to 32 bits. Under normal clock
    /// behavior the value never decreases across calls within one process;
    /// what happens when the clock is set backwards is unspecified, not
    /// an error.
    pub fn from_time() -> (r: Self) {
        Self { value: seconds_since_epoch() }
    }

    /// Returns the seed as a 4-byte array in network byte order.
    pub fn as_slice(&self) -> (r: [u8; 4])
        ensures
            r@ == u32_be_bytes(self@),
    {
        let v = self.value;
        let r = [(v >> 24) as u8, ((v >> 16) & 0xff) as u8, ((v >> 8) & 0xff) as u8, (v
            & 0xff) as u8];
        proof {
            assert(r@ =~= u32_be_bytes(v));
        }
        r
    }
}

/// Relies on std::time::SystemTime: the number of whole seconds between the
/// Unix epoch and the current wall-clock time, truncated to 32 bits. The
/// result depends on the clock, so nothing is promised of it; a clock set
/// before the epoch is an unrecoverable environment fault and aborts here,
/// as the documentation of SystemTime::duration_since describes the error.
#[verifier::external_body]
fn seconds_since_epoch() -> u32 {
    std::time::SystemTime::now()
        .duration_since(std::time::UNIX_EPOCH)
        .expect("Unable to calculate duration")
        .as_secs() as u32
}

} // verus!
