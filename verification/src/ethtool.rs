//! The device-control primitive's verified half: the fixed-layout ring
//! parameters record, the interface-request name field, and the reading of
//! the outcome. The single raw control call itself lives outside the
//! library, next to `main`, because it needs a raw socket and a kernel ABI
//! struct; it copies these bytes and fields in and out unchanged.

use vstd::prelude::*;
use vstd::string::StringSliceAdditionalSpecFns;

use crate::status::{CheckResult, CheckStatus, CheckView};
use crate::text;

verus! {

/// The control-channel op-code for "get ring parameters".
pub const ETHTOOL_GRINGPARAM: u32 = 0x00000010;

/// The platform's maximum interface-name length, terminator included.
pub const IFACE_NAME_SIZE: usize = 16;

/// Hardware descriptor-ring sizing, laid out field for field as the
/// kernel's control-channel record: a command code, then the four maxima,
/// then the four current pending counts, each 32 bits.
#[derive(Debug, Clone, Copy, PartialEq, Eq, Structural)]
pub struct RingParams {
    pub cmd: u32,
    pub rx_max_pending: u32,
    pub rx_mini_max_pending: u32,
    pub rx_jumbo_max_pending: u32,
    pub tx_max_pending: u32,
    pub rx_pending: u32,
    pub rx_mini_pending: u32,
    pub rx_jumbo_pending: u32,
    pub tx_pending: u32,
}

impl RingParams {
    /// The record to hand to a "get ring parameters" query: the command set,
    /// every other field zeroed, because the kernel-side handler reads
    /// unspecified fields.
    pub fn new_query() -> (r: RingParams)
        ensures
            r.cmd == ETHTOOL_GRINGPARAM,
            r.rx_max_pending == 0,
            r.rx_mini_max_pending == 0,
            r.rx_jumbo_max_pending == 0,
            r.tx_max_pending == 0,
            r.rx_pending == 0,
            r.rx_mini_pending == 0,
            r.rx_jumbo_pending == 0,
            r.tx_pending == 0,
    {
        RingParams {
            cmd: ETHTOOL_GRINGPARAM,
            rx_max_pending: 0,
            rx_mini_max_pending: 0,
            rx_jumbo_max_pending: 0,
            tx_max_pending: 0,
            rx_pending: 0,
            rx_mini_pending: 0,
            rx_jumbo_pending: 0,
            tx_pending: 0,
        }
    }
}

/// The name field of the interface-request structure: the name's bytes
/// truncated to one less than the field size, zero-filled to the full size,
/// so the field is always null-terminated.
pub open spec fn ifreq_name_spec(name: Seq<u8>) -> Seq<u8> {
    let len = if name.len() <= (IFACE_NAME_SIZE - 1) as int {
        name.len() as int
    } else {
        (IFACE_NAME_SIZE - 1) as int
    };
    name.subrange(0, len) + Seq::new((IFACE_NAME_SIZE - len) as nat, |i: int| 0u8)
}

/// Builds the interface-request name field for `name`.
pub fn ifreq_name_bytes(name: &str) -> (r: Vec<u8>)
    ensures
        r@ == ifreq_name_spec(name.spec_bytes()),
        r@.len() == IFACE_NAME_SIZE,
        r@[IFACE_NAME_SIZE - 1] == 0,
{
    let bytes = name.as_bytes();
    let len = if bytes.len() <= IFACE_NAME_SIZE - 1 {
        bytes.len()
    } else {
        IFACE_NAME_SIZE - 1
    };
    let mut r: Vec<u8> = Vec::new();
    let mut i: usize = 0;
    while i < len
        invariant
            len <= bytes@.len(),
            len <= IFACE_NAME_SIZE - 1,
            0 <= i <= len,
            r@ == bytes@.subrange(0, i as int),
        decreases len - i,
    {
        let ghost pre = r@;
        r.push(bytes[i]);
        proof {
            assert(pre.push(bytes@[i as int]) =~= bytes@.subrange(0, i + 1));
        }
        i += 1;
    }
    while i < IFACE_NAME_SIZE
        invariant
            len <= bytes@.len(),
            len <= IFACE_NAME_SIZE - 1,
            len <= i <= IFACE_NAME_SIZE,
            r@.len() == i,
            r@.subrange(0, len as int) == bytes@.subrange(0, len as int),
            forall|j: int| len <= j < i ==> r@[j] == 0u8,
        decreases IFACE_NAME_SIZE - i,
    {
        let ghost pre = r@;
        r.push(0u8);
        proof {
            assert(r@.subrange(0, len as int) =~= pre.subrange(0, len as int));
        }
        i += 1;
    }
    proof {
        assert(r@ =~= ifreq_name_spec(name.spec_bytes()));
    }
    r
}

/// Reads the outcome of a ring-parameters query: a negative result code is
/// an error and yields nothing; a non-negative one yields exactly the
/// populated current RX and TX pending counts, never a partial pair.
pub fn ring_query_outcome(code: i32, params: &RingParams) -> (r: Option<(u32, u32)>)
    ensures
        code < 0 ==> r is None,
        code >= 0 ==> r == Some((params.rx_pending, params.tx_pending)),
{
    if code < 0 {
        None
    } else {
        Some((params.rx_pending, params.tx_pending))
    }
}

/// The ring-buffer record for an interface from the query outcome: sizes as
/// information, an error only as a Warning, never fatal.
pub open spec fn ring_check(name: Seq<char>, ring: Option<(u32, u32)>) -> CheckView {
    match ring {
        Some((rx, tx)) => CheckView {
            name: name + ": Ring Buffers"@,
            status: CheckStatus::Info,
            message: "RX: "@ + text::dec_digits(rx as nat) + ", TX: "@ + text::dec_digits(
                tx as nat,
            ),
            details: Some("Ring buffer size affects XDP performance and memory usage"@),
        },
        None => CheckView {
            name: name + ": Ring Buffers"@,
            status: CheckStatus::Warning,
            message: "Unable to determine ring buffer sizes"@,
            details: Some("Could not query ring parameters via ethtool"@),
        },
    }
}

/// Builds the ring-buffer record for an interface.
pub fn ring_result(name: &str, ring: &Option<(u32, u32)>) -> (r: CheckResult)
    ensures
        r@ == ring_check(name@, *ring),
{
    let mut result_name = String::from_str(name);
    result_name.append(": Ring Buffers");
    match ring {
        Some(pair) => {
            let mut message = String::from_str("RX: ");
            let a = text::u64_to_string(pair.0 as u64);
            message.append(a.as_str());
            message.append(", TX: ");
            let b = text::u64_to_string(pair.1 as u64);
            message.append(b.as_str());
            let r = CheckResult {
                name: result_name,
                status: CheckStatus::Info,
                message,
                details: Some(
                    String::from_str("Ring buffer size affects XDP performance and memory usage"),
                ),
            };
            proof {
                assert(r@ == ring_check(name@, *ring));
            }
            r
        },
        None => {
            let r = CheckResult {
                name: result_name,
                status: CheckStatus::Warning,
                message: String::from_str("Unable to determine ring buffer sizes"),
                details: Some(String::from_str("Could not query ring parameters via ethtool")),
            };
            proof {
                assert(r@ == ring_check(name@, *ring));
            }
            r
        },
    }
}

} // verus!
