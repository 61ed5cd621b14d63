//! Interface bytes of the Answer To Reset.
//!
//! The answer is taken without its initial character: it starts with
//! T0. The scan follows the Y nibbles to tell interface bytes from
//! the rest, collects the protocols that the TD bytes announce, and
//! keeps the first TA sent for T=1, which is the card's IFSC.
use vstd::prelude::*;

verus! {

/// Longest Answer To Reset that is kept.
pub const ATR_SIZE: usize = 32;

/// IFSC taken when T=1 is announced but no TA for it was seen.
pub const IFSC_UNSET: u8 = 255;

/// What is known after a prefix of the answer has been scanned.
pub struct AtrScan {
    /// The Y nibble and protocol nibble that say which interface bytes
    /// are still to come; `None` once there are no more.
    pub y: Option<u8>,
    /// Bit `k` is set when a TD byte announced protocol `k`.
    pub protocols: u16,
    /// First TA sent for protocol T=1.
    pub ifsc: Option<u8>,
    /// XOR of T0 and of every byte scanned.
    pub tck: u8,
}

/// State before the first byte: the tracking byte and the checksum
/// both start as T0.
pub open spec fn scan_start(atr: Seq<u8>) -> AtrScan {
    let t0: u8 = if atr.len() == 0 {
        0
    } else {
        atr[0]
    };
    AtrScan { y: Some(t0), protocols: 0, ifsc: None, tck: t0 }
}

/// State after one more byte `c`.
pub open spec fn scan_byte(s: AtrScan, c: u8) -> AtrScan {
    let tck = s.tck ^ c;
    match s.y {
        Some(y) => {
            if y & 0xf0 == 0x80 {
                AtrScan { y: Some(c), protocols: s.protocols | (1u16 << (c & 15)), tck, ..s }
            } else if y >= 16 {
                AtrScan {
                    y: Some(y & ((y - 16) as u8)),
                    ifsc: if s.ifsc is None && y & 0x1f == 0x11 {
                        Some(c)
                    } else {
                        s.ifsc
                    },
                    tck,
                    ..s
                }
            } else {
                AtrScan { y: None, tck, ..s }
            }
        },
        None => AtrScan { tck, ..s },
    }
}

/// State after the first `k` bytes of `atr`.
pub open spec fn scan(atr: Seq<u8>, k: nat) -> AtrScan
    recommends
        k <= atr.len(),
    decreases k,
{
    if k == 0 {
        scan_start(atr)
    } else {
        scan_byte(scan(atr, (k - 1) as nat), atr[k - 1])
    }
}

/// The answer announces T=1 and its check byte cancels the rest.
pub open spec fn announces_t1(atr: Seq<u8>) -> bool {
    let end = scan(atr, atr.len());
    end.protocols & 2 != 0 && end.tck == 0
}

/// The IFSC that the answer gives: the first TA for T=1 of an answer
/// that announces T=1 with a good check byte.
pub open spec fn ifsc_of(atr: Seq<u8>) -> Option<u8> {
    if announces_t1(atr) {
        match scan(atr, atr.len()).ifsc {
            Some(v) => Some(v),
            None => Some(IFSC_UNSET),
        }
    } else {
        None
    }
}

/// The IFSC in force after `atr` was received, when it was `current`
/// before.
pub open spec fn ifsc_after(atr: Seq<u8>, current: u8) -> u8 {
    match ifsc_of(atr) {
        Some(v) => v,
        None => current,
    }
}

/// One step of the scan, on machine values.
pub fn scan_next(s: AtrScan, c: u8) -> (next: AtrScan)
    ensures
        next == scan_byte(s, c),
{
    let tck: u8 = s.tck ^ c;
    match s.y {
        Some(y) => {
            if y & 0xf0 == 0x80 {
                assert((c & 15) < 16) by (bit_vector);
                AtrScan {
                    y: Some(c),
                    protocols: s.protocols | (1u16 << (c & 15)),
                    ifsc: s.ifsc,
                    tck,
                }
            } else if y >= 16 {
                let ifsc: Option<u8> = if s.ifsc.is_none() && y & 0x1f == 0x11 {
                    Some(c)
                } else {
                    s.ifsc
                };
                AtrScan { y: Some(y & (y - 16)), protocols: s.protocols, ifsc, tck }
            } else {
                AtrScan { y: None, protocols: s.protocols, ifsc: s.ifsc, tck }
            }
        },
        None => AtrScan { y: None, protocols: s.protocols, ifsc: s.ifsc, tck },
    }
}

/// Scans a whole answer and returns the IFSC it gives, if any.
pub fn parse(atr: &[u8]) -> (ifsc: Option<u8>)
    ensures
        ifsc == ifsc_of(atr@),
{
    let t0: u8 = if atr.len() == 0 {
        0
    } else {
        atr[0]
    };
    let mut s = AtrScan { y: Some(t0), protocols: 0, ifsc: None, tck: t0 };
    let mut i: usize = 0;
    while i < atr.len()
        invariant
            i <= atr.len(),
            s == scan(atr@, i as nat),
        decreases atr.len() - i,
    {
        s = scan_next(s, atr[i]);
        i = i + 1;
    }
    if s.protocols & 2 != 0 && s.tck == 0 {
        match s.ifsc {
            Some(v) => Some(v),
            None => Some(IFSC_UNSET),
        }
    } else {
        None
    }
}

} // verus!
