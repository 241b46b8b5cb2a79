//! The `Rebased` event record and its log byte layout.
//!
//! A record travels as one log entry, framed as the remote ledger frames
//! emitted logs: a list holding the 20-byte emitting address, the list of
//! two 32-byte topics (the event signature hash, then the indexed epoch),
//! and a 128-byte data segment of four 256-bit words carrying the
//! remaining numeric fields in declared order. Every multi-byte item
//! carries its one- or two-byte length prefix, so a well-formed buffer is
//! exactly 221 bytes long.

use vstd::prelude::*;

use crate::hash::event_signature;
use crate::hash::sig_hash;
use crate::words::check_zero16;
use crate::words::padded_word;
use crate::words::push_word;
use crate::words::read_word;
use crate::words::word_val;
use crate::words::zero_at;

verus! {

/// Data that was emitted by the remote ledger's `Rebased` event.
#[derive(Debug, PartialEq, Eq, Clone, Copy)]
pub struct EthRebasedEvent {
    /// 20-byte account identifier of the emitting contract.
    pub rebaser_address: [u8; 20],
    /// The rebase epoch number; carried as the indexed topic.
    pub epoch: u128,
    /// Fixed-point exchange rate at rebase time.
    pub exchange_rate: u128,
    /// Consumer-price-index value used to compute the rebase.
    pub cpi: u128,
    /// Requested supply adjustment, carried as its unsigned
    /// 128-bit representation.
    pub requested_supply_adjustment: u128,
    /// Unix timestamp of the rebase, in seconds.
    pub timestamp_sec: u128,
}

/// The two ways a codec operation can fail.
#[derive(Debug, PartialEq, Eq, Clone, Copy)]
pub enum CodecError {
    /// The byte layout of a decoded buffer does not match the declared
    /// schema.
    MalformedLog,
    /// A field value does not fit the wire slot chosen for it; only the
    /// single-byte epoch topic can overflow.
    EncodingOverflow,
}

/// The position of each piece of a well-formed buffer, by byte offset:
/// framing bytes at fixed places, the address at 3, the signature topic
/// at 26, the epoch topic word at 59, and the four data words at 93,
/// 125, 157 and 189. Each 32-byte word holds its 128-bit value in the
/// low half; the high half must be zero, since a wider value does not
/// fit the record's fields.
pub open spec fn well_formed(d: Seq<u8>) -> bool {
    &&& d.len() == 221
    &&& d[0] == 0xf8
    &&& d[1] == 0xdb
    &&& d[2] == 0x94
    &&& d[23] == 0xf8
    &&& d[24] == 0x42
    &&& d[25] == 0xa0
    &&& d.subrange(26, 58) == sig_hash()
    &&& d[58] == 0xa0
    &&& d[91] == 0xb8
    &&& d[92] == 0x80
    &&& zero_at(d, 59)
    &&& zero_at(d, 93)
    &&& zero_at(d, 125)
    &&& zero_at(d, 157)
    &&& zero_at(d, 189)
}

/// True when `d` is a well-formed buffer whose fields read back, in
/// declared order, as the fields of `r`.
pub open spec fn represents(d: Seq<u8>, r: EthRebasedEvent) -> bool {
    &&& well_formed(d)
    &&& r.rebaser_address@ == d.subrange(3, 23)
    &&& r.epoch == word_val(d.subrange(75, 91))
    &&& r.exchange_rate == word_val(d.subrange(109, 125))
    &&& r.cpi == word_val(d.subrange(141, 157))
    &&& r.requested_supply_adjustment == word_val(d.subrange(173, 189))
    &&& r.timestamp_sec == word_val(d.subrange(205, 221))
}

/// The canonical encoding of a record: framing bytes, address, signature
/// topic, epoch topic, then the four data words in declared order.
/// Meaningful when `r.epoch <= 255`, so that the epoch fits the single
/// byte the wire gives it.
pub open spec fn log_bytes(r: EthRebasedEvent) -> Seq<u8> {
    seq![0xf8u8, 0xdb, 0x94] + r.rebaser_address@ + seq![0xf8u8, 0x42, 0xa0] + sig_hash()
        + seq![0xa0u8] + padded_word(r.epoch) + seq![0xb8u8, 0x80] + padded_word(r.exchange_rate)
        + padded_word(r.cpi) + padded_word(r.requested_supply_adjustment) + padded_word(
        r.timestamp_sec,
    )
}

/// Round-trip law: the canonical encoding of a record decodes back to
/// that record — it is well formed and represents the record. Together
/// with the contracts of the two entry points: whenever
/// `to_log_entry_data` succeeds (exactly when `epoch <= 255`), feeding
/// its output to `from_log_entry_data` succeeds and yields that same
/// record back.
#[verifier::rlimit(100)]
pub proof fn lemma_round_trip(r: EthRebasedEvent)
    ensures
        log_bytes(r).len() == 221,
        represents(log_bytes(r), r),
{
    let d = log_bytes(r);
    assert(r.rebaser_address@.len() == 20);
    assert(padded_word(r.epoch).len() == 32);
    assert(padded_word(r.exchange_rate).len() == 32);
    assert(padded_word(r.cpi).len() == 32);
    assert(padded_word(r.requested_supply_adjustment).len() == 32);
    assert(padded_word(r.timestamp_sec).len() == 32);
    crate::words::lemma_word_roundtrip(r.epoch);
    crate::words::lemma_word_roundtrip(r.exchange_rate);
    crate::words::lemma_word_roundtrip(r.cpi);
    crate::words::lemma_word_roundtrip(r.requested_supply_adjustment);
    crate::words::lemma_word_roundtrip(r.timestamp_sec);
    assert(sig_hash().len() == 32);
    assert(d.len() == 221);
    assert(d.subrange(3, 23) =~= r.rebaser_address@);
    assert(d.subrange(26, 58) =~= sig_hash());
    assert(d.subrange(75, 91) =~= crate::words::word_bytes(r.epoch));
    assert(d.subrange(109, 125) =~= crate::words::word_bytes(r.exchange_rate));
    assert(d.subrange(141, 157) =~= crate::words::word_bytes(r.cpi));
    assert(d.subrange(173, 189) =~= crate::words::word_bytes(r.requested_supply_adjustment));
    assert(d.subrange(205, 221) =~= crate::words::word_bytes(r.timestamp_sec));
    assert forall|i: int| 59 <= i < 75 implies d[i] == 0 by {
        assert(padded_word(r.epoch)[i - 59] == 0);
    }
    assert forall|i: int| 93 <= i < 109 implies d[i] == 0 by {
        assert(padded_word(r.exchange_rate)[i - 93] == 0);
    }
    assert forall|i: int| 125 <= i < 141 implies d[i] == 0 by {
        assert(padded_word(r.cpi)[i - 125] == 0);
    }
    assert forall|i: int| 157 <= i < 173 implies d[i] == 0 by {
        assert(padded_word(r.requested_supply_adjustment)[i - 157] == 0);
    }
    assert forall|i: int| 189 <= i < 205 implies d[i] == 0 by {
        assert(padded_word(r.timestamp_sec)[i - 189] == 0);
    }
}

/// A buffer represents at most one record: decoding is deterministic.
pub proof fn lemma_represents_unique(d: Seq<u8>, a: EthRebasedEvent, b: EthRebasedEvent)
    requires
        represents(d, a),
        represents(d, b),
    ensures
        a == b,
{
    assert(a.rebaser_address@ =~= b.rebaser_address@);
    assert(a.rebaser_address == b.rebaser_address);
}

/// Decoding trusts positional order strictly: transposing the first two
/// data words of a well-formed buffer yields a well-formed buffer whose
/// record carries the two values under the transposed field names.
pub proof fn lemma_positional_assignment(d: Seq<u8>, r: EthRebasedEvent)
    requires
        represents(d, r),
    ensures
        ({
            let p = d.subrange(0, 93) + d.subrange(125, 157) + d.subrange(93, 125) + d.subrange(
                157,
                221,
            );
            represents(
                p,
                (EthRebasedEvent {
                    rebaser_address: r.rebaser_address,
                    epoch: r.epoch,
                    exchange_rate: r.cpi,
                    cpi: r.exchange_rate,
                    requested_supply_adjustment: r.requested_supply_adjustment,
                    timestamp_sec: r.timestamp_sec,
                }),
            )
        }),
{
    let p = d.subrange(0, 93) + d.subrange(125, 157) + d.subrange(93, 125) + d.subrange(157, 221);
    assert(p.len() == 221);
    assert forall|i: int| 0 <= i < 93 implies p[i] == d[i] by {}
    assert forall|i: int| 93 <= i < 125 implies p[i] == d[i + 32] by {}
    assert forall|i: int| 125 <= i < 157 implies p[i] == d[i - 32] by {}
    assert forall|i: int| 157 <= i < 221 implies p[i] == d[i] by {}
    assert(p.subrange(26, 58) =~= d.subrange(26, 58));
    assert(p.subrange(3, 23) =~= d.subrange(3, 23));
    assert(p.subrange(75, 91) =~= d.subrange(75, 91));
    assert(p.subrange(109, 125) =~= d.subrange(141, 157));
    assert(p.subrange(141, 157) =~= d.subrange(109, 125));
    assert(p.subrange(173, 189) =~= d.subrange(173, 189));
    assert(p.subrange(205, 221) =~= d.subrange(205, 221));
}

impl EthRebasedEvent {
    /// Parse one raw log entry into a record.
    ///
    /// Succeeds exactly on well-formed buffers, and then returns the
    /// record the buffer represents; anything else — truncated, empty,
    /// wrongly framed, or holding a value wider than 128 bits — is
    /// rejected as malformed.
    pub fn from_log_entry_data(data: &[u8]) -> (res: Result<EthRebasedEvent, CodecError>)
        ensures
            match res {
                Ok(ev) => represents(data@, ev),
                Err(e) => !well_formed(data@) && e == CodecError::MalformedLog,
            },
    {
        if data.len() != 221 {
            return Err(CodecError::MalformedLog);
        }
        if data[0] != 0xf8 || data[1] != 0xdb || data[2] != 0x94 || data[23] != 0xf8 || data[24]
            != 0x42 || data[25] != 0xa0 || data[58] != 0xa0 || data[91] != 0xb8 || data[92]
            != 0x80 {
            return Err(CodecError::MalformedLog);
        }
        let h = event_signature();
        let mut i: usize = 0;
        while i < 32
            invariant
                i <= 32,
                data@.len() == 221,
                h@ == sig_hash(),
                forall|j: int| 0 <= j < i ==> data@[26 + j] == h@[j],
            decreases 32 - i,
        {
            if data[26 + i] != h[i] {
                proof {
                    if data@.subrange(26, 58) == sig_hash() {
                        assert(data@.subrange(26, 58)[i as int] == data@[26 + i]);
                    }
                }
                return Err(CodecError::MalformedLog);
            }
            i = i + 1;
        }
        proof {
            assert(data@.subrange(26, 58) =~= h@);
        }
        if !check_zero16(data, 59) || !check_zero16(data, 93) || !check_zero16(data, 125)
            || !check_zero16(data, 157) || !check_zero16(data, 189) {
            return Err(CodecError::MalformedLog);
        }
        let mut addr = [0u8; 20];
        let mut k: usize = 0;
        while k < 20
            invariant
                k <= 20,
                data@.len() == 221,
                forall|j: int| 0 <= j < k ==> addr@[j] == data@[3 + j],
            decreases 20 - k,
        {
            addr[k] = data[3 + k];
            k = k + 1;
        }
        proof {
            assert(addr@ =~= data@.subrange(3, 23));
        }
        Ok(
            EthRebasedEvent {
                rebaser_address: addr,
                epoch: read_word(data, 75),
                exchange_rate: read_word(data, 109),
                cpi: read_word(data, 141),
                requested_supply_adjustment: read_word(data, 173),
                timestamp_sec: read_word(data, 205),
            },
        )
    }

    /// Assemble the raw log entry bytes for this record.
    ///
    /// Succeeds exactly when the epoch fits the single byte of its topic
    /// slot, and then returns the canonical encoding of the record;
    /// a wider epoch is rejected as an encoding overflow.
    pub fn to_log_entry_data(&self) -> (res: Result<Vec<u8>, CodecError>)
        ensures
            match res {
                Ok(v) => self.epoch <= 255 && v@ == log_bytes(*self),
                Err(e) => self.epoch > 255 && e == CodecError::EncodingOverflow,
            },
    {
        if self.epoch > 255 {
            return Err(CodecError::EncodingOverflow);
        }
        let ghost s0: Seq<u8> = seq![0xf8u8, 0xdb, 0x94];
        let mut v: Vec<u8> = Vec::new();
        v.push(0xf8);
        v.push(0xdb);
        v.push(0x94);
        proof {
            assert(v@ =~= s0);
        }
        let mut k: usize = 0;
        while k < 20
            invariant
                k <= 20,
                v@ == s0 + self.rebaser_address@.subrange(0, k as int),
            decreases 20 - k,
        {
            v.push(self.rebaser_address[k]);
            proof {
                assert(v@ =~= s0 + self.rebaser_address@.subrange(0, k + 1));
            }
            k = k + 1;
        }
        let ghost s1: Seq<u8> = s0 + self.rebaser_address@ + seq![0xf8u8, 0x42, 0xa0];
        v.push(0xf8);
        v.push(0x42);
        v.push(0xa0);
        proof {
            assert(self.rebaser_address@.subrange(0, 20) =~= self.rebaser_address@);
            assert(v@ =~= s1);
        }
        let h = event_signature();
        let mut k: usize = 0;
        while k < 32
            invariant
                k <= 32,
                v@ == s1 + h@.subrange(0, k as int),
            decreases 32 - k,
        {
            v.push(h[k]);
            proof {
                assert(v@ =~= s1 + h@.subrange(0, k + 1));
            }
            k = k + 1;
        }
        let ghost s2: Seq<u8> = s1 + sig_hash() + seq![0xa0u8];
        v.push(0xa0);
        proof {
            assert(h@.subrange(0, 32) =~= h@);
            assert(v@ =~= s2);
        }
        push_word(&mut v, self.epoch);
        let ghost s3: Seq<u8> = s2 + padded_word(self.epoch) + seq![0xb8u8, 0x80];
        v.push(0xb8);
        v.push(0x80);
        proof {
            assert(v@ =~= s3);
        }
        push_word(&mut v, self.exchange_rate);
        push_word(&mut v, self.cpi);
        push_word(&mut v, self.requested_supply_adjustment);
        push_word(&mut v, self.timestamp_sec);
        proof {
            assert(v@ =~= log_bytes(*self));
        }
        Ok(v)
    }
}

} // verus!
