//! The event signature topic: the Keccak-256 digest of the event's
//! canonical signature string.

use vstd::prelude::*;

verus! {

/// The Keccak-256 digest of the UTF-8 bytes of `s`. The digest is a
/// function of the characters alone.
pub uninterp spec fn keccak_of(s: Seq<char>) -> Seq<u8>;

/// The canonical signature of the `Rebased` event: its name followed by
/// the declared parameter types, indexed and non-indexed alike, in
/// declared order.
pub open spec fn sig_preimage() -> Seq<char> {
    "Rebased(uint256,uint256,uint256,int256,uint256)"@
}

/// The 32 bytes of the signature topic. Keccak-256 always yields 32
/// bytes; the fallback branch only fixes the length at the specification
/// level.
pub open spec fn sig_hash() -> Seq<u8> {
    if keccak_of(sig_preimage()).len() == 32 {
        keccak_of(sig_preimage())
    } else {
        Seq::new(32, |i: int| 0u8)
    }
}

/// Relies on tiny_keccak's `Keccak::v256`: the Keccak-256 digest of the
/// input bytes, squeezed into the 32-byte output buffer.
#[verifier::external_body]
fn keccak256(s: &str) -> (r: [u8; 32])
    ensures
        r@ == keccak_of(s@),
{
    let mut state = tiny_keccak::Keccak::v256();
    let mut out = [0u8; 32];
    tiny_keccak::Hasher::update(&mut state, s.as_bytes());
    tiny_keccak::Hasher::finalize(state, &mut out);
    out
}

/// Computes the signature topic of the `Rebased` event.
pub fn event_signature() -> (r: [u8; 32])
    ensures
        r@ == sig_hash(),
{
    let r = keccak256("Rebased(uint256,uint256,uint256,int256,uint256)");
    proof {
        reveal_strlit("Rebased(uint256,uint256,uint256,int256,uint256)");
        assert(r@.len() == 32);
        assert("Rebased(uint256,uint256,uint256,int256,uint256)"@ =~= sig_preimage());
    }
    r
}

} // verus!
