use sha2::Digest;
use vstd::prelude::*;

verus! {

/// The SHA-256 digest of a byte sequence. The digest takes pages to state,
/// so it is only named here; the executable value comes from the `sha2`
/// crate, whose result depends on the input bytes alone.
pub uninterp spec fn sha256_of(bytes: Seq<u8>) -> Seq<u8>;

/// Relies on sha2::Sha256::digest: the 32-byte SHA-256 digest of the input,
/// a function of the input bytes alone.
#[verifier::external_body]
pub(crate) fn sha256(data: &[u8]) -> (r: Vec<u8>)
    ensures
        r@ == sha256_of(data@),
        r@.len() == 32,
{
    sha2::Sha256::digest(data).to_vec()
}

/// The big-endian 64-bit integer held by the first eight bytes.
pub open spec fn be_u64_of(bytes: Seq<u8>) -> nat
    recommends
        bytes.len() >= 8,
{
    (bytes.index(0) as nat) * 0x100000000000000 + (bytes.index(1) as nat) * 0x1000000000000
        + (bytes.index(2) as nat) * 0x10000000000 + (bytes.index(3) as nat) * 0x100000000 + (
    bytes.index(4) as nat) * 0x1000000 + (bytes.index(5) as nat) * 0x10000 + (bytes.index(6)
        as nat) * 0x100 + (bytes.index(7) as nat)
}

/// Reads the first eight bytes as one big-endian unsigned 64-bit integer.
pub fn be_u64_first8(bytes: &Vec<u8>) -> (r: u64)
    requires
        bytes@.len() >= 8,
    ensures
        r as nat == be_u64_of(bytes@),
{
    (bytes[0] as u64) * 0x100000000000000 + (bytes[1] as u64) * 0x1000000000000 + (bytes[2]
        as u64) * 0x10000000000 + (bytes[3] as u64) * 0x100000000 + (bytes[4] as u64)
        * 0x1000000 + (bytes[5] as u64) * 0x10000 + (bytes[6] as u64) * 0x100 + (
    bytes[7] as u64)
}

} // verus!
