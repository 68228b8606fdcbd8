//! The hash that binds a commitment to its secret value, and the byte
//! encoding of the value that is hashed.

use vstd::prelude::*;

verus! {

/// The SHA-2 256-bit digest of `input`, as `ink_env::hash_bytes` computes it
/// with the `Sha2x256` hasher. Nothing is proved of it; it is a function of
/// the input bytes alone.
pub uninterp spec fn sha2_256(input: Seq<u8>) -> Seq<u8>;

/// The eight bytes of `value`, most significant byte first.
pub open spec fn be_bytes(value: u64) -> Seq<u8> {
    seq![
        ((value / 0x100_0000_0000_0000) % 0x100) as u8,
        ((value / 0x1_0000_0000_0000) % 0x100) as u8,
        ((value / 0x100_0000_0000) % 0x100) as u8,
        ((value / 0x1_0000_0000) % 0x100) as u8,
        ((value / 0x100_0000) % 0x100) as u8,
        ((value / 0x1_0000) % 0x100) as u8,
        ((value / 0x100) % 0x100) as u8,
        (value % 0x100) as u8,
    ]
}

/// The commitment that binds an account to the secret `value`: the digest of
/// the value's big-endian bytes.
pub open spec fn commitment_of(value: u64) -> Seq<u8> {
    sha2_256(be_bytes(value))
}

/// Encodes `value` as eight bytes, most significant byte first.
pub fn u64_to_be_bytes(value: u64) -> (bytes: Vec<u8>)
    ensures
        bytes@ == be_bytes(value),
{
    let mut bytes: Vec<u8> = Vec::new();
    bytes.push(((value / 0x100_0000_0000_0000) % 0x100) as u8);
    bytes.push(((value / 0x1_0000_0000_0000) % 0x100) as u8);
    bytes.push(((value / 0x100_0000_0000) % 0x100) as u8);
    bytes.push(((value / 0x1_0000_0000) % 0x100) as u8);
    bytes.push(((value / 0x100_0000) % 0x100) as u8);
    bytes.push(((value / 0x1_0000) % 0x100) as u8);
    bytes.push(((value / 0x100) % 0x100) as u8);
    bytes.push((value % 0x100) as u8);
    assert(bytes@ =~= be_bytes(value));
    bytes
}

/// Calls `ink_env::hash_bytes` with the `Sha2x256` hasher. Trusted, not
/// proved: the 32 bytes that the call writes are `sha2_256` of the input
/// bytes, whatever process or machine makes the call.
#[verifier::external_body]
pub(crate) fn sha2_256_digest(input: &[u8]) -> (digest: Vec<u8>)
    ensures
        digest@ == sha2_256(input@),
{
    let mut output = [0u8; 32];
    ink_env::hash_bytes::<ink_env::hash::Sha2x256>(input, &mut output);
    output.to_vec()
}

/// Whether two byte strings are equal, byte for byte.
pub fn same_bytes(left: &[u8], right: &[u8]) -> (same: bool)
    ensures
        same == (left@ == right@),
{
    if left.len() != right.len() {
        return false;
    }
    let mut i: usize = 0;
    while i < left.len()
        invariant
            left@.len() == right@.len(),
            i <= left@.len(),
            forall|j: int| 0 <= j < i ==> left@[j] == right@[j],
        decreases left@.len() - i,
    {
        if left[i] != right[i] {
            return false;
        }
        i = i + 1;
    }
    assert(left@ =~= right@);
    true
}

} // verus!
