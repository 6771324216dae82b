//! Peer identifiers: the stable identity of a participant's network endpoint,
//! used as the resolver key and as the address descriptor carried in tickets.

use vstd::prelude::*;

verus! {

/// A peer identifier: exactly 32 bytes.
#[derive(Debug)]
pub struct PeerId {
    pub bytes: Vec<u8>,
}

impl PeerId {
    /// Well-formed peer identifiers carry exactly 32 bytes.
    pub open spec fn wf(&self) -> bool {
        self.bytes@.len() == 32
    }

    pub fn new(bytes: Vec<u8>) -> (r: Self)
        requires
            bytes@.len() == 32,
        ensures
            r.wf(),
            r.bytes@ == bytes@,
    {
        PeerId { bytes }
    }
}

/// An owned copy of a byte vector.
pub fn copy_bytes(src: &Vec<u8>) -> (r: Vec<u8>)
    ensures
        r@ == src@,
{
    let mut out: Vec<u8> = Vec::new();
    let mut i: usize = 0;
    while i < src.len()
        invariant
            0 <= i <= src@.len(),
            out@ == src@.take(i as int),
        decreases src@.len() - i,
    {
        out.push(src[i]);
        i += 1;
    }
    assert(out@ =~= src@);
    out
}

/// Byte-for-byte equality of two byte vectors.
pub fn bytes_eq(a: &Vec<u8>, b: &Vec<u8>) -> (r: bool)
    ensures
        r == (a@ == b@),
{
    if a.len() != b.len() {
        assert(a@ != b@);
        return false;
    }
    let mut i: usize = 0;
    while i < a.len()
        invariant
            0 <= i <= a@.len(),
            a@.len() == b@.len(),
            forall|j: int| 0 <= j < i ==> a@[j] == b@[j],
        decreases a@.len() - i,
    {
        if a[i] != b[i] {
            return false;
        }
        i += 1;
    }
    assert(a@ =~= b@);
    true
}

} // verus!
