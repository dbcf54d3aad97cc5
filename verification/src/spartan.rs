//! The SHA-256 knowledge circuit of the Spartan benchmark: the preimage it
//! proves and the digest bits it exposes as public values.
use vstd::prelude::*;

use crate::inputs::{sha256_reference, sha256_spec};

verus! {

/// A SHA-256 preimage-knowledge circuit over one byte message.
pub struct Sha256Circuit {
    preimage: Vec<u8>,
}

impl Sha256Circuit {
    /// A circuit over the given preimage.
    pub fn new(preimage: Vec<u8>) -> (r: Sha256Circuit)
        ensures
            r.spec_preimage() == preimage@,
    {
        Sha256Circuit { preimage }
    }

    /// The preimage the circuit proves knowledge of.
    pub closed spec fn spec_preimage(self) -> Seq<u8> {
        self.preimage@
    }

    /// The circuit's public values: the 256 digest bits of the preimage,
    /// most significant bit of each byte first, one 0/1 value each.
    pub fn public_values(&self) -> (r: Vec<u8>)
        ensures
            r@.len() == 256,
            forall|i: int|
                0 <= i < 256 ==> r@[i] == (sha256_spec(self.spec_preimage())[i / 8] >> ((7 - i % 8)
                    as u8)) & 1,
    {
        let digest = sha256_reference(&self.preimage);
        let mut out: Vec<u8> = Vec::new();
        let mut i: usize = 0;
        while i < 256
            invariant
                digest@ == sha256_spec(self.spec_preimage()),
                digest@.len() == 32,
                i <= 256,
                out@.len() == i,
                forall|k: int|
                    0 <= k < i ==> out@[k] == (sha256_spec(self.spec_preimage())[k / 8] >> ((7 - k
                        % 8) as u8)) & 1,
            decreases 256 - i,
        {
            let byte = digest[i / 8];
            out.push((byte >> ((7 - i % 8) as u8)) & 1);
            i += 1;
        }
        out
    }
}

} // verus!
