use vstd::prelude::*;

verus! {

/// A 32-byte identity: a wallet, a token account, a record or a program.
#[derive(Clone, Copy, Debug)]
pub struct Key {
    pub bytes: [u8; 32],
}

impl View for Key {
    type V = Seq<u8>;

    open spec fn view(&self) -> Seq<u8> {
        self.bytes@
    }
}

impl Key {
    pub fn new(bytes: [u8; 32]) -> (r: Key)
        ensures
            r@ == bytes@,
    {
        Key { bytes }
    }

    /// Byte-for-byte comparison of two identities.
    pub fn equals(&self, other: &Key) -> (r: bool)
        ensures
            r == (self@ == other@),
    {
        let mut i: usize = 0;
        while i < 32
            invariant
                0 <= i <= 32,
                self@.len() == 32,
                other@.len() == 32,
                forall|j: int| 0 <= j < i ==> self@[j] == other@[j],
            decreases 32 - i,
        {
            if self.bytes[i] != other.bytes[i] {
                return false;
            }
            i = i + 1;
        }
        assert(self@ =~= other@);
        true
    }
}

/// The identity whose bytes are `v` (meaningful for 32 bytes).
pub open spec fn key_from(v: Seq<u8>) -> Key {
    choose|k: Key| k@ == v
}

/// An identity is determined by its bytes.
pub proof fn lemma_key_from(k: Key)
    ensures
        key_from(k@) == k,
{
    let c = key_from(k@);
    assert(c@ == k@);
    assert(c.bytes =~= k.bytes);
}

} // verus!
