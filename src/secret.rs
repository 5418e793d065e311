//! Move-only container for secret bytes that wipes its memory when the
//! secret is consumed or dropped.

use vstd::prelude::*;
use zeroize::Zeroize;

verus! {

/// A sequence of `n` zero bytes.
pub open spec fn zeros(n: nat) -> Seq<u8> {
    Seq::new(n, |i: int| 0u8)
}

/// Relies on `<[u8] as zeroize::Zeroize>::zeroize`: a volatile write of zero
/// over every byte of the slice; the length is kept. It asserts that the
/// length fits in `isize`.
#[verifier::external_body]
fn wipe_bytes(b: &mut Vec<u8>)
    requires
        old(b)@.len() <= isize::MAX as nat,
    ensures
        final(b)@ == zeros(old(b)@.len()),
    opens_invariants none
    no_unwind
{
    b.as_mut_slice().zeroize();
}

/// Raw secret bytes owned by exactly one holder.
///
/// The bytes are overwritten with zeros when the secret is consumed into
/// derived key material, when it is wiped, and when it is dropped.
pub struct SecureSecret {
    bytes: Vec<u8>,
    consumed: bool,
}

impl SecureSecret {
    /// The bytes currently held.
    pub closed spec fn view(&self) -> Seq<u8> {
        self.bytes@
    }

    /// Whether the secret has been handed to its one consumer.
    pub closed spec fn is_consumed(&self) -> bool {
        self.consumed
    }

    #[verifier::type_invariant]
    closed spec fn inv(&self) -> bool {
        self.bytes@.len() <= isize::MAX as nat
    }

    /// Takes ownership of `bytes`; the caller keeps no other copy.
    pub fn new(bytes: Vec<u8>) -> (s: SecureSecret)
        requires
            bytes@.len() <= isize::MAX as nat,
        ensures
            s@ == bytes@,
            !s.is_consumed(),
    {
        SecureSecret { bytes, consumed: false }
    }

    /// Number of secret bytes.
    pub fn len(&self) -> (r: usize)
        ensures
            r == self@.len(),
    {
        self.bytes.len()
    }

    /// Whether every byte held is zero.
    pub fn is_zeroized(&self) -> (r: bool)
        ensures
            r == (self@ == zeros(self@.len())),
    {
        let mut i: usize = 0;
        while i < self.bytes.len()
            invariant
                i <= self.bytes@.len(),
                forall|j: int| 0 <= j < i ==> self.bytes@[j] == 0u8,
            decreases self.bytes@.len() - i,
        {
            if self.bytes[i] != 0u8 {
                proof {
                    assert(self@[i as int] != zeros(self@.len())[i as int]);
                }
                return false;
            }
            i = i + 1;
        }
        proof {
            assert(self@ =~= zeros(self@.len()));
        }
        true
    }

    /// Overwrites every byte with zero, keeping the length.
    pub fn wipe(&mut self)
        ensures
            final(self)@ == zeros(old(self)@.len()),
            final(self).is_consumed() == old(self).is_consumed(),
    {
        proof {
            use_type_invariant(&*self);
        }
        wipe_bytes(&mut self.bytes);
    }

    /// Hands the bytes to `derive` once, then wipes them, whatever `derive`
    /// returned; the secret is consumed afterwards.
    pub fn consume_in_place<R, F: FnOnce(&[u8]) -> R>(&mut self, derive: F) -> (r: R)
        requires
            !old(self).is_consumed(),
            forall|b: &[u8]| b@ == old(self)@ ==> derive.requires((b,)),
        ensures
            exists|b: &[u8]| b@ == old(self)@ && derive.ensures((b,), r),
            final(self)@ == zeros(old(self)@.len()),
            final(self).is_consumed(),
    {
        proof {
            use_type_invariant(&*self);
        }
        let r = derive(self.bytes.as_slice());
        wipe_bytes(&mut self.bytes);
        self.consumed = true;
        r
    }

    /// Consumes the secret: `derive` sees the bytes once, and the memory
    /// that held them is zeroed before the result is returned.
    pub fn consume<R, F: FnOnce(&[u8]) -> R>(self, derive: F) -> (r: R)
        requires
            !self.is_consumed(),
            forall|b: &[u8]| b@ == self@ ==> derive.requires((b,)),
        ensures
            exists|b: &[u8]| b@ == self@ && derive.ensures((b,), r),
    {
        let mut s = self;
        s.consume_in_place(derive)
    }
}

impl Drop for SecureSecret {
    fn drop(&mut self)
        opens_invariants none
        no_unwind
    {
        proof {
            use_type_invariant(&*self);
        }
        wipe_bytes(&mut self.bytes);
    }
}

} // verus!
