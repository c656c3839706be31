//! The symmetric-cipher collaborator.
//!
//! Every inner message is passed through [`Cipher::encrypt`] before it is
//! wrapped into a wire packet, so no plaintext application data ever reaches
//! the transport.  The cipher applies a repeating keystream derived from the
//! session key; encryption and decryption are the same involution, which is
//! proved in [`lemma_keystream_involution`].

use vstd::prelude::*;

verus! {

/// Failure of the cipher collaborator: the session key is unusable.
#[derive(Clone, Copy, Debug, PartialEq, Eq, Structural)]
pub enum CryptoError {
    MissingKey,
}

/// The bytes produced by running the keystream of `key` over `data`.
///
/// Each output byte is the matching input byte combined with the key byte at
/// the same position, the key repeating as often as needed.
pub open spec fn xor_bytes(key: Seq<u8>, data: Seq<u8>) -> Seq<u8>
    recommends
        key.len() > 0,
{
    Seq::new(data.len(), |i: int| data[i] ^ key[i % (key.len() as int)])
}

/// Applying the keystream twice restores the plaintext.
pub proof fn lemma_keystream_involution(key: Seq<u8>, data: Seq<u8>)
    requires
        key.len() > 0,
    ensures
        xor_bytes(key, xor_bytes(key, data)) == data,
{
    let once = xor_bytes(key, data);
    let twice = xor_bytes(key, once);
    assert forall|i: int| 0 <= i < data.len() implies twice[i] == data[i] by {
        let k: u8 = key[i % (key.len() as int)];
        let d: u8 = data[i];
        assert((d ^ k) ^ k == d) by (bit_vector);
    }
    assert(twice =~= data);
}

/// The shared symmetric-cipher state: one session key, read-only after
/// construction.
pub struct Cipher {
    key: Vec<u8>,
}

impl View for Cipher {
    type V = Seq<u8>;

    closed spec fn view(&self) -> Seq<u8> {
        self.key@
    }
}

impl Cipher {
    /// The cipher is usable exactly when it holds at least one key byte.
    pub open spec fn wf(&self) -> bool {
        self@.len() > 0
    }

    pub fn new(key: Vec<u8>) -> (r: Self)
        ensures
            r@ == key@,
    {
        Cipher { key }
    }

    pub fn clone_state(&self) -> (r: Self)
        ensures
            r@ == self@,
    {
        let mut key: Vec<u8> = Vec::new();
        let mut i: usize = 0;
        while i < self.key.len()
            invariant
                i <= self.key.len(),
                key@ == self.key@.take(i as int),
            decreases self.key.len() - i,
        {
            key.push(self.key[i]);
            i = i + 1;
        }
        assert(key@ =~= self.key@);
        Cipher { key }
    }

    /// True exactly when the cipher can encrypt.
    pub fn has_key(&self) -> (r: bool)
        ensures
            r == self.wf(),
    {
        self.key.len() > 0
    }

    /// Runs the keystream over `data`; the caller must know the key is
    /// usable.
    pub fn apply_keystream(&self, data: &[u8]) -> (r: Vec<u8>)
        requires
            self.wf(),
        ensures
            r@ == xor_bytes(self@, data@),
    {
        let mut out: Vec<u8> = Vec::new();
        let mut i: usize = 0;
        while i < data.len()
            invariant
                self.wf(),
                i <= data.len(),
                out@ == xor_bytes(self@, data@.take(i as int)),
            decreases data.len() - i,
        {
            out.push(data[i] ^ self.key[i % self.key.len()]);
            i = i + 1;
            assert(out@ =~= xor_bytes(self@, data@.take(i as int)));
        }
        assert(data@.take(data.len() as int) =~= data@);
        out
    }

    /// Encrypts one serialized inner message.
    ///
    /// Fails exactly when the cipher holds no key; otherwise the result is
    /// the keystream applied to `data`.
    pub fn encrypt(&self, data: &[u8]) -> (r: Result<Vec<u8>, CryptoError>)
        ensures
            self.wf() ==> (r matches Ok(c) && c@ == xor_bytes(self@, data@)),
            !self.wf() ==> r is Err,
    {
        if self.key.len() == 0 {
            Err(CryptoError::MissingKey)
        } else {
            Ok(self.apply_keystream(data))
        }
    }

    /// Decrypts a payload produced by [`Cipher::encrypt`] under the same key.
    pub fn decrypt(&self, data: &[u8]) -> (r: Result<Vec<u8>, CryptoError>)
        ensures
            self.wf() ==> (r matches Ok(p) && p@ == xor_bytes(self@, data@)),
            !self.wf() ==> r is Err,
    {
        if self.key.len() == 0 {
            Err(CryptoError::MissingKey)
        } else {
            Ok(self.apply_keystream(data))
        }
    }
}

} // verus!
