//! An encrypted envelope: a value kept only as bytes xor-ed with a key, whose
//! fields can still be borrowed (as a place) and decrypted one by one.
use vstd::prelude::*;
use crate::ptr::Metadata;
use crate::subplace::Subplace;

verus! {

/// An encryption key.
#[derive(Clone, Copy, Debug)]
pub struct Key(pub u8);

/// The bytes `s`, each xor-ed with `k`.
pub open spec fn xor_bytes(s: Seq<u8>, k: u8) -> Seq<u8> {
    Seq::new(s.len(), |i: int| s[i] ^ k)
}

/// Xor-ing twice with the same key gives the bytes back.
pub proof fn lemma_xor_twice(s: Seq<u8>, k: u8)
    ensures
        xor_bytes(xor_bytes(s, k), k) == s,
{
    assert forall|i: int| 0 <= i < s.len() implies #[trigger] xor_bytes(xor_bytes(s, k), k)[i]
        == s[i] by {
        let b = s[i];
        assert((b ^ k) ^ k == b) by (bit_vector);
    }
    assert(xor_bytes(xor_bytes(s, k), k) =~= s);
}

/// A `T`, encrypted: only its bytes xor-ed with a key are kept.
pub struct EncryptedEnvelope<T> {
    bytes: Vec<u8>,
    key_check: u8,
    phantom: core::marker::PhantomData<T>,
}

impl<T> EncryptedEnvelope<T> {
    /// An envelope holds exactly the bytes of one `T`.
    #[verifier::type_invariant]
    spec fn holds_one_value(&self) -> bool {
        self.bytes@.len() == vstd::layout::size_of::<T>()
    }

    /// The encrypted bytes.
    pub closed spec fn ciphertext(&self) -> Seq<u8> {
        self.bytes@
    }

    /// The value by which the key is recognized (not the key itself).
    pub closed spec fn key_check(&self) -> u8 {
        self.key_check
    }

    /// Encrypts `value`, the bytes of a `T`, with `key`.
    pub fn encrypt(value: &[u8], key: Key) -> (env: Self)
        requires
            value@.len() == vstd::layout::size_of::<T>(),
        ensures
            env.ciphertext() == xor_bytes(value@, key.0),
            env.key_check() == !key.0,
    {
        let mut bytes: Vec<u8> = Vec::new();
        let mut i: usize = 0;
        while i < value.len()
            invariant
                i <= value@.len(),
                bytes@ == xor_bytes(value@.subrange(0, i as int), key.0),
            decreases value@.len() - i,
        {
            bytes.push(value[i] ^ key.0);
            i = i + 1;
            assert(bytes@ =~= xor_bytes(value@.subrange(0, i as int), key.0));
        }
        assert(value@.subrange(0, value@.len() as int) =~= value@);
        EncryptedEnvelope { bytes, key_check: !key.0, phantom: core::marker::PhantomData }
    }

    /// Decrypts the value with `key`, which must be the key it was encrypted with.
    pub fn decrypt(&self, key: Key) -> (value: Vec<u8>)
        requires
            self.key_check() == !key.0,
        ensures
            value@ == xor_bytes(self.ciphertext(), key.0),
            value@.len() == vstd::layout::size_of::<T>(),
    {
        proof {
            use_type_invariant(self);
        }
        let mut value: Vec<u8> = Vec::new();
        let mut i: usize = 0;
        while i < self.bytes.len()
            invariant
                i <= self.bytes@.len(),
                value@ == xor_bytes(self.bytes@.subrange(0, i as int), key.0),
            decreases self.bytes@.len() - i,
        {
            value.push(self.bytes[i] ^ key.0);
            i = i + 1;
            assert(value@ =~= xor_bytes(self.bytes@.subrange(0, i as int), key.0));
        }
        assert(self.bytes@.subrange(0, self.bytes@.len() as int) =~= self.bytes@);
        value
    }

    /// Borrows the whole envelope, as a place that can be projected to fields.
    pub fn borrow(&self) -> (b: EnvelopeBorrow<'_, T, T>)
        ensures
            b.envelope() == *self,
            b.offset() == 0,
    {
        EnvelopeBorrow { env: self, offset: 0, phantom: core::marker::PhantomData }
    }
}

/// A key is recognized exactly when it is the key the value was encrypted with.
pub proof fn lemma_key_check(k1: u8, k2: u8)
    ensures
        (!k1 == !k2) == (k1 == k2),
{
    assert((!k1 == !k2) == (k1 == k2)) by (bit_vector);
}

/// Decrypting with the key used to encrypt gives the value back.
pub proof fn lemma_decrypt_encrypted(value: Seq<u8>, key: u8)
    ensures
        xor_bytes(xor_bytes(value, key), key) == value,
{
    lemma_xor_twice(value, key);
}

/// Decrypting the part at `offset` of an encrypted value, with the key used to
/// encrypt it, gives that part of the value.
pub proof fn lemma_decrypt_part(value: Seq<u8>, key: u8, offset: int, len: int)
    requires
        0 <= offset,
        0 <= len,
        offset + len <= value.len(),
    ensures
        xor_bytes(xor_bytes(value, key), key).subrange(offset, offset + len) == value.subrange(
            offset,
            offset + len,
        ),
{
    lemma_xor_twice(value, key);
}

/// A borrow of the `Part` at byte offset `offset` inside an encrypted `Whole`.
pub struct EnvelopeBorrow<'a, Whole, Part> {
    env: &'a EncryptedEnvelope<Whole>,
    offset: usize,
    phantom: core::marker::PhantomData<Part>,
}

impl<'a, Whole, Part> EnvelopeBorrow<'a, Whole, Part> {
    /// The borrowed part lies inside the whole value.
    #[verifier::type_invariant]
    spec fn part_inside(&self) -> bool {
        self.offset + vstd::layout::size_of::<Part>() <= vstd::layout::size_of::<Whole>()
    }

    /// The borrowed envelope.
    pub closed spec fn envelope(&self) -> EncryptedEnvelope<Whole> {
        *self.env
    }

    /// The offset of the borrowed part in the whole value.
    pub closed spec fn offset(&self) -> usize {
        self.offset
    }

    /// Decrypts the whole value with `key` and reads the borrowed part of it.
    pub fn decrypt(&self, key: Key) -> (part: Vec<u8>)
        requires
            self.envelope().key_check() == !key.0,
        ensures
            part@ == xor_bytes(self.envelope().ciphertext(), key.0).subrange(
                self.offset() as int,
                self.offset() + vstd::layout::size_of::<Part>(),
            ),
    {
        proof {
            use_type_invariant(self);
        }
        let whole = self.env.decrypt(key);
        let size = core::mem::size_of::<Part>();
        let mut part: Vec<u8> = Vec::new();
        let mut i: usize = 0;
        while i < size
            invariant
                i <= size,
                size == vstd::layout::size_of::<Part>(),
                self.offset + size <= whole@.len(),
                part@ == whole@.subrange(self.offset as int, self.offset + i),
            decreases size - i,
        {
            let n = whole.len();
            assert(self.offset + i < n);
            part.push(whole[self.offset + i]);
            i = i + 1;
            assert(part@ =~= whole@.subrange(self.offset as int, self.offset + i));
        }
        part
    }

    /// Borrows the subplace `s` of the borrowed part; it must lie inside the part.
    pub fn project<S: Subplace<Source = Part>>(&self, s: S) -> (b: EnvelopeBorrow<'a, Whole, S::Target>)
        where
            S::Target: Sized,
        requires
            s.offset_requires(Metadata::Thin),
            s.spec_offset(Metadata::Thin).0 + vstd::layout::size_of::<S::Target>()
                <= vstd::layout::size_of::<Part>(),
        ensures
            b.envelope() == self.envelope(),
            b.offset() == self.offset() + s.spec_offset(Metadata::Thin).0,
    {
        proof {
            use_type_invariant(self);
        }
        vstd::layout::layout_for_type_is_valid::<Whole>();
        let (offset, _) = s.offset(Metadata::Thin);
        EnvelopeBorrow { env: self.env, offset: self.offset + offset, phantom: core::marker::PhantomData }
    }
}

} // verus!
