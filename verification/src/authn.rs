//! Credential primitives: the deterministic signing capability behind the
//! blind api key index, stated as a trait so that implementations backed by
//! different key material can be injected at process start.

use vstd::prelude::*;

pub mod key;
pub mod jwt;

verus! {

/// The configured key material could not be used.
#[derive(Clone, Copy, Debug, PartialEq, Eq, Structural)]
pub struct SigningKeyError;

/// A deterministic signer: the same message under the same key material
/// always yields the same signature. `sig_of` names, per implementation,
/// the signature assigned to each message; `key_ok` says whether the key
/// material is usable, a property fixed when the signer is built.
pub trait Signer: Sized {
    spec fn sig_of(&self, msg: Seq<u8>) -> Seq<u8>;

    spec fn key_ok(&self) -> bool;

    /// The descriptor of the public verification key, published so that
    /// outside consumers can check signatures.
    spec fn verifying_key_of(&self) -> Seq<u8>;

    fn sign(&self, msg: &[u8]) -> (r: Result<Vec<u8>, SigningKeyError>)
        ensures
            r matches Ok(s) ==> s@ == self.sig_of(msg@),
            (r is Ok) == self.key_ok(),
    ;

    fn verifying_key(&self) -> (r: Vec<u8>)
        ensures
            r@ == self.verifying_key_of(),
    ;
}

/// Signing is deterministic: a signer assigns each message exactly one
/// signature, so signing the same bytes twice gives the same result.
pub proof fn lemma_signing_deterministic<S: Signer>(signer: &S, m1: Seq<u8>, m2: Seq<u8>)
    requires
        m1 == m2,
    ensures
        signer.sig_of(m1) == signer.sig_of(m2),
{
}

/// A signer over a fixed in-process key: the signature is the key followed
/// by the message, which is deterministic and, for one key, injective in
/// the message. It stands in for a keyed-mac construction wherever no
/// asymmetric key material is configured; a deployment backed by real key
/// material injects its own `Signer` implementation instead, and every
/// proof above this trait holds for that implementation too.
pub struct StaticKeySigner {
    key: Vec<u8>,
}

impl StaticKeySigner {
    pub fn new(key: Vec<u8>) -> (r: StaticKeySigner)
        ensures
            r.key_ok(),
            r.key_of() == key@,
    {
        StaticKeySigner { key }
    }

    /// The key material this signer was built over.
    pub closed spec fn key_of(&self) -> Seq<u8> {
        self.key@
    }

    /// For one signer, different messages get different signatures.
    pub proof fn lemma_sig_injective(&self, m1: Seq<u8>, m2: Seq<u8>)
        requires
            self.sig_of(m1) == self.sig_of(m2),
        ensures
            m1 == m2,
    {
        assert(self.key@ + m1 == self.key@ + m2);
        assert(m1.len() == m2.len());
        assert forall|i: int| 0 <= i < m1.len() implies m1[i] == m2[i] by {
            assert((self.key@ + m1)[self.key@.len() + i] == m1[i]);
            assert((self.key@ + m2)[self.key@.len() + i] == m2[i]);
        }
        assert(m1 =~= m2);
    }
}

impl Signer for StaticKeySigner {
    closed spec fn sig_of(&self, msg: Seq<u8>) -> Seq<u8> {
        self.key@ + msg
    }

    closed spec fn key_ok(&self) -> bool {
        true
    }

    closed spec fn verifying_key_of(&self) -> Seq<u8> {
        self.key@
    }

    fn sign(&self, msg: &[u8]) -> (r: Result<Vec<u8>, SigningKeyError>) {
        let mut out: Vec<u8> = Vec::new();
        let mut i: usize = 0;
        while i < self.key.len()
            invariant
                i <= self.key.len(),
                out@ == self.key@.take(i as int),
            decreases self.key.len() - i,
        {
            out.push(self.key[i]);
            proof {
                assert(out@ =~= self.key@.take(i + 1));
            }
            i += 1;
        }
        proof {
            assert(out@ =~= self.key@);
        }
        let mut j: usize = 0;
        while j < msg.len()
            invariant
                j <= msg.len(),
                out@ == self.key@ + msg@.take(j as int),
            decreases msg.len() - j,
        {
            out.push(msg[j]);
            proof {
                assert(out@ =~= self.key@ + msg@.take(j + 1));
            }
            j += 1;
        }
        proof {
            assert(out@ =~= self.key@ + msg@);
        }
        Ok(out)
    }

    fn verifying_key(&self) -> (r: Vec<u8>) {
        let mut out: Vec<u8> = Vec::new();
        let mut i: usize = 0;
        while i < self.key.len()
            invariant
                i <= self.key.len(),
                out@ == self.key@.take(i as int),
            decreases self.key.len() - i,
        {
            out.push(self.key[i]);
            proof {
                assert(out@ =~= self.key@.take(i + 1));
            }
            i += 1;
        }
        proof {
            assert(out@ =~= self.key@);
        }
        out
    }
}

/// The at-rest protection of an opaque secondary secret could not be
/// applied or reversed.
#[derive(Clone, Copy, Debug, PartialEq, Eq, Structural)]
pub enum EncryptorError {
    /// The configured key material cannot encrypt anything.
    UnusableKey,
    /// The presented ciphertext is not one this key can reverse.
    MalformedCiphertext,
}

/// Reversible encryption for opaque secondary secrets (a provider client
/// secret at rest). `enc_of` names each plaintext's ciphertext, `dec_of`
/// names what a ciphertext reverses to, and every implementation proves
/// that decrypting an encryption returns the plaintext.
pub trait KeyEncryptor: Sized {
    spec fn enc_of(&self, data: Seq<u8>) -> Seq<u8>;

    spec fn dec_of(&self, data: Seq<u8>) -> Option<Seq<u8>>;

    spec fn enc_ok(&self) -> bool;

    fn encrypt(&self, value: &[u8]) -> (r: Result<Vec<u8>, EncryptorError>)
        ensures
            (r is Ok) == self.enc_ok(),
            r matches Ok(c) ==> c@ == self.enc_of(value@),
    ;

    fn decrypt(&self, value: &[u8]) -> (r: Result<Vec<u8>, EncryptorError>)
        ensures
            (r is Ok) == (self.dec_of(value@) is Some),
            r matches Ok(p) ==> self.dec_of(value@) == Some(p@),
    ;

    /// Decrypting an encryption gives the plaintext back.
    proof fn lemma_round_trip(&self, data: Seq<u8>)
        requires
            self.enc_ok(),
        ensures
            self.dec_of(self.enc_of(data)) == Some(data),
    ;
}

/// The bytes of `data`, each folded with the key byte at its position,
/// the key repeating.
pub open spec fn xored(key: Seq<u8>, data: Seq<u8>) -> Seq<u8>
    recommends
        key.len() > 0,
{
    Seq::new(data.len(), |i: int| data[i] ^ key[i % key.len() as int])
}

/// An involutive in-process encryptor over a fixed nonempty key: applying
/// the key's byte stream once conceals, applying it again reveals. It
/// stands in for a configured cipher wherever no external key service is
/// wired in.
pub struct XorEncryptor {
    key: Vec<u8>,
}

impl XorEncryptor {
    /// Fails exactly when the key material is empty and so can conceal
    /// nothing.
    pub fn new(key: Vec<u8>) -> (r: Result<XorEncryptor, EncryptorError>)
        ensures
            (r is Ok) == (key@.len() > 0),
            r matches Ok(e) ==> e.enc_ok() && e.key_of() == key@,
            r matches Err(err) ==> err == EncryptorError::UnusableKey,
    {
        if key.len() == 0 {
            return Err(EncryptorError::UnusableKey);
        }
        Ok(XorEncryptor { key })
    }

    /// The key material this encryptor was built over.
    pub closed spec fn key_of(&self) -> Seq<u8> {
        self.key@
    }

    fn apply(&self, value: &[u8]) -> (r: Result<Vec<u8>, EncryptorError>)
        ensures
            (r is Ok) == (self.key@.len() > 0),
            r matches Ok(c) ==> c@ == xored(self.key@, value@),
            r matches Err(e) ==> e == EncryptorError::UnusableKey,
    {
        if self.key.len() == 0 {
            return Err(EncryptorError::UnusableKey);
        }
        let mut out: Vec<u8> = Vec::new();
        let mut i: usize = 0;
        while i < value.len()
            invariant
                self.key@.len() > 0,
                i <= value@.len(),
                out@ == xored(self.key@, value@.take(i as int)),
            decreases value@.len() - i,
        {
            out.push(value[i] ^ self.key[i % self.key.len()]);
            proof {
                assert(out@ =~= xored(self.key@, value@.take(i + 1)));
            }
            i += 1;
        }
        proof {
            assert(value@.take(value@.len() as int) =~= value@);
        }
        Ok(out)
    }
}

impl KeyEncryptor for XorEncryptor {
    closed spec fn enc_of(&self, data: Seq<u8>) -> Seq<u8> {
        xored(self.key@, data)
    }

    closed spec fn dec_of(&self, data: Seq<u8>) -> Option<Seq<u8>> {
        if self.key@.len() > 0 {
            Some(xored(self.key@, data))
        } else {
            None
        }
    }

    closed spec fn enc_ok(&self) -> bool {
        self.key@.len() > 0
    }

    fn encrypt(&self, value: &[u8]) -> (r: Result<Vec<u8>, EncryptorError>) {
        self.apply(value)
    }

    fn decrypt(&self, value: &[u8]) -> (r: Result<Vec<u8>, EncryptorError>) {
        self.apply(value)
    }

    proof fn lemma_round_trip(&self, data: Seq<u8>) {
        let k = self.key@;
        assert forall|i: int| 0 <= i < data.len() implies xored(k, xored(k, data))[i]
            == data[i] by {
            let b = data[i];
            let kb = k[i % k.len() as int];
            assert((b ^ kb) ^ kb == b) by (bit_vector);
        }
        assert(xored(k, xored(k, data)) =~= data);
    }
}

} // verus!
