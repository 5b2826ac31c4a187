//! Bearer api keys: generation of fresh secrets, the presentable
//! `"{identity-id}.{hex-secret}"` form, parsing a presented key back into
//! its parts, and signing the presentable form into the stored blind index.

use vstd::prelude::*;

use crate::authn::Signer;
use crate::authn::SigningKeyError;
use crate::encoding::hex_of;
use crate::encoding::lemma_hex_of_len;
use crate::trusted::hex_encode;
use crate::trusted::random_bytes;
use crate::trusted::uuid_parse;
use crate::trusted::uuid_parse_of;
use crate::encoding::lemma_uuid_chars_len;
use crate::encoding::lemma_uuid_chars_no_dot;
use crate::encoding::uuid_chars;
use crate::trusted::uuid_to_string;

verus! {

/// Why a presented api key was rejected.
#[derive(Clone, Copy, Debug, PartialEq, Eq, Structural)]
pub enum ApiKeyError {
    /// The string is not of the `"{identity-id}.{secret}"` form.
    FailedToParse,
    /// The signer could not sign the presentable form.
    Signing(SigningKeyError),
}

/// The presentable form of a key: the identity's textual id, a dot, and
/// the secret taken verbatim.
pub open spec fn presentable_of(id: u128, secret: Seq<char>) -> Seq<char> {
    uuid_chars(id) + seq!['.'] + secret
}

/// `i` is the position of the first dot of `s`.
pub open spec fn is_first_dot(s: Seq<char>, i: int) -> bool {
    0 <= i < s.len() && s[i] == '.' && (forall|j: int| 0 <= j < i ==> #[trigger] s[j] != '.')
}

/// What parsing a presented key string yields: the identity named by the
/// segment left of the first dot, and the rest of the string verbatim as
/// the secret. Nothing, when no dot is present or the left segment is not
/// a uuid.
pub open spec fn parse_of(s: Seq<char>) -> Option<(u128, Seq<char>)> {
    if exists|i: int| is_first_dot(s, i) {
        let i = choose|i: int| is_first_dot(s, i);
        match uuid_parse_of(s.take(i)) {
            Some(id) => Some((id, s.skip(i + 1))),
            None => None,
        }
    } else {
        None
    }
}

/// The first dot of a string sits at one position only.
pub proof fn lemma_first_dot_unique(s: Seq<char>, i: int, j: int)
    requires
        is_first_dot(s, i),
        is_first_dot(s, j),
    ensures
        i == j,
{
}

/// A transient key: an identity reference and fresh secret material. It
/// exists only at issuance or parse time and is never persisted.
pub struct RawApiKey {
    id: u128,
    clear: String,
}

impl RawApiKey {
    pub closed spec fn spec_id(&self) -> u128 {
        self.id
    }

    pub closed spec fn spec_secret(&self) -> Seq<char> {
        self.clear@
    }

    /// A key over a chosen secret, as a remote party would present it.
    pub fn new(id: u128, secret: String) -> (r: RawApiKey)
        ensures
            r.spec_id() == id,
            r.spec_secret() == secret@,
    {
        RawApiKey { id, clear: secret }
    }

    /// A key for `id` over `N` fresh random bytes, hex-encoded.
    pub fn generate<const N: usize>(id: &u128) -> (r: RawApiKey)
        ensures
            r.spec_id() == *id,
            r.spec_secret().len() == 2 * N,
            exists|bs: Seq<u8>| bs.len() == N && r.spec_secret() == hex_of(bs),
    {
        let token_raw = random_bytes(N);
        let clear = hex_encode(token_raw.as_slice());
        proof {
            lemma_hex_of_len(token_raw@);
        }
        RawApiKey { id: *id, clear }
    }

    pub fn id(&self) -> (r: u128)
        ensures
            r == self.spec_id(),
    {
        self.id
    }

    pub fn secret(&self) -> (r: &str)
        ensures
            r@ == self.spec_secret(),
    {
        self.clear.as_str()
    }

    /// The `"{identity-id}.{secret}"` form shown to the user exactly once.
    /// Parsing gives back exactly this key, whatever the secret holds.
    pub fn presentable(&self) -> (r: String)
        ensures
            r@ == presentable_of(self.spec_id(), self.spec_secret()),
            parse_of(r@) == Some((self.spec_id(), self.spec_secret())),
    {
        let mut out = uuid_to_string(self.id);
        let ghost u = out@;
        out.append(".");
        out.append(self.clear.as_str());
        proof {
            lemma_uuid_chars_len(self.id);
            lemma_uuid_chars_no_dot(self.id);
            reveal_strlit(".");
            assert(".".view() =~= seq!['.']);
            assert(out@ =~= presentable_of(self.id, self.clear@));
            let s = out@;
            assert(s[36] == '.');
            assert forall|j: int| 0 <= j < 36 implies #[trigger] s[j] != '.' by {
                assert(s[j] == u[j]);
            }
            assert(is_first_dot(s, 36));
            let w = choose|i: int| is_first_dot(s, i);
            lemma_first_dot_unique(s, w, 36);
            assert(s.take(36) =~= u);
            assert(s.skip(37) =~= self.clear@);
        }
        out
    }

    /// Splits a presented string on its first dot: the left segment must
    /// name an identity, the right segment is the secret verbatim. Fails
    /// with `FailedToParse` exactly when no dot is present or the left
    /// segment is not an identity id.
    pub fn parse(s: &str) -> (r: Result<RawApiKey, ApiKeyError>)
        ensures
            (r is Ok) == (parse_of(s@) is Some),
            r matches Ok(k) ==> parse_of(s@) == Some((k.spec_id(), k.spec_secret())),
            r matches Err(e) ==> e == ApiKeyError::FailedToParse,
    {
        let n = s.unicode_len();
        let mut i: usize = 0;
        let mut found = false;
        while i < n && !found
            invariant
                n == s@.len(),
                i <= n,
                !found ==> forall|j: int| 0 <= j < i ==> #[trigger] s@[j] != '.',
                found ==> is_first_dot(s@, i as int),
            decreases n - i, (if found { 0int } else { 1int }),
        {
            if s.get_char(i) == '.' {
                found = true;
            } else {
                i += 1;
            }
        }
        if !found {
            proof {
                assert forall|k: int| !is_first_dot(s@, k) by {}
            }
            return Err(ApiKeyError::FailedToParse);
        }
        proof {
            let w = choose|k: int| is_first_dot(s@, k);
            lemma_first_dot_unique(s@, w, i as int);
        }
        let left = s.substring_char(0, i);
        let right = s.substring_char(i + 1, n);
        proof {
            assert(left@ =~= s@.take(i as int));
            assert(right@ =~= s@.skip(i as int + 1));
        }
        match uuid_parse(left) {
            Some(id) => Ok(RawApiKey { id, clear: right.to_owned() }),
            None => Err(ApiKeyError::FailedToParse),
        }
    }

    /// Builds the presentable form, signs its utf-8 bytes, and hex-encodes
    /// the signature. Succeeds exactly when the signer's key material is
    /// usable.
    pub fn sign<S: Signer>(self, signer: &S) -> (r: Result<SignedApiKey, ApiKeyError>)
        ensures
            (r is Ok) == signer.key_ok(),
            r matches Ok(k) ==> {
                &&& k.spec_key() == presentable_of(self.spec_id(), self.spec_secret())
                &&& k.spec_signature() == hex_of(
                    signer.sig_of(
                        vstd::utf8::encode_utf8(
                            presentable_of(self.spec_id(), self.spec_secret()),
                        ),
                    ),
                )
            },
            r matches Err(e) ==> e == ApiKeyError::Signing(SigningKeyError),
    {
        let key = self.presentable();
        match signer.sign(key.as_str().as_bytes()) {
            Ok(sig) => {
                let signature = hex_encode(sig.as_slice());
                Ok(SignedApiKey::new(key, signature))
            },
            Err(e) => Err(ApiKeyError::Signing(e)),
        }
    }
}

/// The pair a signed key yields: the presentable string shown to the user
/// once, and the hex signature that is persisted and indexed.
pub struct SignedApiKey {
    key: String,
    signature: String,
}

impl SignedApiKey {
    pub closed spec fn spec_key(&self) -> Seq<char> {
        self.key@
    }

    pub closed spec fn spec_signature(&self) -> Seq<char> {
        self.signature@
    }

    fn new(key: String, signature: String) -> (r: SignedApiKey)
        ensures
            r.spec_key() == key@,
            r.spec_signature() == signature@,
    {
        SignedApiKey { key, signature }
    }

    pub fn key(self) -> (r: String)
        ensures
            r@ == self.spec_key(),
    {
        self.key
    }

    pub fn signature(&self) -> (r: &str)
        ensures
            r@ == self.spec_signature(),
    {
        self.signature.as_str()
    }
}

} // verus!
