//! Short-lived signed claims: audience, embedded permission set, validity
//! window, and a unique token id, with a canonical byte encoding that the
//! configured signer signs.

use vstd::prelude::*;

use crate::encoding::be_bytes_u128;
use crate::encoding::be_bytes_u64;
use crate::permissions::ApiPermission;
use crate::permissions::Permissions;

verus! {

/// The canonical bytes of one permission tag: a variant byte followed by
/// the scoping identifier, where the variant carries one.
pub open spec fn perm_bytes(p: ApiPermission) -> Seq<u8> {
    match p {
        ApiPermission::CreateApiUser => seq![0u8],
        ApiPermission::CreateApiUserToken(id) => seq![1u8] + be_bytes_u128(id),
        ApiPermission::CreateApiUserTokenSelf => seq![2u8],
        ApiPermission::CreateApiUserTokenAll => seq![3u8],
        ApiPermission::GetApiUser(id) => seq![4u8] + be_bytes_u128(id),
        ApiPermission::GetApiUserSelf => seq![5u8],
        ApiPermission::GetApiUserAll => seq![6u8],
        ApiPermission::GetRfd(n) => seq![7u8] + be_bytes_u64(n as u64),
        ApiPermission::GetRfdsAssigned => seq![8u8],
        ApiPermission::GetRfdsAll => seq![9u8],
        ApiPermission::SearchRfds => seq![10u8],
    }
}

/// The canonical bytes of a list of permission tags.
pub open spec fn perms_bytes(ps: Seq<ApiPermission>) -> Seq<u8>
    decreases ps.len(),
{
    if ps.len() == 0 {
        Seq::<u8>::empty()
    } else {
        perm_bytes(ps[0]) + perms_bytes(ps.drop_first())
    }
}

/// The canonical signed image of a claims object: audience, validity
/// window, token id, then the held permission tags in their stored order.
pub open spec fn claims_bytes(
    aud: u128,
    exp: i64,
    nbf: i64,
    jti: u128,
    perms: Seq<ApiPermission>,
) -> Seq<u8> {
    be_bytes_u128(aud) + be_bytes_u64(exp as u64) + be_bytes_u64(nbf as u64) + be_bytes_u128(jti)
        + perms_bytes(perms)
}

/// Signed-claims content: audience (the identity), embedded permission
/// set, expiry, not-before, and a unique token id. Immutable once issued.
#[derive(Clone, Debug)]
pub struct Claims {
    pub aud: u128,
    pub prm: Permissions,
    pub exp: i64,
    pub nbf: i64,
    pub jti: u128,
}

impl Claims {
    /// Valid from the not-before mark up to, and not including, expiry.
    pub open spec fn spec_valid_at(&self, now: i64) -> bool {
        self.nbf <= now < self.exp
    }

    /// Checks the validity window against the given instant. Expired or
    /// not-yet-valid claims are rejected, never repaired.
    pub fn validate_at(&self, now: i64) -> (r: bool)
        ensures
            r == self.spec_valid_at(now),
    {
        self.nbf <= now && now < self.exp
    }

    /// Checks the validity window against the clock; an expired or
    /// not-yet-valid claims object is rejected, never repaired. Whatever
    /// instant the clock reports, acceptance means the window is nonempty.
    pub fn validate(&self) -> (r: bool)
        ensures
            r ==> self.nbf < self.exp,
    {
        let now = crate::trusted::now_timestamp();
        self.validate_at(now)
    }

    /// The canonical bytes that the signer signs for these claims.
    pub fn encode(&self) -> (r: Vec<u8>)
        ensures
            r@ == claims_bytes(self.aud, self.exp, self.nbf, self.jti, self.prm.spec_items()),
    {
        let mut out: Vec<u8> = Vec::new();
        push_u128_be(&mut out, self.aud);
        push_u64_be(&mut out, self.exp as u64);
        push_u64_be(&mut out, self.nbf as u64);
        push_u128_be(&mut out, self.jti);
        let ghost head = out@;
        let items = self.prm.inner();
        let mut i: usize = 0;
        while i < items.len()
            invariant
                i <= items.len(),
                out@ == head + perms_bytes(items@.take(i as int)),
                items@ == self.prm.spec_items(),
                head == claims_bytes(self.aud, self.exp, self.nbf, self.jti, Seq::empty()),
            decreases items.len() - i,
        {
            push_perm(&mut out, &items[i]);
            proof {
                lemma_perms_bytes_take(items@, i as int);
            }
            i += 1;
        }
        proof {
            assert(items@.take(items@.len() as int) =~= items@);
            assert(out@ =~= claims_bytes(
                self.aud,
                self.exp,
                self.nbf,
                self.jti,
                self.prm.spec_items(),
            ));
        }
        out
    }
}

/// Splitting the encoded tag list after one more element.
proof fn lemma_perms_bytes_take(ps: Seq<ApiPermission>, i: int)
    requires
        0 <= i < ps.len(),
    ensures
        perms_bytes(ps.take(i + 1)) == perms_bytes(ps.take(i)) + perm_bytes(ps[i]),
    decreases i,
{
    if i == 0 {
        assert(ps.take(1).drop_first() =~= Seq::<ApiPermission>::empty());
        assert(perms_bytes(ps.take(1)) =~= perm_bytes(ps[0]) + perms_bytes(Seq::empty()));
        assert(perm_bytes(ps[0]) + Seq::<u8>::empty() =~= perm_bytes(ps[0]));
        assert(perms_bytes(ps.take(0)) =~= Seq::<u8>::empty());
        assert(Seq::<u8>::empty() + perm_bytes(ps[0]) =~= perm_bytes(ps[0]));
    } else {
        lemma_perms_bytes_take(ps.drop_first(), i - 1);
        assert(ps.take(i + 1).drop_first() =~= ps.drop_first().take(i));
        assert(ps.take(i).drop_first() =~= ps.drop_first().take(i - 1));
        assert(ps.drop_first()[i - 1] == ps[i]);
        assert(perm_bytes(ps.take(i + 1)[0]) + (perms_bytes(ps.drop_first().take(i - 1))
            + perm_bytes(ps[i])) =~= (perm_bytes(ps.take(i)[0]) + perms_bytes(
            ps.drop_first().take(i - 1),
        )) + perm_bytes(ps[i]));
    }
}

/// Appends the big-endian bytes of a 128-bit value.
fn push_u128_be(out: &mut Vec<u8>, v: u128)
    ensures
        final(out)@ == old(out)@ + be_bytes_u128(v),
{
    let mut k: usize = 0;
    while k < 16
        invariant
            k <= 16,
            out@ == old(out)@ + be_bytes_u128(v).take(k as int),
        decreases 16 - k,
    {
        let sh: u128 = ((15 - k) as u128) * 8;
        out.push(#[verifier::truncate] ((v >> sh) as u8));
        proof {
            assert(out@ =~= old(out)@ + be_bytes_u128(v).take(k + 1));
        }
        k += 1;
    }
    proof {
        assert(be_bytes_u128(v).take(16) =~= be_bytes_u128(v));
        assert(final(out)@ =~= old(out)@ + be_bytes_u128(v));
    }
}

/// Appends the big-endian bytes of a 64-bit value.
fn push_u64_be(out: &mut Vec<u8>, v: u64)
    ensures
        final(out)@ == old(out)@ + be_bytes_u64(v),
{
    let mut k: usize = 0;
    while k < 8
        invariant
            k <= 8,
            out@ == old(out)@ + be_bytes_u64(v).take(k as int),
        decreases 8 - k,
    {
        let sh: u64 = ((7 - k) as u64) * 8;
        out.push(#[verifier::truncate] ((v >> sh) as u8));
        proof {
            assert(out@ =~= old(out)@ + be_bytes_u64(v).take(k + 1));
        }
        k += 1;
    }
    proof {
        assert(be_bytes_u64(v).take(8) =~= be_bytes_u64(v));
        assert(final(out)@ =~= old(out)@ + be_bytes_u64(v));
    }
}

/// Appends the canonical bytes of one permission tag.
fn push_perm(out: &mut Vec<u8>, p: &ApiPermission)
    ensures
        final(out)@ == old(out)@ + perm_bytes(*p),
{
    match p {
        ApiPermission::CreateApiUser => {
            out.push(0u8);
        },
        ApiPermission::CreateApiUserToken(id) => {
            out.push(1u8);
            push_u128_be(out, *id);
        },
        ApiPermission::CreateApiUserTokenSelf => {
            out.push(2u8);
        },
        ApiPermission::CreateApiUserTokenAll => {
            out.push(3u8);
        },
        ApiPermission::GetApiUser(id) => {
            out.push(4u8);
            push_u128_be(out, *id);
        },
        ApiPermission::GetApiUserSelf => {
            out.push(5u8);
        },
        ApiPermission::GetApiUserAll => {
            out.push(6u8);
        },
        ApiPermission::GetRfd(n) => {
            out.push(7u8);
            push_u64_be(out, *n as u64);
        },
        ApiPermission::GetRfdsAssigned => {
            out.push(8u8);
        },
        ApiPermission::GetRfdsAll => {
            out.push(9u8);
        },
        ApiPermission::SearchRfds => {
            out.push(10u8);
        },
    }
    proof {
        assert(final(out)@ =~= old(out)@ + perm_bytes(*p));
    }
}

} // verus!
