//! The permission algebra: a closed vocabulary of capability tags, sets of
//! them with coverage / intersection / expansion semantics, and the caller
//! type that carries an identity's effective permissions.
//!
//! Some variants are globally scoped (`GetRfdsAll`), some are scoped to a
//! single resource (`GetRfd(number)`), and some are identity-relative
//! (`GetApiUserSelf`, `GetRfdsAssigned`). Relative variants are meaningless
//! until expanded against a concrete identity.

use vstd::prelude::*;

use crate::model::ApiUser;
use crate::trusted::i64_to_string;
use crate::encoding::uuid_chars;
use crate::trusted::uuid_to_string;

verus! {

broadcast use vstd::seq_lib::group_seq_properties;

/// The closed vocabulary of capability tags.
#[derive(Clone, Copy, Debug, PartialEq, Eq, Structural)]
pub enum ApiPermission {
    CreateApiUser,
    CreateApiUserToken(u128),
    CreateApiUserTokenSelf,
    CreateApiUserTokenAll,
    GetApiUser(u128),
    GetApiUserSelf,
    GetApiUserAll,
    GetRfd(i32),
    GetRfdsAssigned,
    GetRfdsAll,
    SearchRfds,
}

impl ApiPermission {
    /// A holder of `a` may exercise `b` exactly when the two are the same
    /// tag, or `a` is the global variant of `b`'s action family. A global
    /// variant never stands in for an identity-relative one: relative tags
    /// are matched verbatim until they are expanded.
    pub open spec fn spec_subsumes(a: ApiPermission, b: ApiPermission) -> bool {
        a == b || (a == ApiPermission::CreateApiUserTokenAll
            && b matches ApiPermission::CreateApiUserToken(_)) || (a == ApiPermission::GetApiUserAll
            && b matches ApiPermission::GetApiUser(_)) || (a == ApiPermission::GetRfdsAll
            && b matches ApiPermission::GetRfd(_))
    }

    /// True unless the tag is identity-relative.
    pub open spec fn spec_is_concrete(p: ApiPermission) -> bool {
        !(p == ApiPermission::CreateApiUserTokenSelf || p == ApiPermission::GetApiUserSelf
            || p == ApiPermission::GetRfdsAssigned)
    }

    pub fn subsumes(&self, other: &ApiPermission) -> (r: bool)
        ensures
            r == Self::spec_subsumes(*self, *other),
    {
        *self == *other || (*self == ApiPermission::CreateApiUserTokenAll && matches!(
            other,
            ApiPermission::CreateApiUserToken(_),
        )) || (*self == ApiPermission::GetApiUserAll && matches!(
            other,
            ApiPermission::GetApiUser(_),
        )) || (*self == ApiPermission::GetRfdsAll && matches!(other, ApiPermission::GetRfd(_)))
    }

    pub fn is_concrete(&self) -> (r: bool)
        ensures
            r == Self::spec_is_concrete(*self),
    {
        !matches!(
            self,
            ApiPermission::CreateApiUserTokenSelf | ApiPermission::GetApiUserSelf
                | ApiPermission::GetRfdsAssigned,
        )
    }

    /// The wire label of a tag: the action family in kebab case, with the
    /// scoping identifier, where the tag carries one, after a colon.
    pub open spec fn spec_display(p: ApiPermission) -> Seq<char> {
        match p {
            ApiPermission::CreateApiUser => "create-user"@,
            ApiPermission::CreateApiUserToken(id) => "create-token:"@ + uuid_chars(id),
            ApiPermission::CreateApiUserTokenSelf => "create-token-self"@,
            ApiPermission::CreateApiUserTokenAll => "create-token-all"@,
            ApiPermission::GetApiUser(id) => "get-user:"@ + uuid_chars(id),
            ApiPermission::GetApiUserSelf => "get-user-self"@,
            ApiPermission::GetApiUserAll => "get-user-all"@,
            ApiPermission::GetRfd(n) => "get-rfd:"@ + crate::encoding::dec_of_int(n as int),
            ApiPermission::GetRfdsAssigned => "get-rfds-assigned"@,
            ApiPermission::GetRfdsAll => "get-rfds-all"@,
            ApiPermission::SearchRfds => "search-rfds"@,
        }
    }

    /// The wire label of this tag.
    pub fn to_display_string(&self) -> (r: String)
        ensures
            r@ == Self::spec_display(*self),
    {
        match self {
            ApiPermission::CreateApiUser => String::from_str("create-user"),
            ApiPermission::CreateApiUserToken(id) => {
                let mut out = String::from_str("create-token:");
                let text = uuid_to_string(*id);
                out.append(text.as_str());
                out
            },
            ApiPermission::CreateApiUserTokenSelf => String::from_str("create-token-self"),
            ApiPermission::CreateApiUserTokenAll => String::from_str("create-token-all"),
            ApiPermission::GetApiUser(id) => {
                let mut out = String::from_str("get-user:");
                let text = uuid_to_string(*id);
                out.append(text.as_str());
                out
            },
            ApiPermission::GetApiUserSelf => String::from_str("get-user-self"),
            ApiPermission::GetApiUserAll => String::from_str("get-user-all"),
            ApiPermission::GetRfd(n) => {
                let mut out = String::from_str("get-rfd:");
                let text = i64_to_string(*n as i64);
                out.append(text.as_str());
                out
            },
            ApiPermission::GetRfdsAssigned => String::from_str("get-rfds-assigned"),
            ApiPermission::GetRfdsAll => String::from_str("get-rfds-all"),
            ApiPermission::SearchRfds => String::from_str("search-rfds"),
        }
    }

    /// Subsumption is transitive: the only non-reflexive step is from a
    /// global tag to a scoped tag of its family, and a scoped tag subsumes
    /// nothing but itself.
    pub proof fn lemma_subsumes_transitive(a: ApiPermission, b: ApiPermission, c: ApiPermission)
        requires
            Self::spec_subsumes(a, b),
            Self::spec_subsumes(b, c),
        ensures
            Self::spec_subsumes(a, c),
    {
    }
}

/// `p` may be exercised by a holder of the set `s`.
pub open spec fn covered_by(s: Set<ApiPermission>, p: ApiPermission) -> bool {
    exists|q: ApiPermission| s.contains(q) && ApiPermission::spec_subsumes(q, p)
}

/// Every tag of `s` is concrete (no identity-relative variants remain).
pub open spec fn all_concrete(s: Set<ApiPermission>) -> bool {
    forall|p: ApiPermission| s.contains(p) ==> ApiPermission::spec_is_concrete(p)
}

/// The narrowest set covering exactly what both operands cover: each
/// operand's tags that the other still covers. Global meets global on the
/// same family as the global; global meets scoped as the scoped tag; two
/// different scoped tags of one family meet as nothing.
pub open spec fn intersection_of(a: Set<ApiPermission>, b: Set<ApiPermission>) -> Set<
    ApiPermission,
> {
    Set::new(
        |p: ApiPermission|
            (a.contains(p) && covered_by(b, p)) || (b.contains(p) && covered_by(a, p)),
    )
}

/// The expansion of `s` against an identity: concrete tags are kept, the
/// self-relative tags become the tags scoped to `id`, and `GetRfdsAssigned`
/// becomes the concrete rfd grants found in `grants` (the identity's own
/// ceiling set, its assignment records).
pub open spec fn expansion_of(s: Set<ApiPermission>, id: u128, grants: Set<ApiPermission>) -> Set<
    ApiPermission,
> {
    Set::new(
        |q: ApiPermission|
            (s.contains(q) && ApiPermission::spec_is_concrete(q)) || (s.contains(
                ApiPermission::CreateApiUserTokenSelf,
            ) && q == ApiPermission::CreateApiUserToken(id)) || (s.contains(
                ApiPermission::GetApiUserSelf,
            ) && q == ApiPermission::GetApiUser(id)) || (s.contains(ApiPermission::GetRfdsAssigned)
                && (q matches ApiPermission::GetRfd(_)) && grants.contains(q)),
    )
}

/// An unordered collection of permissions with set semantics: duplicates
/// collapse, and all contracts speak of the set of tags held.
#[derive(Clone, Debug)]
pub struct Permissions {
    items: Vec<ApiPermission>,
}

impl View for Permissions {
    type V = Set<ApiPermission>;

    closed spec fn view(&self) -> Set<ApiPermission> {
        self.items@.to_set()
    }
}

impl Permissions {
    pub fn new() -> (r: Permissions)
        ensures
            r@ == Set::<ApiPermission>::empty(),
    {
        let r = Permissions { items: Vec::new() };
        proof {
            assert(r@ =~= Set::<ApiPermission>::empty());
        }
        r
    }

    /// The stored order of the tags held; the view collapses it to a set.
    pub closed spec fn spec_items(&self) -> Seq<ApiPermission> {
        self.items@
    }

    /// The held tags in storage order.
    pub fn inner(&self) -> (r: &Vec<ApiPermission>)
        ensures
            r@ == self.spec_items(),
    {
        &self.items
    }

    /// The elements of the stored order are exactly the set held.
    pub proof fn lemma_items_view(&self)
        ensures
            self.spec_items().to_set() == self@,
    {
    }

    /// An owned copy holding the same tags in the same stored order.
    pub fn duplicate(&self) -> (r: Permissions)
        ensures
            r@ == self@,
            r.spec_items() == self.spec_items(),
    {
        let mut items: Vec<ApiPermission> = Vec::new();
        let mut i: usize = 0;
        while i < self.items.len()
            invariant
                i <= self.items.len(),
                items@ == self.items@.take(i as int),
            decreases self.items.len() - i,
        {
            items.push(self.items[i]);
            proof {
                assert(items@ =~= self.items@.take(i + 1));
            }
            i += 1;
        }
        proof {
            assert(items@ =~= self.items@);
        }
        Permissions { items }
    }

    /// The set built from the listed tags; duplicates collapse.
    pub fn from_vec(items: Vec<ApiPermission>) -> (r: Permissions)
        ensures
            r@ == items@.to_set(),
    {
        Permissions { items }
    }

    pub fn insert(&mut self, p: ApiPermission)
        ensures
            final(self)@ == old(self)@.insert(p),
    {
        let already = self.can_exact(&p);
        if !already {
            self.items.push(p);
        }
        proof {
            assert(final(self)@ =~= old(self)@.insert(p));
        }
    }

    /// Verbatim membership, without subsumption.
    fn can_exact(&self, p: &ApiPermission) -> (r: bool)
        ensures
            r == self@.contains(*p),
    {
        let mut i: usize = 0;
        while i < self.items.len()
            invariant
                i <= self.items.len(),
                forall|j: int| 0 <= j < i ==> self.items@[j] != *p,
            decreases self.items.len() - i,
        {
            if self.items[i] == *p {
                assert(self.items@.contains(*p));
                return true;
            }
            i += 1;
        }
        assert(!self.items@.contains(*p));
        false
    }

    /// True when `p` is present verbatim or subsumed by a broader tag held.
    pub fn can(&self, p: &ApiPermission) -> (r: bool)
        ensures
            r == covered_by(self@, *p),
    {
        let mut i: usize = 0;
        while i < self.items.len()
            invariant
                i <= self.items.len(),
                forall|j: int|
                    0 <= j < i ==> !ApiPermission::spec_subsumes(self.items@[j], *p),
            decreases self.items.len() - i,
        {
            if self.items[i].subsumes(p) {
                assert(self.items@.contains(self.items@[i as int]));
                return true;
            }
            i += 1;
        }
        assert forall|q: ApiPermission| self@.contains(q) implies !ApiPermission::spec_subsumes(
            q,
            *p,
        ) by {
            let j = choose|j: int| 0 <= j < self.items@.len() && self.items@[j] == q;
        }
        false
    }

    /// Every tag held is concrete.
    pub fn is_all_concrete(&self) -> (r: bool)
        ensures
            r == all_concrete(self@),
    {
        let mut i: usize = 0;
        while i < self.items.len()
            invariant
                i <= self.items.len(),
                forall|j: int| 0 <= j < i ==> ApiPermission::spec_is_concrete(self.items@[j]),
            decreases self.items.len() - i,
        {
            if !self.items[i].is_concrete() {
                assert(self.items@.contains(self.items@[i as int]));
                return false;
            }
            i += 1;
        }
        assert forall|p: ApiPermission| self@.contains(p) implies ApiPermission::spec_is_concrete(
            p,
        ) by {
            let j = choose|j: int| 0 <= j < self.items@.len() && self.items@[j] == p;
        }
        true
    }

    /// The set holds no tag at all.
    pub fn is_empty(&self) -> (r: bool)
        ensures
            r == (self@ == Set::<ApiPermission>::empty()),
    {
        if self.items.len() == 0 {
            proof {
                assert(self@ =~= Set::<ApiPermission>::empty());
            }
            true
        } else {
            proof {
                assert(self@.contains(self.items@[0]));
            }
            false
        }
    }

    /// The intersection per the algebra: keeps, from each operand, the tags
    /// the other operand still covers.
    pub fn intersect(&self, other: &Permissions) -> (r: Permissions)
        ensures
            r@ == intersection_of(self@, other@),
    {
        let mut out: Vec<ApiPermission> = Vec::new();
        let mut i: usize = 0;
        while i < self.items.len()
            invariant
                i <= self.items.len(),
                forall|q: ApiPermission|
                    out@.contains(q) ==> (self@.contains(q) && covered_by(other@, q)),
                forall|j: int|
                    0 <= j < i && covered_by(other@, self.items@[j]) ==> out@.contains(
                        self.items@[j],
                    ),
            decreases self.items.len() - i,
        {
            if other.can(&self.items[i]) {
                assert(self.items@.contains(self.items@[i as int]));
                out.push(self.items[i]);
            }
            i += 1;
        }
        let mut k: usize = 0;
        while k < other.items.len()
            invariant
                k <= other.items.len(),
                forall|q: ApiPermission|
                    out@.contains(q) ==> ((self@.contains(q) && covered_by(other@, q)) || (
                    other@.contains(q) && covered_by(self@, q))),
                forall|j: int|
                    0 <= j < self.items@.len() && covered_by(other@, self.items@[j])
                        ==> out@.contains(self.items@[j]),
                forall|j: int|
                    0 <= j < k && covered_by(self@, other.items@[j]) ==> out@.contains(
                        other.items@[j],
                    ),
            decreases other.items.len() - k,
        {
            if self.can(&other.items[k]) {
                assert(other.items@.contains(other.items@[k as int]));
                out.push(other.items[k]);
            }
            k += 1;
        }
        let r = Permissions { items: out };
        proof {
            assert forall|q: ApiPermission| r@.contains(q) implies intersection_of(
                self@,
                other@,
            ).contains(q) by {}
            assert forall|q: ApiPermission| intersection_of(self@, other@).contains(q) implies
                r@.contains(q) by {
                if self@.contains(q) && covered_by(other@, q) {
                    let j = choose|j: int|
                        0 <= j < self.items@.len() && self.items@[j] == q;
                } else {
                    let j = choose|j: int|
                        0 <= j < other.items@.len() && other.items@[j] == q;
                }
            }
            assert(r@ =~= intersection_of(self@, other@));
        }
        r
    }

    /// Replaces every identity-relative tag with the concrete tags it
    /// resolves to against `user`, leaving concrete tags unchanged.
    pub fn expand(&self, user: &ApiUser) -> (r: Permissions)
        ensures
            r@ == expansion_of(self@, user.id, user.permissions@),
    {
        let ghost s = self@;
        let ghost grants = user.permissions@;
        let mut out: Vec<ApiPermission> = Vec::new();
        let mut i: usize = 0;
        while i < self.items.len()
            invariant
                i <= self.items.len(),
                s == self@,
                grants == user.permissions@,
                forall|q: ApiPermission|
                    out@.contains(q) ==> expansion_of(s, user.id, grants).contains(q),
                forall|j: int|
                    0 <= j < i && ApiPermission::spec_is_concrete(self.items@[j])
                        ==> out@.contains(self.items@[j]),
                (exists|j: int|
                    0 <= j < i && self.items@[j]
                        == ApiPermission::CreateApiUserTokenSelf) ==> out@.contains(
                    ApiPermission::CreateApiUserToken(user.id),
                ),
                (exists|j: int|
                    0 <= j < i && self.items@[j] == ApiPermission::GetApiUserSelf)
                    ==> out@.contains(ApiPermission::GetApiUser(user.id)),
                (exists|j: int|
                    0 <= j < i && self.items@[j] == ApiPermission::GetRfdsAssigned) ==> forall|
                    q: ApiPermission,
                |
                    (grants.contains(q) && (q matches ApiPermission::GetRfd(_))) ==> out@.contains(q),
            decreases self.items.len() - i,
        {
            let p = self.items[i];
            assert(self.items@.contains(self.items@[i as int]));
            match p {
                ApiPermission::CreateApiUserTokenSelf => {
                    out.push(ApiPermission::CreateApiUserToken(user.id));
                },
                ApiPermission::GetApiUserSelf => {
                    out.push(ApiPermission::GetApiUser(user.id));
                },
                ApiPermission::GetRfdsAssigned => {
                    let mut g: usize = 0;
                    while g < user.permissions.items.len()
                        invariant
                            g <= user.permissions.items.len(),
                            grants == user.permissions@,
                            s.contains(ApiPermission::GetRfdsAssigned),
                            forall|q: ApiPermission|
                                out@.contains(q) ==> expansion_of(s, user.id, grants).contains(q),
                            forall|j: int|
                                0 <= j < i && ApiPermission::spec_is_concrete(self.items@[j])
                                    ==> out@.contains(self.items@[j]),
                            (exists|j: int|
                                0 <= j < i && self.items@[j]
                                    == ApiPermission::CreateApiUserTokenSelf) ==> out@.contains(
                                ApiPermission::CreateApiUserToken(user.id),
                            ),
                            (exists|j: int|
                                0 <= j < i && self.items@[j] == ApiPermission::GetApiUserSelf)
                                ==> out@.contains(ApiPermission::GetApiUser(user.id)),
                            forall|h: int|
                                (0 <= h < g && (user.permissions.items@[h] matches
                                    ApiPermission::GetRfd(_))) ==> out@.contains(
                                    user.permissions.items@[h],
                                ),
                        decreases user.permissions.items.len() - g,
                    {
                        let q = user.permissions.items[g];
                        assert(user.permissions.items@.contains(
                            user.permissions.items@[g as int],
                        ));
                        if matches!(q, ApiPermission::GetRfd(_)) {
                            out.push(q);
                        }
                        g += 1;
                    }
                    proof {
                        assert forall|q: ApiPermission|
                            grants.contains(q) && q matches ApiPermission::GetRfd(_) implies
                            out@.contains(q) by {
                            let h = choose|h: int|
                                0 <= h < user.permissions.items@.len()
                                    && user.permissions.items@[h] == q;
                        }
                    }
                },
                _ => {
                    out.push(p);
                },
            }
            i += 1;
        }
        let r = Permissions { items: out };
        proof {
            assert forall|q: ApiPermission| expansion_of(s, user.id, grants).contains(q) implies
                r@.contains(q) by {
                if s.contains(q) && ApiPermission::spec_is_concrete(q) {
                    let j = choose|j: int|
                        0 <= j < self.items@.len() && self.items@[j] == q;
                } else if s.contains(ApiPermission::CreateApiUserTokenSelf) && q
                    == ApiPermission::CreateApiUserToken(user.id) {
                    let j = choose|j: int|
                        0 <= j < self.items@.len() && self.items@[j]
                            == ApiPermission::CreateApiUserTokenSelf;
                } else if s.contains(ApiPermission::GetApiUserSelf) && q
                    == ApiPermission::GetApiUser(user.id) {
                    let j = choose|j: int|
                        0 <= j < self.items@.len() && self.items@[j]
                            == ApiPermission::GetApiUserSelf;
                } else {
                    let j = choose|j: int|
                        0 <= j < self.items@.len() && self.items@[j]
                            == ApiPermission::GetRfdsAssigned;
                }
            }
            assert(r@ =~= expansion_of(s, user.id, grants));
        }
        r
    }

    /// The rfd numbers the set grants directly, one per `GetRfd` tag held.
    pub fn allowed_rfds(&self) -> (r: Vec<i32>)
        ensures
            forall|j: int| 0 <= j < r@.len() ==> self@.contains(ApiPermission::GetRfd(r@[j])),
            forall|n: i32| self@.contains(ApiPermission::GetRfd(n)) ==> r@.contains(n),
    {
        let mut r: Vec<i32> = Vec::new();
        let mut i: usize = 0;
        while i < self.items.len()
            invariant
                i <= self.items.len(),
                forall|j: int|
                    0 <= j < r@.len() ==> self@.contains(ApiPermission::GetRfd(r@[j])),
                forall|j: int|
                    0 <= j < i ==> (#[trigger] self.items@[j] matches ApiPermission::GetRfd(n)
                        ==> r@.contains(n)),
            decreases self.items.len() - i,
        {
            assert(self.items@.contains(self.items@[i as int]));
            match self.items[i] {
                ApiPermission::GetRfd(n) => {
                    r.push(n);
                },
                _ => {},
            }
            i += 1;
        }
        proof {
            assert forall|n: i32| self@.contains(ApiPermission::GetRfd(n)) implies r@.contains(
                n,
            ) by {
                let j = choose|j: int|
                    0 <= j < self.items@.len() && self.items@[j] == ApiPermission::GetRfd(n);
            }
        }
        r
    }
}

/// The resolved, authorized actor for one request.
#[derive(Clone, Debug)]
pub struct Caller {
    pub id: u128,
    pub permissions: Permissions,
}

impl Caller {
    pub fn can(&self, p: &ApiPermission) -> (r: bool)
        ensures
            r == covered_by(self.permissions@, *p),
    {
        self.permissions.can(p)
    }

    pub fn allow_rfds(&self) -> (r: Vec<i32>)
        ensures
            forall|j: int|
                0 <= j < r@.len() ==> self.permissions@.contains(ApiPermission::GetRfd(r@[j])),
            forall|n: i32| self.permissions@.contains(ApiPermission::GetRfd(n)) ==> r@.contains(n),
    {
        self.permissions.allowed_rfds()
    }
}

/// Coverage on an intersection agrees with coverage on both operands: for
/// every permission `p`, `(a ∩ b)` covers `p` exactly when `a` covers `p`
/// and `b` covers `p`.
pub proof fn lemma_intersect_covers(a: Set<ApiPermission>, b: Set<ApiPermission>, p: ApiPermission)
    ensures
        covered_by(intersection_of(a, b), p) == (covered_by(a, p) && covered_by(b, p)),
{
    if covered_by(intersection_of(a, b), p) {
        let r = choose|r: ApiPermission|
            intersection_of(a, b).contains(r) && ApiPermission::spec_subsumes(r, p);
        if a.contains(r) && covered_by(b, r) {
            let y = choose|y: ApiPermission| b.contains(y) && ApiPermission::spec_subsumes(y, r);
            ApiPermission::lemma_subsumes_transitive(y, r, p);
        } else {
            let y = choose|y: ApiPermission| a.contains(y) && ApiPermission::spec_subsumes(y, r);
            ApiPermission::lemma_subsumes_transitive(y, r, p);
        }
    }
    if covered_by(a, p) && covered_by(b, p) {
        let x = choose|x: ApiPermission| a.contains(x) && ApiPermission::spec_subsumes(x, p);
        let y = choose|y: ApiPermission| b.contains(y) && ApiPermission::spec_subsumes(y, p);
        if x == p {
            assert(covered_by(b, x));
            assert(intersection_of(a, b).contains(x));
        } else if y == p {
            assert(covered_by(a, y));
            assert(intersection_of(a, b).contains(y));
        } else {
            assert(x == y);
            assert(covered_by(b, x));
            assert(intersection_of(a, b).contains(x));
        }
    }
}

/// Intersection is commutative: `a ∩ b == b ∩ a`.
pub proof fn lemma_intersect_commutative(a: Set<ApiPermission>, b: Set<ApiPermission>)
    ensures
        intersection_of(a, b) == intersection_of(b, a),
{
    assert(intersection_of(a, b) =~= intersection_of(b, a));
}

/// Intersection is idempotent: `a ∩ a == a`.
pub proof fn lemma_intersect_idempotent(a: Set<ApiPermission>)
    ensures
        intersection_of(a, a) == a,
{
    assert forall|p: ApiPermission| a.contains(p) implies intersection_of(a, a).contains(p) by {
        assert(ApiPermission::spec_subsumes(p, p));
    }
    assert(intersection_of(a, a) =~= a);
}

/// Expansion is idempotent: expanding an already-expanded set against the
/// same identity changes nothing, since expansion leaves only concrete tags.
pub proof fn lemma_expand_idempotent(s: Set<ApiPermission>, id: u128, grants: Set<ApiPermission>)
    ensures
        expansion_of(expansion_of(s, id, grants), id, grants) == expansion_of(s, id, grants),
{
    assert(expansion_of(expansion_of(s, id, grants), id, grants) =~= expansion_of(s, id, grants));
}

} // verus!
