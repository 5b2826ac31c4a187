//! Mapping rules: configured rules that grant permissions and group
//! memberships to a newly verified external identity, judged against its
//! verified email addresses.

use vstd::prelude::*;

pub mod email_address;

use crate::encoding::str_eq;
use crate::login::UserInfo;
use crate::model::Group;
use crate::permissions::ApiPermission;
use crate::permissions::Permissions;

verus! {

broadcast use vstd::seq_lib::group_seq_properties;

/// One configured rule: what permissions it grants a user, and which of
/// the given groups it places the user in. Each implementation names both
/// judgments in spec.
pub trait MapperRule: Sized {
    spec fn spec_permissions_for(&self, user: UserInfo) -> Set<ApiPermission>;

    spec fn spec_grants_group(&self, user: UserInfo, g: Group) -> bool;

    fn permissions_for(&self, user: &UserInfo) -> (r: Permissions)
        ensures
            r@ == self.spec_permissions_for(*user),
    ;

    fn groups_for(&self, user: &UserInfo, groups: &Vec<Group>) -> (r: Vec<u128>)
        ensures
            r@ == granted_ids(|g: Group| self.spec_grants_group(*user, g), groups@),
    ;
}

/// The ids of the groups, in their given order, that the judgment `grants`
/// accepts.
pub open spec fn granted_ids(grants: spec_fn(Group) -> bool, groups: Seq<Group>) -> Seq<u128>
    decreases groups.len(),
{
    if groups.len() == 0 {
        Seq::<u128>::empty()
    } else {
        let rest = granted_ids(grants, groups.drop_last());
        if grants(groups.last()) {
            rest.push(groups.last().id)
        } else {
            rest
        }
    }
}

/// A user has a verified email ending in `suffix`.
pub open spec fn has_email_with_suffix(user: UserInfo, suffix: Seq<char>) -> bool {
    exists|i: int|
        0 <= i < user.verified_emails@.len() && ends_with(
            #[trigger] user.verified_emails@[i]@,
            suffix,
        )
}

/// A user has `email` among their verified emails.
pub open spec fn has_email(user: UserInfo, email: Seq<char>) -> bool {
    exists|i: int| 0 <= i < user.verified_emails@.len() && #[trigger] user.verified_emails@[i]@ == email
}

/// `s` ends in `suffix`.
pub open spec fn ends_with(s: Seq<char>, suffix: Seq<char>) -> bool {
    s.len() >= suffix.len() && s.skip(s.len() - suffix.len()) == suffix
}

/// Character-for-character suffix test.
pub fn str_ends_with(s: &str, suffix: &str) -> (r: bool)
    ensures
        r == ends_with(s@, suffix@),
{
    let n = s.unicode_len();
    let m = suffix.unicode_len();
    if n < m {
        return false;
    }
    let tail = s.substring_char(n - m, n);
    proof {
        assert(tail@ =~= s@.skip(s@.len() - suffix@.len()));
    }
    str_eq(tail, suffix)
}

/// Grants group membership by email domain: a user with a verified email
/// in the configured domain joins the configured groups. It grants no
/// permissions directly.
#[derive(Clone, Debug)]
pub struct EmailDomainMapper {
    domain: String,
    groups: Vec<String>,
}

impl EmailDomainMapper {
    pub fn new(domain: String, groups: Vec<String>) -> (r: EmailDomainMapper)
        ensures
            r.spec_domain() == domain@,
            r.spec_groups() == groups@,
    {
        EmailDomainMapper { domain, groups }
    }

    pub closed spec fn spec_domain(&self) -> Seq<char> {
        self.domain@
    }

    pub closed spec fn spec_groups(&self) -> Seq<String> {
        self.groups@
    }

    /// The rule names this group.
    pub open spec fn names_group(&self, g: Group) -> bool {
        exists|i: int| 0 <= i < self.spec_groups().len() && #[trigger] self.spec_groups()[i]@ == g.name@
    }

    fn names_group_exec(&self, g: &Group) -> (r: bool)
        ensures
            r == self.names_group(*g),
    {
        let mut i: usize = 0;
        while i < self.groups.len()
            invariant
                i <= self.groups.len(),
                forall|j: int| 0 <= j < i ==> #[trigger] self.spec_groups()[j]@ != g.name@,
            decreases self.groups.len() - i,
        {
            if str_eq(self.groups[i].as_str(), g.name.as_str()) {
                proof {
                    assert(self.spec_groups()[i as int]@ == g.name@);
                }
                return true;
            }
            i += 1;
        }
        false
    }

    fn user_in_domain(&self, user: &UserInfo) -> (r: bool)
        ensures
            r == has_email_with_suffix(*user, self.spec_domain()),
    {
        let mut i: usize = 0;
        while i < user.verified_emails.len()
            invariant
                i <= user.verified_emails.len(),
                forall|j: int|
                    0 <= j < i ==> !ends_with(
                        #[trigger] user.verified_emails@[j]@,
                        self.spec_domain(),
                    ),
            decreases user.verified_emails.len() - i,
        {
            if str_ends_with(user.verified_emails[i].as_str(), self.domain.as_str()) {
                return true;
            }
            i += 1;
        }
        false
    }
}

impl MapperRule for EmailDomainMapper {
    open spec fn spec_permissions_for(&self, user: UserInfo) -> Set<ApiPermission> {
        Set::empty()
    }

    open spec fn spec_grants_group(&self, user: UserInfo, g: Group) -> bool {
        has_email_with_suffix(user, self.spec_domain()) && self.names_group(g)
    }

    fn permissions_for(&self, user: &UserInfo) -> (r: Permissions) {
        let r = Permissions::new();
        proof {
            assert(r@ =~= Set::<ApiPermission>::empty());
        }
        r
    }

    fn groups_for(&self, user: &UserInfo, groups: &Vec<Group>) -> (r: Vec<u128>) {
        let in_domain = self.user_in_domain(user);
        let mut out: Vec<u128> = Vec::new();
        let mut k: usize = 0;
        proof {
            assert(groups@.take(0) =~= Seq::<Group>::empty());
        }
        while k < groups.len()
            invariant
                k <= groups.len(),
                in_domain == has_email_with_suffix(*user, self.spec_domain()),
                out@ == granted_ids(
                    |g: Group| self.spec_grants_group(*user, g),
                    groups@.take(k as int),
                ),
            decreases groups.len() - k,
        {
            proof {
                assert(groups@.take(k + 1).drop_last() =~= groups@.take(k as int));
                assert(groups@.take(k + 1).last() == groups@[k as int]);
            }
            if in_domain && self.names_group_exec(&groups[k]) {
                out.push(groups[k].id);
            }
            k += 1;
        }
        proof {
            assert(groups@.take(groups@.len() as int) =~= groups@);
        }
        out
    }
}

/// The closed set of configured rule forms.
#[derive(Clone, Debug)]
pub enum MapperRules {
    EmailDomain(EmailDomainMapper),
}

impl MapperRule for MapperRules {
    open spec fn spec_permissions_for(&self, user: UserInfo) -> Set<ApiPermission> {
        match self {
            MapperRules::EmailDomain(rule) => rule.spec_permissions_for(user),
        }
    }

    open spec fn spec_grants_group(&self, user: UserInfo, g: Group) -> bool {
        match self {
            MapperRules::EmailDomain(rule) => rule.spec_grants_group(user, g),
        }
    }

    fn permissions_for(&self, user: &UserInfo) -> (r: Permissions) {
        match self {
            MapperRules::EmailDomain(rule) => rule.permissions_for(user),
        }
    }

    fn groups_for(&self, user: &UserInfo, groups: &Vec<Group>) -> (r: Vec<u128>) {
        match self {
            MapperRules::EmailDomain(rule) => {
                let r = rule.groups_for(user, groups);
                proof {
                    let ghost me = *self;
                    lemma_granted_ids_congruence(
                        (|g: Group| rule.spec_grants_group(*user, g)),
                        (|g: Group| me.spec_grants_group(*user, g)),
                        groups@,
                    );
                }
                r
            },
        }
    }
}

/// Two judgments that agree on every group grant the same ids.
proof fn lemma_granted_ids_congruence(
    f: spec_fn(Group) -> bool,
    g: spec_fn(Group) -> bool,
    groups: Seq<Group>,
)
    requires
        forall|x: Group| #[trigger] f(x) == g(x),
    ensures
        granted_ids(f, groups) == granted_ids(g, groups),
    decreases groups.len(),
{
    if groups.len() > 0 {
        lemma_granted_ids_congruence(f, g, groups.drop_last());
    }
}

} // verus!
