//! A mapping rule keyed on one exact email address: a user presenting that
//! verified address receives the configured permissions and groups.

use vstd::prelude::*;

use crate::encoding::str_eq;
use crate::login::UserInfo;
use crate::mapper::has_email;
use crate::mapper::granted_ids;
use crate::mapper::MapperRule;
use crate::model::Group;
use crate::permissions::ApiPermission;
use crate::permissions::Permissions;

verus! {

broadcast use vstd::seq_lib::group_seq_properties;

/// Grants the configured permissions and groups to the one user holding
/// the configured verified email address.
#[derive(Clone, Debug)]
pub struct EmailDomainMapper {
    email: String,
    permissions: Permissions,
    groups: Vec<String>,
}

impl EmailDomainMapper {
    pub fn new(email: String, permissions: Permissions, groups: Vec<String>) -> (r:
        EmailDomainMapper)
        ensures
            r.spec_email() == email@,
            r.spec_permissions() == permissions@,
            r.spec_groups() == groups@,
    {
        EmailDomainMapper { email, permissions, groups }
    }

    pub closed spec fn spec_email(&self) -> Seq<char> {
        self.email@
    }

    pub closed spec fn spec_permissions(&self) -> Set<ApiPermission> {
        self.permissions@
    }

    pub closed spec fn spec_groups(&self) -> Seq<String> {
        self.groups@
    }

    /// The rule names this group.
    pub open spec fn names_group(&self, g: Group) -> bool {
        exists|i: int| 0 <= i < self.spec_groups().len() && #[trigger] self.spec_groups()[i]@ == g.name@
    }

    fn names_group_exec(&self, g: &Group) -> (r: bool)
        ensures
            r == self.names_group(*g),
    {
        let mut i: usize = 0;
        while i < self.groups.len()
            invariant
                i <= self.groups.len(),
                forall|j: int| 0 <= j < i ==> #[trigger] self.spec_groups()[j]@ != g.name@,
            decreases self.groups.len() - i,
        {
            if str_eq(self.groups[i].as_str(), g.name.as_str()) {
                proof {
                    assert(self.spec_groups()[i as int]@ == g.name@);
                }
                return true;
            }
            i += 1;
        }
        false
    }

    fn user_has_email(&self, user: &UserInfo) -> (r: bool)
        ensures
            r == has_email(*user, self.spec_email()),
    {
        let mut i: usize = 0;
        while i < user.verified_emails.len()
            invariant
                i <= user.verified_emails.len(),
                forall|j: int| 0 <= j < i ==> #[trigger] user.verified_emails@[j]@ != self.spec_email(),
            decreases user.verified_emails.len() - i,
        {
            if str_eq(user.verified_emails[i].as_str(), self.email.as_str()) {
                return true;
            }
            i += 1;
        }
        false
    }
}

impl MapperRule for EmailDomainMapper {
    open spec fn spec_permissions_for(&self, user: UserInfo) -> Set<ApiPermission> {
        if has_email(user, self.spec_email()) {
            self.spec_permissions()
        } else {
            Set::empty()
        }
    }

    open spec fn spec_grants_group(&self, user: UserInfo, g: Group) -> bool {
        has_email(user, self.spec_email()) && self.names_group(g)
    }

    fn permissions_for(&self, user: &UserInfo) -> (r: Permissions) {
        if self.user_has_email(user) {
            self.permissions.duplicate()
        } else {
            let r = Permissions::new();
            proof {
                assert(r@ =~= Set::<ApiPermission>::empty());
            }
            r
        }
    }

    fn groups_for(&self, user: &UserInfo, groups: &Vec<Group>) -> (r: Vec<u128>) {
        let with_email = self.user_has_email(user);
        let mut out: Vec<u128> = Vec::new();
        let mut k: usize = 0;
        proof {
            assert(groups@.take(0) =~= Seq::<Group>::empty());
        }
        while k < groups.len()
            invariant
                k <= groups.len(),
                with_email == has_email(*user, self.spec_email()),
                out@ == granted_ids(
                    |g: Group| self.spec_grants_group(*user, g),
                    groups@.take(k as int),
                ),
            decreases groups.len() - k,
        {
            proof {
                assert(groups@.take(k + 1).drop_last() =~= groups@.take(k as int));
                assert(groups@.take(k + 1).last() == groups@[k as int]);
            }
            if with_email && self.names_group_exec(&groups[k]) {
                out.push(groups[k].id);
            }
            k += 1;
        }
        proof {
            assert(groups@.take(groups@.len() as int) =~= groups@);
        }
        out
    }
}

} // verus!
