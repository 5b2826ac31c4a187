//! The remote identity-provider capability: provider descriptors handed to
//! clients, and the extraction of a normalized external identity from a
//! provider's user-info payload.

use vstd::prelude::*;

verus! {

/// Why a provider handle could not be produced.
#[derive(Clone, Copy, Debug, PartialEq, Eq, Structural)]
pub enum OAuthProviderError {
    FailToCreateInvalidProvider,
}

/// Why a user-info payload yielded no external identity.
#[derive(Clone, Copy, Debug, PartialEq, Eq, Structural)]
pub enum UserInfoError {
    Parse,
}

/// The closed set of remote providers this system integrates.
#[derive(Clone, Copy, Debug, PartialEq, Eq, Structural)]
pub enum OAuthProviderName {
    Google,
}

impl OAuthProviderName {
    /// The lowercase wire name of the provider.
    pub open spec fn spec_name_chars(self) -> Seq<char> {
        match self {
            OAuthProviderName::Google => "google"@,
        }
    }

    pub fn name_text(&self) -> (r: String)
        ensures
            r@ == self.spec_name_chars(),
    {
        match self {
            OAuthProviderName::Google => {
                let r = String::from_str("google");
                r
            },
        }
    }
}

/// The provider name as clients select it.
#[derive(Clone, Copy, Debug, PartialEq, Eq, Structural)]
pub struct OAuthProviderNameParam {
    pub provider: OAuthProviderName,
}

/// A provider's stable account id for a principal, qualified by provider.
#[derive(Clone, Debug)]
pub struct ExternalId {
    pub provider: OAuthProviderName,
    pub id: String,
}

impl ExternalId {
    pub fn provider(&self) -> (r: OAuthProviderName)
        ensures
            r == self.provider,
    {
        self.provider
    }

    pub fn id(&self) -> (r: &str)
        ensures
            r@ == self.id@,
    {
        self.id.as_str()
    }
}

/// The normalized external identity a provider round trip yields.
#[derive(Clone, Debug)]
pub struct UserInfo {
    pub external_id: ExternalId,
    pub verified_emails: Vec<String>,
}

/// What this system publishes about one provider so that a client can run
/// the authorization flow against it.
#[derive(Clone, Debug)]
pub struct OAuthProviderInfo {
    pub provider: OAuthProviderName,
    pub client_id: String,
    pub auth_url_endpoint: String,
    pub device_code_endpoint: String,
    pub token_endpoint: String,
    pub scopes: Vec<String>,
}

/// Turns a raw user-info payload into a normalized external identity.
/// What the payload looks like is the provider's business; nothing is
/// promised of the result beyond what each implementation states.
pub trait ExtractUserInfo: Sized {
    fn extract_user_info(&self, data: &str) -> Result<UserInfo, UserInfoError>;
}

/// A remote provider's endpoints and client configuration. Each accessor
/// reports the configured value its implementation names in spec.
pub trait OAuthProvider: ExtractUserInfo {
    spec fn spec_name(&self) -> OAuthProviderName;

    spec fn spec_client_id(&self) -> Seq<char>;

    spec fn spec_client_secret(&self) -> Option<Seq<char>>;

    spec fn spec_user_info_endpoint(&self) -> Seq<char>;

    spec fn spec_device_code_endpoint(&self) -> Seq<char>;

    spec fn spec_auth_url_endpoint(&self) -> Seq<char>;

    spec fn spec_token_exchange_content_type(&self) -> Seq<char>;

    spec fn spec_token_exchange_endpoint(&self) -> Seq<char>;

    spec fn spec_scopes(&self) -> Seq<Seq<char>>;

    fn name(&self) -> (r: OAuthProviderName)
        ensures
            r == self.spec_name(),
    ;

    fn client_id(&self) -> (r: &str)
        ensures
            r@ == self.spec_client_id(),
    ;

    fn client_secret(&self) -> (r: Option<&str>)
        ensures
            r matches Some(s) ==> self.spec_client_secret() == Some(s@),
            (r is Some) == (self.spec_client_secret() is Some),
    ;

    fn user_info_endpoint(&self) -> (r: &str)
        ensures
            r@ == self.spec_user_info_endpoint(),
    ;

    fn device_code_endpoint(&self) -> (r: &str)
        ensures
            r@ == self.spec_device_code_endpoint(),
    ;

    fn auth_url_endpoint(&self) -> (r: &str)
        ensures
            r@ == self.spec_auth_url_endpoint(),
    ;

    fn token_exchange_content_type(&self) -> (r: &str)
        ensures
            r@ == self.spec_token_exchange_content_type(),
    ;

    fn token_exchange_endpoint(&self) -> (r: &str)
        ensures
            r@ == self.spec_token_exchange_endpoint(),
    ;

    fn scopes(&self) -> (r: Vec<String>)
        ensures
            r@.len() == self.spec_scopes().len(),
            forall|i: int| 0 <= i < r@.len() ==> r@[i]@ == self.spec_scopes()[i],
    ;
}

/// The descriptor published for a provider: its own endpoints plus the
/// token-exchange endpoint this system serves for it under `public_url`.
pub fn provider_info<P: OAuthProvider>(provider: &P, public_url: &str) -> (r: OAuthProviderInfo)
    ensures
        r.provider == provider.spec_name(),
        r.client_id@ == provider.spec_client_id(),
        r.auth_url_endpoint@ == provider.spec_auth_url_endpoint(),
        r.device_code_endpoint@ == provider.spec_device_code_endpoint(),
        r.token_endpoint@ == public_url@ + "/login/oauth/"@ + provider.spec_name().spec_name_chars()
            + "/device/exchange"@,
        r.scopes@.len() == provider.spec_scopes().len(),
        forall|i: int| 0 <= i < r.scopes@.len() ==> r.scopes@[i]@ == provider.spec_scopes()[i],
{
    let mut token_endpoint = public_url.to_owned();
    token_endpoint.append("/login/oauth/");
    let name = provider.name().name_text();
    token_endpoint.append(name.as_str());
    token_endpoint.append("/device/exchange");
    OAuthProviderInfo {
        provider: provider.name(),
        client_id: provider.client_id().to_owned(),
        auth_url_endpoint: provider.auth_url_endpoint().to_owned(),
        device_code_endpoint: provider.device_code_endpoint().to_owned(),
        token_endpoint,
        scopes: provider.scopes(),
    }
}

/// A provider configured at process start from plain values. Its user-info
/// payload is expected already normalized to lines: the account id first,
/// one verified email per following line. (A provider whose payload needs a
/// structured decoder is adapted outside the verified core.)
#[derive(Clone, Debug)]
pub struct ConfiguredProvider {
    pub provider: OAuthProviderName,
    pub client_id: String,
    pub client_secret: Option<String>,
    pub user_info_endpoint: String,
    pub device_code_endpoint: String,
    pub auth_url_endpoint: String,
    pub token_exchange_content_type: String,
    pub token_exchange_endpoint: String,
    pub scopes: Vec<String>,
}

impl ExtractUserInfo for ConfiguredProvider {
    fn extract_user_info(&self, data: &str) -> Result<UserInfo, UserInfoError> {
        extract_line_user_info(self.provider, data)
    }
}

/// Characters `c..d` of `s` form one full line: bounded by newlines or
/// the string's ends, with no newline inside.
pub open spec fn line_segment(s: Seq<char>, c: int, d: int) -> bool {
    &&& 0 <= c <= d <= s.len()
    &&& (c == 0 || s[c - 1] == '\n')
    &&& (d == s.len() || s[d] == '\n')
    &&& forall|t: int| c <= t < d ==> s[t] != '\n'
}

/// Reads a line-normalized user-info payload: the first nonempty line is
/// the provider's account id, every later nonempty line one verified
/// email, in order of appearance. A payload holding nothing but newlines
/// is refused.
pub fn extract_line_user_info(provider: OAuthProviderName, data: &str) -> (r: Result<
    UserInfo,
    UserInfoError,
>)
    ensures
        (r is Ok) == exists|t: int| 0 <= t < data@.len() && data@[t] != '\n',
        r matches Err(e) ==> e == UserInfoError::Parse,
        r matches Ok(u) ==> u.external_id.provider == provider,
        r matches Ok(u) ==> exists|a: int, b: int|
            {
                &&& #[trigger] line_segment(data@, a, b)
                &&& a < b
                &&& forall|t: int| 0 <= t < a ==> data@[t] == '\n'
                &&& u.external_id.id@ == data@.subrange(a, b)
            },
        r matches Ok(u) ==> forall|i: int|
            0 <= i < u.verified_emails@.len() ==> exists|c: int, d: int|
                {
                    &&& #[trigger] line_segment(data@, c, d)
                    &&& c < d
                    &&& exists|t: int| 0 <= t < c && data@[t] != '\n'
                    &&& #[trigger] u.verified_emails@[i]@ == data@.subrange(c, d)
                },
{
    let n = data.unicode_len();
    let mut a: usize = 0;
    while a < n && data.get_char(a) == '\n'
        invariant
            n == data@.len(),
            a <= n,
            forall|t: int| 0 <= t < a ==> data@[t] == '\n',
        decreases n - a,
    {
        a += 1;
    }
    if a == n {
        return Err(UserInfoError::Parse);
    }
    let mut b: usize = a;
    while b < n && data.get_char(b) != '\n'
        invariant
            n == data@.len(),
            a <= b <= n,
            a < n,
            data@[a as int] != '\n',
            forall|t: int| a <= t < b ==> data@[t] != '\n',
            forall|t: int| 0 <= t < a ==> data@[t] == '\n',
        decreases n - b,
    {
        b += 1;
    }
    let id = data.substring_char(a, b).to_owned();
    proof {
        assert(line_segment(data@, a as int, b as int));
        assert(id@ =~= data@.subrange(a as int, b as int));
    }
    let mut emails: Vec<String> = Vec::new();
    let ghost mut segs: Seq<(int, int)> = Seq::empty();
    let mut c: usize = b;
    while c < n
        invariant
            n == data@.len(),
            a < n,
            a <= b <= c <= n,
            data@[a as int] != '\n',
            forall|t: int| 0 <= t < a ==> data@[t] == '\n',
            forall|t: int| a <= t < b ==> data@[t] != '\n',
            b == n || data@[b as int] == '\n',
            id@ == data@.subrange(a as int, b as int),
            c < n ==> data@[c as int] == '\n',
            segs.len() == emails@.len(),
            forall|i: int|
                0 <= i < segs.len() ==> {
                    &&& line_segment(data@, (#[trigger] segs[i]).0, segs[i].1)
                    &&& segs[i].0 < segs[i].1
                    &&& b < segs[i].0
                    &&& emails@[i]@ == data@.subrange(segs[i].0, segs[i].1)
                },
        decreases n - c,
    {
        let start = c + 1;
        let mut d = start;
        while d < n && data.get_char(d) != '\n'
            invariant
                n == data@.len(),
                c < n,
                data@[c as int] == '\n',
                start == c + 1,
                start <= d <= n,
                forall|t: int| start <= t < d ==> data@[t] != '\n',
            decreases n - d,
        {
            d += 1;
        }
        if start < d {
            let email = data.substring_char(start, d).to_owned();
            let ghost before = emails@;
            emails.push(email);
            proof {
                segs = segs.push((start as int, d as int));
                assert(line_segment(data@, start as int, d as int));
                assert(emails@.last()@ =~= data@.subrange(start as int, d as int));
                assert forall|i: int|
                    0 <= i < segs.len() implies {
                    &&& line_segment(data@, (#[trigger] segs[i]).0, segs[i].1)
                    &&& segs[i].0 < segs[i].1
                    &&& b < segs[i].0
                    &&& emails@[i]@ == data@.subrange(segs[i].0, segs[i].1)
                } by {
                    if i < before.len() {
                        assert(emails@[i] == before[i]);
                        assert(segs[i] == segs.drop_last()[i]);
                    } else {
                        assert(segs[i] == (start as int, d as int));
                        assert(emails@[i] == emails@.last());
                    }
                }
            }
        }
        proof {
            assert(d == n || data@[d as int] == '\n');
        }
        c = d;
    }
    let u = UserInfo { external_id: ExternalId { provider, id }, verified_emails: emails };
    proof {
        assert(data@[a as int] != '\n');
        assert forall|i: int|
            0 <= i < u.verified_emails@.len() implies exists|cc: int, dd: int|
            {
                &&& #[trigger] line_segment(data@, cc, dd)
                &&& cc < dd
                &&& exists|t: int| 0 <= t < cc && data@[t] != '\n'
                &&& #[trigger] u.verified_emails@[i]@ == data@.subrange(cc, dd)
            } by {
            assert(segs.len() == u.verified_emails@.len());
            assert(0 <= i < segs.len());
            assert(line_segment(data@, (segs[i]).0, segs[i].1));
            assert(segs[i].0 < segs[i].1);
            assert(b < segs[i].0);
            assert(0 <= a < segs[i].0 && data@[a as int] != '\n');
            assert(u.verified_emails@[i]@ == data@.subrange(segs[i].0, segs[i].1));
        }
        assert(line_segment(data@, a as int, b as int));
        assert((a as int) < (b as int));
        assert(u.external_id.id@ == data@.subrange(a as int, b as int));
    }
    Ok(u)
}

impl OAuthProvider for ConfiguredProvider {
    open spec fn spec_name(&self) -> OAuthProviderName {
        self.provider
    }

    open spec fn spec_client_id(&self) -> Seq<char> {
        self.client_id@
    }

    open spec fn spec_client_secret(&self) -> Option<Seq<char>> {
        match self.client_secret {
            Some(s) => Some(s@),
            None => None,
        }
    }

    open spec fn spec_user_info_endpoint(&self) -> Seq<char> {
        self.user_info_endpoint@
    }

    open spec fn spec_device_code_endpoint(&self) -> Seq<char> {
        self.device_code_endpoint@
    }

    open spec fn spec_auth_url_endpoint(&self) -> Seq<char> {
        self.auth_url_endpoint@
    }

    open spec fn spec_token_exchange_content_type(&self) -> Seq<char> {
        self.token_exchange_content_type@
    }

    open spec fn spec_token_exchange_endpoint(&self) -> Seq<char> {
        self.token_exchange_endpoint@
    }

    open spec fn spec_scopes(&self) -> Seq<Seq<char>> {
        Seq::new(self.scopes@.len(), |i: int| self.scopes@[i]@)
    }

    fn name(&self) -> (r: OAuthProviderName) {
        self.provider
    }

    fn client_id(&self) -> (r: &str) {
        self.client_id.as_str()
    }

    fn client_secret(&self) -> (r: Option<&str>) {
        match &self.client_secret {
            Some(s) => Some(s.as_str()),
            None => None,
        }
    }

    fn user_info_endpoint(&self) -> (r: &str) {
        self.user_info_endpoint.as_str()
    }

    fn device_code_endpoint(&self) -> (r: &str) {
        self.device_code_endpoint.as_str()
    }

    fn auth_url_endpoint(&self) -> (r: &str) {
        self.auth_url_endpoint.as_str()
    }

    fn token_exchange_content_type(&self) -> (r: &str) {
        self.token_exchange_content_type.as_str()
    }

    fn token_exchange_endpoint(&self) -> (r: &str) {
        self.token_exchange_endpoint.as_str()
    }

    fn scopes(&self) -> (r: Vec<String>) {
        let mut out: Vec<String> = Vec::new();
        let mut i: usize = 0;
        while i < self.scopes.len()
            invariant
                i <= self.scopes.len(),
                out@.len() == i,
                forall|j: int| 0 <= j < i ==> out@[j]@ == self.scopes@[j]@,
            decreases self.scopes.len() - i,
        {
            out.push(self.scopes[i].clone());
            i += 1;
        }
        out
    }
}

/// A named provider as registered with the running system.
#[derive(Clone, Debug)]
pub struct RegisteredProvider {
    pub name: OAuthProviderName,
    pub provider: ConfiguredProvider,
}

} // verus!
