//! Single sign-on configuration: providers, endpoints and credentials.

use vstd::prelude::*;
use crate::string_map::StringMap;
use crate::text::str_eq;

verus! {

/// The protocol a provider speaks.
#[derive(Clone, Copy, Debug, PartialEq, Eq, Structural)]
pub enum SsoProviderKind {
    /// OpenID Connect.
    Oidc,
    /// SAML 2.0.
    Saml,
}

/// One provider (e.g. `google`, `okta-prod`).
#[derive(Debug)]
pub struct SsoProviderConfig {
    /// Unique id, used in URLs.
    pub id: String,
    /// Name shown on the login page.
    pub display_name: String,
    /// Protocol.
    pub kind: SsoProviderKind,
    /// Client id (OIDC) or entity id (SAML).
    pub client_id: String,
    /// Client secret (OIDC).
    pub client_secret: String,
    /// OIDC discovery URL.
    pub oidc_discovery_url: Option<String>,
    /// OIDC scopes to request.
    pub oidc_scopes: Vec<String>,
    /// SAML identity provider metadata URL.
    pub saml_metadata_url: Option<String>,
    /// SAML identity provider SSO endpoint.
    pub saml_sso_url: Option<String>,
    /// SAML identity provider certificate (PEM).
    pub saml_idp_certificate: Option<String>,
    /// SAML entity id of this service provider.
    pub saml_sp_entity_id: Option<String>,
    /// SAML assertion consumer service URL of this service provider.
    pub saml_sp_acs_url: Option<String>,
    /// Where the user goes after a successful login.
    pub redirect_after_login: String,
    /// Identity-provider claim to Nexora role.
    pub role_mapping: StringMap,
    /// Role when no mapping matches.
    pub default_role: String,
}

fn copy_opt(o: &Option<String>) -> (r: Option<String>)
    ensures
        r == *o,
{
    match o {
        Some(s) => Some(s.clone()),
        None => None,
    }
}

impl SsoProviderConfig {
    /// An independent copy: every field equal, the scopes and the role
    /// mapping holding the same items.
    pub fn duplicate(&self) -> (c: SsoProviderConfig)
        ensures
            c == (SsoProviderConfig { role_mapping: c.role_mapping, oidc_scopes: c.oidc_scopes, ..*self }),
            c.role_mapping@ == self.role_mapping@,
            c.oidc_scopes@ == self.oidc_scopes@,
    {
        SsoProviderConfig {
            id: self.id.clone(),
            display_name: self.display_name.clone(),
            kind: self.kind,
            client_id: self.client_id.clone(),
            client_secret: self.client_secret.clone(),
            oidc_discovery_url: copy_opt(&self.oidc_discovery_url),
            oidc_scopes: crate::text::copy_strings(&self.oidc_scopes),
            saml_metadata_url: copy_opt(&self.saml_metadata_url),
            saml_sso_url: copy_opt(&self.saml_sso_url),
            saml_idp_certificate: copy_opt(&self.saml_idp_certificate),
            saml_sp_entity_id: copy_opt(&self.saml_sp_entity_id),
            saml_sp_acs_url: copy_opt(&self.saml_sp_acs_url),
            redirect_after_login: self.redirect_after_login.clone(),
            role_mapping: self.role_mapping.duplicate(),
            default_role: self.default_role.clone(),
        }
    }
}

/// The scopes requested by default: `openid`, `email`, `profile`.
pub fn default_scopes() -> (v: Vec<String>)
    ensures
        v@.len() == 3,
        v@[0]@ == "openid"@,
        v@[1]@ == "email"@,
        v@[2]@ == "profile"@,
{
    let mut v: Vec<String> = Vec::new();
    v.push("openid".to_owned());
    v.push("email".to_owned());
    v.push("profile".to_owned());
    v
}

/// The role given by default: `viewer`.
pub fn default_role() -> (r: String)
    ensures
        r@ == "viewer"@,
{
    "viewer".to_owned()
}

/// A configured provider under its id.
#[derive(Debug)]
pub struct SsoProvider {
    /// Provider id.
    pub id: String,
    /// Its configuration.
    pub config: SsoProviderConfig,
}

/// Default lifetime of an SSO session: eight hours.
pub const DEFAULT_SESSION_TTL_SECONDS: u64 = 28800;

/// The single sign-on configuration of the platform.
#[derive(Debug)]
pub struct SsoConfig {
    /// The providers.
    pub providers: Vec<SsoProviderConfig>,
    /// How long SSO sessions last, in seconds.
    pub session_ttl_seconds: u64,
}

impl Default for SsoConfig {
    /// No providers; sessions last eight hours.
    fn default() -> (c: SsoConfig)
        ensures
            c.providers@.len() == 0,
            c.session_ttl_seconds == DEFAULT_SESSION_TTL_SECONDS,
    {
        SsoConfig { providers: Vec::new(), session_ttl_seconds: DEFAULT_SESSION_TTL_SECONDS }
    }
}

/// The ids of a list of providers.
pub open spec fn provider_ids(p: Seq<SsoProviderConfig>) -> Seq<Seq<char>> {
    p.map_values(|c: SsoProviderConfig| c.id@)
}

/// The position of the first provider with id `id`.
pub open spec fn first_with_id(p: Seq<SsoProviderConfig>, id: Seq<char>) -> Option<int> {
    if exists|i: int| 0 <= i < p.len() && p[i].id@ == id {
        Some(choose|i: int| 0 <= i < p.len() && p[i].id@ == id && forall|j: int| 0 <= j < i ==> p[j].id@ != id)
    } else {
        None
    }
}

/// The predicate "has an id other than `id`".
pub open spec fn other_id(id: Seq<char>) -> spec_fn(SsoProviderConfig) -> bool {
    |c: SsoProviderConfig| c.id@ != id
}

impl SsoConfig {
    fn position(&self, id: &str) -> (r: Option<usize>)
        ensures
            match r {
                Some(i) => i < self.providers@.len() && self.providers@[i as int].id@ == id@ && forall|j: int|
                    0 <= j < i ==> self.providers@[j].id@ != id@,
                None => forall|j: int| 0 <= j < self.providers@.len() ==> self.providers@[j].id@ != id@,
            },
    {
        let mut i: usize = 0;
        while i < self.providers.len()
            invariant
                i <= self.providers@.len(),
                forall|j: int| 0 <= j < i ==> self.providers@[j].id@ != id@,
            decreases self.providers@.len() - i,
        {
            if str_eq(self.providers[i].id.as_str(), id) {
                return Some(i);
            }
            i = i + 1;
        }
        None
    }

    /// The first provider with this id.
    pub fn find(&self, id: &str) -> (r: Option<&SsoProviderConfig>)
        ensures
            match r {
                Some(p) => exists|i: int|
                    0 <= i < self.providers@.len() && self.providers@[i] == *p && p.id@ == id@ && forall|j: int|
                        0 <= j < i ==> self.providers@[j].id@ != id@,
                None => forall|j: int| 0 <= j < self.providers@.len() ==> self.providers@[j].id@ != id@,
            },
    {
        match self.position(id) {
            Some(i) => Some(&self.providers[i]),
            None => None,
        }
    }

    /// Replace the first provider with the same id, or add the provider
    /// at the end.
    pub fn upsert(&mut self, provider: SsoProviderConfig)
        ensures
            final(self).session_ttl_seconds == old(self).session_ttl_seconds,
            match first_with_id(old(self).providers@, provider.id@) {
                Some(i) => final(self).providers@ == old(self).providers@.update(i, provider),
                None => final(self).providers@ == old(self).providers@.push(provider),
            },
    {
        let ghost pid = provider.id@;
        match self.position(provider.id.as_str()) {
            Some(i) => {
                proof {
                    let f = first_with_id(old(self).providers@, pid);
                    assert(f is Some);
                    let k = f->0;
                    assert(k == i as int) by {
                        if k < i {
                        } else if k > i {
                        }
                    }
                }
                self.providers.set(i, provider);
            },
            None => {
                self.providers.push(provider);
            },
        }
    }

    /// Remove every provider with this id; whether there was one.
    pub fn remove(&mut self, id: &str) -> (removed: bool)
        ensures
            final(self).session_ttl_seconds == old(self).session_ttl_seconds,
            final(self).providers@ == old(self).providers@.filter(other_id(id@)),
            removed == exists|i: int| 0 <= i < old(self).providers@.len() && old(self).providers@[i].id@ == id@,
    {
        let ghost orig = self.providers@;
        let mut kept: Vec<SsoProviderConfig> = Vec::new();
        let mut removed = false;
        let mut rest: Vec<SsoProviderConfig> = Vec::new();
        std::mem::swap(&mut rest, &mut self.providers);
        proof {
            crate::seq_facts::lemma_filter_take_zero(orig, other_id(id@));
            assert(rest@ =~= orig.skip(0));
        }
        let ghost mut i: int = 0;
        while rest.len() > 0
            invariant
                0 <= i <= orig.len(),
                rest@ == orig.skip(i),
                kept@ == orig.take(i).filter(other_id(id@)),
                removed == exists|j: int| 0 <= j < i && orig[j].id@ == id@,
                self.session_ttl_seconds == old(self).session_ttl_seconds,
            decreases rest@.len(),
        {
            let p = rest.remove(0);
            proof {
                assert(p == orig[i]);
                crate::seq_facts::lemma_filter_take_step(orig, other_id(id@), i);
                assert(rest@ =~= orig.skip(i + 1));
            }
            if str_eq(p.id.as_str(), id) {
                removed = true;
            } else {
                kept.push(p);
            }
            proof {
                i = i + 1;
            }
        }
        proof {
            crate::seq_facts::lemma_take_full(orig);
        }
        self.providers = kept;
        removed
    }
}

} // verus!
