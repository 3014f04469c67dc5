//! Audit categories.

use vstd::prelude::*;
use crate::text::str_eq;

verus! {

/// Category of an audited action.
#[derive(Clone, Copy, Debug, PartialEq, Eq, Hash, Structural)]
pub enum AuditCategory {
    /// Authentication (login, logout, token refresh).
    Auth,
    /// User management (create, delete, permission changes).
    UserManagement,
    /// Modules (install, enable, disable).
    Module,
    /// Marketplace (publish, install a package).
    Marketplace,
    /// Billing (invoice, payment, subscription).
    Billing,
    /// Configuration changes.
    Config,
    /// Secrets (create, rotate, delete).
    Secret,
    /// Single sign-on (enable a provider, login).
    Sso,
    /// Notifications (send, disable a channel).
    Notification,
    /// Automation rules (create, edit, delete).
    Rule,
    /// Files and data (read, write, delete).
    Data,
    /// System (boot, shutdown, error).
    System,
    /// Anything else.
    Other,
}

/// The textual name of a category.
pub open spec fn category_name(c: AuditCategory) -> Seq<char> {
    match c {
        AuditCategory::Auth => "auth"@,
        AuditCategory::UserManagement => "user_management"@,
        AuditCategory::Module => "module"@,
        AuditCategory::Marketplace => "marketplace"@,
        AuditCategory::Billing => "billing"@,
        AuditCategory::Config => "config"@,
        AuditCategory::Secret => "secret"@,
        AuditCategory::Sso => "sso"@,
        AuditCategory::Notification => "notification"@,
        AuditCategory::Rule => "rule"@,
        AuditCategory::Data => "data"@,
        AuditCategory::System => "system"@,
        AuditCategory::Other => "other"@,
    }
}

/// The message prefix of the error returned for an unknown category name.
pub open spec fn unknown_category_prefix() -> Seq<char> {
    "فئة تدقيق غير معروفة: "@
}

impl AuditCategory {
    /// Every category, in declaration order.
    pub const ALL: &'static [AuditCategory; 13] = &[
        AuditCategory::Auth,
        AuditCategory::UserManagement,
        AuditCategory::Module,
        AuditCategory::Marketplace,
        AuditCategory::Billing,
        AuditCategory::Config,
        AuditCategory::Secret,
        AuditCategory::Sso,
        AuditCategory::Notification,
        AuditCategory::Rule,
        AuditCategory::Data,
        AuditCategory::System,
        AuditCategory::Other,
    ];

    /// Textual name of the category.
    pub fn as_str(self) -> (s: &'static str)
        ensures
            s@ == category_name(self),
    {
        match self {
            AuditCategory::Auth => "auth",
            AuditCategory::UserManagement => "user_management",
            AuditCategory::Module => "module",
            AuditCategory::Marketplace => "marketplace",
            AuditCategory::Billing => "billing",
            AuditCategory::Config => "config",
            AuditCategory::Secret => "secret",
            AuditCategory::Sso => "sso",
            AuditCategory::Notification => "notification",
            AuditCategory::Rule => "rule",
            AuditCategory::Data => "data",
            AuditCategory::System => "system",
            AuditCategory::Other => "other",
        }
    }

    /// The category name as an owned string (what `Display` prints).
    pub fn to_string(&self) -> (s: String)
        ensures
            s@ == category_name(*self),
    {
        self.as_str().to_owned()
    }

    /// Parse a category from its textual name.
    pub fn parse(s: &str) -> (res: Result<AuditCategory, String>)
        ensures
            match res {
                Ok(c) => category_name(c) == s@,
                Err(e) => (forall|c: AuditCategory| category_name(c) != s@)
                    && e@ == unknown_category_prefix() + s@,
            },
    {
        if str_eq(s, "auth") {
            Ok(AuditCategory::Auth)
        } else if str_eq(s, "user_management") {
            Ok(AuditCategory::UserManagement)
        } else if str_eq(s, "module") {
            Ok(AuditCategory::Module)
        } else if str_eq(s, "marketplace") {
            Ok(AuditCategory::Marketplace)
        } else if str_eq(s, "billing") {
            Ok(AuditCategory::Billing)
        } else if str_eq(s, "config") {
            Ok(AuditCategory::Config)
        } else if str_eq(s, "secret") {
            Ok(AuditCategory::Secret)
        } else if str_eq(s, "sso") {
            Ok(AuditCategory::Sso)
        } else if str_eq(s, "notification") {
            Ok(AuditCategory::Notification)
        } else if str_eq(s, "rule") {
            Ok(AuditCategory::Rule)
        } else if str_eq(s, "data") {
            Ok(AuditCategory::Data)
        } else if str_eq(s, "system") {
            Ok(AuditCategory::System)
        } else if str_eq(s, "other") {
            Ok(AuditCategory::Other)
        } else {
            let msg = "فئة تدقيق غير معروفة: ".to_owned();
            let msg = msg.concat(s);
            Err(msg)
        }
    }
}

impl std::str::FromStr for AuditCategory {
    type Err = String;

    fn from_str(s: &str) -> Result<AuditCategory, String> {
        AuditCategory::parse(s)
    }
}

/// Distinct categories have distinct names, so a name read back by
/// `parse` denotes the category it was printed from.
pub proof fn lemma_category_name_injective(a: AuditCategory, b: AuditCategory)
    requires
        category_name(a) == category_name(b),
    ensures
        a == b,
{
    reveal_strlit("auth");
    reveal_strlit("user_management");
    reveal_strlit("module");
    reveal_strlit("marketplace");
    reveal_strlit("billing");
    reveal_strlit("config");
    reveal_strlit("secret");
    reveal_strlit("sso");
    reveal_strlit("notification");
    reveal_strlit("rule");
    reveal_strlit("data");
    reveal_strlit("system");
    reveal_strlit("other");
    let na = category_name(a);
    let nb = category_name(b);
    assert(na.len() == nb.len());
    assert(na[0] == nb[0]);
    assert(na[1] == nb[1]);
    assert(na[2] == nb[2]);
    match a {
        AuditCategory::Auth => {},
        AuditCategory::UserManagement => {},
        AuditCategory::Module => {},
        AuditCategory::Marketplace => {},
        AuditCategory::Billing => {},
        AuditCategory::Config => {},
        AuditCategory::Secret => {},
        AuditCategory::Sso => {},
        AuditCategory::Notification => {},
        AuditCategory::Rule => {},
        AuditCategory::Data => {},
        AuditCategory::System => {},
        AuditCategory::Other => {},
    }
}

/// Round trip: printing a category and parsing the text gives it back.
pub proof fn lemma_category_roundtrip(c: AuditCategory, s: Seq<char>, parsed: AuditCategory)
    requires
        s == category_name(c),
        category_name(parsed) == s,
    ensures
        parsed == c,
{
    lemma_category_name_injective(parsed, c);
}

} // verus!
