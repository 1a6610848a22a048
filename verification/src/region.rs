//! Instance deployment mode and the visibility rules that follow from it.

use vstd::prelude::*;

use crate::text::str_eq;

verus! {

/// Instance deployment mode. Set once at startup via config, not per-request.
#[derive(Debug, Clone, Copy, PartialEq, Eq, Structural)]
pub enum InstanceMode {
    /// China mainland instance — requires phone verification for writes.
    Cn,
    /// International instance — AT Protocol login, no phone requirement.
    Intl,
}

impl InstanceMode {
    pub open spec fn name(self) -> Seq<char> {
        match self {
            InstanceMode::Cn => "cn"@,
            InstanceMode::Intl => "intl"@,
        }
    }

    /// Any text other than `cn` selects the international mode.
    pub open spec fn of_name(s: Seq<char>) -> InstanceMode {
        if s == "cn"@ {
            InstanceMode::Cn
        } else {
            InstanceMode::Intl
        }
    }

    pub fn from_str(s: &str) -> (r: InstanceMode)
        ensures
            r == InstanceMode::of_name(s@),
    {
        if str_eq(s, "cn") {
            InstanceMode::Cn
        } else {
            InstanceMode::Intl
        }
    }

    pub fn as_str(&self) -> (r: &'static str)
        ensures
            r@ == self.name(),
    {
        match self {
            InstanceMode::Cn => "cn",
            InstanceMode::Intl => "intl",
        }
    }

    /// Whether this instance requires phone verification for write operations.
    pub fn requires_phone(&self) -> (r: bool)
        ensures
            r == (*self == InstanceMode::Cn),
    {
        match self {
            InstanceMode::Cn => true,
            InstanceMode::Intl => false,
        }
    }
}

impl Default for InstanceMode {
    fn default() -> (r: InstanceMode)
        ensures
            r == InstanceMode::Intl,
    {
        InstanceMode::Intl
    }
}

/// The visibility a new article of an author gets.
pub open spec fn spec_default_visibility(phone_verified: bool) -> Seq<char> {
    if phone_verified {
        "public"@
    } else {
        "cn_hidden"@
    }
}

/// Default visibility for new articles based on author's phone verification.
/// Verified → `public` (visible everywhere). Unverified → `cn_hidden` (intl only).
pub fn default_visibility(phone_verified: bool) -> (r: &'static str)
    ensures
        r@ == spec_default_visibility(phone_verified),
{
    if phone_verified {
        "public"
    } else {
        "cn_hidden"
    }
}

/// The SQL condition selecting the articles visible on an instance.
pub open spec fn spec_visibility_filter(mode: InstanceMode) -> Seq<char> {
    match mode {
        InstanceMode::Cn => "a.visibility = 'public'"@,
        InstanceMode::Intl => "a.visibility IN ('public', 'cn_hidden')"@,
    }
}

/// SQL WHERE fragment for article visibility on this instance.
///
/// CN: only `public`. Intl: `public` + `cn_hidden`.
pub fn visibility_filter(mode: InstanceMode) -> (r: &'static str)
    ensures
        r@ == spec_visibility_filter(mode),
{
    match mode {
        InstanceMode::Cn => "a.visibility = 'public'",
        InstanceMode::Intl => "a.visibility IN ('public', 'cn_hidden')",
    }
}

/// Reading back the name of a mode gives the mode.
pub proof fn lemma_instance_mode_roundtrip(m: InstanceMode)
    ensures
        InstanceMode::of_name(m.name()) == m,
{
    reveal_strlit("cn");
    reveal_strlit("intl");
    assert("cn"@.len() == 2 && "intl"@.len() == 4);
}

} // verus!
