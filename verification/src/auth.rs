//! The authenticated caller and the limits of its plan.

use vstd::prelude::*;
use vstd::hash_map::StringHashMap;
use vstd::string::StringExecFns;
use crate::text::{opt_chars, starts_with, str_eq, strip_prefix};

verus! {

/// Authenticated user context attached to every request.
pub struct ClannAuth {
    /// The user's id (token subject); empty when authentication is disabled.
    pub user_id: String,
    /// Login username; empty for tokens that predate the claim.
    pub username: String,
    /// Plan tier: "individual", "family", "professional", "enterprise".
    pub tier: String,
    /// Team memberships: team id -> positional role ("owner"|"leader"|"member").
    pub teams: StringHashMap<String>,
    /// Clann product roles: team id -> "owner"|"member".
    pub clann_roles: StringHashMap<String>,
}

/// Maximum number of family trees of a tier; `None` is unlimited.
pub open spec fn spec_tree_limit(tier: Seq<char>) -> Option<usize> {
    if tier == "professional"@ || tier == "enterprise"@ {
        None
    } else if tier == "family"@ {
        Some(10)
    } else {
        Some(2)
    }
}

/// Maximum number of persons of a tier; `None` is unlimited.
pub open spec fn spec_member_limit(tier: Seq<char>) -> Option<usize> {
    if tier == "professional"@ || tier == "enterprise"@ {
        None
    } else if tier == "family"@ {
        Some(1000)
    } else {
        Some(100)
    }
}

/// Maximum media storage in bytes of a tier; `None` is unlimited.
pub open spec fn spec_storage_limit(tier: Seq<char>) -> Option<i64> {
    if tier == "enterprise"@ {
        None
    } else if tier == "professional"@ {
        Some(53687091200i64)
    } else if tier == "family"@ {
        Some(5368709120i64)
    } else {
        Some(104857600i64)
    }
}

/// Whether a MIME type may be uploaded as life-story media on a tier:
/// images only, except that professional and enterprise plans also take
/// video, audio and PDF.
pub open spec fn spec_life_media_allowed(tier: Seq<char>, mime: Seq<char>) -> bool {
    if tier == "professional"@ || tier == "enterprise"@ {
        "image/"@.is_prefix_of(mime) || "video/"@.is_prefix_of(mime) || "audio/"@.is_prefix_of(mime)
            || mime == "application/pdf"@
    } else {
        "image/"@.is_prefix_of(mime)
    }
}

/// The tier granted by a subscription claim `(tier, status)`: a missing or
/// inactive subscription (status neither "active" nor "trialing") is the
/// individual tier.
pub open spec fn spec_tier_for(subscription: Option<(Seq<char>, Seq<char>)>) -> Seq<char> {
    match subscription {
        None => "individual"@,
        Some((tier, status)) => if status != "active"@ && status != "trialing"@ {
            "individual"@
        } else {
            tier
        },
    }
}

/// Team claims `(team id, role, clann role)` as a map team id -> role.
pub open spec fn spec_team_roles(teams: Seq<(Seq<char>, Seq<char>, Option<Seq<char>>)>) -> Map<Seq<char>, Seq<char>>
    decreases teams.len(),
{
    if teams.len() == 0 {
        Map::empty()
    } else {
        let t = teams.last();
        spec_team_roles(teams.drop_last()).insert(t.0, t.1)
    }
}

/// Team claims as a map team id -> Clann product role, for teams that have one.
pub open spec fn spec_clann_roles(teams: Seq<(Seq<char>, Seq<char>, Option<Seq<char>>)>) -> Map<Seq<char>, Seq<char>>
    decreases teams.len(),
{
    if teams.len() == 0 {
        Map::empty()
    } else {
        let t = teams.last();
        let prev = spec_clann_roles(teams.drop_last());
        match t.2 {
            Some(r) => prev.insert(t.0, r),
            None => prev,
        }
    }
}

pub open spec fn team_claim_model(t: (String, String, Option<String>)) -> (Seq<char>, Seq<char>, Option<Seq<char>>) {
    (t.0@, t.1@, opt_chars(t.2))
}

/// Values of a map of strings, by their characters.
pub open spec fn string_map_view(m: Map<Seq<char>, String>) -> Map<Seq<char>, Seq<char>> {
    m.map_values(|v: String| v@)
}

impl ClannAuth {
    /// The caller's Clann product role in the given team, if any.
    pub fn clann_role_for_team(&self, team_id: &str) -> (r: Option<&str>)
        ensures
            match r {
                Some(role) => self.clann_roles@.contains_key(team_id@) && role@ == self.clann_roles@[team_id@]@,
                None => !self.clann_roles@.contains_key(team_id@),
            },
    {
        match self.clann_roles.get(team_id) {
            Some(role) => Some(role.as_str()),
            None => None,
        }
    }

    /// Whether the caller has any form of Clann access in the given team.
    pub fn has_clann_access_for_team(&self, team_id: &str) -> (r: bool)
        ensures
            r == self.teams@.contains_key(team_id@),
    {
        self.teams.contains_key(team_id)
    }

    /// Whether the tier is professional or enterprise.
    fn is_unlimited_tier(&self) -> (r: bool)
        ensures
            r == (self.tier@ == "professional"@ || self.tier@ == "enterprise"@),
    {
        str_eq(self.tier.as_str(), "professional") || str_eq(self.tier.as_str(), "enterprise")
    }

    /// Maximum number of family trees for this plan. `None` = unlimited.
    pub fn tree_limit(&self) -> (r: Option<usize>)
        ensures
            r == spec_tree_limit(self.tier@),
    {
        if self.is_unlimited_tier() {
            None
        } else if str_eq(self.tier.as_str(), "family") {
            Some(10)
        } else {
            Some(2)
        }
    }

    /// Maximum total number of persons for this plan. `None` = unlimited.
    pub fn member_limit(&self) -> (r: Option<usize>)
        ensures
            r == spec_member_limit(self.tier@),
    {
        if self.is_unlimited_tier() {
            None
        } else if str_eq(self.tier.as_str(), "family") {
            Some(1000)
        } else {
            Some(100)
        }
    }

    /// Maximum total media storage in bytes for this plan. `None` = unlimited.
    pub fn storage_limit_bytes(&self) -> (r: Option<i64>)
        ensures
            r == spec_storage_limit(self.tier@),
    {
        if str_eq(self.tier.as_str(), "enterprise") {
            None
        } else if str_eq(self.tier.as_str(), "professional") {
            Some(53687091200i64)
        } else if str_eq(self.tier.as_str(), "family") {
            Some(5368709120i64)
        } else {
            Some(104857600i64)
        }
    }

    /// Whether the given MIME type is allowed for life-story media uploads.
    pub fn life_media_type_allowed(&self, mime: &str) -> (r: bool)
        ensures
            r == spec_life_media_allowed(self.tier@, mime@),
    {
        if self.is_unlimited_tier() {
            starts_with(mime, "image/") || starts_with(mime, "video/") || starts_with(mime, "audio/")
                || str_eq(mime, "application/pdf")
        } else {
            starts_with(mime, "image/")
        }
    }

    /// The context used when authentication is disabled: no identity and the
    /// enterprise tier, so plan limits never apply.
    pub fn unauthenticated() -> (a: ClannAuth)
        ensures
            a.user_id@ == Seq::<char>::empty(),
            a.username@ == Seq::<char>::empty(),
            a.tier@ == "enterprise"@,
            a.teams@ == Map::<Seq<char>, String>::empty(),
            a.clann_roles@ == Map::<Seq<char>, String>::empty(),
    {
        ClannAuth {
            user_id: String::new(),
            username: String::new(),
            tier: "enterprise".to_owned(),
            teams: StringHashMap::new(),
            clann_roles: StringHashMap::new(),
        }
    }

    /// The context of a validated token: subject, username, the "clann"
    /// subscription claim `(tier, status)` if present, and the team claims
    /// `(team id, role, clann product role)`.
    pub fn from_claims(
        sub: String,
        username: String,
        clann_subscription: Option<(String, String)>,
        teams: Vec<(String, String, Option<String>)>,
    ) -> (a: ClannAuth)
        ensures
            a.user_id@ == sub@,
            a.username@ == username@,
            a.tier@ == spec_tier_for(match clann_subscription {
                Some((t, s)) => Some((t@, s@)),
                None => None,
            }),
            string_map_view(a.teams@) == spec_team_roles(teams@.map_values(|t: (String, String, Option<String>)| team_claim_model(t))),
            string_map_view(a.clann_roles@) == spec_clann_roles(teams@.map_values(|t: (String, String, Option<String>)| team_claim_model(t))),
    {
        let tier = match clann_subscription {
            None => "individual".to_owned(),
            Some((t, status)) => {
                if !str_eq(status.as_str(), "active") && !str_eq(status.as_str(), "trialing") {
                    "individual".to_owned()
                } else {
                    t
                }
            },
        };
        let ghost claims = teams@.map_values(|t: (String, String, Option<String>)| team_claim_model(t));
        let mut team_roles: StringHashMap<String> = StringHashMap::new();
        let mut clann_roles: StringHashMap<String> = StringHashMap::new();
        let mut i: usize = 0;
        while i < teams.len()
            invariant
                claims == teams@.map_values(|t: (String, String, Option<String>)| team_claim_model(t)),
                i <= teams.len(),
                string_map_view(team_roles@) == spec_team_roles(claims.take(i as int)),
                string_map_view(clann_roles@) == spec_clann_roles(claims.take(i as int)),
            decreases teams.len() - i,
        {
            let (id, role, clann) = &teams[i];
            team_roles.insert(id.clone(), role.clone());
            match clann {
                Some(r) => clann_roles.insert(id.clone(), r.clone()),
                None => {},
            }
            proof {
                assert(claims.take(i + 1).drop_last() =~= claims.take(i as int));
                assert(claims.take(i + 1).last() == team_claim_model(teams@[i as int]));
                assert(string_map_view(team_roles@) =~= spec_team_roles(claims.take(i + 1)));
                assert(string_map_view(clann_roles@) =~= spec_clann_roles(claims.take(i + 1)));
            }
            i = i + 1;
        }
        proof {
            assert(claims.take(teams.len() as int) =~= claims);
        }
        ClannAuth { user_id: sub, username, tier, teams: team_roles, clann_roles }
    }
}

/// The token of an `Authorization: Bearer <token>` header value.
pub fn bearer_token(header: &str) -> (r: Option<&str>)
    ensures
        match r {
            Some(t) => "Bearer "@.is_prefix_of(header@) && t@ == header@.skip("Bearer "@.len() as int),
            None => !"Bearer "@.is_prefix_of(header@),
        },
{
    strip_prefix(header, "Bearer ")
}

/// A missing or inactive subscription never grants more than the
/// individual tier.
pub proof fn lemma_inactive_subscription_is_individual(tier: Seq<char>, status: Seq<char>)
    requires
        status != "active"@,
        status != "trialing"@,
    ensures
        spec_tier_for(Some((tier, status))) == "individual"@,
        spec_tier_for(None) == "individual"@,
        spec_tree_limit(spec_tier_for(Some((tier, status)))) == Some(2usize),
        spec_member_limit(spec_tier_for(Some((tier, status)))) == Some(100usize),
{
    reveal_strlit("individual");
    reveal_strlit("professional");
    reveal_strlit("enterprise");
    reveal_strlit("family");
    assert("individual"@[0] != "professional"@[0]);
    assert("individual"@[0] != "enterprise"@[0]);
    assert("individual"@[0] != "family"@[0]);
}

/// Every plan that limits persons also limits trees, and the limits grow
/// together: a tier with the larger tree limit never has the smaller
/// person limit.
pub proof fn lemma_plan_limits_agree(tier: Seq<char>)
    ensures
        spec_tree_limit(tier) is None <==> spec_member_limit(tier) is None,
        spec_tree_limit(tier) == Some(2usize) <==> spec_member_limit(tier) == Some(100usize),
        spec_tree_limit(tier) == Some(10usize) <==> spec_member_limit(tier) == Some(1000usize),
        spec_life_media_allowed(tier, "image/png"@),
{
    reveal_strlit("image/png");
    reveal_strlit("image/");
}


/// What the API middleware does with a request, before any token check.
pub enum AuthStep {
    /// No token validator is configured: the request goes on as the
    /// unauthenticated (enterprise-tier) caller.
    Admit(ClannAuth),
    /// Validate this bearer token.
    Validate(String),
    /// Answer 401 with this message.
    Refuse(String),
}

/// The middleware's first decision, given whether a validator is
/// configured and the `Authorization` header (`None` when absent or not
/// readable as text).
pub fn auth_step(has_validator: bool, authorization: Option<&str>) -> (r: AuthStep)
    ensures
        !has_validator ==> (r matches AuthStep::Admit(a)
            && a.user_id@ == Seq::<char>::empty() && a.username@ == Seq::<char>::empty()
            && a.tier@ == "enterprise"@
            && a.teams@ == Map::<Seq<char>, String>::empty()
            && a.clann_roles@ == Map::<Seq<char>, String>::empty()),
        has_validator ==> match authorization {
            Some(h) => if "Bearer "@.is_prefix_of(h@) {
                r matches AuthStep::Validate(t) && t@ == h@.skip("Bearer "@.len() as int)
            } else {
                r matches AuthStep::Refuse(m) && m@ == "Missing Authorization header"@
            },
            None => r matches AuthStep::Refuse(m) && m@ == "Missing Authorization header"@,
        },
{
    if !has_validator {
        return AuthStep::Admit(ClannAuth::unauthenticated());
    }
    match authorization {
        Some(h) => match bearer_token(h) {
            Some(t) => AuthStep::Validate(t.to_owned()),
            None => AuthStep::Refuse("Missing Authorization header".to_owned()),
        },
        None => AuthStep::Refuse("Missing Authorization header".to_owned()),
    }
}

/// The 401 message of a token the validator refused with `reason`.
pub fn invalid_token_message(reason: &str) -> (r: String)
    ensures
        r@ == "Invalid token: "@ + reason@,
{
    let mut s = String::from_str("Invalid token: ");
    s.append(reason);
    s
}


/// Every plan without a tree limit (professional and enterprise) takes the
/// same life media: images, video, audio and PDF documents.
pub proof fn lemma_unlimited_plans_take_all_life_media(tier: Seq<char>, mime: Seq<char>)
    requires
        spec_tree_limit(tier) is None,
    ensures
        spec_life_media_allowed(tier, mime) <==> ("image/"@.is_prefix_of(mime) || "video/"@.is_prefix_of(mime)
            || "audio/"@.is_prefix_of(mime) || mime == "application/pdf"@),
        spec_life_media_allowed(tier, mime) == spec_life_media_allowed("professional"@, mime),
        spec_life_media_allowed(tier, mime) == spec_life_media_allowed("enterprise"@, mime),
{
}

} // verus!
