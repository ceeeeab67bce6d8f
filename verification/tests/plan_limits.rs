use clann_server::auth::{bearer_token, ClannAuth};

fn auth_with(tier: Option<(&str, &str)>) -> ClannAuth {
    ClannAuth::from_claims(
        "11111111-1111-1111-1111-111111111111".to_string(),
        "alice".to_string(),
        tier.map(|(t, s)| (t.to_string(), s.to_string())),
        vec![
            ("team-a".to_string(), "owner".to_string(), Some("owner".to_string())),
            ("team-b".to_string(), "member".to_string(), None),
        ],
    )
}

#[test]
fn individual_plan_limits() {
    let a = auth_with(Some(("individual", "active")));
    assert_eq!(a.tree_limit(), Some(2));
    assert_eq!(a.member_limit(), Some(100));
    assert_eq!(a.storage_limit_bytes(), Some(100 * 1024 * 1024));
}

#[test]
fn family_plan_limits() {
    let a = auth_with(Some(("family", "trialing")));
    assert_eq!(a.tree_limit(), Some(10));
    assert_eq!(a.member_limit(), Some(1000));
    assert_eq!(a.storage_limit_bytes(), Some(5 * 1024 * 1024 * 1024));
}

#[test]
fn professional_and_enterprise_limits() {
    let p = auth_with(Some(("professional", "active")));
    assert_eq!(p.tree_limit(), None);
    assert_eq!(p.member_limit(), None);
    assert_eq!(p.storage_limit_bytes(), Some(50 * 1024 * 1024 * 1024));
    let e = auth_with(Some(("enterprise", "active")));
    assert_eq!(e.tree_limit(), None);
    assert_eq!(e.storage_limit_bytes(), None);
}

#[test]
fn inactive_or_missing_subscription_is_individual() {
    let a = auth_with(Some(("professional", "canceled")));
    assert_eq!(a.tier, "individual");
    assert_eq!(a.tree_limit(), Some(2));
    let b = auth_with(None);
    assert_eq!(b.tier, "individual");
    assert_eq!(b.member_limit(), Some(100));
}

#[test]
fn unknown_tier_gets_individual_limits() {
    let a = auth_with(Some(("gold", "active")));
    assert_eq!(a.tree_limit(), Some(2));
    assert_eq!(a.member_limit(), Some(100));
    assert_eq!(a.storage_limit_bytes(), Some(104857600));
}

#[test]
fn team_claims_give_roles() {
    let a = auth_with(Some(("family", "active")));
    assert!(a.has_clann_access_for_team("team-a"));
    assert!(a.has_clann_access_for_team("team-b"));
    assert!(!a.has_clann_access_for_team("team-c"));
    assert_eq!(a.clann_role_for_team("team-a"), Some("owner"));
    assert_eq!(a.clann_role_for_team("team-b"), None);
}

#[test]
fn life_media_types_by_plan() {
    let ind = auth_with(Some(("individual", "active")));
    assert!(ind.life_media_type_allowed("image/png"));
    assert!(!ind.life_media_type_allowed("video/mp4"));
    assert!(!ind.life_media_type_allowed("application/pdf"));
    let pro = auth_with(Some(("professional", "active")));
    assert!(pro.life_media_type_allowed("video/mp4"));
    assert!(pro.life_media_type_allowed("audio/ogg"));
    assert!(pro.life_media_type_allowed("application/pdf"));
    assert!(!pro.life_media_type_allowed("application/zip"));
}

#[test]
fn unauthenticated_context_is_enterprise() {
    let a = ClannAuth::unauthenticated();
    assert_eq!(a.user_id, "");
    assert_eq!(a.tier, "enterprise");
    assert_eq!(a.tree_limit(), None);
    assert_eq!(a.storage_limit_bytes(), None);
}

#[test]
fn bearer_token_extraction() {
    assert_eq!(bearer_token("Bearer abc.def"), Some("abc.def"));
    assert_eq!(bearer_token("Basic xyz"), None);
    assert_eq!(bearer_token("bearer abc"), None);
}
