use lot::brain::{draft_user_prompt, hermes_xai_oauth};
use lot::json::parse_json;
use lot::packs::{PackFile, PackItem};
use lot::show::{new_show, CastMember};

fn named(id: &str, name: &str) -> PackItem {
    PackItem { id: id.into(), label: None, name: Some(name.into()), notes: None, kind: None }
}

fn pack(items: Vec<PackItem>) -> PackFile {
    PackFile {
        reviewed: "2025-01-01".into(),
        disclaimer: "coverage influence, not endorsement".into(),
        items,
    }
}

#[test]
fn draft_prompt_includes_style_cast_format() {
    let mut show = new_show("Carnival".into(), "t".into(), "0");
    show.writer.brief = "A clown loses the mask.".into();
    show.writer.genres = vec!["drama".into()];
    show.writer.styles_living = vec!["greta-gerwig".into()];
    show.writer.styles_canon = vec!["akira-kurosawa".into()];
    show.writer.format = Some("30min".into());
    show.writer.cast = vec![CastMember {
        name: "Ada".into(),
        function: "lead".into(),
        look: "bare face".into(),
        must_not: "franchise cameo".into(),
    }];
    let genres = pack(vec![named("drama", "Drama")]);
    let living = pack(vec![named("greta-gerwig", "Greta Gerwig")]);
    let canon = pack(vec![named("akira-kurosawa", "Akira Kurosawa")]);
    let p = draft_user_prompt(&show, &genres, &living, &canon);
    assert!(p.contains("A clown loses the mask."), "{p}");
    assert!(p.contains("drama"), "{p}");
    assert!(p.contains("30min"), "{p}");
    assert!(p.contains("Ada"), "{p}");
    assert!(p.contains("bare face"), "{p}");
    assert!(p.contains("franchise cameo"), "{p}");
    assert!(p.contains("Greta Gerwig") && p.contains("greta-gerwig"), "{p}");
    assert!(p.contains("Kurosawa") && p.contains("akira-kurosawa"), "{p}");
    assert!(p.to_lowercase().contains("coverage") || p.to_lowercase().contains("influence"), "{p}");
}

#[test]
fn reads_hermes_oauth_from_auth_json() {
    let auth = parse_json(
        r#"{
            "providers": { "xai-oauth": { "tokens": { "access_token": "test-oauth-token-abc", "token_type": "Bearer" } } },
            "credential_pool": { "xai-oauth": [{ "base_url": "https://api.x.ai/v1", "access_token": "test-oauth-token-abc" }] }
        }"#,
    )
    .unwrap();
    let (token, base) = hermes_xai_oauth(&auth).expect("oauth token found");
    assert_eq!(token, "test-oauth-token-abc");
    assert_eq!(base.as_deref(), Some("https://api.x.ai/v1"));
    let pool_only = parse_json(
        r#"{ "credential_pool": { "xai-oauth": [{ "access_token": "  " }, { "access_token": " tok-2 ", "base_url": " " }] } }"#,
    )
    .unwrap();
    let (token, base) = hermes_xai_oauth(&pool_only).expect("pool token found");
    assert_eq!(token, "tok-2");
    assert!(base.is_none());
    assert!(hermes_xai_oauth(&parse_json("{}").unwrap()).is_none());
}
