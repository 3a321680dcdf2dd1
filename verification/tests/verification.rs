use member_verify::config::{check_distinct_ids, ConfigManager};
use member_verify::flow::{
    begin_complete, finish_complete, handle_component_interaction, verification_url, RoleGrant,
    VerifyOutcome,
};
use member_verify::keys::TOKEN_LEN;
use member_verify::structs::{Config, JsonBody, KeyManager, ServerConfig, VerifyPageTemplate};

const URL_PREFIX: &str = "http://localhost:3000/verify/";

fn empty_registry() -> ConfigManager {
    ConfigManager::new(Config { servers: vec![] })
}

fn token_of(url: &str) -> String {
    url.strip_prefix(URL_PREFIX)
        .expect("verification URL starts with the fixed prefix")
        .to_string()
}

#[test]
fn minted_key_is_found_until_consumed() {
    let mut keys = KeyManager::new();
    let token = keys.create_key(7, 11);
    assert!(keys.contains_key(token.clone()));
    let found = keys.get_key(token.clone()).expect("minted key is live");
    assert_eq!(found.server_id, 7);
    assert_eq!(found.user_id, 11);
    keys.remove_key(token.clone());
    assert!(!keys.contains_key(token.clone()));
    assert!(keys.get_key(token).is_none());
}

#[test]
fn consume_is_idempotent() {
    let mut keys = KeyManager::new();
    let token = keys.create_key(1, 2);
    let other = keys.create_key(3, 4);
    keys.remove_key(token.clone());
    assert_eq!(keys.keys.len(), 1);
    keys.remove_key(token.clone());
    assert_eq!(keys.keys.len(), 1);
    assert!(keys.contains_key(other));
    assert!(!keys.contains_key(token));
}

#[test]
fn consume_of_absent_token_is_a_no_op() {
    let mut keys = KeyManager::new();
    let token = keys.create_key(1, 2);
    keys.remove_key("unknown-token-0000".to_string());
    assert_eq!(keys.keys.len(), 1);
    assert!(keys.contains_key(token));
}

#[test]
fn tokens_have_the_documented_shape() {
    let mut keys = KeyManager::new();
    let token = keys.create_key(5, 6);
    assert_eq!(token.chars().count(), TOKEN_LEN);
    assert!(token.chars().all(|c| c.is_ascii_alphanumeric()));
}

#[test]
fn ten_thousand_mints_collide_never() {
    let mut keys = KeyManager::new();
    let mut seen: std::collections::HashSet<String> = std::collections::HashSet::new();
    for _ in 0..10_000 {
        let token = keys.create_key(1, 1);
        assert!(seen.insert(token), "token minted twice");
    }
    assert_eq!(keys.keys.len(), 10_000);
}

#[test]
fn re_clicking_verify_keeps_the_old_key_live() {
    let mut keys = KeyManager::new();
    let first = keys.create_key(1, 42);
    let second = keys.create_key(1, 42);
    assert!(keys.contains_key(first));
    assert!(keys.contains_key(second));
    assert_eq!(keys.keys.len(), 2);
}

#[test]
fn upsert_then_get_returns_written_role() {
    let mut registry = empty_registry();
    registry.update_server_config(1, 99);
    let config = registry.get_server_config(1).expect("just written");
    assert_eq!(config.grant_role_id, 99);
    assert_eq!(config.id, 1);
}

#[test]
fn second_upsert_overwrites_without_duplicating() {
    let mut registry = empty_registry();
    registry.update_server_config(1, 99);
    registry.update_server_config(1, 100);
    assert_eq!(registry.config().servers.len(), 1);
    let config = registry.get_server_config(1).expect("still present");
    assert_eq!(config.grant_role_id, 100);
}

#[test]
fn get_of_unknown_community_fails() {
    let mut registry = empty_registry();
    registry.update_server_config(1, 99);
    assert!(registry.get_server_config(2).is_none());
}

#[test]
fn distinct_ids_check_accepts_and_rejects() {
    let unique = Config {
        servers: vec![
            ServerConfig { id: 1, grant_role_id: 9 },
            ServerConfig { id: 2, grant_role_id: 9 },
        ],
    };
    assert!(check_distinct_ids(&unique));
    let duplicated = Config {
        servers: vec![
            ServerConfig { id: 1, grant_role_id: 9 },
            ServerConfig { id: 1, grant_role_id: 8 },
        ],
    };
    assert!(!check_distinct_ids(&duplicated));
    assert!(check_distinct_ids(&Config { servers: vec![] }));
}

#[test]
fn verification_url_embeds_the_token() {
    let token = "abcDEF0123456789".to_string();
    let url = verification_url(&token);
    assert_eq!(url, format!("{URL_PREFIX}abcDEF0123456789"));
}

#[test]
fn other_interactions_are_ignored() {
    let mut keys = KeyManager::new();
    let reply = handle_component_interaction(&mut keys, &"settings".to_string(), 1, 42);
    assert!(reply.is_none());
    assert_eq!(keys.keys.len(), 0);
}

#[test]
fn outcome_responses_match_the_wire_format() {
    assert_eq!(VerifyOutcome::Success.as_response(), "success");
    assert_eq!(VerifyOutcome::Failure.as_response(), "failure");
}

#[test]
fn scenario_full_verification_then_replay_fails() {
    let mut keys = KeyManager::new();
    let mut registry = empty_registry();
    registry.update_server_config(1, 99);

    let url = handle_component_interaction(&mut keys, &"verify".to_string(), 1, 42)
        .expect("verify click mints a key");
    let token = token_of(&url);

    let grant = begin_complete(&keys, &registry, true, &token).expect("all checks pass");
    assert_eq!(grant, RoleGrant { server_id: 1, user_id: 42, role_id: 99 });

    let outcome = finish_complete(&mut keys, true, &token);
    assert_eq!(outcome, VerifyOutcome::Success);
    assert_eq!(outcome.as_response(), "success");

    let replay = begin_complete(&keys, &registry, true, &token);
    assert!(replay.is_none(), "a consumed token must not verify again");
}

#[test]
fn scenario_unknown_token_fails_without_grant() {
    let keys = KeyManager::new();
    let mut registry = empty_registry();
    registry.update_server_config(1, 99);
    let grant = begin_complete(&keys, &registry, true, &"aaaaaaaaaaaaaaaa".to_string());
    assert!(grant.is_none(), "no grant may be attempted for an unknown token");
}

#[test]
fn scenario_failed_challenge_keeps_key_live() {
    let mut keys = KeyManager::new();
    let mut registry = empty_registry();
    registry.update_server_config(1, 99);
    let url = handle_component_interaction(&mut keys, &"verify".to_string(), 1, 42).unwrap();
    let token = token_of(&url);

    let grant = begin_complete(&keys, &registry, false, &token);
    assert!(grant.is_none());
    assert!(keys.contains_key(token.clone()), "key survives a failed challenge");

    let retry = begin_complete(&keys, &registry, true, &token).expect("retry succeeds");
    assert_eq!(retry, RoleGrant { server_id: 1, user_id: 42, role_id: 99 });
}

#[test]
fn scenario_failed_grant_keeps_key_live() {
    let mut keys = KeyManager::new();
    let mut registry = empty_registry();
    registry.update_server_config(1, 99);
    let url = handle_component_interaction(&mut keys, &"verify".to_string(), 1, 42).unwrap();
    let token = token_of(&url);

    assert!(begin_complete(&keys, &registry, true, &token).is_some());
    let outcome = finish_complete(&mut keys, false, &token);
    assert_eq!(outcome, VerifyOutcome::Failure);
    assert_eq!(outcome.as_response(), "failure");
    assert!(keys.contains_key(token.clone()), "key survives a failed grant");

    assert!(begin_complete(&keys, &registry, true, &token).is_some());
    let outcome = finish_complete(&mut keys, true, &token);
    assert_eq!(outcome, VerifyOutcome::Success);
    assert!(!keys.contains_key(token));
}

#[test]
fn scenario_unconfigured_community_fails() {
    let mut keys = KeyManager::new();
    let registry = empty_registry();
    let url = handle_component_interaction(&mut keys, &"verify".to_string(), 3, 42).unwrap();
    let token = token_of(&url);
    let grant = begin_complete(&keys, &registry, true, &token);
    assert!(grant.is_none(), "a community without configuration cannot grant");
}

#[test]
fn request_and_template_carry_plain_fields() {
    let body = JsonBody { key: "k".to_string(), token: "challenge".to_string() };
    assert_eq!(body.key, "k");
    assert_eq!(body.token, "challenge");
    let page = VerifyPageTemplate { key: "k".to_string() };
    assert_eq!(page.key, "k");
}
