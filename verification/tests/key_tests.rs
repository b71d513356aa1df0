use stream_entropy::key::{
    find_matching_key, gate_anonymous, gate_with_credential, issue_token, key_ids, ApiKey,
    ApiKeyError, GateRejection, MaybeApiKey,
};
use stream_entropy::rate::RateTable;

fn row(id: i32, token_hash: String) -> ApiKey {
    ApiKey {
        id,
        user_id: 7,
        token: token_hash,
        paid: 500,
        stripe_session_id: String::from("cs_test"),
        created_at: 0,
    }
}

#[test]
fn issued_token_is_thirty_alphanumerics() {
    let (plain, hashed) = issue_token().unwrap();
    assert_eq!(plain.len(), 30);
    assert!(plain.chars().all(|c| c.is_ascii_alphanumeric()));
    assert_ne!(plain, hashed);
}

#[test]
fn issued_token_matches_its_stored_hash() {
    let (plain, hashed) = issue_token().unwrap();
    let keys = vec![row(11, hashed)];
    let found = find_matching_key(&plain, keys).unwrap().unwrap();
    assert_eq!(found.id, 11);
}

#[test]
fn wrong_token_matches_nothing() {
    let (_, hashed) = issue_token().unwrap();
    let keys = vec![row(11, hashed)];
    let found = find_matching_key("definitely-not-the-token", keys).unwrap();
    assert!(found.is_none());
}

#[test]
fn malformed_stored_hash_fails_the_scan() {
    let keys = vec![row(3, String::from("not-a-bcrypt-hash"))];
    let r = find_matching_key("whatever", keys);
    assert!(matches!(r, Err(ApiKeyError::Bcrypt)));
}

#[test]
fn first_matching_row_wins() {
    let (plain, hashed) = issue_token().unwrap();
    let (_, other_hash) = issue_token().unwrap();
    let keys = vec![row(1, other_hash), row(2, hashed.clone()), row(3, hashed)];
    let found = find_matching_key(&plain, keys).unwrap().unwrap();
    assert_eq!(found.id, 2);
}

#[test]
fn credential_gate_authorizes_a_match() {
    let (plain, hashed) = issue_token().unwrap();
    let keys = vec![row(5, hashed)];
    match gate_with_credential(&plain, keys) {
        Ok(MaybeApiKey::Authorized(k)) => assert_eq!(k.id, 5),
        _ => panic!("expected an authorized outcome"),
    }
}

#[test]
fn credential_gate_rejects_a_miss() {
    let (_, hashed) = issue_token().unwrap();
    let keys = vec![row(5, hashed)];
    let r = gate_with_credential("wrong", keys);
    assert!(matches!(r, Err(GateRejection::InvalidKey)));
}

#[test]
fn authorized_request_bypasses_rate_limit() {
    let (plain, hashed) = issue_token().unwrap();
    let mut table = RateTable::new();
    let ip = String::from("203.0.113.77");
    // The address exhausts its anonymous window...
    assert!(gate_anonymous(&mut table, &ip, 100).is_ok());
    assert!(matches!(
        gate_anonymous(&mut table, &ip, 101),
        Err(GateRejection::TooManyRequests { wait_seconds: 29 })
    ));
    // ...yet a matching credential authorizes, reading no table state,
    let keys = vec![row(9, hashed)];
    assert!(matches!(
        gate_with_credential(&plain, keys),
        Ok(MaybeApiKey::Authorized(_))
    ));
    // ...and the window against the address still stands untouched.
    assert_eq!(table.entries, vec![(ip.clone(), 130i64)]);
    assert!(matches!(
        gate_anonymous(&mut table, &ip, 102),
        Err(GateRejection::TooManyRequests { wait_seconds: 28 })
    ));
}

#[test]
fn anonymous_gate_allows_and_then_limits() {
    let mut table = RateTable::new();
    let ip = String::from("198.51.100.20");
    match gate_anonymous(&mut table, &ip, 50) {
        Ok(MaybeApiKey::Unauthorized) => {}
        _ => panic!("expected the anonymous tier"),
    }
    assert!(matches!(
        gate_anonymous(&mut table, &ip, 60),
        Err(GateRejection::TooManyRequests { wait_seconds: 20 })
    ));
    assert!(gate_anonymous(&mut table, &ip, 80).is_ok());
}

#[test]
fn empty_store_rejects_any_credential() {
    let r = gate_with_credential("anything", Vec::new());
    assert!(matches!(r, Err(GateRejection::InvalidKey)));
}

#[test]
fn key_ids_projects_in_row_order() {
    let keys = vec![
        row(4, String::from("a")),
        row(8, String::from("b")),
        row(15, String::from("c")),
    ];
    assert_eq!(key_ids(&keys), vec![4, 8, 15]);
}

#[test]
fn into_option_exposes_the_authorized_key() {
    let k = row(2, String::from("h"));
    match MaybeApiKey::Authorized(k).into_option() {
        Some(key) => assert_eq!(key.id, 2),
        None => panic!("expected the key back"),
    }
    assert!(MaybeApiKey::Unauthorized.into_option().is_none());
}
