use abuse_helper::auth::{
    bearer_token, check_auth, claims_for, exchange_keycloak_token, is_authorized, token_lifetime,
    AuthError, TokenFailure,
};
use abuse_helper::middleware::auth::Auth;
use abuse_helper::middleware::logger::Logger;
use abuse_helper::models::auth::{Claims, TokenType};
use abuse_helper::models::customer::{LookUpForm, LookupKey};

fn claims(role: &str, token_type: TokenType) -> Claims {
    Claims { sub: 1, role: role.to_string(), exp: 10, token_type }
}

#[test]
fn roles_open_doors() {
    assert!(is_authorized(&claims("user", TokenType::Access), "user"));
    assert!(is_authorized(&claims("admin", TokenType::Access), "user"));
    assert!(!is_authorized(&claims("user", TokenType::Access), "admin"));
    assert!(!is_authorized(&claims("Admin", TokenType::Access), "user"));
}

#[test]
fn bearer_tokens_are_taken_from_the_header() {
    assert_eq!(bearer_token("Bearer abc.def"), Some("abc.def"));
    assert_eq!(bearer_token("Bearer "), Some(""));
    assert_eq!(bearer_token("bearer abc"), None);
    assert_eq!(bearer_token("Bearer"), None);
    assert_eq!(bearer_token("Basic abc"), None);
    assert_eq!(bearer_token(""), None);
}

#[test]
fn tokens_live_an_hour_or_a_week() {
    assert_eq!(token_lifetime(TokenType::Access), 3600);
    assert_eq!(token_lifetime(TokenType::Refresh), 604800);
    let c = claims_for(7, "user", TokenType::Access, 1_000).unwrap();
    assert_eq!((c.sub, c.exp, c.token_type), (7, 4_600, TokenType::Access));
    assert_eq!(c.role, "user");
    let c = claims_for(7, "user", TokenType::Refresh, 1_000).unwrap();
    assert_eq!(c.exp, 605_800);
    assert!(claims_for(7, "user", TokenType::Access, -3_601).is_none());
    assert!(claims_for(7, "user", TokenType::Access, -3_600).is_some());
}

fn refusal(r: Result<Claims, AuthError>) -> String {
    match r {
        Err(AuthError::Unauthorized(m)) => format!("401 {}", m),
        Err(AuthError::Forbidden(m)) => format!("403 {}", m),
        Err(AuthError::Internal(m)) => format!("500 {}", m),
        Ok(_) => "ok".to_string(),
    }
}

#[test]
fn requests_are_checked_in_order() {
    let ok = || Ok(claims("user", TokenType::Access));
    assert_eq!(refusal(check_auth(None, false, ok())), "401 No authorization header");
    assert_eq!(refusal(check_auth(Some("Token x"), false, ok())), "401 Invalid authorization header");
    assert_eq!(refusal(check_auth(Some("Bearer x"), true, ok())), "401 Token has been invalidated");
    assert_eq!(
        refusal(check_auth(Some("Bearer x"), false, Err(TokenFailure::Expired))),
        "401 Token has expired"
    );
    assert_eq!(
        refusal(check_auth(Some("Bearer x"), false, Err(TokenFailure::Invalid))),
        "401 Invalid token"
    );
    assert_eq!(
        refusal(check_auth(Some("Bearer x"), false, Ok(claims("user", TokenType::Refresh)))),
        "401 Invalid token type"
    );
    assert_eq!(refusal(check_auth(Some("Bearer x"), false, ok())), "ok");
}

#[test]
fn guard_asks_for_its_role() {
    let open = Auth::new().wrap(());
    let admin = Auth::new().role("admin").wrap(());
    let user = || Ok(claims("user", TokenType::Access));
    assert_eq!(refusal(open.decide(Some("Bearer x"), false, user())), "ok");
    assert_eq!(refusal(admin.decide(Some("Bearer x"), false, user())), "403 Insufficient permissions");
    assert_eq!(
        refusal(admin.decide(Some("Bearer x"), false, Ok(claims("admin", TokenType::Access)))),
        "ok"
    );
    assert_eq!(refusal(admin.decide(None, false, user())), "401 No authorization header");
    assert_eq!(**open.service(), ());
}

#[test]
fn recorder_writes_entries_for_signed_in_users() {
    let recorder = Logger::new().wrap(());
    let c = claims("user", TokenType::Access);
    let e = recorder.entry(Some(&c), "200", "/tickets/list", 5, 99).unwrap();
    assert_eq!((e.uuid, e.user_uuid, e.timestamp), (5, 1, 99));
    assert_eq!((e.action.as_str(), e.route.as_str()), ("200", "/tickets/list"));
    assert!(recorder.entry(None, "200", "/status", 5, 99).is_none());
    assert_eq!(**recorder.service(), ());
}

#[test]
fn identity_provider_answers_are_read() {
    let read = |text: &str| {
        let v: serde_json::Value = serde_json::from_str(text).unwrap();
        exchange_keycloak_token(&v, 7, 9)
    };
    assert_eq!(refusal(read("{\"active\": false}").map(|_| claims("x", TokenType::Access))),
        "401 Invalid Keycloak token");
    assert_eq!(refusal(read("{\"email\": \"a@b\"}").map(|_| claims("x", TokenType::Access))),
        "401 Invalid Keycloak token");
    assert_eq!(refusal(read("{\"active\": true, \"name\": \"n\"}").map(|_| claims("x", TokenType::Access))),
        "500 Missing email in Keycloak token");
    assert_eq!(refusal(read("{\"active\": true, \"email\": \"a@b\"}").map(|_| claims("x", TokenType::Access))),
        "500 Missing name in Keycloak token");
    let u = read("{\"active\": true, \"email\": \"a@b\", \"name\": \"Ann\"}").ok().unwrap();
    assert_eq!((u.uuid, u.created_at, u.updated_at), (7, 9, 9));
    assert_eq!((u.email.as_str(), u.name.as_str(), u.role.as_str()), ("a@b", "Ann", "user"));
    assert_eq!(u.password_hash, "");
    let u = read("{\"active\": true, \"email\": \"a@b\", \"name\": \"Ann\", \"realm_access\": {\"roles\": [\"offline\", 3, \"admin\", \"user\"]}}").ok().unwrap();
    assert_eq!(u.role, "admin");
    let u = read("{\"active\": true, \"email\": \"a@b\", \"name\": \"Ann\", \"realm_access\": {\"roles\": [\"offline\"]}}").ok().unwrap();
    assert_eq!(u.role, "user");
}

#[test]
fn customer_lookup_goes_by_the_first_key_given() {
    let form = |email: Option<&str>, ip: Option<&str>, uuid: Option<u128>| LookUpForm {
        email: email.map(str::to_string),
        ip: ip.map(str::to_string),
        uuid,
    };
    assert!(matches!(form(Some("a@b"), Some("1.2.3.4"), Some(5)).key(),
        Some(LookupKey::Email(e)) if e == "a@b"));
    assert!(matches!(form(None, Some("1.2.3.4"), Some(5)).key(),
        Some(LookupKey::Ip(i)) if i == "1.2.3.4"));
    assert!(matches!(form(None, None, Some(5)).key(), Some(LookupKey::Uuid(5))));
    assert!(form(None, None, None).key().is_none());
}
