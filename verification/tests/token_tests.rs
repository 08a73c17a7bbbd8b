use authcore::claims::TokenClaims;
use authcore::claims::TokenKind;
use authcore::errors::AuthError;
use authcore::middleware::authenticate;
use authcore::middleware::exchange_refresh;
use authcore::middleware::extract_bearer;
use authcore::token::Identity;
use authcore::token::TokenError;
use authcore::token::TokenService;

fn identity() -> Identity {
    Identity {
        id: "u1".to_string(),
        email: "u1@example.com".to_string(),
        roles: vec!["editor".to_string()],
    }
}

fn service() -> TokenService {
    TokenService::new(b"test-secret".to_vec(), 900, 86400)
}

#[test]
fn issued_access_token_validates_before_expiry() {
    let svc = service();
    let token = svc.issue_access(&identity(), 1000);
    let id = svc.validate(&token, TokenKind::Access, 1000).expect("fresh token must validate");
    assert_eq!(id.id, "u1");
    assert_eq!(id.email, "u1@example.com");
    assert_eq!(id.roles, vec!["editor".to_string()]);
}

#[test]
fn issued_token_matches_known_tag() {
    // HMAC-SHA256(b"test-secret", payload) in padding-free base64url, for the
    // claims line of u1/editor issued at 1000 with a 900-second lifetime
    let svc = service();
    let token = svc.issue_access(&identity(), 1000);
    assert_eq!(
        token,
        "A5vi7jrZio2APKTtOK1WYpv_oagDTPYUp1fiKy-GGG4.a00000000000003e8000000000000076c0000000000000002u1000000000000000eu1@example.com00000000000000010000000000000006editor"
    );
}

#[test]
fn expiry_is_monotone_around_the_boundary() {
    let svc = service();
    let token = svc.issue_access(&identity(), 1000);
    assert!(svc.validate(&token, TokenKind::Access, 1899).is_ok());
    assert_eq!(svc.validate(&token, TokenKind::Access, 1900), Err(TokenError::AccessExpired));
    assert_eq!(svc.validate(&token, TokenKind::Access, 5000), Err(TokenError::AccessExpired));
}

#[test]
fn scenario_validation_twenty_minutes_after_a_fifteen_minute_ttl() {
    let t0: u64 = 1_700_000_000;
    let svc = TokenService::new(b"test-secret".to_vec(), 15 * 60, 86400);
    let token = svc.issue_access(&identity(), t0);
    // expired, and classified as expiry — not as a malformed token
    assert_eq!(svc.validate(&token, TokenKind::Access, t0 + 20 * 60), Err(TokenError::AccessExpired));
    let header = format!("Bearer {}", token);
    assert_eq!(
        authenticate(&svc, Some(&header), t0 + 20 * 60),
        Err(AuthError::SessionExpired)
    );
}

#[test]
fn tampered_token_is_malformed_even_if_unexpired() {
    let svc = service();
    let mut token = svc.issue_access(&identity(), 1000);
    token.push('x'); // the signed claims line no longer matches the tag
    assert_eq!(svc.validate(&token, TokenKind::Access, 1000), Err(TokenError::Malformed));
}

#[test]
fn tampered_signature_is_malformed_even_if_unexpired() {
    let svc = service();
    let token = svc.issue_access(&identity(), 1000);
    let flipped = if token.starts_with('A') { "B" } else { "A" };
    let tampered = format!("{}{}", flipped, &token[1..]);
    assert_eq!(svc.validate(&tampered, TokenKind::Access, 1000), Err(TokenError::Malformed));
}

#[test]
fn wrong_secret_is_malformed() {
    let svc = service();
    let other = TokenService::new(b"another-secret".to_vec(), 900, 86400);
    let token = svc.issue_access(&identity(), 1000);
    assert_eq!(other.validate(&token, TokenKind::Access, 1000), Err(TokenError::Malformed));
}

#[test]
fn different_secrets_sign_differently() {
    let svc = service();
    let other = TokenService::new(b"another-secret".to_vec(), 900, 86400);
    assert_ne!(svc.issue_access(&identity(), 1000), other.issue_access(&identity(), 1000));
}

#[test]
fn token_without_dot_is_malformed() {
    let svc = service();
    assert_eq!(svc.validate("no-separator-here", TokenKind::Access, 0), Err(TokenError::Malformed));
    assert_eq!(svc.validate("", TokenKind::Access, 0), Err(TokenError::Malformed));
}

#[test]
fn refresh_token_is_not_an_access_token() {
    let svc = service();
    let refresh = svc.issue_refresh(&identity(), 1000);
    assert_eq!(svc.validate(&refresh, TokenKind::Access, 1000), Err(TokenError::Malformed));
    assert!(svc.validate(&refresh, TokenKind::Refresh, 1000).is_ok());
}

#[test]
fn scenario_expired_refresh_token_is_terminal() {
    let svc = service();
    let refresh = svc.issue_refresh(&identity(), 1000);
    let late = 1000 + 86400;
    let result = exchange_refresh(&svc, &refresh, late);
    assert_eq!(result, Err(AuthError::RefreshTokenExpired));
}

#[test]
fn refresh_exchange_mints_a_working_pair() {
    let svc = service();
    let refresh = svc.issue_refresh(&identity(), 1000);
    let (new_access, new_refresh) =
        exchange_refresh(&svc, &refresh, 2000).expect("unexpired refresh token must exchange");
    let id = svc.validate(&new_access, TokenKind::Access, 2000).expect("minted access token");
    assert_eq!(id.id, "u1");
    assert_eq!(id.roles, vec!["editor".to_string()]);
    assert!(svc.validate(&new_refresh, TokenKind::Refresh, 2000).is_ok());
}

#[test]
fn bearer_extraction() {
    assert_eq!(extract_bearer("Bearer abc.def"), Some("abc.def".to_string()));
    assert_eq!(extract_bearer("Bearer "), Some(String::new()));
    assert_eq!(extract_bearer("Token abc"), None);
    assert_eq!(extract_bearer("bearer abc"), None);
    assert_eq!(extract_bearer(""), None);
}

#[test]
fn missing_credential_is_unauthorized() {
    let svc = service();
    assert_eq!(authenticate(&svc, None, 1000), Err(AuthError::Unauthorized));
    assert_eq!(authenticate(&svc, Some("Basic dXNlcg=="), 1000), Err(AuthError::Unauthorized));
}

#[test]
fn authenticate_binds_identity_on_success() {
    let svc = service();
    let token = svc.issue_access(&identity(), 1000);
    let header = format!("Bearer {}", token);
    let id = authenticate(&svc, Some(&header), 1500).expect("valid credential must bind");
    assert_eq!(id.id, "u1");
    assert_eq!(id.email, "u1@example.com");
    assert_eq!(id.roles, vec!["editor".to_string()]);
}

#[test]
fn authenticate_rejects_tamper_as_invalid_token() {
    let svc = service();
    let token = svc.issue_access(&identity(), 1000);
    let header = format!("Bearer {}y", token);
    assert_eq!(authenticate(&svc, Some(&header), 1000), Err(AuthError::InvalidToken));
}

#[test]
fn claims_round_trip() {
    let claims = TokenClaims {
        sub: "user-7".to_string(),
        email: "user.7@example.com".to_string(),
        roles: vec!["viewer".to_string(), "editor".to_string(), String::new()],
        issued_at: 0,
        expires_at: u64::MAX,
        kind: TokenKind::Refresh,
    };
    let encoded = claims.encode();
    let parsed = TokenClaims::parse(&encoded).expect("encoded claims must parse");
    assert_eq!(parsed.sub, "user-7");
    assert_eq!(parsed.email, "user.7@example.com");
    assert_eq!(parsed.roles, claims.roles);
    assert_eq!(parsed.issued_at, 0);
    assert_eq!(parsed.expires_at, u64::MAX);
    assert_eq!(parsed.kind, TokenKind::Refresh);
}

#[test]
fn claims_parse_rejects_off_grammar_text() {
    assert!(TokenClaims::parse("").is_none());
    assert!(TokenClaims::parse("x00000000000003e8").is_none());
    assert!(TokenClaims::parse("a123").is_none());
    // a valid line with one trailing character no longer parses
    let claims = TokenClaims {
        sub: "u".to_string(),
        email: "e".to_string(),
        roles: vec![],
        issued_at: 1,
        expires_at: 2,
        kind: TokenKind::Access,
    };
    let mut line = claims.encode();
    assert!(TokenClaims::parse(&line).is_some());
    line.push('0');
    assert!(TokenClaims::parse(&line).is_none());
}

#[test]
fn dotted_names_survive_the_token_framing() {
    let svc = service();
    let user = Identity {
        id: "org.example.user".to_string(),
        email: "first.last@example.com".to_string(),
        roles: vec!["projects.editor".to_string()],
    };
    let token = svc.issue_access(&user, 1000);
    let id = svc.validate(&token, TokenKind::Access, 1000).expect("dotted claims must validate");
    assert_eq!(id.id, "org.example.user");
    assert_eq!(id.email, "first.last@example.com");
    assert_eq!(id.roles, vec!["projects.editor".to_string()]);
}

#[test]
fn multi_dot_garbage_is_malformed() {
    let svc = service();
    assert_eq!(svc.validate("ab.cd.ef", TokenKind::Access, 0), Err(TokenError::Malformed));
    assert_eq!(svc.validate(".", TokenKind::Access, 0), Err(TokenError::Malformed));
}
