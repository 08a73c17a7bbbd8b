use authcore::errors::AuthError;

fn rendered(e: &AuthError) -> (u16, String, String, bool) {
    let (status, body) = e.classify();
    (status, body.error_code, body.message, body.success)
}

#[test]
fn classification_is_idempotent() {
    let kinds = vec![
        AuthError::Unauthorized,
        AuthError::InvalidToken,
        AuthError::SessionExpired,
        AuthError::RefreshTokenExpired,
        AuthError::Forbidden,
        AuthError::PolicyFailure("store unreachable".to_string()),
        AuthError::Internal("boom".to_string()),
    ];
    for kind in &kinds {
        assert_eq!(rendered(kind), rendered(kind));
        assert_eq!(kind.classify(), kind.classify());
    }
}

#[test]
fn statuses_and_codes_follow_the_taxonomy() {
    let (s, c, _, ok) = rendered(&AuthError::Unauthorized);
    assert_eq!((s, c.as_str(), ok), (401, "unauthorized", false));
    let (s, c, _, ok) = rendered(&AuthError::InvalidToken);
    assert_eq!((s, c.as_str(), ok), (401, "invalid_token", false));
    let (s, c, _, ok) = rendered(&AuthError::SessionExpired);
    assert_eq!((s, c.as_str(), ok), (401, "access_token_expired", false));
    let (s, c, _, ok) = rendered(&AuthError::RefreshTokenExpired);
    assert_eq!((s, c.as_str(), ok), (401, "refresh_token_expired", false));
    let (s, c, _, ok) = rendered(&AuthError::Forbidden);
    assert_eq!((s, c.as_str(), ok), (403, "forbidden", false));
    let (s, c, _, ok) = rendered(&AuthError::PolicyFailure("detail".to_string()));
    assert_eq!((s, c.as_str(), ok), (500, "internal_server_error", false));
    let (s, c, _, ok) = rendered(&AuthError::Internal("detail".to_string()));
    assert_eq!((s, c.as_str(), ok), (500, "internal_server_error", false));
}

#[test]
fn messages_are_fixed_per_kind() {
    let (_, _, m, _) = rendered(&AuthError::SessionExpired);
    assert_eq!(m, "Your session has expired. Please sign in again.");
    let (_, _, m, _) = rendered(&AuthError::RefreshTokenExpired);
    assert_eq!(m, "Your session has permanently expired. Please sign in again.");
    let (_, _, m, _) = rendered(&AuthError::Forbidden);
    assert_eq!(m, "Access denied. You do not have permission to perform this action.");
}

#[test]
fn internal_detail_never_reaches_the_body() {
    let secret_detail = "connection to 10.0.0.3 refused";
    let a = rendered(&AuthError::PolicyFailure(secret_detail.to_string()));
    let b = rendered(&AuthError::PolicyFailure("other".to_string()));
    assert_eq!(a, b);
    assert!(!a.2.contains("10.0.0.3"));
    let c = rendered(&AuthError::Internal(secret_detail.to_string()));
    let d = rendered(&AuthError::Internal(String::new()));
    assert_eq!(c, d);
    assert!(!c.1.contains("refused"));
    assert!(!c.2.contains("refused"));
}
