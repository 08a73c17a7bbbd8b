//! The request-pipeline authentication stage and the refresh exchange. Per
//! request the middleware extracts the bearer credential, validates it as an
//! access token, and either binds the carried identity to the request or
//! rejects with the matching failure kind; a failure at any step
//! short-circuits, and an authentication failure never reaches authorization.

use vstd::prelude::*;
use vstd::string::StrSliceExecFns;
use vstd::string::StringExecFns;

use crate::claims::ClaimsV;
use crate::claims::TokenKind;
use crate::errors::AuthError;
use crate::token::Identity;
use crate::token::TokenError;
use crate::token::TokenService;
use crate::token::spec_token;
use crate::token::spec_validate;

verus! {

/// The token text a bearer header carries: what follows "Bearer ", if the
/// header uses that scheme.
pub open spec fn spec_bearer(h: Seq<char>) -> Option<Seq<char>> {
    if h.len() >= 7 && h.take(7) == "Bearer "@ {
        Some(h.skip(7))
    } else {
        None
    }
}

/// Pulls the token text out of a bearer header; `None` exactly when the
/// header does not carry the bearer scheme.
pub fn extract_bearer(header: &str) -> (r: Option<String>)
    ensures
        r is Some <==> spec_bearer(header@) is Some,
        r is Some ==> r.unwrap()@ == spec_bearer(header@).unwrap(),
{
    let len = header.unicode_len();
    if len < 7 {
        return None;
    }
    proof {
        reveal_strlit("Bearer ");
    }
    let ok = header.get_char(0) == 'B' && header.get_char(1) == 'e' && header.get_char(2) == 'a'
        && header.get_char(3) == 'r' && header.get_char(4) == 'e' && header.get_char(5) == 'r'
        && header.get_char(6) == ' ';
    if !ok {
        proof {
            if header@.take(7) == "Bearer "@ {
                assert(header@[0] == "Bearer "@[0]);
                assert(header@[1] == "Bearer "@[1]);
                assert(header@[2] == "Bearer "@[2]);
                assert(header@[3] == "Bearer "@[3]);
                assert(header@[4] == "Bearer "@[4]);
                assert(header@[5] == "Bearer "@[5]);
                assert(header@[6] == "Bearer "@[6]);
            }
        }
        return None;
    }
    assert(header@.take(7) =~= "Bearer "@);
    let tok = header.substring_char(7, len);
    assert(tok@ =~= header@.skip(7));
    Some(tok.to_owned())
}

/// The middleware failure for each validation failure on the per-request
/// path: tamper is `InvalidToken`, an expired access token is
/// `SessionExpired`, an expired refresh token is `RefreshTokenExpired`.
pub open spec fn spec_auth_error(e: TokenError) -> AuthError {
    match e {
        TokenError::Malformed => AuthError::InvalidToken,
        TokenError::AccessExpired => AuthError::SessionExpired,
        TokenError::RefreshExpired => AuthError::RefreshTokenExpired,
    }
}

/// What the middleware decides for one request: a missing or non-bearer
/// header is `Unauthorized` before any validation; otherwise the access-token
/// verdict, mapped onto the failure taxonomy.
pub open spec fn spec_authenticate(secret: Seq<u8>, header: Option<Seq<char>>, now: u64) -> Result<
    ClaimsV,
    AuthError,
> {
    match header {
        None => Err(AuthError::Unauthorized),
        Some(h) => match spec_bearer(h) {
            None => Err(AuthError::Unauthorized),
            Some(tok) => match spec_validate(secret, tok, TokenKind::Access, now) {
                Ok(c) => Ok(c),
                Err(e) => Err(spec_auth_error(e)),
            },
        },
    }
}

/// Runs the authentication stage for one request: extract, validate, and on
/// success hand back the identity to bind to the request context. Any failure
/// short-circuits with its kind; nothing downstream runs for it.
pub fn authenticate(svc: &TokenService, header: Option<&str>, now: u64) -> (r: Result<
    Identity,
    AuthError,
>)
    ensures
        ({
            let hv = match header {
                None => None::<Seq<char>>,
                Some(h) => Some(h@),
            };
            let sv = spec_authenticate(svc.secret(), hv, now);
            match r {
                Ok(id) => {
                    &&& sv is Ok
                    &&& id.id@ == sv.unwrap().sub
                    &&& id.email@ == sv.unwrap().email
                    &&& id.roles.deep_view() == sv.unwrap().roles
                },
                Err(e) => sv == Err::<ClaimsV, AuthError>(e),
            }
        }),
{
    let h = match header {
        None => {
            return Err(AuthError::Unauthorized);
        },
        Some(h) => h,
    };
    let tok = match extract_bearer(h) {
        None => {
            return Err(AuthError::Unauthorized);
        },
        Some(t) => t,
    };
    match svc.validate(tok.as_str(), TokenKind::Access, now) {
        Ok(id) => Ok(id),
        Err(TokenError::Malformed) => Err(AuthError::InvalidToken),
        Err(TokenError::AccessExpired) => Err(AuthError::SessionExpired),
        Err(TokenError::RefreshExpired) => Err(AuthError::RefreshTokenExpired),
    }
}

/// Exchanges a refresh token for a new access and refresh token pair. The
/// pair is minted only for a well-signed, well-formed, unexpired refresh
/// token; an expired one is rejected with `RefreshTokenExpired` and, by the
/// shape of the result, no token leaves with the error.
pub fn exchange_refresh(svc: &TokenService, refresh_token: &str, now: u64) -> (r: Result<
    (String, String),
    AuthError,
>)
    requires
        svc.wf(),
        now + svc.refresh_ttl() <= u64::MAX,
    ensures
        ({
            let sv = spec_validate(svc.secret(), refresh_token@, TokenKind::Refresh, now);
            match r {
                Ok(pair) => {
                    &&& sv is Ok
                    &&& pair.0@ == spec_token(
                        svc.secret(),
                        ClaimsV {
                            issued_at: now,
                            expires_at: (now + svc.access_ttl()) as u64,
                            kind: TokenKind::Access,
                            ..sv.unwrap()
                        },
                    )
                    &&& pair.1@ == spec_token(
                        svc.secret(),
                        ClaimsV {
                            issued_at: now,
                            expires_at: (now + svc.refresh_ttl()) as u64,
                            kind: TokenKind::Refresh,
                            ..sv.unwrap()
                        },
                    )
                },
                Err(e) => sv is Err && e == spec_auth_error(sv->Err_0),
            }
        }),
{
    let id = match svc.validate(refresh_token, TokenKind::Refresh, now) {
        Ok(id) => id,
        Err(TokenError::Malformed) => {
            return Err(AuthError::InvalidToken);
        },
        Err(TokenError::AccessExpired) => {
            return Err(AuthError::SessionExpired);
        },
        Err(TokenError::RefreshExpired) => {
            return Err(AuthError::RefreshTokenExpired);
        },
    };
    let access = svc.issue_access(&id, now);
    let refresh = svc.issue_refresh(&id, now);
    proof {
        let sv = spec_validate(svc.secret(), refresh_token@, TokenKind::Refresh, now);
        assert(svc.spec_access_claims(id, now) =~= ClaimsV {
            issued_at: now,
            expires_at: (now + svc.access_ttl()) as u64,
            kind: TokenKind::Access,
            ..sv.unwrap()
        });
        assert(svc.spec_refresh_claims(id, now) =~= ClaimsV {
            issued_at: now,
            expires_at: (now + svc.refresh_ttl()) as u64,
            kind: TokenKind::Refresh,
            ..sv.unwrap()
        });
    }
    Ok((access, refresh))
}

} // verus!
