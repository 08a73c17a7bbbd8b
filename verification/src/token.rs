//! Token issuer and validator. A token is the HMAC tag of its claims line,
//! one '.', then the line itself; the tag is computed by an outside HMAC and
//! everything around it — framing, parsing, the expiry decision — is
//! verified. Validation checks the signature first, independent of the clock,
//! and only then the expiry window, so tamper and expiry are never confused.

use vstd::prelude::*;
use vstd::string::StrSliceExecFns;
use vstd::string::StringExecFns;

use crate::claims::ClaimsV;
use crate::claims::TokenClaims;
use crate::claims::TokenKind;
use crate::claims::encode_claims;
use crate::claims::lemma_claims_roundtrip;
use crate::claims::spec_parse_claims;

verus! {

/// An authenticated identity, rebuilt per request from a validated token and
/// read-only afterwards.
#[derive(Debug, Clone, PartialEq, Eq)]
pub struct Identity {
    pub id: String,
    pub email: String,
    pub roles: Vec<String>,
}

/// How validation can fail: a malformed or tampered token (non-retriable), an
/// expired access token (the caller should refresh), or an expired refresh
/// token (terminal; re-authentication is required).
#[derive(Debug, Clone, Copy, PartialEq, Eq, Structural)]
pub enum TokenError {
    Malformed,
    AccessExpired,
    RefreshExpired,
}

/// The base64url text of the HMAC-SHA256 tag of a message under a secret: a
/// function of the two alone.
pub uninterp spec fn hs256_of(key: Seq<u8>, msg: Seq<char>) -> Seq<char>;

/// Relies on jsonwebtoken::crypto::sign with Algorithm::HS256 on an HMAC
/// secret key: it returns Ok(base64url(hmac_sha256(secret, message))) for
/// every input (the HMAC arm of sign has no error path), a value determined
/// by secret and message alone, written in the padding-free base64url
/// alphabet (A-Z, a-z, 0-9, '-', '_'), which has no '.'.
#[verifier::external_body]
fn hs256_sign(secret: &[u8], message: &str) -> (sig: String)
    ensures
        sig@ == hs256_of(secret@, message@),
        forall|i: int| 0 <= i < sig@.len() ==> sig@[i] != '.',
{
    let key = jsonwebtoken::EncodingKey::from_secret(secret);
    jsonwebtoken::crypto::sign(message.as_bytes(), &key, jsonwebtoken::Algorithm::HS256).unwrap()
}

/// The position of the first '.', if one stands anywhere.
pub open spec fn dot_index(s: Seq<char>) -> Option<int>
    decreases s.len(),
{
    if s.len() == 0 {
        None
    } else if s[0] == '.' {
        Some(0)
    } else {
        match dot_index(s.drop_first()) {
            None => None,
            Some(i) => Some(i + 1),
        }
    }
}

pub proof fn lemma_dot_index(s: Seq<char>)
    ensures
        match dot_index(s) {
            None => forall|i: int| 0 <= i < s.len() ==> s[i] != '.',
            Some(i) => 0 <= i < s.len() && s[i] == '.' && forall|j: int| 0 <= j < i ==> s[j] != '.',
        },
    decreases s.len(),
{
    if s.len() == 0 {
    } else if s[0] == '.' {
    } else {
        let sd = s.drop_first();
        lemma_dot_index(sd);
        assert(forall|i: int| 0 <= i < sd.len() ==> sd[i] == s[i + 1]);
        match dot_index(sd) {
            None => {
                assert forall|i: int| 0 <= i < s.len() implies s[i] != '.' by {
                    if i > 0 {
                        assert(sd[i - 1] != '.');
                    }
                }
            },
            Some(i) => {
                assert(s[i + 1] == '.');
                assert forall|j: int| 0 <= j < i + 1 implies s[j] != '.' by {
                    if j > 0 {
                        assert(sd[j - 1] != '.');
                    }
                }
            },
        }
    }
}

/// The first '.' stands exactly where a dot follows a dot-free prefix.
pub proof fn lemma_dot_index_at(s: Seq<char>, i: int)
    requires
        0 <= i < s.len(),
        s[i] == '.',
        forall|j: int| 0 <= j < i ==> s[j] != '.',
    ensures
        dot_index(s) == Some(i),
{
    lemma_dot_index(s);
    match dot_index(s) {
        None => {
            assert(s[i] != '.');
        },
        Some(d) => {
            if d < i {
                assert(s[d] != '.');
            } else if d > i {
                assert(s[i] != '.');
            }
        },
    }
}

pub proof fn lemma_dot_index_none(s: Seq<char>)
    requires
        forall|j: int| 0 <= j < s.len() ==> s[j] != '.',
    ensures
        dot_index(s) is None,
{
    lemma_dot_index(s);
    if dot_index(s) is Some {
        let i = dot_index(s).unwrap();
        assert(s[i] != '.');
    }
}

/// A token issued for a claims record under a secret.
pub open spec fn spec_token(secret: Seq<u8>, c: ClaimsV) -> Seq<char> {
    hs256_of(secret, encode_claims(c)) + seq!['.'] + encode_claims(c)
}

/// What validation decides for any token text: signature first, independent
/// of the clock; then the grammar and the kind; then, and only then, the
/// expiry window against `now`.
pub open spec fn spec_validate(
    secret: Seq<u8>,
    token: Seq<char>,
    expected: TokenKind,
    now: u64,
) -> Result<ClaimsV, TokenError> {
    match dot_index(token) {
        None => Err(TokenError::Malformed),
        Some(i) => {
            let sig = token.take(i);
            let payload = token.skip(i + 1);
            if sig != hs256_of(secret, payload) {
                Err(TokenError::Malformed)
            } else {
                match spec_parse_claims(payload) {
                    None => Err(TokenError::Malformed),
                    Some(c) => if c.kind != expected {
                        Err(TokenError::Malformed)
                    } else if now < c.expires_at {
                        Ok(c)
                    } else if expected == TokenKind::Access {
                        Err(TokenError::AccessExpired)
                    } else {
                        Err(TokenError::RefreshExpired)
                    },
                }
            }
        },
    }
}

/// A malformed or tampered token is rejected as malformed at every instant:
/// no clock state can mask a signature failure, and no signature failure is
/// ever reported as expiry.
pub proof fn lemma_tamper_independent_of_clock(
    secret: Seq<u8>,
    token: Seq<char>,
    expected: TokenKind,
    now1: u64,
    now2: u64,
)
    ensures
        spec_validate(secret, token, expected, now1) == Err::<ClaimsV, TokenError>(
            TokenError::Malformed,
        ) ==> spec_validate(secret, token, expected, now2) == Err::<ClaimsV, TokenError>(
            TokenError::Malformed,
        ),
{
}

/// Copies a role list; the copy carries the same names.
fn clone_roles(v: &Vec<String>) -> (r: Vec<String>)
    ensures
        r.deep_view() == v.deep_view(),
{
    let mut r: Vec<String> = Vec::new();
    let mut i: usize = 0;
    while i < v.len()
        invariant
            i <= v.len(),
            r@ == v@.take(i as int),
        decreases v.len() - i,
    {
        r.push(v[i].clone());
        proof {
            assert(r@ =~= v@.take(i as int + 1));
        }
        i += 1;
    }
    proof {
        assert(v@.take(v.len() as int) =~= v@);
        assert(r.deep_view() =~= v.deep_view());
    }
    r
}

/// Signs a claims record. The result is the signed claims line, and what
/// validation decides for it is pinned for every instant and expected kind:
/// the right kind validates by the expiry window alone, the wrong kind is
/// malformed.
fn issue_claims(secret: &Vec<u8>, c: &TokenClaims) -> (t: String)
    ensures
        t@ == spec_token(secret@, c@),
        forall|m: u64, k: TokenKind|
            #[trigger] spec_validate(secret@, t@, k, m) == (if k != c@.kind {
                Err::<ClaimsV, TokenError>(TokenError::Malformed)
            } else if m < c@.expires_at {
                Ok::<ClaimsV, TokenError>(c@)
            } else if k == TokenKind::Access {
                Err::<ClaimsV, TokenError>(TokenError::AccessExpired)
            } else {
                Err::<ClaimsV, TokenError>(TokenError::RefreshExpired)
            }),
{
    let payload = c.encode();
    let mut t = hs256_sign(secret.as_slice(), payload.as_str());
    let ghost sig = t@;
    t.append(".");
    t.append(payload.as_str());
    proof {
        reveal_strlit(".");
        assert(t@ =~= spec_token(secret@, c@));
        let i = sig.len() as int;
        assert(t@[i] == '.');
        assert(forall|j: int| 0 <= j < i ==> t@[j] == sig[j]);
        lemma_dot_index_at(t@, i);
        assert(t@.take(i) =~= sig);
        assert(t@.skip(i + 1) =~= payload@);
        lemma_claims_roundtrip(c@);
        assert(spec_parse_claims(payload@) == Some(c@));
    }
    t
}

/// Issues and validates signed tokens for one process-wide secret and fixed
/// lifetimes, the access lifetime short, the refresh lifetime longer.
pub struct TokenService {
    secret: Vec<u8>,
    access_ttl: u64,
    refresh_ttl: u64,
}

impl TokenService {
    /// The signing secret.
    pub closed spec fn secret(&self) -> Seq<u8> {
        self.secret@
    }

    /// Lifetime of an access token, in seconds.
    pub closed spec fn access_ttl(&self) -> u64 {
        self.access_ttl
    }

    /// Lifetime of a refresh token, in seconds.
    pub closed spec fn refresh_ttl(&self) -> u64 {
        self.refresh_ttl
    }

    /// Both lifetimes are positive — a token always expires after it is
    /// issued — and the access lifetime does not exceed the refresh lifetime.
    pub open spec fn wf(&self) -> bool {
        0 < self.access_ttl() <= self.refresh_ttl()
    }

    /// A service over constructor-injected key material and lifetimes.
    pub fn new(secret: Vec<u8>, access_ttl: u64, refresh_ttl: u64) -> (s: Self)
        requires
            0 < access_ttl <= refresh_ttl,
        ensures
            s.wf(),
            s.secret() == secret@,
            s.access_ttl() == access_ttl,
            s.refresh_ttl() == refresh_ttl,
    {
        TokenService { secret, access_ttl, refresh_ttl }
    }

    /// The claims of an access token issued to `id` at `now`.
    pub open spec fn spec_access_claims(&self, id: Identity, now: u64) -> ClaimsV {
        ClaimsV {
            sub: id.id@,
            email: id.email@,
            roles: id.roles.deep_view(),
            issued_at: now,
            expires_at: (now + self.access_ttl()) as u64,
            kind: TokenKind::Access,
        }
    }

    /// The claims of a refresh token issued to `id` at `now`.
    pub open spec fn spec_refresh_claims(&self, id: Identity, now: u64) -> ClaimsV {
        ClaimsV {
            sub: id.id@,
            email: id.email@,
            roles: id.roles.deep_view(),
            issued_at: now,
            expires_at: (now + self.refresh_ttl()) as u64,
            kind: TokenKind::Refresh,
        }
    }

    /// Issues an access token to `id` at `now`. It validates as an access
    /// token for every instant before `now + access_ttl`, fails with
    /// `AccessExpired` from then on, and is malformed as a refresh token.
    pub fn issue_access(&self, id: &Identity, now: u64) -> (t: String)
        requires
            self.wf(),
            now + self.access_ttl() <= u64::MAX,
        ensures
            t@ == spec_token(self.secret(), self.spec_access_claims(*id, now)),
            forall|m: u64|
                #[trigger] spec_validate(self.secret(), t@, TokenKind::Access, m) == (if m < now
                    + self.access_ttl() {
                    Ok::<ClaimsV, TokenError>(self.spec_access_claims(*id, now))
                } else {
                    Err::<ClaimsV, TokenError>(TokenError::AccessExpired)
                }),
            forall|m: u64|
                #[trigger] spec_validate(self.secret(), t@, TokenKind::Refresh, m) == Err::<
                    ClaimsV,
                    TokenError,
                >(TokenError::Malformed),
    {
        let claims = TokenClaims {
            sub: id.id.clone(),
            email: id.email.clone(),
            roles: clone_roles(&id.roles),
            issued_at: now,
            expires_at: now + self.access_ttl,
            kind: TokenKind::Access,
        };
        assert(claims@ =~= self.spec_access_claims(*id, now));
        issue_claims(&self.secret, &claims)
    }

    /// Issues a refresh token to `id` at `now`. It validates as a refresh
    /// token for every instant before `now + refresh_ttl`, fails with
    /// `RefreshExpired` from then on, and is malformed as an access token.
    pub fn issue_refresh(&self, id: &Identity, now: u64) -> (t: String)
        requires
            self.wf(),
            now + self.refresh_ttl() <= u64::MAX,
        ensures
            t@ == spec_token(self.secret(), self.spec_refresh_claims(*id, now)),
            forall|m: u64|
                #[trigger] spec_validate(self.secret(), t@, TokenKind::Refresh, m) == (if m < now
                    + self.refresh_ttl() {
                    Ok::<ClaimsV, TokenError>(self.spec_refresh_claims(*id, now))
                } else {
                    Err::<ClaimsV, TokenError>(TokenError::RefreshExpired)
                }),
            forall|m: u64|
                #[trigger] spec_validate(self.secret(), t@, TokenKind::Access, m) == Err::<
                    ClaimsV,
                    TokenError,
                >(TokenError::Malformed),
    {
        let claims = TokenClaims {
            sub: id.id.clone(),
            email: id.email.clone(),
            roles: clone_roles(&id.roles),
            issued_at: now,
            expires_at: now + self.refresh_ttl,
            kind: TokenKind::Refresh,
        };
        assert(claims@ =~= self.spec_refresh_claims(*id, now));
        issue_claims(&self.secret, &claims)
    }

    /// Validates a token of the expected kind at `now` and rebuilds the
    /// identity it carries. Signature verification comes first and never
    /// reads the clock; expiry is decided only for a well-signed,
    /// well-formed token of the right kind.
    pub fn validate(&self, token: &str, expected: TokenKind, now: u64) -> (r: Result<
        Identity,
        TokenError,
    >)
        ensures
            ({
                let sv = spec_validate(self.secret(), token@, expected, now);
                match r {
                    Ok(id) => {
                        &&& sv is Ok
                        &&& id.id@ == sv.unwrap().sub
                        &&& id.email@ == sv.unwrap().email
                        &&& id.roles.deep_view() == sv.unwrap().roles
                    },
                    Err(e) => sv == Err::<ClaimsV, TokenError>(e),
                }
            }),
    {
        let len = token.unicode_len();
        let mut di: usize = 0;
        let mut found = false;
        while di < len && !found
            invariant
                di <= len,
                len == token@.len(),
                found ==> di < len && token@[di as int] == '.',
                forall|j: int| 0 <= j < di ==> token@[j] != '.',
            decreases len - di, (if found { 0int } else { 1int }),
        {
            if token.get_char(di) == '.' {
                found = true;
            } else {
                di += 1;
            }
        }
        if !found {
            proof {
                lemma_dot_index_none(token@);
            }
            return Err(TokenError::Malformed);
        }
        proof {
            lemma_dot_index_at(token@, di as int);
        }
        let sig = token.substring_char(0, di);
        let payload = token.substring_char(di + 1, len);
        assert(sig@ =~= token@.take(di as int));
        assert(payload@ =~= token@.skip(di as int + 1));
        let expected_sig = hs256_sign(self.secret.as_slice(), payload);
        let sig_owned = sig.to_owned();
        if !(sig_owned == expected_sig) {
            return Err(TokenError::Malformed);
        }
        match TokenClaims::parse(payload) {
            None => Err(TokenError::Malformed),
            Some(c) => {
                if !(c.kind == expected) {
                    Err(TokenError::Malformed)
                } else if now < c.expires_at {
                    Ok(Identity { id: c.sub, email: c.email, roles: c.roles })
                } else if matches!(expected, TokenKind::Access) {
                    Err(TokenError::AccessExpired)
                } else {
                    Err(TokenError::RefreshExpired)
                }
            },
        }
    }
}

} // verus!
