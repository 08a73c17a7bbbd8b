//! Token claims and their codec. A claims record (subject, email, roles,
//! issue and expiry instants, token kind) is written as one line of text: a
//! kind character, two sixteen-digit instants, then each string as a
//! sixteen-digit length followed by its characters. Parsing is proved to
//! invert encoding, and to reject every prefix that does not fit the grammar.

use vstd::prelude::*;
use vstd::string::StrSliceExecFns;
use vstd::string::StringExecFns;

use crate::hexnum::hex16;
use crate::hexnum::hex_value;
use crate::hexnum::is_hex_seq;
use crate::hexnum::lemma_hex_digits_value;
use crate::hexnum::lemma_hex_value_bound;
use crate::hexnum::lemma_pow16_16;
use crate::hexnum::parse_hex16_at;
use crate::hexnum::pow16;
use crate::hexnum::push_hex16;

verus! {

/// Whether a token is a short-lived access credential or a longer-lived
/// refresh credential, single-purpose for the exchange of a new access token.
#[derive(Debug, Clone, Copy, PartialEq, Eq, Structural)]
pub enum TokenKind {
    Access,
    Refresh,
}

/// What a token carries: enough to rebuild the identity without a lookup,
/// plus the expiry window and the kind.
#[derive(Debug, Clone)]
pub struct TokenClaims {
    pub sub: String,
    pub email: String,
    pub roles: Vec<String>,
    pub issued_at: u64,
    pub expires_at: u64,
    pub kind: TokenKind,
}

/// The mathematical content of a claims record.
#[verifier::ext_equal]
pub struct ClaimsV {
    pub sub: Seq<char>,
    pub email: Seq<char>,
    pub roles: Seq<Seq<char>>,
    pub issued_at: u64,
    pub expires_at: u64,
    pub kind: TokenKind,
}

impl View for TokenClaims {
    type V = ClaimsV;

    open spec fn view(&self) -> ClaimsV {
        ClaimsV {
            sub: self.sub@,
            email: self.email@,
            roles: self.roles.deep_view(),
            issued_at: self.issued_at,
            expires_at: self.expires_at,
            kind: self.kind,
        }
    }
}

pub open spec fn kind_char(k: TokenKind) -> char {
    if k == TokenKind::Access {
        'a'
    } else {
        'r'
    }
}

pub open spec fn kind_of_char(c: char) -> Option<TokenKind> {
    if c == 'a' {
        Some(TokenKind::Access)
    } else if c == 'r' {
        Some(TokenKind::Refresh)
    } else {
        None
    }
}

/// Whether every length in the record fits the numeral width. Every record
/// built from executable values is bounded.
pub open spec fn bounded(c: ClaimsV) -> bool {
    &&& c.sub.len() < pow16(16)
    &&& c.email.len() < pow16(16)
    &&& c.roles.len() < pow16(16)
    &&& forall|i: int| 0 <= i < c.roles.len() ==> (#[trigger] c.roles[i]).len() < pow16(16)
}

/// A string field: its length as sixteen digits, then its characters.
pub open spec fn encode_str(s: Seq<char>) -> Seq<char> {
    hex16(s.len() as u64) + s
}

/// The role list, one string field per role, in order.
pub open spec fn encode_roles(rs: Seq<Seq<char>>) -> Seq<char>
    decreases rs.len(),
{
    if rs.len() == 0 {
        Seq::empty()
    } else {
        encode_str(rs.first()) + encode_roles(rs.drop_first())
    }
}

/// The whole claims record as text.
pub open spec fn encode_claims(c: ClaimsV) -> Seq<char> {
    seq![kind_char(c.kind)] + hex16(c.issued_at) + hex16(c.expires_at) + encode_str(c.sub)
        + encode_str(c.email) + hex16(c.roles.len() as u64) + encode_roles(c.roles)
}

/// Reads sixteen digits from the front; what follows is handed back.
pub open spec fn parse_hex16_prefix(s: Seq<char>) -> Option<(u64, Seq<char>)> {
    if s.len() >= 16 && is_hex_seq(s.take(16)) {
        Some(((hex_value(s.take(16)) as u64), s.skip(16)))
    } else {
        None
    }
}

/// Reads one string field from the front.
pub open spec fn parse_str_prefix(s: Seq<char>) -> Option<(Seq<char>, Seq<char>)> {
    match parse_hex16_prefix(s) {
        None => None,
        Some((n, rest)) => if rest.len() >= n as int {
            Some((rest.take(n as int), rest.skip(n as int)))
        } else {
            None
        },
    }
}

/// Reads `count` string fields from the front.
pub open spec fn parse_roles_prefix(s: Seq<char>, count: nat) -> Option<(Seq<Seq<char>>, Seq<char>)>
    decreases count,
{
    if count == 0 {
        Some((Seq::empty(), s))
    } else {
        match parse_str_prefix(s) {
            None => None,
            Some((r, rest)) => match parse_roles_prefix(rest, (count - 1) as nat) {
                None => None,
                Some((rs, rest2)) => Some((seq![r] + rs, rest2)),
            },
        }
    }
}

/// The claims a line of text stands for, if it fits the grammar exactly.
pub open spec fn spec_parse_claims(s: Seq<char>) -> Option<ClaimsV> {
    if s.len() < 1 {
        None
    } else {
        match kind_of_char(s[0]) {
            None => None,
            Some(kind) => match parse_hex16_prefix(s.skip(1)) {
                None => None,
                Some((iat, r1)) => match parse_hex16_prefix(r1) {
                    None => None,
                    Some((exp, r2)) => match parse_str_prefix(r2) {
                        None => None,
                        Some((sub, r3)) => match parse_str_prefix(r3) {
                            None => None,
                            Some((email, r4)) => match parse_hex16_prefix(r4) {
                                None => None,
                                Some((n, r5)) => match parse_roles_prefix(r5, n as nat) {
                                    None => None,
                                    Some((roles, r6)) => if r6.len() == 0 {
                                        Some(
                                            ClaimsV {
                                                sub,
                                                email,
                                                roles,
                                                issued_at: iat,
                                                expires_at: exp,
                                                kind,
                                            },
                                        )
                                    } else {
                                        None
                                    },
                                },
                            },
                        },
                    },
                },
            },
        }
    }
}

pub proof fn lemma_parse_hex16_prefix(n: u64, t: Seq<char>)
    ensures
        parse_hex16_prefix(hex16(n) + t) == Some((n, t)),
{
    lemma_pow16_16();
    lemma_hex_digits_value(n as nat, 16);
    let s = hex16(n) + t;
    assert(s.take(16) =~= hex16(n));
    assert(s.skip(16) =~= t);
}

pub proof fn lemma_parse_str_prefix(s: Seq<char>, t: Seq<char>)
    requires
        s.len() < pow16(16),
    ensures
        parse_str_prefix(encode_str(s) + t) == Some((s, t)),
{
    lemma_pow16_16();
    let n = s.len() as u64;
    assert(encode_str(s) + t =~= hex16(n) + (s + t));
    lemma_parse_hex16_prefix(n, s + t);
    assert((s + t).take(n as int) =~= s);
    assert((s + t).skip(n as int) =~= t);
}

pub proof fn lemma_parse_roles_prefix(rs: Seq<Seq<char>>, t: Seq<char>)
    requires
        forall|i: int| 0 <= i < rs.len() ==> (#[trigger] rs[i]).len() < pow16(16),
    ensures
        parse_roles_prefix(encode_roles(rs) + t, rs.len()) == Some((rs, t)),
    decreases rs.len(),
{
    if rs.len() == 0 {
        assert(encode_roles(rs) + t =~= t);
    } else {
        let rest_rs = rs.drop_first();
        assert(encode_roles(rs) + t =~= encode_str(rs.first()) + (encode_roles(rest_rs) + t));
        lemma_parse_str_prefix(rs.first(), encode_roles(rest_rs) + t);
        assert(forall|i: int|
            0 <= i < rest_rs.len() ==> (#[trigger] rest_rs[i]).len() < pow16(16)) by {
            assert(forall|i: int| 0 <= i < rest_rs.len() ==> rest_rs[i] == rs[i + 1]);
        }
        lemma_parse_roles_prefix(rest_rs, t);
        assert(seq![rs.first()] + rest_rs =~= rs);
    }
}

/// Encoding then parsing a bounded claims record gives the record back.
pub proof fn lemma_claims_roundtrip(c: ClaimsV)
    requires
        bounded(c),
    ensures
        spec_parse_claims(encode_claims(c)) == Some(c),
{
    lemma_pow16_16();
    let enc = encode_claims(c);
    let tail_roles: Seq<char> = Seq::empty();
    let part_count = hex16(c.roles.len() as u64) + (encode_roles(c.roles) + tail_roles);
    let part_email = encode_str(c.email) + part_count;
    let part_sub = encode_str(c.sub) + part_email;
    let part_exp = hex16(c.expires_at) + part_sub;
    let part_iat = hex16(c.issued_at) + part_exp;
    assert(enc.len() >= 1);
    assert(enc[0] == kind_char(c.kind));
    assert(kind_of_char(kind_char(c.kind)) == Some(c.kind));
    assert(enc.skip(1) =~= part_iat);
    lemma_parse_hex16_prefix(c.issued_at, part_exp);
    lemma_parse_hex16_prefix(c.expires_at, part_sub);
    lemma_parse_str_prefix(c.sub, part_email);
    lemma_parse_str_prefix(c.email, part_count);
    lemma_parse_hex16_prefix(c.roles.len() as u64, encode_roles(c.roles) + tail_roles);
    lemma_parse_roles_prefix(c.roles, tail_roles);
    let parsed = spec_parse_claims(enc);
    assert(parsed is Some);
    assert(parsed.unwrap() =~= c);
}

/// `encode_roles` grows by one field when one role is appended.
pub proof fn lemma_encode_roles_snoc(rs: Seq<Seq<char>>, r: Seq<char>)
    ensures
        encode_roles(rs.push(r)) == encode_roles(rs) + encode_str(r),
    decreases rs.len(),
{
    if rs.len() == 0 {
        assert(rs.push(r).first() == r);
        assert(rs.push(r).drop_first() =~= Seq::<Seq<char>>::empty());
        assert(encode_roles(Seq::<Seq<char>>::empty()) == Seq::<char>::empty());
        assert(encode_roles(rs.push(r)) == encode_str(r) + Seq::<char>::empty());
        assert(encode_str(r) + Seq::<char>::empty() =~= Seq::<char>::empty() + encode_str(r));
    } else {
        assert(rs.push(r).first() == rs.first());
        assert(rs.push(r).drop_first() =~= rs.drop_first().push(r));
        lemma_encode_roles_snoc(rs.drop_first(), r);
        assert(encode_roles(rs.push(r)) == encode_str(rs.first()) + encode_roles(
            rs.drop_first().push(r),
        ));
        assert(encode_roles(rs) == encode_str(rs.first()) + encode_roles(rs.drop_first()));
        assert(encode_str(rs.first()) + (encode_roles(rs.drop_first()) + encode_str(r)) =~= (
        encode_str(rs.first()) + encode_roles(rs.drop_first())) + encode_str(r));
    }
}

/// Appends one string field: its character count as sixteen digits, then the
/// string itself.
fn push_str_field(out: &mut String, s: &str)
    ensures
        final(out)@ == old(out)@ + encode_str(s@),
        s@.len() < pow16(16),
{
    proof {
        lemma_pow16_16();
    }
    let n = s.unicode_len();
    push_hex16(out, n as u64);
    out.append(s);
    assert(out@ =~= old(out)@ + encode_str(s@));
}

impl TokenClaims {
    /// Writes this record in the claims grammar. Every executable record is
    /// bounded, which the caller needs to apply the round trip.
    pub fn encode(&self) -> (out: String)
        ensures
            out@ == encode_claims(self@),
            bounded(self@),
    {
        proof {
            lemma_pow16_16();
        }
        let ghost head = seq![kind_char(self.kind)] + hex16(self.issued_at) + hex16(
            self.expires_at,
        ) + encode_str(self.sub@) + encode_str(self.email@) + hex16(
            self.roles.len() as u64,
        );
        let mut out = String::new();
        match self.kind {
            TokenKind::Access => out.append("a"),
            TokenKind::Refresh => out.append("r"),
        }
        proof {
            reveal_strlit("a");
            reveal_strlit("r");
            assert(out@ =~= seq![kind_char(self.kind)]);
        }
        push_hex16(&mut out, self.issued_at);
        push_hex16(&mut out, self.expires_at);
        push_str_field(&mut out, self.sub.as_str());
        push_str_field(&mut out, self.email.as_str());
        push_hex16(&mut out, self.roles.len() as u64);
        assert(out@ =~= head);
        let ghost rviews = self.roles.deep_view();
        let mut i: usize = 0;
        while i < self.roles.len()
            invariant
                i <= self.roles.len(),
                rviews == self.roles.deep_view(),
                out@ == head + encode_roles(rviews.take(i as int)),
                forall|j: int| 0 <= j < i ==> (#[trigger] rviews[j]).len() < pow16(16),
            decreases self.roles.len() - i,
        {
            push_str_field(&mut out, self.roles[i].as_str());
            proof {
                assert(rviews.take(i as int).push(rviews[i as int]) =~= rviews.take(i as int + 1));
                lemma_encode_roles_snoc(rviews.take(i as int), rviews[i as int]);
                assert(out@ =~= head + encode_roles(rviews.take(i as int + 1)));
            }
            i += 1;
        }
        proof {
            assert(rviews.take(rviews.len() as int) =~= rviews);
            assert(out@ =~= encode_claims(self@));
        }
        out
    }
}

/// Reads one string field standing at `pos`; on success the field's text and
/// the position just past it.
fn read_str_at(payload: &str, len: usize, pos: usize) -> (r: Option<(String, usize)>)
    requires
        len == payload@.len(),
        pos <= len,
    ensures
        ({
            let sp = parse_str_prefix(payload@.skip(pos as int));
            match r {
                None => sp is None,
                Some((v, newpos)) => {
                    &&& sp is Some
                    &&& v@ == sp.unwrap().0
                    &&& pos <= newpos <= len
                    &&& payload@.skip(newpos as int) == sp.unwrap().1
                },
            }
        }),
{
    let ghost tail = payload@.skip(pos as int);
    if len - pos < 16 {
        return None;
    }
    assert(tail.take(16) =~= payload@.subrange(pos as int, pos as int + 16));
    let n = match parse_hex16_at(payload, pos) {
        None => {
            return None;
        },
        Some(n) => n,
    };
    proof {
        lemma_hex_value_bound(tail.take(16));
        lemma_pow16_16();
    }
    let rem = len - (pos + 16);
    assert(tail.skip(16) =~= payload@.skip(pos as int + 16));
    if n > rem as u64 {
        return None;
    }
    let n_us = n as usize;
    let field = payload.substring_char(pos + 16, pos + 16 + n_us).to_owned();
    let newpos = pos + 16 + n_us;
    proof {
        assert(tail.skip(16).take(n as int) =~= payload@.subrange(
            pos as int + 16,
            pos as int + 16 + n as int,
        ));
        assert(tail.skip(16).skip(n as int) =~= payload@.skip(newpos as int));
    }
    Some((field, newpos))
}

impl TokenClaims {
    /// Reads a whole line of the claims grammar; `None` exactly when the text
    /// does not fit it.
    #[verifier::loop_isolation(false)]
    pub fn parse(payload: &str) -> (r: Option<TokenClaims>)
        ensures
            r is Some <==> spec_parse_claims(payload@) is Some,
            r is Some ==> r.unwrap()@ == spec_parse_claims(payload@).unwrap(),
    {
        let len = payload.unicode_len();
        if len < 1 {
            return None;
        }
        let kc = payload.get_char(0);
        let kind = match kc {
            'a' => TokenKind::Access,
            'r' => TokenKind::Refresh,
            _ => {
                return None;
            },
        };
        assert(kind_of_char(payload@[0]) == Some(kind));
        let mut pos: usize = 1;
        if len - pos < 16 {
            assert(payload@.skip(1).len() < 16);
            return None;
        }
        assert(payload@.skip(1).take(16) =~= payload@.subrange(1, 17));
        let iat = match parse_hex16_at(payload, pos) {
            None => {
                return None;
            },
            Some(v) => v,
        };
        proof {
            lemma_hex_value_bound(payload@.skip(1).take(16));
            lemma_pow16_16();
            assert(payload@.skip(1).skip(16) =~= payload@.skip(17));
        }
        pos = 17;
        let ghost r1 = payload@.skip(17);
        if len - pos < 16 {
            return None;
        }
        assert(r1.take(16) =~= payload@.subrange(17, 33));
        let exp = match parse_hex16_at(payload, pos) {
            None => {
                return None;
            },
            Some(v) => v,
        };
        proof {
            lemma_hex_value_bound(r1.take(16));
            assert(r1.skip(16) =~= payload@.skip(33));
        }
        pos = 33;
        let (sub, pos2) = match read_str_at(payload, len, pos) {
            None => {
                return None;
            },
            Some(v) => v,
        };
        let (email, pos3) = match read_str_at(payload, len, pos2) {
            None => {
                return None;
            },
            Some(v) => v,
        };
        pos = pos3;
        let ghost r4 = payload@.skip(pos3 as int);
        if len - pos < 16 {
            return None;
        }
        assert(r4.take(16) =~= payload@.subrange(pos as int, pos as int + 16));
        let count = match parse_hex16_at(payload, pos) {
            None => {
                return None;
            },
            Some(v) => v,
        };
        proof {
            lemma_hex_value_bound(r4.take(16));
            assert(r4.skip(16) =~= payload@.skip(pos as int + 16));
        }
        pos = pos + 16;
        let ghost r5 = payload@.skip(pos as int);
        let ghost whole = parse_roles_prefix(r5, count as nat);
        let mut roles: Vec<String> = Vec::new();
        let mut k: u64 = 0;
        proof {
            assert(roles.deep_view() =~= Seq::<Seq<char>>::empty());
            if whole is Some {
                assert(whole.unwrap().0 =~= roles.deep_view() + whole.unwrap().0);
            }
        }
        while k < count
            invariant
                k <= count,
                len == payload@.len(),
                pos <= len,
                whole == parse_roles_prefix(r5, count as nat),
                whole is Some <==> parse_roles_prefix(payload@.skip(pos as int), (count - k) as nat)
                    is Some,
                whole is Some ==> ({
                    let cur = parse_roles_prefix(
                        payload@.skip(pos as int),
                        (count - k) as nat,
                    ).unwrap();
                    whole.unwrap().1 == cur.1 && whole.unwrap().0 =~= roles.deep_view() + cur.0
                }),
            decreases count - k,
        {
            let ghost m = (count - k) as nat;
            let ghost here = payload@.skip(pos as int);
            let (role, newpos) = match read_str_at(payload, len, pos) {
                None => {
                    assert(parse_roles_prefix(here, m) is None);
                    return None;
                },
                Some(v) => v,
            };
            let ghost old_roles = roles.deep_view();
            roles.push(role);
            proof {
                let sp = parse_str_prefix(here).unwrap();
                let next = payload@.skip(newpos as int);
                assert(sp.1 == next);
                assert(roles.deep_view() =~= old_roles.push(role@));
                assert(role@ == sp.0);
                let curnext = parse_roles_prefix(next, (m - 1) as nat);
                if curnext is Some {
                    assert(parse_roles_prefix(here, m) == Some(
                        (seq![sp.0] + curnext.unwrap().0, curnext.unwrap().1),
                    ));
                    assert(old_roles + (seq![sp.0] + curnext.unwrap().0) =~= old_roles.push(sp.0)
                        + curnext.unwrap().0);
                    if whole is Some {
                        assert(whole.unwrap().0 =~= roles.deep_view() + curnext.unwrap().0);
                    }
                } else {
                    assert(parse_roles_prefix(here, m) is None);
                }
            }
            pos = newpos;
            k = k + 1;
        }
        proof {
            assert(parse_roles_prefix(payload@.skip(pos as int), 0) == Some(
                (Seq::<Seq<char>>::empty(), payload@.skip(pos as int)),
            ));
            if whole is Some {
                assert(whole.unwrap().0 =~= roles.deep_view() + Seq::<Seq<char>>::empty());
                assert(whole.unwrap().0 =~= roles.deep_view());
                assert(whole.unwrap().1 == payload@.skip(pos as int));
            }
        }
        if pos != len {
            assert(payload@.skip(pos as int).len() != 0);
            return None;
        }
        assert(payload@.skip(pos as int).len() == 0);
        let result = TokenClaims {
            sub,
            email,
            roles,
            issued_at: iat,
            expires_at: exp,
            kind,
        };
        assert(result@ =~= spec_parse_claims(payload@).unwrap());
        Some(result)
    }
}

} // verus!
