use vstd::prelude::*;
use crate::claims::{claims_text, read_claims, read_claims_text, write_claims, Claims, ClaimsView, TokenKind};

verus! {

/// Lifetime of an access token, in seconds (one hour).
pub const ACCESS_TTL: i64 = 3600;

/// Lifetime of a refresh token, in seconds (thirty days).
pub const REFRESH_TTL: i64 = 2592000;

/// Latest issue time whose refresh expiry still fits in an `i64`.
pub const MAX_ISSUE_TIME: i64 = 9223372036852183807;

/// The compact HS256 token that jsonwebtoken makes of a claims JSON text and a key.
pub uninterp spec fn jwt_hs256_token(claims_json: Seq<char>, key: Seq<u8>) -> Seq<char>;

/// The claims JSON text that jsonwebtoken finds in a token whose HS256
/// signature checks out under `key`; `None` for anything else.
pub uninterp spec fn jwt_hs256_claims(token: Seq<char>, key: Seq<u8>) -> Option<Seq<char>>;

/// Relies on `serde_json::value::RawValue::from_string` and `jsonwebtoken::encode`
/// with an HS256 header: the claims text is valid JSON, so it is carried
/// verbatim as the token's payload, and HMAC signing cannot fail; decoding the
/// token with the same key gives the text back unchanged.
#[verifier::external_body]
fn jwt_sign(claims_json: String, key: &[u8]) -> (r: Option<String>)
    requires
        exists|c: ClaimsView| claims_json@ == claims_text(c),
    ensures
        r is Some,
        r matches Some(t) ==> t@ == jwt_hs256_token(claims_json@, key@),
        r matches Some(t) ==> jwt_hs256_claims(t@, key@) == Some(claims_json@),
{
    match serde_json::value::RawValue::from_string(claims_json) {
        Ok(raw) => jsonwebtoken::encode(
            &jsonwebtoken::Header::new(jsonwebtoken::Algorithm::HS256),
            &raw,
            &jsonwebtoken::EncodingKey::from_secret(key),
        ).ok(),
        Err(_) => None,
    }
}

/// Relies on `jsonwebtoken::decode` with HS256 as the only algorithm and the
/// signature checked; its own expiry and required-claim checks are off (the
/// caller decides expiry), so the outcome depends on the token and key alone.
#[verifier::external_body]
fn jwt_open(token: &str, key: &[u8]) -> (r: Option<String>)
    ensures
        match r {
            Some(p) => jwt_hs256_claims(token@, key@) == Some(p@),
            None => jwt_hs256_claims(token@, key@) is None,
        },
{
    let mut validation = jsonwebtoken::Validation::new(jsonwebtoken::Algorithm::HS256);
    validation.validate_exp = false;
    validation.required_spec_claims.clear();
    let key = jsonwebtoken::DecodingKey::from_secret(key);
    match jsonwebtoken::decode::<Box<serde_json::value::RawValue>>(token, &key, &validation) {
        Ok(data) => Some(data.claims.get().to_string()),
        Err(_) => None,
    }
}

/// Relies on `time::OffsetDateTime::now_utc` and `unix_timestamp`: the current
/// Unix time in seconds; `time` keeps years within ±999 999, far inside the bound.
#[verifier::external_body]
pub(crate) fn unix_now() -> (r: i64)
    ensures
        -100_000_000_000_000 <= r <= 100_000_000_000_000,
{
    time::OffsetDateTime::now_utc().unix_timestamp()
}

/// `t` is the token signed with `key` over the claim set `c`.
pub open spec fn signed(t: Seq<char>, key: Seq<u8>, c: ClaimsView) -> bool {
    &&& t == jwt_hs256_token(claims_text(c), key)
    &&& jwt_hs256_claims(t, key) == Some(claims_text(c))
}

/// `access` and `refresh` are the pair issued to `sub` at time `now`.
pub open spec fn issued_pair(
    key: Seq<u8>,
    sub: Seq<char>,
    now: int,
    access: Seq<char>,
    refresh: Seq<char>,
) -> bool {
    &&& signed(
        access,
        key,
        ClaimsView { sub, exp: (now + ACCESS_TTL) as i64, kind: TokenKind::Access },
    )
    &&& signed(
        refresh,
        key,
        ClaimsView { sub, exp: (now + REFRESH_TTL) as i64, kind: TokenKind::Refresh },
    )
}

/// The claim set that a claims text yields for `kind` at time `now`: it must
/// parse, be unexpired (its expiry not in the past, `now <= exp`) and be of
/// that kind.
pub open spec fn accepted_claims(claims_json: Seq<char>, kind: TokenKind, now: int) -> Option<
    ClaimsView,
> {
    match read_claims(claims_json) {
        Some(c) => if now <= c.exp && c.kind == kind {
            Some(c)
        } else {
            None
        },
        None => None,
    }
}

/// What verifying `token` for `kind` at time `now` yields.
pub open spec fn verified(token: Seq<char>, key: Seq<u8>, kind: TokenKind, now: int) -> Option<
    ClaimsView,
> {
    match jwt_hs256_claims(token, key) {
        Some(p) => accepted_claims(p, kind, now),
        None => None,
    }
}

pub open spec fn claims_view(r: Option<Claims>) -> Option<ClaimsView> {
    match r {
        Some(c) => Some(c@),
        None => None,
    }
}

/// Encodes a claim set as a signed token.
pub fn encode_jwt(claims: &Claims, key: &[u8]) -> (r: String)
    ensures
        signed(r@, key@, claims@),
{
    let text = write_claims(claims);
    jwt_sign(text, key).unwrap()
}

/// Checks a decoded claims text: it must be in the claim-set form, unexpired
/// at `now`, and of the expected kind.
pub fn check_claims(claims_json: &str, kind: TokenKind, now: i64) -> (r: Option<Claims>)
    ensures
        claims_view(r) == accepted_claims(claims_json@, kind, now as int),
{
    match read_claims_text(claims_json) {
        Some(c) => {
            if now <= c.exp && c.kind == kind {
                Some(c)
            } else {
                None
            }
        },
        None => None,
    }
}

/// Issues the access/refresh pair for subject `pk` at Unix time `now`.
pub fn generate_tokens_at(key: &[u8], pk: &str, now: i64) -> (r: (String, String))
    requires
        now <= MAX_ISSUE_TIME,
    ensures
        issued_pair(key@, pk@, now as int, r.0@, r.1@),
{
    let access = Claims { sub: pk.to_string(), exp: now + ACCESS_TTL, kind: TokenKind::Access };
    let refresh = Claims { sub: pk.to_string(), exp: now + REFRESH_TTL, kind: TokenKind::Refresh };
    (encode_jwt(&access, key), encode_jwt(&refresh, key))
}

/// Issues the access/refresh pair for subject `pk`, expiring one hour and
/// thirty days from now.
pub fn generate_tokens(key: &[u8], pk: &str) -> (r: (String, String))
    ensures
        exists|now: i64|
            -100_000_000_000_000 <= now <= 100_000_000_000_000 && #[trigger] issued_pair(
                key@,
                pk@,
                now as int,
                r.0@,
                r.1@,
            ),
{
    let now = unix_now();
    generate_tokens_at(key, pk, now)
}

/// Verifies `tok` for `kind` at Unix time `now`: signature, expiry and kind.
pub fn verify_token_at(key: &[u8], tok: &str, kind: TokenKind, now: i64) -> (r: Option<Claims>)
    ensures
        claims_view(r) == verified(tok@, key@, kind, now as int),
        r matches Some(c) ==> now <= c.exp && c.kind == kind,
{
    match jwt_open(tok, key) {
        Some(p) => check_claims(p.as_str(), kind, now),
        None => None,
    }
}

/// Verifies `tok` for `kind` against the current time.
pub fn verify_token(key: &[u8], tok: &str, kind: TokenKind) -> (r: Option<Claims>)
    ensures
        exists|now: i64|
            -100_000_000_000_000 <= now <= 100_000_000_000_000 && claims_view(r) == #[trigger] verified(
                tok@,
                key@,
                kind,
                now as int,
            ),
        r matches Some(c) ==> c.kind == kind,
{
    let now = unix_now();
    verify_token_at(key, tok, kind, now)
}

/// A freshly issued access token verifies as an access token for its
/// subject up to and including its expiry second, and never verifies as a
/// refresh token.
pub proof fn law_issued_access_verifies(
    key: Seq<u8>,
    sub: Seq<char>,
    now: i64,
    access: Seq<char>,
    refresh: Seq<char>,
    later: i64,
)
    requires
        now <= MAX_ISSUE_TIME,
        issued_pair(key, sub, now as int, access, refresh),
        later <= now + ACCESS_TTL,
    ensures
        verified(access, key, TokenKind::Access, later as int) == Some(
            ClaimsView { sub, exp: (now + ACCESS_TTL) as i64, kind: TokenKind::Access },
        ),
        verified(access, key, TokenKind::Refresh, later as int) is None,
{
    crate::claims::lemma_claims_round_trip(
        ClaimsView { sub, exp: (now + ACCESS_TTL) as i64, kind: TokenKind::Access },
    );
}

/// A token whose expiry is in the past at `now` never verifies, whatever its
/// signature: every accepted claim set expires at or after `now`.
pub proof fn law_expired_never_verifies(key: Seq<u8>, token: Seq<char>, kind: TokenKind, now: int)
    ensures
        verified(token, key, kind, now) matches Some(c) ==> now <= c.exp,
        jwt_hs256_claims(token, key) matches Some(p) ==> (read_claims(p) matches Some(c) && c.exp
            < now ==> verified(token, key, kind, now) is None),
{
}

/// A token verifies only if what its signature covers is exactly the
/// canonical text of the claims it yields.
pub proof fn law_verified_claims_are_canonical(key: Seq<u8>, token: Seq<char>, kind: TokenKind, now: int)
    requires
        verified(token, key, kind, now) is Some,
    ensures
        jwt_hs256_claims(token, key) == Some(claims_text(verified(token, key, kind, now)->0)),
{
    crate::claims::lemma_claims_canonical(jwt_hs256_claims(token, key)->0);
}

/// A freshly issued refresh token verifies as a refresh token, with its
/// subject, kind and expiry, up to and including its expiry second, and never
/// verifies as an access token.
pub proof fn law_issued_refresh_verifies(
    key: Seq<u8>,
    sub: Seq<char>,
    now: i64,
    access: Seq<char>,
    refresh: Seq<char>,
    later: i64,
)
    requires
        now <= MAX_ISSUE_TIME,
        issued_pair(key, sub, now as int, access, refresh),
        later <= now + REFRESH_TTL,
    ensures
        verified(refresh, key, TokenKind::Refresh, later as int) == Some(
            ClaimsView { sub, exp: (now + REFRESH_TTL) as i64, kind: TokenKind::Refresh },
        ),
        verified(refresh, key, TokenKind::Access, later as int) is None,
{
    crate::claims::lemma_claims_round_trip(
        ClaimsView { sub, exp: (now + REFRESH_TTL) as i64, kind: TokenKind::Refresh },
    );
}

/// Refreshing with the refresh token of a pair issued to `sub` (at any time
/// up to its expiry) yields a pair whose access and refresh tokens both
/// verify for `sub` again.
pub proof fn law_refresh_keeps_subject(
    key: Seq<u8>,
    sub: Seq<char>,
    issued_at: i64,
    access: Seq<char>,
    refresh: Seq<char>,
    refreshed_at: i64,
    access2: Seq<char>,
    refresh2: Seq<char>,
    checked_at: i64,
)
    requires
        issued_at <= MAX_ISSUE_TIME,
        refreshed_at <= MAX_ISSUE_TIME,
        issued_pair(key, sub, issued_at as int, access, refresh),
        refreshed_at <= issued_at + REFRESH_TTL,
        verified(refresh, key, TokenKind::Refresh, refreshed_at as int) matches Some(c)
            && issued_pair(key, c.sub, refreshed_at as int, access2, refresh2),
        checked_at <= refreshed_at + ACCESS_TTL,
    ensures
        verified(refresh, key, TokenKind::Refresh, refreshed_at as int) is Some,
        verified(access2, key, TokenKind::Access, checked_at as int) matches Some(c2) && c2.sub
            == sub,
        verified(refresh2, key, TokenKind::Refresh, checked_at as int) matches Some(c3) && c3.sub
            == sub,
{
    law_issued_refresh_verifies(key, sub, issued_at, access, refresh, refreshed_at);
    law_issued_access_verifies(key, sub, refreshed_at, access2, refresh2, checked_at);
    law_issued_refresh_verifies(key, sub, refreshed_at, access2, refresh2, checked_at);
}

} // verus!
