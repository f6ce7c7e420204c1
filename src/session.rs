use vstd::prelude::*;
use crate::auth::{authenticate_user, authenticated, AuthFailure};
use crate::claims::TokenKind;
use crate::models::{RefreshRequest, TokenResponse, User};
use crate::token::{
    generate_tokens_at, issued_pair, unix_now, verified, verify_token_at, ACCESS_TTL, MAX_ISSUE_TIME,
    REFRESH_TTL,
};

verus! {

/// `r` carries the pair issued to `sub` at `now`.
pub open spec fn response_issued(r: TokenResponse, key: Seq<u8>, sub: Seq<char>, now: int) -> bool {
    issued_pair(key, sub, now, r.access_token@, r.refresh_token@)
}

/// `r` is the login outcome at `now` for the record found and the password.
pub open spec fn login_outcome(
    r: Result<TokenResponse, AuthFailure>,
    key: Seq<u8>,
    found: Option<User>,
    password: Seq<char>,
    now: int,
) -> bool {
    match authenticated(found, password) {
        Ok(u) => r matches Ok(t) && response_issued(t, key, u.cpf_cnpj@, now),
        Err(e) => r == Err::<TokenResponse, AuthFailure>(e),
    }
}

/// `r` is the refresh outcome at `now` for the presented refresh token.
pub open spec fn refresh_outcome(r: Option<TokenResponse>, key: Seq<u8>, token: Seq<char>, now: int) -> bool {
    match verified(token, key, TokenKind::Refresh, now) {
        Some(c) => r matches Some(t) && response_issued(t, key, c.sub, now),
        None => r is None,
    }
}

/// The login decision at time `now`: on success, the pair for the record's
/// subject; on failure, the one generic failure.
pub fn login_tokens_at(key: &[u8], found: Option<User>, password: &str, now: i64) -> (r: Result<
    TokenResponse,
    AuthFailure,
>)
    requires
        now <= MAX_ISSUE_TIME,
    ensures
        login_outcome(r, key@, found, password@, now as int),
{
    match authenticate_user(found, password) {
        Ok(u) => {
            let (access_token, refresh_token) = generate_tokens_at(key, u.cpf_cnpj.as_str(), now);
            Ok(TokenResponse { access_token, refresh_token })
        },
        Err(e) => Err(e),
    }
}

/// The refresh decision at time `now`: the token must verify as a refresh
/// token, and the new pair goes to its subject.
pub fn refresh_tokens_at(key: &[u8], req: &RefreshRequest, now: i64) -> (r: Option<TokenResponse>)
    requires
        now <= MAX_ISSUE_TIME,
    ensures
        refresh_outcome(r, key@, req.refresh_token@, now as int),
{
    match verify_token_at(key, req.refresh_token.as_str(), TokenKind::Refresh, now) {
        Some(c) => {
            let (access_token, refresh_token) = generate_tokens_at(key, c.sub.as_str(), now);
            Some(TokenResponse { access_token, refresh_token })
        },
        None => None,
    }
}

/// `login_tokens_at` against the current time.
pub fn login_tokens(key: &[u8], found: Option<User>, password: &str) -> (r: Result<
    TokenResponse,
    AuthFailure,
>)
    ensures
        exists|now: i64|
            -100_000_000_000_000 <= now <= 100_000_000_000_000 && #[trigger] login_outcome(
                r,
                key@,
                found,
                password@,
                now as int,
            ),
{
    let now = unix_now();
    login_tokens_at(key, found, password, now)
}

/// `refresh_tokens_at` against the current time.
pub fn refresh_tokens(key: &[u8], req: &RefreshRequest) -> (r: Option<TokenResponse>)
    ensures
        exists|now: i64|
            -100_000_000_000_000 <= now <= 100_000_000_000_000 && #[trigger] refresh_outcome(
                r,
                key@,
                req.refresh_token@,
                now as int,
            ),
{
    let now = unix_now();
    refresh_tokens_at(key, req, now)
}

/// The token of an `Authorization` header value of the form `Bearer <token>`.
pub fn bearer_token(header: &str) -> (r: Option<String>)
    ensures
        match r {
            Some(t) => header@ == "Bearer "@ + t@,
            None => !(header@.len() >= 7 && header@.take(7) == "Bearer "@),
        },
{
    proof {
        reveal_strlit("Bearer ");
    }
    let cs = crate::text::chars_of(header);
    if !crate::text::has_at(cs.as_slice(), 0, "Bearer ") {
        assert(header@.subrange(0, 7) == header@.take(7));
        return None;
    }
    let rest = vstd::slice::slice_subrange(cs.as_slice(), 7, cs.len());
    let token = crate::text::string_of(rest);
    assert(header@ =~= "Bearer "@ + token@);
    Some(token)
}

/// Presenting the refresh token of a pair issued to `sub`, at any time up to
/// its expiry, yields a new pair whose tokens both verify for `sub` for as
/// long as the new access token lasts.
pub proof fn law_refresh_request_keeps_subject(
    key: Seq<u8>,
    sub: Seq<char>,
    issued_at: i64,
    access: Seq<char>,
    refresh: Seq<char>,
    refreshed_at: i64,
    r: Option<TokenResponse>,
    checked_at: i64,
)
    requires
        issued_at <= MAX_ISSUE_TIME,
        refreshed_at <= MAX_ISSUE_TIME,
        issued_pair(key, sub, issued_at as int, access, refresh),
        refreshed_at <= issued_at + REFRESH_TTL,
        refresh_outcome(r, key, refresh, refreshed_at as int),
        checked_at <= refreshed_at + ACCESS_TTL,
    ensures
        r matches Some(t) && (verified(t.access_token@, key, TokenKind::Access, checked_at as int)
            matches Some(c) && c.sub == sub) && (verified(
            t.refresh_token@,
            key,
            TokenKind::Refresh,
            checked_at as int,
        ) matches Some(c) && c.sub == sub),
{
    crate::token::law_issued_refresh_verifies(key, sub, issued_at, access, refresh, refreshed_at);
    let t = r->0;
    crate::token::law_refresh_keeps_subject(
        key,
        sub,
        issued_at,
        access,
        refresh,
        refreshed_at,
        t.access_token@,
        t.refresh_token@,
        checked_at,
    );
}

} // verus!
