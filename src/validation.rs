use vstd::prelude::*;
use crate::decimal::all_digits;
use crate::models::{parse_role, role_of, CreateUser, LoginRequest};
use crate::text::{blank, is_blank, only_ascii_digits};
use vstd::utf8::encode_utf8;

verus! {

/// One rule violation: the field, the rule's stable code, and a message for people.
#[derive(Debug)]
pub struct ValidationError {
    pub field: &'static str,
    pub code: &'static str,
    pub message: String,
}

/// The mathematical value of a rule violation.
pub struct ErrorView {
    pub field: Seq<char>,
    pub code: Seq<char>,
    pub message: Seq<char>,
}

impl View for ValidationError {
    type V = ErrorView;

    open spec fn view(&self) -> ErrorView {
        ErrorView { field: self.field@, code: self.code@, message: self.message@ }
    }
}

pub open spec fn errors_view(v: Seq<ValidationError>) -> Seq<ErrorView> {
    v.map_values(|e: ValidationError| e@)
}

pub open spec fn verr(field: &str, code: &str, message: &str) -> ErrorView {
    ErrorView { field: field@, code: code@, message: message@ }
}

/// `e` when `cond` holds, nothing otherwise.
pub open spec fn error_if(cond: bool, e: ErrorView) -> Seq<ErrorView> {
    if cond {
        seq![e]
    } else {
        seq![]
    }
}

pub const NAME: &'static str = "name";
pub const EMAIL: &'static str = "email";
pub const PASSWORD: &'static str = "password";
pub const CPF_CNPJ: &'static str = "cpf_cnpj";
pub const ROLE: &'static str = "role";

pub const RN0001: &'static str = "RN0001";
pub const RN0002: &'static str = "RN0002";
pub const RN0003: &'static str = "RN0003";
pub const RN0004: &'static str = "RN0004";
pub const RN0005: &'static str = "RN0005";

/// A mandatory field is empty.
pub const MSG_MISSING: &'static str = "Preencha todos os campos obrigatórios.";
/// A field is malformed.
pub const MSG_MALFORMED: &'static str = "Um campo não foi preenchido corretamente.";
/// The email already belongs to a stored record.
pub const MSG_EMAIL_TAKEN: &'static str = "E-mail já está cadastrado no sistema.";
/// A login field is malformed.
pub const MSG_BAD_CREDENTIALS: &'static str = "Credenciais inválidas.";

/// Letters (accents included) and white space only.
pub const NAME_PATTERN: &'static str = "^[A-Za-zÀ-ÖØ-öø-ÿ\\s]+$";
/// `local@domain.com` or `local@domain.br`.
pub const EMAIL_PATTERN: &'static str = "^[^@\\s]+@[^@\\s]+\\.(com|br)$";
/// Exactly eleven (CPF) or fourteen (CNPJ) digits.
pub const CPF_CNPJ_PATTERN: &'static str = "^\\d{11}$|^\\d{14}$";

/// What the regex crate answers for `pattern` on `text`: whether it matches,
/// or `None` when the pattern does not compile.
pub uninterp spec fn regex_match(pattern: Seq<char>, text: Seq<char>) -> Option<bool>;

/// Relies on `regex::Regex::new` and `Regex::is_match`.
#[verifier::external_body]
fn regex_is_match(pattern: &str, text: &str) -> (r: Option<bool>)
    ensures
        r == regex_match(pattern@, text@),
{
    match regex::Regex::new(pattern) {
        Ok(re) => Some(re.is_match(text)),
        Err(_) => None,
    }
}

/// `text` matches `pattern` (a pattern that does not compile matches nothing).
pub open spec fn matches_pattern(pattern: &str, text: Seq<char>) -> bool {
    regex_match(pattern@, text) == Some(true)
}

fn pattern_matches(pattern: &str, text: &str) -> (b: bool)
    ensures
        b == matches_pattern(pattern, text@),
{
    match regex_is_match(pattern, text) {
        Some(b) => b,
        None => false,
    }
}

/// Too short (under eight bytes of UTF-8, as `str::len` counts them) or
/// digits only.
pub open spec fn weak_password(p: Seq<char>) -> bool {
    (encode_utf8(p).len() as usize) < 8 || all_digits(p)
}

fn is_weak_password(p: &str) -> (b: bool)
    ensures
        b == weak_password(p@),
{
    p.len() < 8 || only_ascii_digits(p)
}

pub(crate) fn error(field: &'static str, code: &'static str, message: &str) -> (e: ValidationError)
    ensures
        e@ == verr(field, code, message),
{
    ValidationError { field, code, message: message.to_string() }
}

/// Appends the error when `cond` holds.
pub(crate) fn push_when(
    errors: &mut Vec<ValidationError>,
    cond: bool,
    field: &'static str,
    code: &'static str,
    message: &str,
)
    ensures
        errors_view(final(errors)@) == errors_view(old(errors)@) + error_if(
            cond,
            verr(field, code, message),
        ),
{
    if cond {
        let e = error(field, code, message);
        errors.push(e);
        assert(errors_view(errors@) =~= errors_view(old(errors)@) + error_if(cond, verr(field, code, message)));
    } else {
        assert(errors_view(errors@) =~= errors_view(old(errors)@) + error_if(cond, verr(field, code, message)));
    }
}

/// The identifier is absent or blank.
pub open spec fn id_missing(id: Option<String>) -> bool {
    match id {
        Some(s) => is_blank(s@),
        None => true,
    }
}

pub open spec fn id_text(id: Option<String>) -> Seq<char> {
    match id {
        Some(s) => s@,
        None => seq![],
    }
}

/// Presence failures of a registration, in field order.
pub open spec fn missing_user_fields(p: CreateUser) -> Seq<ErrorView> {
    error_if(is_blank(p.name@), verr(NAME, RN0001, MSG_MISSING)) + error_if(
        is_blank(p.email@),
        verr(EMAIL, RN0002, MSG_MISSING),
    ) + error_if(is_blank(p.password@), verr(PASSWORD, RN0003, MSG_MISSING)) + error_if(
        id_missing(p.cpf_cnpj),
        verr(CPF_CNPJ, RN0004, MSG_MISSING),
    )
}

/// The errors of a registration, given what the patterns say of its name,
/// email and identifier and whether its email is already stored: presence
/// failures alone if there are any; else the format failures in field order
/// (a role other than `customer` or `provider` is one), then the email conflict (looked at only for a well-formed email).
pub open spec fn user_errors_spec(
    p: CreateUser,
    name_ok: bool,
    email_ok: bool,
    id_ok: bool,
    email_taken: bool,
) -> Seq<ErrorView> {
    let missing = missing_user_fields(p);
    if missing.len() > 0 {
        missing
    } else {
        error_if(!name_ok, verr(NAME, RN0001, MSG_MALFORMED)) + error_if(
            !email_ok,
            verr(EMAIL, RN0002, MSG_MALFORMED),
        ) + error_if(weak_password(p.password@), verr(PASSWORD, RN0003, MSG_MALFORMED)) + error_if(
            role_of(p.role@) is None,
            verr(ROLE, RN0005, MSG_MALFORMED),
        ) + error_if(
            !id_ok,
            verr(CPF_CNPJ, RN0004, MSG_MALFORMED),
        ) + error_if(email_ok && email_taken, verr(EMAIL, RN0002, MSG_EMAIL_TAKEN))
    }
}

/// The errors of a registration, with the pattern checks done by the regex crate.
pub open spec fn user_payload_errors(p: CreateUser, email_taken: bool) -> Seq<ErrorView> {
    user_errors_spec(
        p,
        matches_pattern(NAME_PATTERN, p.name@),
        matches_pattern(EMAIL_PATTERN, p.email@),
        matches_pattern(CPF_CNPJ_PATTERN, id_text(p.cpf_cnpj)),
        email_taken,
    )
}

fn missing_user_errors(payload: &CreateUser) -> (r: Vec<ValidationError>)
    ensures
        errors_view(r@) == missing_user_fields(*payload),
{
    let mut errors: Vec<ValidationError> = Vec::new();
    assert(errors_view(errors@) =~= Seq::<ErrorView>::empty());
    push_when(&mut errors, blank(payload.name.as_str()), NAME, RN0001, MSG_MISSING);
    push_when(&mut errors, blank(payload.email.as_str()), EMAIL, RN0002, MSG_MISSING);
    push_when(&mut errors, blank(payload.password.as_str()), PASSWORD, RN0003, MSG_MISSING);
    let id_absent = match &payload.cpf_cnpj {
        Some(s) => blank(s.as_str()),
        None => true,
    };
    push_when(&mut errors, id_absent, CPF_CNPJ, RN0004, MSG_MISSING);
    assert(errors_view(errors@) =~= missing_user_fields(*payload));
    errors
}

/// The errors of a registration, given the pattern results and the email
/// lookup (see `user_errors_spec`).
pub fn user_errors(
    payload: &CreateUser,
    name_ok: bool,
    email_ok: bool,
    id_ok: bool,
    email_taken: bool,
) -> (r: Vec<ValidationError>)
    ensures
        errors_view(r@) == user_errors_spec(*payload, name_ok, email_ok, id_ok, email_taken),
{
    let mut errors = missing_user_errors(payload);
    if errors.len() > 0 {
        return errors;
    }
    assert(errors_view(errors@) =~= Seq::<ErrorView>::empty());
    push_when(&mut errors, !name_ok, NAME, RN0001, MSG_MALFORMED);
    push_when(&mut errors, !email_ok, EMAIL, RN0002, MSG_MALFORMED);
    push_when(
        &mut errors,
        is_weak_password(payload.password.as_str()),
        PASSWORD,
        RN0003,
        MSG_MALFORMED,
    );
    push_when(
        &mut errors,
        parse_role(payload.role.as_str()).is_none(),
        ROLE,
        RN0005,
        MSG_MALFORMED,
    );
    push_when(&mut errors, !id_ok, CPF_CNPJ, RN0004, MSG_MALFORMED);
    push_when(&mut errors, email_ok && email_taken, EMAIL, RN0002, MSG_EMAIL_TAKEN);
    assert(errors_view(errors@) =~= user_errors_spec(
        *payload,
        name_ok,
        email_ok,
        id_ok,
        email_taken,
    ));
    errors
}

/// Whether the registration gets as far as the email conflict check, so that
/// storage must be asked whether its email is taken.
pub fn needs_email_lookup(payload: &CreateUser) -> (r: bool)
    ensures
        r == (missing_user_fields(*payload).len() == 0 && matches_pattern(
            EMAIL_PATTERN,
            payload.email@,
        )),
{
    let missing = missing_user_errors(payload);
    if missing.len() > 0 {
        return false;
    }
    pattern_matches(EMAIL_PATTERN, payload.email.as_str())
}

/// Validates a registration. `email_taken` is storage's answer to whether the
/// email already belongs to a record; it counts only when `needs_email_lookup`
/// holds. `Err` carries every error, in the order of `user_errors_spec`.
pub fn validate_user_payload(payload: &CreateUser, email_taken: bool) -> (r: Result<
    (),
    Vec<ValidationError>,
>)
    ensures
        match r {
            Ok(()) => user_payload_errors(*payload, email_taken).len() == 0,
            Err(v) => errors_view(v@) == user_payload_errors(*payload, email_taken) && v.len() > 0,
        },
{
    let missing = missing_user_errors(payload);
    if missing.len() > 0 {
        return Err(missing);
    }
    let name_ok = pattern_matches(NAME_PATTERN, payload.name.as_str());
    let email_ok = pattern_matches(EMAIL_PATTERN, payload.email.as_str());
    let id_ok = match &payload.cpf_cnpj {
        Some(id) => pattern_matches(CPF_CNPJ_PATTERN, id.as_str()),
        None => false,
    };
    let errors = user_errors(payload, name_ok, email_ok, id_ok, email_taken);
    if errors.len() > 0 {
        Err(errors)
    } else {
        Ok(())
    }
}

/// A well-formed registration whose email is already stored gets exactly one
/// error: the email conflict.
pub proof fn law_taken_email_alone(p: CreateUser)
    requires
        missing_user_fields(p).len() == 0,
        !weak_password(p.password@),
        role_of(p.role@) is Some,
    ensures
        user_errors_spec(p, true, true, true, true) == seq![verr(EMAIL, RN0002, MSG_EMAIL_TAKEN)],
{
    assert(user_errors_spec(p, true, true, true, true) =~= seq![verr(EMAIL, RN0002, MSG_EMAIL_TAKEN)]);
}

/// Presence failures of a login.
pub open spec fn missing_login_fields(p: LoginRequest) -> Seq<ErrorView> {
    error_if(is_blank(p.email@), verr(EMAIL, RN0002, MSG_MISSING)) + error_if(
        is_blank(p.password@),
        verr(PASSWORD, RN0003, MSG_MISSING),
    )
}

/// The errors of a login, given what the email pattern says: presence
/// failures alone if there are any, else the format failures.
pub open spec fn login_errors_spec(p: LoginRequest, email_ok: bool) -> Seq<ErrorView> {
    let missing = missing_login_fields(p);
    if missing.len() > 0 {
        missing
    } else {
        error_if(!email_ok, verr(EMAIL, RN0002, MSG_BAD_CREDENTIALS)) + error_if(
            weak_password(p.password@),
            verr(PASSWORD, RN0003, MSG_BAD_CREDENTIALS),
        )
    }
}

/// The errors of a login, with the email pattern checked by the regex crate.
pub open spec fn login_payload_errors(p: LoginRequest) -> Seq<ErrorView> {
    login_errors_spec(p, matches_pattern(EMAIL_PATTERN, p.email@))
}

fn missing_login_errors(payload: &LoginRequest) -> (r: Vec<ValidationError>)
    ensures
        errors_view(r@) == missing_login_fields(*payload),
{
    let mut errors: Vec<ValidationError> = Vec::new();
    assert(errors_view(errors@) =~= Seq::<ErrorView>::empty());
    push_when(&mut errors, blank(payload.email.as_str()), EMAIL, RN0002, MSG_MISSING);
    push_when(&mut errors, blank(payload.password.as_str()), PASSWORD, RN0003, MSG_MISSING);
    assert(errors_view(errors@) =~= missing_login_fields(*payload));
    errors
}

/// The errors of a login, given the email pattern result (see `login_errors_spec`).
pub fn login_errors(payload: &LoginRequest, email_ok: bool) -> (r: Vec<ValidationError>)
    ensures
        errors_view(r@) == login_errors_spec(*payload, email_ok),
{
    let mut errors = missing_login_errors(payload);
    if errors.len() > 0 {
        return errors;
    }
    assert(errors_view(errors@) =~= Seq::<ErrorView>::empty());
    push_when(&mut errors, !email_ok, EMAIL, RN0002, MSG_BAD_CREDENTIALS);
    push_when(
        &mut errors,
        is_weak_password(payload.password.as_str()),
        PASSWORD,
        RN0003,
        MSG_BAD_CREDENTIALS,
    );
    assert(errors_view(errors@) =~= login_errors_spec(*payload, email_ok));
    errors
}

/// Validates a login payload before any lookup. `Err` carries every error.
pub fn validate_login_payload(payload: &LoginRequest) -> (r: Result<(), Vec<ValidationError>>)
    ensures
        match r {
            Ok(()) => login_payload_errors(*payload).len() == 0,
            Err(v) => errors_view(v@) == login_payload_errors(*payload) && v.len() > 0,
        },
{
    let missing = missing_login_errors(payload);
    if missing.len() > 0 {
        return Err(missing);
    }
    let email_ok = pattern_matches(EMAIL_PATTERN, payload.email.as_str());
    let errors = login_errors(payload, email_ok);
    if errors.len() > 0 {
        Err(errors)
    } else {
        Ok(())
    }
}

} // verus!
