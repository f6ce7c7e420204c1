use vstd::prelude::*;
use crate::text::same_text;

verus! {

/// What an account is: a customer, or a provider of services.
#[derive(Clone, Copy, Debug, PartialEq, Eq, Structural)]
pub enum Role {
    Customer,
    Provider,
}

/// The stored and wire name of a role.
pub open spec fn role_name(r: Role) -> Seq<char> {
    match r {
        Role::Customer => "customer"@,
        Role::Provider => "provider"@,
    }
}

/// The role a name stands for, if any.
pub open spec fn role_of(s: Seq<char>) -> Option<Role> {
    if s == "customer"@ {
        Some(Role::Customer)
    } else if s == "provider"@ {
        Some(Role::Provider)
    } else {
        None
    }
}

impl Role {
    /// The role's name.
    pub fn as_str(&self) -> (r: &'static str)
        ensures
            r@ == role_name(*self),
    {
        match self {
            Role::Customer => "customer",
            Role::Provider => "provider",
        }
    }
}

/// Reads a role name; anything but `customer` or `provider` is refused.
pub fn parse_role(s: &str) -> (r: Option<Role>)
    ensures
        r == role_of(s@),
{
    if same_text(s, "customer") {
        Some(Role::Customer)
    } else if same_text(s, "provider") {
        Some(Role::Provider)
    } else {
        None
    }
}

/// A stored credential record.
#[derive(Debug)]
pub struct User {
    /// Unique subject identifier (CPF or CNPJ digits); the tokens' subject.
    pub cpf_cnpj: String,
    pub name: String,
    pub email: String,
    /// Argon2 PHC hash of the password, never the plaintext.
    pub password: String,
    pub role: Role,
}

/// Registration payload.
#[derive(Debug)]
pub struct CreateUser {
    pub name: String,
    pub email: String,
    pub password: String,
    /// `"customer"` or `"provider"`; anything else fails validation.
    pub role: String,
    pub cpf_cnpj: Option<String>,
}

/// Login payload.
#[derive(Debug)]
pub struct LoginRequest {
    pub email: String,
    pub password: String,
}

/// Refresh payload.
#[derive(Debug)]
pub struct RefreshRequest {
    pub refresh_token: String,
}

/// A freshly issued token pair.
#[derive(Debug)]
pub struct TokenResponse {
    pub access_token: String,
    pub refresh_token: String,
}

/// A plain confirmation message.
#[derive(Debug)]
pub struct MessageResponse {
    pub message: String,
}

/// Payload that creates a service listing.
#[derive(Debug)]
pub struct CreateService {
    pub category: String,
    pub name: String,
    pub description: String,
    pub image: Option<String>,
}

/// Payload that replaces a service listing's fields.
#[derive(Debug)]
pub struct UpdateService {
    pub category: String,
    pub name: String,
    pub description: String,
    pub image: Option<String>,
}

/// The stored name of an uploaded service image.
#[derive(Debug)]
pub struct ImageResponse {
    pub image: String,
}

} // verus!
