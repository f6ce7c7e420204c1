use handly_backend::models::{CreateService, CreateUser, LoginRequest, UpdateService};
use handly_backend::service_rules::{
    categories, category_list_message, validate_create_service_payload,
    validate_update_service_payload,
};
use handly_backend::validation::{
    needs_email_lookup, user_errors, validate_login_payload, validate_user_payload,
    ValidationError,
};

fn user(name: &str, email: &str, password: &str, role: &str, id: Option<&str>) -> CreateUser {
    CreateUser {
        name: name.to_string(),
        email: email.to_string(),
        password: password.to_string(),
        role: role.to_string(),
        cpf_cnpj: id.map(|s| s.to_string()),
    }
}

fn codes(errors: &[ValidationError]) -> Vec<(&str, &str)> {
    errors.iter().map(|e| (e.field, e.code)).collect()
}

const MISSING: &str = "Preencha todos os campos obrigatórios.";
const MALFORMED: &str = "Um campo não foi preenchido corretamente.";
const TAKEN: &str = "E-mail já está cadastrado no sistema.";
const BAD_CREDENTIALS: &str = "Credenciais inválidas.";

#[test]
fn digit_in_name_is_the_only_error() {
    let p = user("Al1ce", "a@b.com", "longenough1", "customer", Some("12345678900"));
    let errors = validate_user_payload(&p, false).unwrap_err();
    assert_eq!(codes(&errors), vec![("name", "RN0001")]);
    assert_eq!(errors[0].message, MALFORMED);
}

#[test]
fn taken_email_is_the_only_error() {
    let p = user("Alice", "alice@example.com", "Password1", "customer", Some("12345678900"));
    assert!(needs_email_lookup(&p));
    let errors = validate_user_payload(&p, true).unwrap_err();
    assert_eq!(codes(&errors), vec![("email", "RN0002")]);
    assert_eq!(errors[0].message, TAKEN);
}

#[test]
fn customer_registration_passes() {
    let p = user("Alice", "alice@example.com", "Password1", "customer", Some("12345678900"));
    assert!(validate_user_payload(&p, false).is_ok());
}

#[test]
fn provider_registration_passes() {
    let p = user("Services XYZ", "contact@xyz.com", "Password1", "provider", Some("12345678000199"));
    assert!(validate_user_payload(&p, false).is_ok());
}

#[test]
fn accented_name_and_br_domain_pass() {
    let p = user("José Ávila", "jose@empresa.br", "senha-forte", "customer", Some("98765432100"));
    assert!(validate_user_payload(&p, false).is_ok());
}

#[test]
fn missing_fields_stop_before_format_checks() {
    let p = user("  ", "", "\t", "customer", None);
    assert!(!needs_email_lookup(&p));
    let errors = validate_user_payload(&p, true).unwrap_err();
    assert_eq!(
        codes(&errors),
        vec![("name", "RN0001"), ("email", "RN0002"), ("password", "RN0003"), ("cpf_cnpj", "RN0004")]
    );
    assert!(errors.iter().all(|e| e.message == MISSING));
    let q = user("Al1ce", "bad", "123", "customer", Some(" "));
    let errors = validate_user_payload(&q, false).unwrap_err();
    assert_eq!(codes(&errors), vec![("cpf_cnpj", "RN0004")]);
    assert_eq!(errors[0].message, MISSING);
}

#[test]
fn format_errors_accumulate_with_conflict_last() {
    let p = user("Al1ce", "a@b.org", "12345678", "customer", Some("123"));
    assert!(!needs_email_lookup(&p));
    let errors = validate_user_payload(&p, true).unwrap_err();
    assert_eq!(
        codes(&errors),
        vec![("name", "RN0001"), ("email", "RN0002"), ("password", "RN0003"), ("cpf_cnpj", "RN0004")]
    );
    assert!(errors.iter().all(|e| e.message == MALFORMED));
    let q = user("Alice", "a@b.com", "short", "customer", Some("12345678900"));
    let errors = validate_user_payload(&q, true).unwrap_err();
    assert_eq!(codes(&errors), vec![("password", "RN0003"), ("email", "RN0002")]);
    assert_eq!(errors[1].message, TAKEN);
}

#[test]
fn unknown_role_is_malformed() {
    let p = user("Alice", "a@b.com", "Password1", "admin", Some("12345678900"));
    let errors = validate_user_payload(&p, true).unwrap_err();
    assert_eq!(codes(&errors), vec![("role", "RN0005"), ("email", "RN0002")]);
    assert_eq!(errors[0].message, MALFORMED);
    let q = user("Al1ce", "a@b.com", "Password1", "", Some("1"));
    assert_eq!(
        codes(&validate_user_payload(&q, false).unwrap_err()),
        vec![("name", "RN0001"), ("role", "RN0005"), ("cpf_cnpj", "RN0004")]
    );
}

#[test]
fn identifier_needs_eleven_or_fourteen_digits() {
    for id in ["1234567890", "123456789012", "123.456.789-00", "1234567800019", "123456780001999"] {
        let p = user("Alice", "a@b.com", "Password1", "customer", Some(id));
        assert_eq!(codes(&validate_user_payload(&p, false).unwrap_err()), vec![("cpf_cnpj", "RN0004")], "{}", id);
    }
}

#[test]
fn password_length_counts_bytes() {
    let p = user("Alice", "a@b.com", "çççç", "customer", Some("12345678900"));
    assert!(validate_user_payload(&p, false).is_ok());
    let q = user("Alice", "a@b.com", "ççç", "customer", Some("12345678900"));
    assert_eq!(codes(&validate_user_payload(&q, false).unwrap_err()), vec![("password", "RN0003")]);
}

#[test]
fn user_errors_follow_given_checks() {
    let p = user("Alice", "a@b.com", "Password1", "customer", Some("12345678900"));
    assert!(user_errors(&p, true, true, true, false).is_empty());
    assert_eq!(codes(&user_errors(&p, false, true, true, true)), vec![("name", "RN0001"), ("email", "RN0002")]);
    assert_eq!(codes(&user_errors(&p, true, false, true, true)), vec![("email", "RN0002")]);
    assert_eq!(user_errors(&p, true, false, true, true)[0].message, MALFORMED);
    assert_eq!(codes(&user_errors(&p, true, true, false, false)), vec![("cpf_cnpj", "RN0004")]);
}

#[test]
fn login_payload_rules() {
    let ok = LoginRequest { email: "bob@example.com".to_string(), password: "Password1".to_string() };
    assert!(validate_login_payload(&ok).is_ok());
    let missing = LoginRequest { email: " ".to_string(), password: String::new() };
    let errors = validate_login_payload(&missing).unwrap_err();
    assert_eq!(codes(&errors), vec![("email", "RN0002"), ("password", "RN0003")]);
    assert!(errors.iter().all(|e| e.message == MISSING));
    let bad = LoginRequest { email: "notfound@example".to_string(), password: "wrong".to_string() };
    let errors = validate_login_payload(&bad).unwrap_err();
    assert_eq!(codes(&errors), vec![("email", "RN0002"), ("password", "RN0003")]);
    assert!(errors.iter().all(|e| e.message == BAD_CREDENTIALS));
    let digits = LoginRequest { email: "a@b.br".to_string(), password: "123456789".to_string() };
    assert_eq!(codes(&validate_login_payload(&digits).unwrap_err()), vec![("password", "RN0003")]);
}

fn service(category: &str, description: &str) -> CreateService {
    CreateService {
        category: category.to_string(),
        name: "Reparo".to_string(),
        description: description.to_string(),
        image: None,
    }
}

#[test]
fn service_rules() {
    assert!(validate_create_service_payload(&service("eletricista", "Instalações")).is_ok());
    assert!(validate_create_service_payload(&service("mecânico", &"é".repeat(300))).is_ok());
    let long = validate_create_service_payload(&service("pintor", &"é".repeat(301))).unwrap_err();
    assert_eq!(codes(&long), vec![("description", "RN0006")]);
    assert_eq!(long[0].message, "Description must be at most 300 characters");
    let both = validate_create_service_payload(&service("astronauta", &"x".repeat(301))).unwrap_err();
    assert_eq!(codes(&both), vec![("description", "RN0006"), ("category", "RN0007")]);
    assert_eq!(both[1].message, format!("Category must be one of: {}", categories().join(", ")));
    let upd = UpdateService {
        category: "Eletricista".to_string(),
        name: "n".to_string(),
        description: String::new(),
        image: None,
    };
    assert_eq!(codes(&validate_update_service_payload(&upd).unwrap_err()), vec![("category", "RN0007")]);
}

#[test]
fn category_message_lists_every_category() {
    let cats = categories();
    assert_eq!(cats.len(), 46);
    assert_eq!(cats[0], "eletricista");
    assert_eq!(cats[45], "mecânico");
    let m = category_list_message();
    assert!(m.starts_with("Category must be one of: eletricista, encanador, "));
    assert!(m.ends_with(", social media, mecânico"));
}
