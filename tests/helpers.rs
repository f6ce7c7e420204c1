use handly_backend::decimal::{parse_i64, push_decimal};
use handly_backend::uploads::{
    file_path, image_file_name, may_edit_service, new_image_file_name, profile_upload_target,
    upload_path, upload_url,
};

fn decimal_text(x: i64) -> String {
    let mut s = String::new();
    push_decimal(&mut s, x);
    s
}

#[test]
fn decimal_text_and_back() {
    for x in [0i64, 7, 10, -1, 1_700_000_000, i64::MAX, i64::MIN] {
        let t = decimal_text(x);
        assert_eq!(t, x.to_string());
        let cs: Vec<char> = t.chars().collect();
        assert_eq!(parse_i64(&cs), Some(x));
    }
    for bad in ["", "-", "01", "-0", "1a", "9223372036854775808", "-9223372036854775809", "+1"] {
        let cs: Vec<char> = bad.chars().collect();
        assert_eq!(parse_i64(&cs), None, "{}", bad);
    }
}

#[test]
fn upload_names_and_paths() {
    assert_eq!(image_file_name("abc"), "abc.png");
    let n = new_image_file_name();
    assert!(n.ends_with(".png"));
    assert_eq!(n.len(), 36 + 4);
    assert_eq!(file_path("./uploads/services", "x.png"), "./uploads/services/x.png");
    assert_eq!(upload_path("id", "pic.png"), "./uploads/id_pic.png");
    assert_eq!(upload_url("id", "pic.png"), "/static/uploads/id_pic.png");
}

#[test]
fn uploaded_file_name_is_sanitized() {
    let (path, url) = profile_upload_target("../../etc/pass?wd.png");
    assert!(path.starts_with("./uploads/"));
    assert!(!path["./uploads/".len()..].contains('/'));
    assert!(!path.contains('?'));
    assert!(path.ends_with("_....etcpasswd.png"), "{}", path);
    assert_eq!(url, format!("/static/{}", &path[2..]));
}

#[test]
fn only_owner_edits_service() {
    assert!(may_edit_service("12345678000199", "12345678000199"));
    assert!(!may_edit_service("12345678000199", "12345678900"));
}
