use vstd::prelude::*;
use vstd::string::StringExecFns;
use crate::text::same_text;

verus! {

/// What sanitize-filename makes of a client-supplied file name, with or
/// without its extra Windows rules.
pub uninterp spec fn sanitized(name: Seq<char>, windows: bool) -> Seq<char>;

/// Relies on `sanitize_filename::sanitize_with_options`, with the Windows
/// rules chosen by the caller and the crate's other defaults (truncation on,
/// illegal characters removed), so the result does not depend on the build
/// target.
#[verifier::external_body]
fn sanitize_name(name: &str, windows: bool) -> (r: String)
    ensures
        r@ == sanitized(name@, windows),
{
    let options = sanitize_filename::Options { windows, ..Default::default() };
    sanitize_filename::sanitize_with_options(name, options)
}

/// Relies on `uuid::Uuid::new_v4` and its hyphenated `Display`: a fresh
/// random identifier for each call.
#[verifier::external_body]
fn fresh_id() -> (r: String) {
    uuid::Uuid::new_v4().to_string()
}

/// The stored file name of an uploaded image: `<id>.png`.
pub fn image_file_name(id: &str) -> (r: String)
    ensures
        r@ == id@ + ".png"@,
{
    id.to_string().concat(".png")
}

/// A fresh stored file name for an uploaded image.
pub fn new_image_file_name() -> (r: String)
    ensures
        exists|id: Seq<char>| r@ == id + ".png"@,
{
    let id = fresh_id();
    image_file_name(id.as_str())
}

/// `<dir>/<file>`.
pub fn file_path(dir: &str, file: &str) -> (r: String)
    ensures
        r@ == dir@ + "/"@ + file@,
{
    dir.to_string().concat("/").concat(file)
}

/// Where a profile picture uploaded as `safe_name` (already sanitized) under
/// identifier `id` is stored: `./uploads/<id>_<safe_name>`.
pub fn upload_path(id: &str, safe_name: &str) -> (r: String)
    ensures
        r@ == "./uploads/"@ + id@ + "_"@ + safe_name@,
{
    "./uploads/".to_string().concat(id).concat("_").concat(safe_name)
}

/// The public URL of that file: `/static/uploads/<id>_<safe_name>`.
pub fn upload_url(id: &str, safe_name: &str) -> (r: String)
    ensures
        r@ == "/static/uploads/"@ + id@ + "_"@ + safe_name@,
{
    "/static/uploads/".to_string().concat(id).concat("_").concat(safe_name)
}

/// Storage path and public URL for a profile picture that the client named
/// `filename`: a fresh identifier joined to the sanitized name (the server
/// stores files on a Unix file system, so the Windows rules are off).
pub fn profile_upload_target(filename: &str) -> (r: (String, String))
    ensures
        exists|id: Seq<char>|
            r.0@ == "./uploads/"@ + id + "_"@ + sanitized(filename@, false) && r.1@ == "/static/uploads/"@
                + id + "_"@ + sanitized(filename@, false),
{
    let safe = sanitize_name(filename, false);
    let id = fresh_id();
    (upload_path(id.as_str(), safe.as_str()), upload_url(id.as_str(), safe.as_str()))
}

/// Only the provider that owns a service listing may change its image.
pub fn may_edit_service(owner: &str, provider_key: &str) -> (r: bool)
    ensures
        r == (owner@ == provider_key@),
{
    same_text(owner, provider_key)
}

} // verus!
