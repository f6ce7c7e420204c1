use vstd::prelude::*;
use vstd::string::StringExecFns;
use crate::models::{CreateService, UpdateService};
use crate::text::same_text;
use crate::validation::{errors_view, push_when, verr, error_if, ErrorView, ValidationError};

verus! {

pub const DESCRIPTION: &'static str = "description";
pub const CATEGORY: &'static str = "category";
pub const RN0006: &'static str = "RN0006";
pub const RN0007: &'static str = "RN0007";

/// Longest description, in chars.
pub const MAX_DESCRIPTION_CHARS: usize = 300;

pub const MSG_DESCRIPTION: &'static str = "Description must be at most 300 characters";
pub const MSG_CATEGORY_PREFIX: &'static str = "Category must be one of: ";
pub const CATEGORY_SEPARATOR: &'static str = ", ";

/// The service categories a listing may use.
pub open spec fn category_names() -> Seq<Seq<char>> {
    seq![
        "eletricista"@, "encanador"@, "pedreiro"@, "pintor"@, "montador de móveis"@,
        "técnico em ar-condicionado"@, "diarista"@, "mototaxista"@, "motorista particular"@,
        "entregador"@, "freteiro"@, "guincheiro"@, "doceria"@, "marmitaria"@, "buffet"@,
        "confeitaria personalizada"@, "padaria artesanal"@, "cabeleireira"@, "manicure"@,
        "maquiadora"@, "designer de sobrancelhas"@, "esteticista"@, "professor particular"@,
        "professor de música"@, "professor de idiomas"@, "personal trainer"@,
        "técnico de informática"@, "técnico de celular"@, "instalador de câmeras"@,
        "pet shop"@, "chaveiro"@, "costureira"@, "babá"@, "cuidador de idosos"@,
        "lava a jato"@, "vidraceiro"@, "marceneiro"@, "fotógrafo"@, "film maker"@,
        "segurança"@, "garçom"@, "massoterapia"@, "psicólogo"@, "designer gráfico"@,
        "social media"@, "mecânico"@,
    ]
}

/// The category names of `cats`.
pub open spec fn names_of(cats: Seq<&'static str>) -> Seq<Seq<char>> {
    cats.map_values(|c: &'static str| c@)
}

/// `items` written one after another with `sep` between them.
pub open spec fn join(items: Seq<Seq<char>>, sep: Seq<char>) -> Seq<char>
    decreases items.len(),
{
    if items.len() == 0 {
        seq![]
    } else if items.len() == 1 {
        items[0]
    } else {
        join(items.drop_last(), sep) + sep + items.last()
    }
}

/// The message for an unknown category: every allowed one, comma-separated.
pub open spec fn category_message() -> Seq<char> {
    MSG_CATEGORY_PREFIX@ + join(category_names(), CATEGORY_SEPARATOR@)
}

/// The errors of a service listing: an over-long description, then an
/// unknown category.
pub open spec fn service_errors_spec(category: Seq<char>, description: Seq<char>) -> Seq<ErrorView> {
    error_if(description.len() > 300, verr(DESCRIPTION, RN0006, MSG_DESCRIPTION)) + error_if(
        !category_names().contains(category),
        ErrorView { field: CATEGORY@, code: RN0007@, message: category_message() },
    )
}

/// The allowed categories, in their listed order.
pub fn categories() -> (r: Vec<&'static str>)
    ensures
        names_of(r@) == category_names(),
{
    let r = vec![
        "eletricista", "encanador", "pedreiro", "pintor", "montador de móveis",
        "técnico em ar-condicionado", "diarista", "mototaxista", "motorista particular",
        "entregador", "freteiro", "guincheiro", "doceria", "marmitaria", "buffet",
        "confeitaria personalizada", "padaria artesanal", "cabeleireira", "manicure",
        "maquiadora", "designer de sobrancelhas", "esteticista", "professor particular",
        "professor de música", "professor de idiomas", "personal trainer",
        "técnico de informática", "técnico de celular", "instalador de câmeras",
        "pet shop", "chaveiro", "costureira", "babá", "cuidador de idosos",
        "lava a jato", "vidraceiro", "marceneiro", "fotógrafo", "film maker",
        "segurança", "garçom", "massoterapia", "psicólogo", "designer gráfico",
        "social media", "mecânico",
    ];
    assert(names_of(r@) =~= category_names());
    r
}

/// Whether `category` is one of the allowed categories.
pub fn is_category(category: &str) -> (b: bool)
    ensures
        b == category_names().contains(category@),
{
    let cats = categories();
    let mut i: usize = 0;
    while i < cats.len()
        invariant
            0 <= i <= cats.len(),
            names_of(cats@) == category_names(),
            forall|j: int| 0 <= j < i ==> category_names()[j] != category@,
        decreases cats.len() - i,
    {
        if same_text(cats[i], category) {
            assert(category_names()[i as int] == category@);
            return true;
        }
        i = i + 1;
    }
    false
}

/// The message that lists the allowed categories.
pub fn category_list_message() -> (r: String)
    ensures
        r@ == category_message(),
{
    let cats = categories();
    let ghost names = category_names();
    let mut out = MSG_CATEGORY_PREFIX.to_string();
    let mut i: usize = 0;
    while i < cats.len()
        invariant
            0 <= i <= cats.len(),
            names_of(cats@) == names,
            names == category_names(),
            out@ == MSG_CATEGORY_PREFIX@ + join(names.take(i as int), CATEGORY_SEPARATOR@),
        decreases cats.len() - i,
    {
        let ghost before = out@;
        assert(names.take(i + 1).drop_last() == names.take(i as int));
        assert(names[i as int] == cats@[i as int]@);
        if i > 0 {
            out.append(CATEGORY_SEPARATOR);
        } else {
            assert(names.take(0) == Seq::<Seq<char>>::empty());
        }
        out.append(cats[i]);
        i = i + 1;
        assert(out@ =~= MSG_CATEGORY_PREFIX@ + join(names.take(i as int), CATEGORY_SEPARATOR@));
    }
    assert(names.take(cats.len() as int) == names);
    out
}

/// The errors of a service listing (see `service_errors_spec`).
pub fn service_errors(category: &str, description: &str) -> (r: Vec<ValidationError>)
    ensures
        errors_view(r@) == service_errors_spec(category@, description@),
{
    let mut errors: Vec<ValidationError> = Vec::new();
    assert(errors_view(errors@) =~= Seq::<ErrorView>::empty());
    push_when(
        &mut errors,
        description.unicode_len() > MAX_DESCRIPTION_CHARS,
        DESCRIPTION,
        RN0006,
        MSG_DESCRIPTION,
    );
    if !is_category(category) {
        let e = ValidationError { field: CATEGORY, code: RN0007, message: category_list_message() };
        let ghost before = errors@;
        errors.push(e);
        assert(errors_view(errors@) =~= errors_view(before) + seq![e@]);
    }
    assert(errors_view(errors@) =~= service_errors_spec(category@, description@));
    errors
}

/// Validates a new service listing. `Err` carries every error.
pub fn validate_create_service_payload(payload: &CreateService) -> (r: Result<
    (),
    Vec<ValidationError>,
>)
    ensures
        match r {
            Ok(()) => service_errors_spec(payload.category@, payload.description@).len() == 0,
            Err(v) => errors_view(v@) == service_errors_spec(
                payload.category@,
                payload.description@,
            ) && v.len() > 0,
        },
{
    let errors = service_errors(payload.category.as_str(), payload.description.as_str());
    if errors.len() > 0 {
        Err(errors)
    } else {
        Ok(())
    }
}

/// Validates a service update. `Err` carries every error.
pub fn validate_update_service_payload(payload: &UpdateService) -> (r: Result<
    (),
    Vec<ValidationError>,
>)
    ensures
        match r {
            Ok(()) => service_errors_spec(payload.category@, payload.description@).len() == 0,
            Err(v) => errors_view(v@) == service_errors_spec(
                payload.category@,
                payload.description@,
            ) && v.len() > 0,
        },
{
    let errors = service_errors(payload.category.as_str(), payload.description.as_str());
    if errors.len() > 0 {
        Err(errors)
    } else {
        Ok(())
    }
}

} // verus!
