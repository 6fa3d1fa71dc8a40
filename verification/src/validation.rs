//! The validation layer: pure field checks of create and update
//! requests, collecting every failing field.

use vstd::prelude::*;
use validator::ValidateUrl;
use crate::errors::FieldError;
use crate::errors::FieldErrorView;
use crate::errors::ValidationErrors;
use crate::models::CreateBookRequest;
use crate::models::CreateRequestView;
use crate::models::UpdateBookRequest;
use crate::models::UpdateRequestView;
use crate::text::trim_spec;
use crate::text::trim_str;

verus! {

/// Whether a text is a well-formed URL, as the url crate's parser
/// accepts it.
pub uninterp spec fn url_ok(s: Seq<char>) -> bool;

/// Relies on validator's `ValidateUrl` impl for `str`: it returns
/// whether the url crate parses the text as a URL, a result that
/// depends on the characters alone.
#[verifier::external_body]
fn is_valid_url(s: &str) -> (r: bool)
    ensures
        r == url_ok(s@),
{
    ValidateUrl::validate_url(s)
}

/// The failure a title is charged with: nothing but white space, or
/// over the length cap.
pub open spec fn title_error(title: Seq<char>) -> Option<Seq<char>> {
    if trim_spec(title).len() == 0 {
        Some("Title cannot be empty"@)
    } else if title.len() > 255 {
        Some("Title must be between 1 and 255 characters"@)
    } else {
        None
    }
}

/// The failure an author is charged with: nothing but white space, or
/// over the length cap.
pub open spec fn author_error(author: Seq<char>) -> Option<Seq<char>> {
    if trim_spec(author).len() == 0 {
        Some("Author cannot be empty"@)
    } else if author.len() > 255 {
        Some("Author must be between 1 and 255 characters"@)
    } else {
        None
    }
}

/// The failure a present cover URL is charged with: not a well-formed
/// URL.
pub open spec fn cover_url_error(url: Option<Seq<char>>) -> Option<Seq<char>> {
    match url {
        Some(u) => if !url_ok(u) {
            Some("Cover URL must be a valid URL"@)
        } else {
            None
        },
        None => None,
    }
}

/// The failure a present tag list is charged with: more than twenty
/// entries.
pub open spec fn tags_error(tags: Option<Seq<Seq<char>>>) -> Option<Seq<char>> {
    match tags {
        Some(t) => if t.len() > 20 {
            Some("Maximum 20 tags allowed"@)
        } else {
            None
        },
        None => None,
    }
}

/// The failure a present rating is charged with: outside one to five.
pub open spec fn rating_error(rating: Option<i32>) -> Option<Seq<char>> {
    match rating {
        Some(r) => if r < 1 || r > 5 {
            Some("Rating must be between 1 and 5"@)
        } else {
            None
        },
        None => None,
    }
}

/// The failure a present description is charged with: over the length
/// cap.
pub open spec fn description_error(d: Option<Seq<char>>) -> Option<Seq<char>> {
    match d {
        Some(t) => if t.len() > 2000 {
            Some("Description must be less than 2000 characters"@)
        } else {
            None
        },
        None => None,
    }
}

/// The entry a field contributes to the collected failures: one record
/// when it is charged with a failure, none otherwise.
pub open spec fn field_entry(field: Seq<char>, e: Option<Seq<char>>) -> Seq<FieldErrorView> {
    match e {
        Some(m) => seq![FieldErrorView { field: field, message: m }],
        None => Seq::<FieldErrorView>::empty(),
    }
}

/// Every failing field of a create request, in field order.
pub open spec fn create_errors(req: CreateRequestView) -> Seq<FieldErrorView> {
    field_entry("title"@, title_error(req.title)) + field_entry(
        "author"@,
        author_error(req.author),
    ) + field_entry("cover_url"@, cover_url_error(req.cover_url)) + field_entry(
        "tags"@,
        tags_error(req.tags),
    ) + field_entry("rating"@, rating_error(req.rating)) + field_entry(
        "description"@,
        description_error(req.description),
    )
}

/// Every failing field of an update request, in field order; an absent
/// field is never checked.
pub open spec fn update_errors(req: UpdateRequestView) -> Seq<FieldErrorView> {
    field_entry(
        "title"@,
        match req.title {
            Some(t) => title_error(t),
            None => None,
        },
    ) + field_entry(
        "author"@,
        match req.author {
            Some(a) => author_error(a),
            None => None,
        },
    ) + field_entry("cover_url"@, cover_url_error(req.cover_url)) + field_entry(
        "tags"@,
        tags_error(req.tags),
    ) + field_entry("rating"@, rating_error(req.rating)) + field_entry(
        "description"@,
        description_error(req.description),
    )
}

fn push_error(errs: &mut Vec<FieldError>, field: &str, message: &str)
    ensures
        final(errs).deep_view() =~= old(errs).deep_view() + seq![
            FieldErrorView { field: field@, message: message@ },
        ],
{
    errs.push(FieldError { field: String::from_str(field), message: String::from_str(message) });
}

/// The title check shared by create and update: the charged failure,
/// as an owned message.
fn check_title(title: &String) -> (r: Option<FieldError>)
    ensures
        match r {
            Some(e) => title_error(title@) == Some(e@.message) && e@.field == "title"@,
            None => title_error(title@) is None,
        },
{
    let trimmed = trim_str(title.as_str());
    if trimmed.as_str().unicode_len() == 0 {
        Some(
            FieldError {
                field: String::from_str("title"),
                message: String::from_str("Title cannot be empty"),
            },
        )
    } else if title.as_str().unicode_len() > 255 {
        Some(
            FieldError {
                field: String::from_str("title"),
                message: String::from_str("Title must be between 1 and 255 characters"),
            },
        )
    } else {
        None
    }
}

/// The author check shared by create and update.
fn check_author(author: &String) -> (r: Option<FieldError>)
    ensures
        match r {
            Some(e) => author_error(author@) == Some(e@.message) && e@.field == "author"@,
            None => author_error(author@) is None,
        },
{
    let trimmed = trim_str(author.as_str());
    if trimmed.as_str().unicode_len() == 0 {
        Some(
            FieldError {
                field: String::from_str("author"),
                message: String::from_str("Author cannot be empty"),
            },
        )
    } else if author.as_str().unicode_len() > 255 {
        Some(
            FieldError {
                field: String::from_str("author"),
                message: String::from_str("Author must be between 1 and 255 characters"),
            },
        )
    } else {
        None
    }
}

/// The checks of the optional fields shared by create and update
/// requests, pushed onto the collected failures in field order.
fn check_optional_fields(
    errs: &mut Vec<FieldError>,
    cover_url: &Option<String>,
    tags: &Option<Vec<String>>,
    rating: &Option<i32>,
    description: &Option<String>,
)
    ensures
        final(errs).deep_view() =~= old(errs).deep_view() + field_entry(
            "cover_url"@,
            cover_url_error(cover_url.deep_view()),
        ) + field_entry("tags"@, tags_error(tags.deep_view())) + field_entry(
            "rating"@,
            rating_error(*rating),
        ) + field_entry("description"@, description_error(description.deep_view())),
{
    match cover_url {
        Some(u) => {
            if !is_valid_url(u.as_str()) {
                push_error(errs, "cover_url", "Cover URL must be a valid URL");
            }
        },
        None => {},
    }
    match tags {
        Some(t) => {
            if t.len() > 20 {
                push_error(errs, "tags", "Maximum 20 tags allowed");
            }
        },
        None => {},
    }
    match rating {
        Some(r) => {
            if *r < 1 || *r > 5 {
                push_error(errs, "rating", "Rating must be between 1 and 5");
            }
        },
        None => {},
    }
    match description {
        Some(d) => {
            if d.as_str().unicode_len() > 2000 {
                push_error(errs, "description", "Description must be less than 2000 characters");
            }
        },
        None => {},
    }
}

/// Checks every field of a create request and reports every failing
/// one; a request passes exactly when no field is charged.
pub fn validate_create(req: &CreateBookRequest) -> (r: Result<(), ValidationErrors>)
    ensures
        r is Ok <==> create_errors(req@).len() == 0,
        r matches Err(ve) ==> ve@ == create_errors(req@),
{
    let mut errs: Vec<FieldError> = Vec::new();
    match check_title(&req.title) {
        Some(e) => errs.push(e),
        None => {},
    }
    match check_author(&req.author) {
        Some(e) => errs.push(e),
        None => {},
    }
    check_optional_fields(&mut errs, &req.cover_url, &req.tags, &req.rating, &req.description);
    proof {
        assert(errs.deep_view() =~= create_errors(req@));
    }
    if errs.len() == 0 {
        Ok(())
    } else {
        Err(ValidationErrors { errors: errs })
    }
}

/// Checks every present field of an update request and reports every
/// failing one; absent fields are never checked, so a request naming
/// no field at all always passes.
pub fn validate_update(req: &UpdateBookRequest) -> (r: Result<(), ValidationErrors>)
    ensures
        r is Ok <==> update_errors(req@).len() == 0,
        r matches Err(ve) ==> ve@ == update_errors(req@),
{
    let mut errs: Vec<FieldError> = Vec::new();
    match &req.title {
        Some(t) => {
            match check_title(t) {
                Some(e) => errs.push(e),
                None => {},
            }
        },
        None => {},
    }
    match &req.author {
        Some(a) => {
            match check_author(a) {
                Some(e) => errs.push(e),
                None => {},
            }
        },
        None => {},
    }
    check_optional_fields(&mut errs, &req.cover_url, &req.tags, &req.rating, &req.description);
    proof {
        assert(errs.deep_view() =~= update_errors(req@));
    }
    if errs.len() == 0 {
        Ok(())
    } else {
        Err(ValidationErrors { errors: errs })
    }
}

} // verus!
