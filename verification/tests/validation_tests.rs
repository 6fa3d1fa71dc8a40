use book_notes::models::CreateBookRequest;
use book_notes::models::UpdateBookRequest;
use book_notes::validation::validate_create;
use book_notes::validation::validate_update;

fn plain_create(title: &str, author: &str) -> CreateBookRequest {
    CreateBookRequest {
        title: title.to_string(),
        author: author.to_string(),
        cover_url: None,
        tags: None,
        status: None,
        rating: None,
        description: None,
        date_finished: None,
    }
}

#[test]
fn empty_title_rejected() {
    let req = plain_create("", "Herbert");
    let err = validate_create(&req).unwrap_err();
    assert_eq!(err.errors.len(), 1);
    assert_eq!(err.errors[0].field, "title");
    assert_eq!(err.joined(), "Title cannot be empty");
}

#[test]
fn whitespace_title_rejected() {
    let req = plain_create("   \t\n  ", "Herbert");
    let err = validate_create(&req).unwrap_err();
    assert_eq!(err.joined(), "Title cannot be empty");
}

#[test]
fn whitespace_author_rejected() {
    let req = plain_create("Dune", " \u{00A0} ");
    let err = validate_create(&req).unwrap_err();
    assert_eq!(err.joined(), "Author cannot be empty");
}

#[test]
fn multiple_failures_all_surface() {
    let mut req = plain_create("  ", "");
    req.rating = Some(9);
    let err = validate_create(&req).unwrap_err();
    assert_eq!(err.errors.len(), 3);
    assert_eq!(err.errors[0].field, "title");
    assert_eq!(err.errors[1].field, "author");
    assert_eq!(err.errors[2].field, "rating");
    assert_eq!(
        err.joined(),
        "Title cannot be empty, Author cannot be empty, Rating must be between 1 and 5"
    );
}

#[test]
fn rating_bounds() {
    for bad in [0, 6, -1, 100] {
        let mut req = plain_create("Dune", "Herbert");
        req.rating = Some(bad);
        let err = validate_create(&req).unwrap_err();
        assert_eq!(err.joined(), "Rating must be between 1 and 5");
    }
    for good in [1, 5] {
        let mut req = plain_create("Dune", "Herbert");
        req.rating = Some(good);
        assert!(validate_create(&req).is_ok());
    }
}

#[test]
fn long_title_rejected() {
    let req = plain_create(&"x".repeat(256), "Herbert");
    let err = validate_create(&req).unwrap_err();
    assert_eq!(err.joined(), "Title must be between 1 and 255 characters");
    let ok = plain_create(&"x".repeat(255), "Herbert");
    assert!(validate_create(&ok).is_ok());
}

#[test]
fn long_author_rejected() {
    let req = plain_create("Dune", &"y".repeat(256));
    let err = validate_create(&req).unwrap_err();
    assert_eq!(err.joined(), "Author must be between 1 and 255 characters");
}

#[test]
fn bad_cover_url_rejected() {
    let mut req = plain_create("Dune", "Herbert");
    req.cover_url = Some("not a url".to_string());
    let err = validate_create(&req).unwrap_err();
    assert_eq!(err.joined(), "Cover URL must be a valid URL");
}

#[test]
fn good_cover_url_accepted() {
    let mut req = plain_create("Dune", "Herbert");
    req.cover_url = Some("https://example.com/cover.png".to_string());
    assert!(validate_create(&req).is_ok());
}

#[test]
fn too_many_tags_rejected() {
    let mut req = plain_create("Dune", "Herbert");
    req.tags = Some(vec!["t".to_string(); 21]);
    let err = validate_create(&req).unwrap_err();
    assert_eq!(err.joined(), "Maximum 20 tags allowed");
    let mut ok = plain_create("Dune", "Herbert");
    ok.tags = Some(vec!["t".to_string(); 20]);
    assert!(validate_create(&ok).is_ok());
}

#[test]
fn long_description_rejected() {
    let mut req = plain_create("Dune", "Herbert");
    req.description = Some("d".repeat(2001));
    let err = validate_create(&req).unwrap_err();
    assert_eq!(err.joined(), "Description must be less than 2000 characters");
    let mut ok = plain_create("Dune", "Herbert");
    ok.description = Some("d".repeat(2000));
    assert!(validate_create(&ok).is_ok());
}

#[test]
fn update_absent_fields_never_checked() {
    let req = UpdateBookRequest::empty();
    assert!(validate_update(&req).is_ok());
}

#[test]
fn update_present_fields_checked() {
    let mut req = UpdateBookRequest::empty();
    req.title = Some("   ".to_string());
    let err = validate_update(&req).unwrap_err();
    assert_eq!(err.joined(), "Title cannot be empty");

    let mut req = UpdateBookRequest::empty();
    req.rating = Some(6);
    let err = validate_update(&req).unwrap_err();
    assert_eq!(err.joined(), "Rating must be between 1 and 5");

    let mut req = UpdateBookRequest::empty();
    req.author = Some("Le Guin".to_string());
    req.rating = Some(3);
    assert!(validate_update(&req).is_ok());
}
