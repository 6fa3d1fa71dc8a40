use book_notes::errors::ApiError;
use book_notes::models::BookFilter;
use book_notes::models::BookStatus;
use book_notes::models::CreateBookRequest;
use book_notes::models::NewBook;
use book_notes::models::UpdateBookRequest;
use book_notes::service::BookService;

const TODAY: i32 = 20_000;

fn create_req(title: &str, author: &str) -> CreateBookRequest {
    CreateBookRequest {
        title: title.to_string(),
        author: author.to_string(),
        cover_url: None,
        tags: None,
        status: None,
        rating: None,
        description: None,
        date_finished: None,
    }
}

fn no_filter() -> BookFilter {
    BookFilter { status: None, search: None, page: None, limit: None }
}

#[test]
fn create_defaults() {
    let mut svc = BookService::new();
    let book = svc.create_book(create_req("Dune", "Herbert"), TODAY).unwrap();
    assert_eq!(book.id, 1);
    assert_eq!(book.title, "Dune");
    assert_eq!(book.author, "Herbert");
    assert_eq!(book.status, BookStatus::Wishlist);
    assert!(book.tags.is_empty());
    assert_eq!(book.notes_count, 0);
    assert_eq!(book.rating, None);
    assert_eq!(book.date_added, TODAY);
    assert_eq!(book.date_finished, None);
    assert_eq!(book.cover_url, None);
    assert_eq!(book.description, None);
}

#[test]
fn create_trims_title_and_author() {
    let mut svc = BookService::new();
    let book = svc.create_book(create_req("  Dune  ", "\tHerbert\n"), TODAY).unwrap();
    assert_eq!(book.title, "Dune");
    assert_eq!(book.author, "Herbert");
}

#[test]
fn create_rejects_blank_and_writes_nothing() {
    let mut svc = BookService::new();
    let err = svc.create_book(create_req("   ", "Herbert"), TODAY).unwrap_err();
    match err {
        ApiError::ValidationError(m) => assert_eq!(m, "Title cannot be empty"),
        other => panic!("expected a validation error, got {:?}", other),
    }
    let all = svc.get_all_books(&no_filter()).unwrap();
    assert!(all.is_empty());
}

#[test]
fn create_rejects_bad_rating_boundary_passes() {
    let mut svc = BookService::new();
    let mut req = create_req("Dune", "Herbert");
    req.rating = Some(0);
    assert!(matches!(
        svc.create_book(req, TODAY),
        Err(ApiError::ValidationError(_))
    ));
    let mut req = create_req("Dune", "Herbert");
    req.rating = Some(1);
    assert_eq!(svc.create_book(req, TODAY).unwrap().rating, Some(1));
    let mut req = create_req("Messiah", "Herbert");
    req.rating = Some(5);
    assert_eq!(svc.create_book(req, TODAY).unwrap().rating, Some(5));
}

#[test]
fn create_then_get_round_trip() {
    let mut svc = BookService::new();
    let mut req = create_req("  Dune ", " Herbert ");
    req.status = Some(BookStatus::Reading);
    req.tags = Some(vec!["sf".to_string(), "classic".to_string()]);
    req.rating = Some(4);
    req.description = Some("Sand.".to_string());
    req.date_finished = Some(TODAY + 10);
    let created = svc.create_book(req, TODAY).unwrap();
    let fetched = svc.get_book_by_id(created.id).unwrap();
    assert_eq!(fetched.id, created.id);
    assert_eq!(fetched.title, "Dune");
    assert_eq!(fetched.author, "Herbert");
    assert_eq!(fetched.status, BookStatus::Reading);
    assert_eq!(fetched.tags, vec!["sf".to_string(), "classic".to_string()]);
    assert_eq!(fetched.rating, Some(4));
    assert_eq!(fetched.description, Some("Sand.".to_string()));
    assert_eq!(fetched.date_finished, Some(TODAY + 10));
    assert_eq!(fetched.date_added, TODAY);
    assert_eq!(fetched.notes_count, 0);
}

#[test]
fn get_absent_is_not_found() {
    let svc = BookService::new();
    match svc.get_book_by_id(7).unwrap_err() {
        ApiError::NotFound(m) => assert_eq!(m, "Resource not found"),
        other => panic!("expected not-found, got {:?}", other),
    }
}

#[test]
fn ids_are_fresh_and_stable() {
    let mut svc = BookService::new();
    let a = svc.create_book(create_req("A", "x"), TODAY).unwrap();
    let b = svc.create_book(create_req("B", "y"), TODAY).unwrap();
    assert_eq!(a.id, 1);
    assert_eq!(b.id, 2);
    svc.delete_book(a.id).unwrap();
    let c = svc.create_book(create_req("C", "z"), TODAY).unwrap();
    assert_eq!(c.id, 3);
}

#[test]
fn update_overwrites_present_keeps_absent() {
    let mut svc = BookService::new();
    let mut req = create_req("Dune", "Herbert");
    req.rating = Some(3);
    let created = svc.create_book(req, TODAY).unwrap();
    let mut up = UpdateBookRequest::empty();
    up.title = Some("Dune Messiah".to_string());
    up.status = Some(BookStatus::Finished);
    let updated = svc.update_book(created.id, up).unwrap();
    assert_eq!(updated.title, "Dune Messiah");
    assert_eq!(updated.status, BookStatus::Finished);
    assert_eq!(updated.author, "Herbert");
    assert_eq!(updated.rating, Some(3));
    assert_eq!(updated.date_added, TODAY);
    let fetched = svc.get_book_by_id(created.id).unwrap();
    assert_eq!(fetched.title, "Dune Messiah");
}

#[test]
fn update_never_touches_date_added() {
    let mut svc = BookService::new();
    let created = svc.create_book(create_req("Dune", "Herbert"), TODAY).unwrap();
    let mut up = UpdateBookRequest::empty();
    up.date_finished = Some(TODAY + 30);
    let updated = svc.update_book(created.id, up).unwrap();
    assert_eq!(updated.date_finished, Some(TODAY + 30));
    assert_eq!(updated.date_added, TODAY);
}

#[test]
fn update_absent_id_is_not_found() {
    let mut svc = BookService::new();
    let mut up = UpdateBookRequest::empty();
    up.title = Some("X".to_string());
    match svc.update_book(9, up).unwrap_err() {
        ApiError::NotFound(m) => assert_eq!(m, "Resource not found"),
        other => panic!("expected not-found, got {:?}", other),
    }
}

#[test]
fn update_rejects_bad_rating() {
    let mut svc = BookService::new();
    let created = svc.create_book(create_req("Dune", "Herbert"), TODAY).unwrap();
    let mut up = UpdateBookRequest::empty();
    up.rating = Some(6);
    match svc.update_book(created.id, up).unwrap_err() {
        ApiError::ValidationError(m) => assert_eq!(m, "Rating must be between 1 and 5"),
        other => panic!("expected a validation error, got {:?}", other),
    }
    assert_eq!(svc.get_book_by_id(created.id).unwrap().rating, None);
}

#[test]
fn patch_rating_six_fails() {
    let mut svc = BookService::new();
    let created = svc.create_book(create_req("Dune", "Herbert"), TODAY).unwrap();
    let mut up = UpdateBookRequest::empty();
    up.rating = Some(6);
    match svc.patch_book(created.id, up).unwrap_err() {
        ApiError::ValidationError(m) => assert_eq!(m, "Rating must be between 1 and 5"),
        other => panic!("expected a validation error, got {:?}", other),
    }
}

#[test]
fn patch_all_absent_is_noop() {
    let mut svc = BookService::new();
    let mut req = create_req("Dune", "Herbert");
    req.rating = Some(2);
    let created = svc.create_book(req, TODAY).unwrap();
    let patched = svc.patch_book(created.id, UpdateBookRequest::empty()).unwrap();
    assert_eq!(patched.title, "Dune");
    assert_eq!(patched.author, "Herbert");
    assert_eq!(patched.rating, Some(2));
    assert_eq!(patched.date_added, TODAY);
    let fetched = svc.get_book_by_id(created.id).unwrap();
    assert_eq!(fetched.title, "Dune");
    assert_eq!(fetched.rating, Some(2));
}

#[test]
fn patch_without_core_fields_skips_validation() {
    let mut svc = BookService::new();
    let created = svc.create_book(create_req("Dune", "Herbert"), TODAY).unwrap();
    let mut up = UpdateBookRequest::empty();
    up.cover_url = Some("not a url".to_string());
    let patched = svc.patch_book(created.id, up).unwrap();
    assert_eq!(patched.cover_url, Some("not a url".to_string()));

    let mut up = UpdateBookRequest::empty();
    up.cover_url = Some("also not a url".to_string());
    up.title = Some("Dune Messiah".to_string());
    match svc.patch_book(created.id, up).unwrap_err() {
        ApiError::ValidationError(m) => assert_eq!(m, "Cover URL must be a valid URL"),
        other => panic!("expected a validation error, got {:?}", other),
    }
}

#[test]
fn delete_absent_then_twice() {
    let mut svc = BookService::new();
    match svc.delete_book(42).unwrap_err() {
        ApiError::NotFound(m) => assert_eq!(m, "Book with id 42 not found"),
        other => panic!("expected not-found, got {:?}", other),
    }
    let created = svc.create_book(create_req("Dune", "Herbert"), TODAY).unwrap();
    svc.delete_book(created.id).unwrap();
    match svc.delete_book(created.id).unwrap_err() {
        ApiError::NotFound(m) => assert_eq!(m, "Book with id 1 not found"),
        other => panic!("expected not-found, got {:?}", other),
    }
    match svc.get_book_by_id(created.id).unwrap_err() {
        ApiError::NotFound(m) => assert_eq!(m, "Resource not found"),
        other => panic!("expected not-found, got {:?}", other),
    }
}

#[test]
fn new_book_body_stands_for_a_minimal_create() {
    let mut svc = BookService::new();
    let body = NewBook { title: "Dune".to_string(), author: "Herbert".to_string() };
    let book = svc.create_book(body.into_request(), TODAY).unwrap();
    assert_eq!(book.title, "Dune");
    assert_eq!(book.author, "Herbert");
    assert_eq!(book.status, BookStatus::Wishlist);
}
