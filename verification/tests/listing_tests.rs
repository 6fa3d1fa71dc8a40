use book_notes::listing::build_list_query;
use book_notes::listing::clamp_limit;
use book_notes::listing::ListShape;
use book_notes::models::BookFilter;
use book_notes::models::BookStatus;
use book_notes::models::CreateBookRequest;
use book_notes::service::BookService;

const TODAY: i32 = 20_000;

fn create_req(title: &str, author: &str) -> CreateBookRequest {
    CreateBookRequest {
        title: title.to_string(),
        author: author.to_string(),
        cover_url: None,
        tags: None,
        status: None,
        rating: None,
        description: None,
        date_finished: None,
    }
}

fn filter() -> BookFilter {
    BookFilter { status: None, search: None, page: None, limit: None }
}

#[test]
fn limit_is_defaulted_and_clamped() {
    assert_eq!(clamp_limit(None), 50);
    assert_eq!(clamp_limit(Some(10)), 10);
    assert_eq!(clamp_limit(Some(100)), 100);
    assert_eq!(clamp_limit(Some(200)), 100);
    assert_eq!(clamp_limit(Some(0)), 0);
}

#[test]
fn list_limit_200_is_clamped_to_100() {
    let mut svc = BookService::new();
    for i in 0..150 {
        svc.create_book(create_req(&format!("Book {}", i), "Author"), TODAY + i)
            .unwrap();
    }
    let mut f = filter();
    f.limit = Some(200);
    let page = svc.get_all_books(&f).unwrap();
    assert_eq!(page.len(), 100);
}

#[test]
fn list_defaults_to_50_and_pages() {
    let mut svc = BookService::new();
    for i in 0..60 {
        svc.create_book(create_req(&format!("Book {}", i), "Author"), TODAY).unwrap();
    }
    let first = svc.get_all_books(&filter()).unwrap();
    assert_eq!(first.len(), 50);
    let mut f = filter();
    f.page = Some(2);
    let second = svc.get_all_books(&f).unwrap();
    assert_eq!(second.len(), 10);
}

#[test]
fn list_orders_by_date_added_descending() {
    let mut svc = BookService::new();
    svc.create_book(create_req("Oldest", "A"), TODAY - 10).unwrap();
    svc.create_book(create_req("Newest", "B"), TODAY + 10).unwrap();
    svc.create_book(create_req("Middle", "C"), TODAY).unwrap();
    let all = svc.get_all_books(&filter()).unwrap();
    let titles: Vec<&str> = all.iter().map(|b| b.title.as_str()).collect();
    assert_eq!(titles, vec!["Newest", "Middle", "Oldest"]);
}

#[test]
fn list_ties_keep_store_order() {
    let mut svc = BookService::new();
    svc.create_book(create_req("First", "A"), TODAY).unwrap();
    svc.create_book(create_req("Second", "B"), TODAY).unwrap();
    svc.create_book(create_req("Newer", "C"), TODAY + 1).unwrap();
    let all = svc.get_all_books(&filter()).unwrap();
    let titles: Vec<&str> = all.iter().map(|b| b.title.as_str()).collect();
    assert_eq!(titles, vec!["Newer", "First", "Second"]);
}

#[test]
fn search_matches_author_case_insensitively() {
    let mut svc = BookService::new();
    svc.create_book(create_req("Dune", "Herbert"), TODAY).unwrap();
    svc.create_book(create_req("Emma", "Austen"), TODAY).unwrap();
    let mut f = filter();
    f.search = Some("herb".to_string());
    let hits = svc.get_all_books(&f).unwrap();
    assert_eq!(hits.len(), 1);
    assert_eq!(hits[0].author, "Herbert");
}

#[test]
fn search_matches_title_and_is_trimmed() {
    let mut svc = BookService::new();
    svc.create_book(create_req("The Dispossessed", "Le Guin"), TODAY).unwrap();
    svc.create_book(create_req("Emma", "Austen"), TODAY).unwrap();
    let mut f = filter();
    f.search = Some("  DISPO  ".to_string());
    let hits = svc.get_all_books(&f).unwrap();
    assert_eq!(hits.len(), 1);
    assert_eq!(hits[0].title, "The Dispossessed");
}

#[test]
fn blank_search_filters_nothing() {
    let mut svc = BookService::new();
    svc.create_book(create_req("Dune", "Herbert"), TODAY).unwrap();
    svc.create_book(create_req("Emma", "Austen"), TODAY).unwrap();
    let mut f = filter();
    f.search = Some("   ".to_string());
    assert_eq!(svc.get_all_books(&f).unwrap().len(), 2);
}

#[test]
fn status_filter_is_exact() {
    let mut svc = BookService::new();
    let mut req = create_req("Dune", "Herbert");
    req.status = Some(BookStatus::Reading);
    svc.create_book(req, TODAY).unwrap();
    svc.create_book(create_req("Emma", "Austen"), TODAY).unwrap();
    let mut f = filter();
    f.status = Some(BookStatus::Reading);
    let hits = svc.get_all_books(&f).unwrap();
    assert_eq!(hits.len(), 1);
    assert_eq!(hits[0].title, "Dune");
    f.status = Some(BookStatus::Finished);
    assert!(svc.get_all_books(&f).unwrap().is_empty());
}

#[test]
fn status_and_search_combine() {
    let mut svc = BookService::new();
    let mut req = create_req("Dune", "Herbert");
    req.status = Some(BookStatus::Reading);
    svc.create_book(req, TODAY).unwrap();
    let mut req = create_req("Dune Messiah", "Herbert");
    req.status = Some(BookStatus::Finished);
    svc.create_book(req, TODAY).unwrap();
    let mut f = filter();
    f.status = Some(BookStatus::Finished);
    f.search = Some("dune".to_string());
    let hits = svc.get_all_books(&f).unwrap();
    assert_eq!(hits.len(), 1);
    assert_eq!(hits[0].title, "Dune Messiah");
}

#[test]
fn empty_result_is_no_failure() {
    let svc = BookService::new();
    assert!(svc.get_all_books(&filter()).unwrap().is_empty());
}

#[test]
fn query_plan_shapes() {
    let q = build_list_query(&filter());
    assert_eq!(q.shape, ListShape::All);
    assert_eq!(q.status, None);
    assert_eq!(q.pattern, None);
    assert_eq!(q.limit, 50);
    assert_eq!(q.offset, 0);

    let mut f = filter();
    f.status = Some(BookStatus::Reading);
    let q = build_list_query(&f);
    assert_eq!(q.shape, ListShape::ByStatus);
    assert_eq!(q.status, Some("reading".to_string()));
    assert_eq!(q.pattern, None);

    let mut f = filter();
    f.search = Some(" herb ".to_string());
    let q = build_list_query(&f);
    assert_eq!(q.shape, ListShape::BySearch);
    assert_eq!(q.pattern, Some("%herb%".to_string()));

    let mut f = filter();
    f.status = Some(BookStatus::Finished);
    f.search = Some("dune".to_string());
    let q = build_list_query(&f);
    assert_eq!(q.shape, ListShape::ByStatusAndSearch);
    assert_eq!(q.status, Some("finished".to_string()));
    assert_eq!(q.pattern, Some("%dune%".to_string()));
}

#[test]
fn query_plan_blank_search_is_no_condition() {
    let mut f = filter();
    f.search = Some("  ".to_string());
    let q = build_list_query(&f);
    assert_eq!(q.shape, ListShape::All);
    assert_eq!(q.pattern, None);
}

#[test]
fn query_plan_limit_and_offset() {
    let mut f = filter();
    f.page = Some(3);
    f.limit = Some(10);
    let q = build_list_query(&f);
    assert_eq!(q.limit, 10);
    assert_eq!(q.offset, 20);

    let mut f = filter();
    f.page = Some(2);
    f.limit = Some(200);
    let q = build_list_query(&f);
    assert_eq!(q.limit, 100);
    assert_eq!(q.offset, 100);
}
