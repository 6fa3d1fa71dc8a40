//! The domain types of the book service: the managed record, the
//! request shapes that create and change it, and the listing filter.

use vstd::prelude::*;

verus! {

/// The reading status of a book.
#[derive(Clone, Copy, Debug, PartialEq, Eq, Structural)]
pub enum BookStatus {
    Reading,
    Finished,
    Wishlist,
}

/// The text under which a status is stored.
pub open spec fn status_text(st: BookStatus) -> Seq<char> {
    match st {
        BookStatus::Reading => "reading"@,
        BookStatus::Finished => "finished"@,
        BookStatus::Wishlist => "wishlist"@,
    }
}

/// The status encoded by a stored text column; anything unrecognised,
/// and an absent column, falls back to `Wishlist`.
pub open spec fn spec_decode_status(s: Option<Seq<char>>) -> BookStatus {
    match s {
        Some(t) => if t == "reading"@ {
            BookStatus::Reading
        } else if t == "finished"@ {
            BookStatus::Finished
        } else {
            BookStatus::Wishlist
        },
        None => BookStatus::Wishlist,
    }
}

/// The stored text of a status.
pub fn status_to_text(st: BookStatus) -> (r: String)
    ensures
        r@ == status_text(st),
{
    match st {
        BookStatus::Reading => String::from_str("reading"),
        BookStatus::Finished => String::from_str("finished"),
        BookStatus::Wishlist => String::from_str("wishlist"),
    }
}

/// The status a stored text column decodes to.
pub fn decode_status(s: &Option<String>) -> (r: BookStatus)
    ensures
        r == spec_decode_status(s.deep_view()),
{
    match s {
        Some(t) => {
            let reading = String::from_str("reading");
            let finished = String::from_str("finished");
            if *t == reading {
                BookStatus::Reading
            } else if *t == finished {
                BookStatus::Finished
            } else {
                BookStatus::Wishlist
            }
        },
        None => BookStatus::Wishlist,
    }
}

/// Encoding a status and decoding the text again yields the status:
/// the stored texts of the three statuses are distinct.
pub proof fn lemma_status_round_trip(st: BookStatus)
    ensures
        spec_decode_status(Some(status_text(st))) == st,
{
    reveal_strlit("reading");
    reveal_strlit("finished");
    reveal_strlit("wishlist");
    assert("reading"@.len() == 7);
    assert("finished"@.len() == 8);
    assert("wishlist"@.len() == 8);
    assert("finished"@[0] == 'f');
    assert("wishlist"@[0] == 'w');
}

/// A book record as the service returns it.
#[derive(Debug)]
pub struct Book {
    pub id: i32,
    pub title: String,
    pub author: String,
    pub cover_url: Option<String>,
    pub tags: Vec<String>,
    pub status: BookStatus,
    pub date_added: i32,
    pub date_finished: Option<i32>,
    pub rating: Option<i32>,
    pub description: Option<String>,
    pub notes_count: i32,
}

/// The mathematical value of a book record. Dates are carried as plain
/// day numbers; the boundary converts calendar dates to day numbers and
/// back.
#[verifier::ext_equal]
pub struct BookView {
    pub id: i32,
    pub title: Seq<char>,
    pub author: Seq<char>,
    pub cover_url: Option<Seq<char>>,
    pub tags: Seq<Seq<char>>,
    pub status: BookStatus,
    pub date_added: i32,
    pub date_finished: Option<i32>,
    pub rating: Option<i32>,
    pub description: Option<Seq<char>>,
    pub notes_count: i32,
}

impl View for Book {
    type V = BookView;

    open spec fn view(&self) -> BookView {
        BookView {
            id: self.id,
            title: self.title@,
            author: self.author@,
            cover_url: self.cover_url.deep_view(),
            tags: self.tags.deep_view(),
            status: self.status,
            date_added: self.date_added,
            date_finished: self.date_finished,
            rating: self.rating,
            description: self.description.deep_view(),
            notes_count: self.notes_count,
        }
    }
}

impl DeepView for Book {
    type V = BookView;

    open spec fn deep_view(&self) -> BookView {
        self.view()
    }
}

/// A copy of an optional owned string, equal in value.
pub fn clone_opt_string(s: &Option<String>) -> (r: Option<String>)
    ensures
        r.deep_view() == s.deep_view(),
{
    match s {
        Some(t) => Some(t.clone()),
        None => None,
    }
}

/// A copy of a vector of strings, equal element by element.
pub fn clone_string_vec(v: &Vec<String>) -> (r: Vec<String>)
    ensures
        r.deep_view() == v.deep_view(),
{
    let mut out: Vec<String> = Vec::new();
    let mut i: usize = 0;
    while i < v.len()
        invariant
            0 <= i <= v.len(),
            out.len() == i,
            forall|k: int| 0 <= k < i ==> out[k]@ == v[k]@,
        decreases v.len() - i,
    {
        out.push(v[i].clone());
        i = i + 1;
    }
    proof {
        assert(out.deep_view() =~= v.deep_view());
    }
    out
}

impl Book {
    /// An independent copy with the same value.
    pub fn duplicate(&self) -> (r: Book)
        ensures
            r@ == self@,
    {
        let r = Book {
            id: self.id,
            title: self.title.clone(),
            author: self.author.clone(),
            cover_url: clone_opt_string(&self.cover_url),
            tags: clone_string_vec(&self.tags),
            status: self.status,
            date_added: self.date_added,
            date_finished: self.date_finished,
            rating: self.rating,
            description: clone_opt_string(&self.description),
            notes_count: self.notes_count,
        };
        proof {
            assert(r@ =~= self@);
        }
        r
    }
}

/// The body of a request to create a book.
#[derive(Debug)]
pub struct CreateBookRequest {
    pub title: String,
    pub author: String,
    pub cover_url: Option<String>,
    pub tags: Option<Vec<String>>,
    pub status: Option<BookStatus>,
    pub rating: Option<i32>,
    pub description: Option<String>,
    pub date_finished: Option<i32>,
}

/// The mathematical value of a create request.
#[verifier::ext_equal]
pub struct CreateRequestView {
    pub title: Seq<char>,
    pub author: Seq<char>,
    pub cover_url: Option<Seq<char>>,
    pub tags: Option<Seq<Seq<char>>>,
    pub status: Option<BookStatus>,
    pub rating: Option<i32>,
    pub description: Option<Seq<char>>,
    pub date_finished: Option<i32>,
}

impl View for CreateBookRequest {
    type V = CreateRequestView;

    open spec fn view(&self) -> CreateRequestView {
        CreateRequestView {
            title: self.title@,
            author: self.author@,
            cover_url: self.cover_url.deep_view(),
            tags: self.tags.deep_view(),
            status: self.status,
            rating: self.rating,
            description: self.description.deep_view(),
            date_finished: self.date_finished,
        }
    }
}

/// The body of a request to change a book; every field is optional, and
/// an absent field leaves the stored value unchanged.
#[derive(Debug)]
pub struct UpdateBookRequest {
    pub title: Option<String>,
    pub author: Option<String>,
    pub cover_url: Option<String>,
    pub tags: Option<Vec<String>>,
    pub status: Option<BookStatus>,
    pub rating: Option<i32>,
    pub description: Option<String>,
    pub date_finished: Option<i32>,
}

/// The mathematical value of an update request.
#[verifier::ext_equal]
pub struct UpdateRequestView {
    pub title: Option<Seq<char>>,
    pub author: Option<Seq<char>>,
    pub cover_url: Option<Seq<char>>,
    pub tags: Option<Seq<Seq<char>>>,
    pub status: Option<BookStatus>,
    pub rating: Option<i32>,
    pub description: Option<Seq<char>>,
    pub date_finished: Option<i32>,
}

impl View for UpdateBookRequest {
    type V = UpdateRequestView;

    open spec fn view(&self) -> UpdateRequestView {
        UpdateRequestView {
            title: self.title.deep_view(),
            author: self.author.deep_view(),
            cover_url: self.cover_url.deep_view(),
            tags: self.tags.deep_view(),
            status: self.status,
            rating: self.rating,
            description: self.description.deep_view(),
            date_finished: self.date_finished,
        }
    }
}

impl UpdateBookRequest {
    /// A request that names no field at all.
    pub fn empty() -> (r: UpdateBookRequest)
        ensures
            r@.title is None,
            r@.author is None,
            r@.cover_url is None,
            r@.tags is None,
            r@.status is None,
            r@.rating is None,
            r@.description is None,
            r@.date_finished is None,
    {
        UpdateBookRequest {
            title: None,
            author: None,
            cover_url: None,
            tags: None,
            status: None,
            rating: None,
            description: None,
            date_finished: None,
        }
    }
}

/// The filter of a listing request.
#[derive(Debug)]
pub struct BookFilter {
    pub status: Option<BookStatus>,
    pub search: Option<String>,
    pub page: Option<u32>,
    pub limit: Option<u32>,
}

/// The mathematical value of a listing filter.
#[verifier::ext_equal]
pub struct BookFilterView {
    pub status: Option<BookStatus>,
    pub search: Option<Seq<char>>,
    pub page: Option<u32>,
    pub limit: Option<u32>,
}

impl View for BookFilter {
    type V = BookFilterView;

    open spec fn view(&self) -> BookFilterView {
        BookFilterView {
            status: self.status,
            search: self.search.deep_view(),
            page: self.page,
            limit: self.limit,
        }
    }
}

/// The minimal create body of the reduced endpoint: a title and an
/// author, nothing more.
#[derive(Debug)]
pub struct NewBook {
    pub title: String,
    pub author: String,
}

impl NewBook {
    /// The full create request this minimal body stands for: every
    /// optional field absent.
    pub fn into_request(self) -> (r: CreateBookRequest)
        ensures
            r@.title == self.title@,
            r@.author == self.author@,
            r@.cover_url is None,
            r@.tags is None,
            r@.status is None,
            r@.rating is None,
            r@.description is None,
            r@.date_finished is None,
    {
        CreateBookRequest {
            title: self.title,
            author: self.author,
            cover_url: None,
            tags: None,
            status: None,
            rating: None,
            description: None,
            date_finished: None,
        }
    }
}

} // verus!
