//! The record service: create, read, filtered listing, update, patch
//! and delete of book records, over the service's table of books.
//!
//! The table is held as a vector in store order; a boundary that runs
//! the same operations against a SQL store reuses this crate's
//! validation, query planning and row mapping, and mirrors these
//! semantics.

use vstd::prelude::*;
use vstd::pervasive::VecAdditionalExecFns;
use crate::errors::ApiError;
use crate::errors::not_found_msg;
use crate::errors::make_not_found_msg;
use crate::errors::joined_msgs;
use crate::listing::filter_books;
use crate::listing::filtered;
use crate::listing::page_books;
use crate::listing::page_of;
use crate::listing::sort_books_desc;
use crate::listing::sort_desc;
use crate::listing::spec_limit;
use crate::listing::spec_offset;
use crate::listing::spec_page;
use crate::listing::clamp_limit;
use crate::models::Book;
use crate::models::BookFilter;
use crate::models::BookStatus;
use crate::models::BookView;
use crate::models::CreateBookRequest;
use crate::models::CreateRequestView;
use crate::models::UpdateBookRequest;
use crate::models::UpdateRequestView;
use crate::text::trim_spec;
use crate::text::trim_str;
use crate::text::lemma_trim_idempotent;
use crate::text::lemma_trim_len;
use crate::validation::create_errors;
use crate::validation::update_errors;
use crate::validation::url_ok;
use crate::validation::validate_create;
use crate::validation::validate_update;

verus! {

/// The field invariants every operation enforces on every persisted
/// record: a title and an author that are not blank and fit the length
/// cap, a rating of one to five when set, and a non-negative note
/// counter. These are the fields the unchecked patch path still
/// validates whenever it touches them, so they hold of every record.
pub open spec fn valid_core(b: BookView) -> bool {
    &&& trim_spec(b.title).len() > 0
    &&& b.title.len() <= 255
    &&& trim_spec(b.author).len() > 0
    &&& b.author.len() <= 255
    &&& match b.rating {
        Some(r) => 1 <= r <= 5,
        None => true,
    }
    &&& b.notes_count >= 0
}

/// The full field invariants of a freshly created record: the enforced
/// core, and the caps on tags, description and cover URL that a create
/// request is always validated against. A patch that names none of
/// title, author and rating skips validation, as the patch policy
/// says, and so can move a record outside the optional-field caps;
/// they are therefore stated of creation, not of the whole table.
pub open spec fn valid_book(b: BookView) -> bool {
    &&& trim_spec(b.title).len() > 0
    &&& b.title.len() <= 255
    &&& trim_spec(b.author).len() > 0
    &&& b.author.len() <= 255
    &&& match b.rating {
        Some(r) => 1 <= r <= 5,
        None => true,
    }
    &&& b.tags.len() <= 20
    &&& match b.description {
        Some(d) => d.len() <= 2000,
        None => true,
    }
    &&& match b.cover_url {
        Some(u) => url_ok(u),
        None => true,
    }
    &&& b.notes_count >= 0
}

/// Whether some record of the run carries the given id.
pub open spec fn has_book(books: Seq<BookView>, id: i32) -> bool {
    exists|i: int| 0 <= i < books.len() && books[i].id == id
}

/// The record a passing create request persists: title and author
/// trimmed, status defaulted to wishlist, tags defaulted to none, the
/// date added set to the creation date, and the note counter at zero.
pub open spec fn new_book_of(id: i32, req: CreateRequestView, today: i32) -> BookView {
    BookView {
        id: id,
        title: trim_spec(req.title),
        author: trim_spec(req.author),
        cover_url: req.cover_url,
        tags: match req.tags {
            Some(t) => t,
            None => Seq::<Seq<char>>::empty(),
        },
        status: match req.status {
            Some(s) => s,
            None => BookStatus::Wishlist,
        },
        date_added: today,
        date_finished: req.date_finished,
        rating: req.rating,
        description: req.description,
        notes_count: 0,
    }
}

/// The record an update request leaves behind: each present field
/// overwrites, each absent field keeps the stored value, and the id,
/// the date added and the note counter are never touched.
pub open spec fn apply_update_spec(b: BookView, r: UpdateRequestView) -> BookView {
    BookView {
        id: b.id,
        title: match r.title {
            Some(t) => t,
            None => b.title,
        },
        author: match r.author {
            Some(a) => a,
            None => b.author,
        },
        cover_url: match r.cover_url {
            Some(u) => Some(u),
            None => b.cover_url,
        },
        tags: match r.tags {
            Some(t) => t,
            None => b.tags,
        },
        status: match r.status {
            Some(s) => s,
            None => b.status,
        },
        date_added: b.date_added,
        date_finished: match r.date_finished {
            Some(d) => Some(d),
            None => b.date_finished,
        },
        rating: match r.rating {
            Some(x) => Some(x),
            None => b.rating,
        },
        description: match r.description {
            Some(d) => Some(d),
            None => b.description,
        },
        notes_count: b.notes_count,
    }
}

/// Whether a patch request is put through validation at all: it is
/// whenever the request names a title, an author or a rating, and
/// skipped otherwise.
pub open spec fn patch_validates(r: UpdateRequestView) -> bool {
    r.title is Some || r.author is Some || r.rating is Some
}

/// The record service: the sole owner of the table of books, handing
/// out independent record snapshots.
pub struct BookService {
    books: Vec<Book>,
    next_id: i32,
}

impl BookService {
    /// The table of books, in store order.
    pub closed spec fn books_view(&self) -> Seq<BookView> {
        self.books.deep_view()
    }

    /// The id the next created record receives.
    pub closed spec fn spec_next_id(&self) -> i32 {
        self.next_id
    }

    /// The service invariant: every persisted record satisfies the
    /// field invariants, ids are unique, and every id is positive and
    /// below the next one to be assigned.
    pub open spec fn wf(&self) -> bool {
        &&& 1 <= self.spec_next_id()
        &&& forall|i: int|
            0 <= i < self.books_view().len() ==> valid_core(#[trigger] self.books_view()[i])
                && 1 <= self.books_view()[i].id < self.spec_next_id()
        &&& forall|i: int, j: int|
            0 <= i < j < self.books_view().len() ==> #[trigger] self.books_view()[i].id
                != #[trigger] self.books_view()[j].id
    }

    /// An empty service: no records, ids starting at one.
    pub fn new() -> (s: BookService)
        ensures
            s.wf(),
            s.books_view() == Seq::<BookView>::empty(),
            s.spec_next_id() == 1,
    {
        let s = BookService { books: Vec::new(), next_id: 1 };
        proof {
            assert(s.books_view() =~= Seq::<BookView>::empty());
        }
        s
    }

    /// Creates a record from a request. A request with failing fields
    /// is rejected with their joined report and nothing is persisted;
    /// otherwise the trimmed, defaulted record is appended under a
    /// fresh id with the given creation date and returned.
    pub fn create_book(&mut self, request: CreateBookRequest, today: i32) -> (r: Result<
        Book,
        ApiError,
    >)
        requires
            old(self).wf(),
        ensures
            final(self).wf(),
            create_errors(request@).len() > 0 ==> {
                &&& r matches Err(ApiError::ValidationError(m)) && m@ == joined_msgs(
                    create_errors(request@),
                )
                &&& final(self).books_view() == old(self).books_view()
                &&& final(self).spec_next_id() == old(self).spec_next_id()
            },
            create_errors(request@).len() == 0 && old(self).spec_next_id() == i32::MAX ==> {
                &&& r matches Err(e) && e is InternalError
                &&& final(self).books_view() == old(self).books_view()
                &&& final(self).spec_next_id() == old(self).spec_next_id()
            },
            create_errors(request@).len() == 0 && old(self).spec_next_id() < i32::MAX ==> {
                &&& r matches Ok(b) && b@ == new_book_of(
                    old(self).spec_next_id(),
                    request@,
                    today,
                )
                &&& final(self).books_view() == old(self).books_view().push(
                    new_book_of(old(self).spec_next_id(), request@, today),
                )
                &&& final(self).spec_next_id() == old(self).spec_next_id() + 1
            },
    {
        match validate_create(&request) {
            Err(ve) => {
                let joined = ve.joined();
                return Err(ApiError::ValidationError(joined));
            },
            Ok(()) => {},
        }
        if self.next_id == i32::MAX {
            return Err(
                ApiError::InternalError(String::from_str("no record id left to assign")),
            );
        }
        let id = self.next_id;
        self.next_id = self.next_id + 1;
        let tags: Vec<String> = match request.tags {
            Some(t) => t,
            None => Vec::new(),
        };
        let status: BookStatus = match request.status {
            Some(s) => s,
            None => BookStatus::Wishlist,
        };
        let book = Book {
            id,
            title: trim_str(request.title.as_str()),
            author: trim_str(request.author.as_str()),
            cover_url: request.cover_url,
            tags,
            status,
            date_added: today,
            date_finished: request.date_finished,
            rating: request.rating,
            description: request.description,
            notes_count: 0,
        };
        proof {
            assert(book@ =~= new_book_of(id, request@, today));
            lemma_trim_idempotent(request@.title);
            lemma_trim_idempotent(request@.author);
            lemma_trim_len(request@.title);
            lemma_trim_len(request@.author);
            assert(valid_book(book@));
            assert(valid_core(book@));
        }
        let result = book.duplicate();
        let ghost prev = self.books.deep_view();
        self.books.push(book);
        proof {
            assert(self.books.deep_view() =~= prev.push(new_book_of(id, request@, today)));
        }
        Ok(result)
    }

    /// The record under the given id, as an independent snapshot;
    /// not-found when no record carries it.
    pub fn get_book_by_id(&self, id: i32) -> (r: Result<Book, ApiError>)
        requires
            self.wf(),
        ensures
            match r {
                Ok(b) => has_book(self.books_view(), id) && exists|i: int|
                    0 <= i < self.books_view().len() && self.books_view()[i].id == id && b@
                        == self.books_view()[i],
                Err(e) => !has_book(self.books_view(), id) && (e matches ApiError::NotFound(m)
                    && m@ == "Resource not found"@),
            },
    {
        let mut i: usize = 0;
        while i < self.books.len()
            invariant
                0 <= i <= self.books.len(),
                self.books_view().len() == self.books.len(),
                forall|k: int| 0 <= k < i ==> self.books_view()[k].id != id,
            decreases self.books.len() - i,
        {
            if self.books[i].id == id {
                let found = self.books[i].duplicate();
                proof {
                    assert(found@ == self.books_view()[i as int]);
                    assert(exists|k: int|
                        0 <= k < self.books_view().len() && self.books_view()[k].id == id
                            && found@ == self.books_view()[k]);
                }
                return Ok(found);
            }
            i = i + 1;
        }
        Err(ApiError::NotFound(String::from_str("Resource not found")))
    }

    /// The filtered, ordered page of records: records passing the
    /// filter, ordered by date added newest first, the asked-for page
    /// of them. An empty result is not a failure.
    pub fn get_all_books(&self, filter: &BookFilter) -> (r: Result<Vec<Book>, ApiError>)
        requires
            self.wf(),
            spec_page(filter@) >= 1,
        ensures
            r matches Ok(v) && v.deep_view() == page_of(
                sort_desc(filtered(self.books_view(), filter@)),
                spec_offset(filter@),
                spec_limit(filter@.limit) as int,
            ),
    {
        let limit = clamp_limit(filter.limit);
        let page: u32 = match filter.page {
            Some(p) => p,
            None => 1u32,
        };
        proof {
            assert((page - 1) as u64 * limit as u64 <= 0xFFFF_FFFFu64 * 100) by (nonlinear_arith)
                requires
                    1 <= page <= u32::MAX,
                    limit <= 100,
            ;
        }
        let offset: u64 = (page as u64 - 1) * (limit as u64);
        let matching = filter_books(&self.books, filter);
        let ordered = sort_books_desc(matching);
        let paged = page_books(&ordered, offset, limit);
        Ok(paged)
    }

    /// The shared mutation path of update and patch: finds the record,
    /// overwrites its present fields, and returns the result. No
    /// validation happens here.
    fn apply_to_id(&mut self, id: i32, request: UpdateBookRequest) -> (r: Result<Book, ApiError>)
        requires
            old(self).wf(),
            update_errors(request@).len() == 0 || !patch_validates(request@),
        ensures
            final(self).wf(),
            final(self).spec_next_id() == old(self).spec_next_id(),
            !has_book(old(self).books_view(), id) ==> {
                &&& r matches Err(ApiError::NotFound(m)) && m@ == "Resource not found"@
                &&& final(self).books_view() == old(self).books_view()
            },
            has_book(old(self).books_view(), id) ==> exists|k: int|
                {
                    &&& 0 <= k < old(self).books_view().len()
                    &&& old(self).books_view()[k].id == id
                    &&& final(self).books_view() == old(self).books_view().update(
                        k,
                        apply_update_spec(old(self).books_view()[k], request@),
                    )
                    &&& r matches Ok(b) && b@ == apply_update_spec(
                        old(self).books_view()[k],
                        request@,
                    )
                },
    {
        let ghost rv = request@;
        let mut i: usize = 0;
        while i < self.books.len()
            invariant
                *self == *old(self),
                old(self).wf(),
                request@ == rv,
                update_errors(rv).len() == 0 || !patch_validates(rv),
                0 <= i <= self.books.len(),
                self.books_view().len() == self.books.len(),
                forall|k: int| 0 <= k < i ==> self.books_view()[k].id != id,
            decreases self.books.len() - i,
        {
            if self.books[i].id == id {
                let current = self.books[i].duplicate();
                let updated = apply_update(current, request);
                let result = updated.duplicate();
                let ghost prev = self.books.deep_view();
                let ghost prevraw = self.books@;
                self.books.set(i, updated);
                proof {
                    assert(current@ == prev[i as int]);
                    assert(updated@ == apply_update_spec(prev[i as int], rv));
                    let want = prev.update(i as int, apply_update_spec(prev[i as int], rv));
                    assert forall|k: int| 0 <= k < self.books.deep_view().len() implies
                        self.books.deep_view()[k] == want[k] by {
                        if k == i as int {
                            assert(self.books@[k] == updated);
                        } else {
                            assert(self.books@[k] == prevraw[k]);
                            assert(prev[k] == prevraw[k].deep_view());
                        }
                    }
                    assert(self.books.deep_view() =~= want);
                    assert(valid_core(self.books.deep_view()[i as int]));
                    assert(old(self).books_view()[i as int].id == id);
                    assert(has_book(old(self).books_view(), id));
                }
                return Ok(result);
            }
            i = i + 1;
        }
        Err(ApiError::NotFound(String::from_str("Resource not found")))
    }

    /// Updates a record: every present field is validated, a failing
    /// request is rejected with the joined report and nothing changes;
    /// otherwise the present fields overwrite the stored ones, absent
    /// fields keep their value, and the date added is never touched.
    pub fn update_book(&mut self, id: i32, request: UpdateBookRequest) -> (r: Result<
        Book,
        ApiError,
    >)
        requires
            old(self).wf(),
        ensures
            final(self).wf(),
            final(self).spec_next_id() == old(self).spec_next_id(),
            update_errors(request@).len() > 0 ==> {
                &&& r matches Err(ApiError::ValidationError(m)) && m@ == joined_msgs(
                    update_errors(request@),
                )
                &&& final(self).books_view() == old(self).books_view()
            },
            update_errors(request@).len() == 0 && !has_book(old(self).books_view(), id) ==> {
                &&& r matches Err(ApiError::NotFound(m)) && m@ == "Resource not found"@
                &&& final(self).books_view() == old(self).books_view()
            },
            update_errors(request@).len() == 0 && has_book(old(self).books_view(), id)
                ==> exists|k: int|
                {
                    &&& 0 <= k < old(self).books_view().len()
                    &&& old(self).books_view()[k].id == id
                    &&& final(self).books_view() == old(self).books_view().update(
                        k,
                        apply_update_spec(old(self).books_view()[k], request@),
                    )
                    &&& r matches Ok(b) && b@ == apply_update_spec(
                        old(self).books_view()[k],
                        request@,
                    )
                },
    {
        match validate_update(&request) {
            Err(ve) => {
                let joined = ve.joined();
                return Err(ApiError::ValidationError(joined));
            },
            Ok(()) => {},
        }
        self.apply_to_id(id, request)
    }

    /// Patches a record: the same mutation semantics as update, but
    /// validation runs only when the request names a title, an author
    /// or a rating — a request naming none of the three is applied
    /// unchecked, so one naming no field at all always succeeds on an
    /// existing record.
    pub fn patch_book(&mut self, id: i32, request: UpdateBookRequest) -> (r: Result<
        Book,
        ApiError,
    >)
        requires
            old(self).wf(),
        ensures
            final(self).wf(),
            final(self).spec_next_id() == old(self).spec_next_id(),
            patch_validates(request@) && update_errors(request@).len() > 0 ==> {
                &&& r matches Err(ApiError::ValidationError(m)) && m@ == joined_msgs(
                    update_errors(request@),
                )
                &&& final(self).books_view() == old(self).books_view()
            },
            (!patch_validates(request@) || update_errors(request@).len() == 0) && !has_book(
                old(self).books_view(),
                id,
            ) ==> {
                &&& r matches Err(ApiError::NotFound(m)) && m@ == "Resource not found"@
                &&& final(self).books_view() == old(self).books_view()
            },
            (!patch_validates(request@) || update_errors(request@).len() == 0) && has_book(
                old(self).books_view(),
                id,
            ) ==> exists|k: int|
                {
                    &&& 0 <= k < old(self).books_view().len()
                    &&& old(self).books_view()[k].id == id
                    &&& final(self).books_view() == old(self).books_view().update(
                        k,
                        apply_update_spec(old(self).books_view()[k], request@),
                    )
                    &&& r matches Ok(b) && b@ == apply_update_spec(
                        old(self).books_view()[k],
                        request@,
                    )
                },
    {
        let checks = request.title.is_some() || request.author.is_some()
            || request.rating.is_some();
        if checks {
            match validate_update(&request) {
                Err(ve) => {
                    let joined = ve.joined();
                    return Err(ApiError::ValidationError(joined));
                },
                Ok(()) => {},
            }
        }
        self.apply_to_id(id, request)
    }

    /// Deletes the record under the given id; not-found when no record
    /// carries it, and a deleted id stays not-found thereafter.
    pub fn delete_book(&mut self, id: i32) -> (r: Result<(), ApiError>)
        requires
            old(self).wf(),
        ensures
            final(self).wf(),
            final(self).spec_next_id() == old(self).spec_next_id(),
            !has_book(old(self).books_view(), id) ==> {
                &&& r matches Err(ApiError::NotFound(m)) && m@ == not_found_msg(id)
                &&& final(self).books_view() == old(self).books_view()
            },
            has_book(old(self).books_view(), id) ==> r is Ok && exists|k: int|
                {
                    &&& 0 <= k < old(self).books_view().len()
                    &&& old(self).books_view()[k].id == id
                    &&& final(self).books_view() == old(self).books_view().remove(k)
                },
    {
        let mut i: usize = 0;
        while i < self.books.len()
            invariant
                *self == *old(self),
                old(self).wf(),
                0 <= i <= self.books.len(),
                self.books_view().len() == self.books.len(),
                forall|k: int| 0 <= k < i ==> self.books_view()[k].id != id,
            decreases self.books.len() - i,
        {
            if self.books[i].id == id {
                let ghost prev = self.books.deep_view();
                let ghost prevraw = self.books@;
                self.books.remove(i);
                proof {
                    assert forall|k: int| 0 <= k < self.books.deep_view().len() implies
                        self.books.deep_view()[k] == prev.remove(i as int)[k] by {
                        if k < i as int {
                            assert(self.books@[k] == prevraw[k]);
                        } else {
                            assert(self.books@[k] == prevraw[k + 1]);
                        }
                    }
                    assert(self.books.deep_view() =~= prev.remove(i as int));
                    assert(old(self).books_view()[i as int].id == id);
                    assert(has_book(old(self).books_view(), id));
                }
                return Ok(());
            }
            i = i + 1;
        }
        Err(ApiError::NotFound(make_not_found_msg(id)))
    }
}

/// The record an update request leaves behind, as an owned value.
pub fn apply_update(book: Book, request: UpdateBookRequest) -> (r: Book)
    ensures
        r@ == apply_update_spec(book@, request@),
{
    let r = Book {
        id: book.id,
        title: match request.title {
            Some(t) => t,
            None => book.title,
        },
        author: match request.author {
            Some(a) => a,
            None => book.author,
        },
        cover_url: match request.cover_url {
            Some(u) => Some(u),
            None => book.cover_url,
        },
        tags: match request.tags {
            Some(t) => t,
            None => book.tags,
        },
        status: match request.status {
            Some(s) => s,
            None => book.status,
        },
        date_added: book.date_added,
        date_finished: match request.date_finished {
            Some(d) => Some(d),
            None => book.date_finished,
        },
        rating: match request.rating {
            Some(x) => Some(x),
            None => book.rating,
        },
        description: match request.description {
            Some(d) => Some(d),
            None => book.description,
        },
        notes_count: book.notes_count,
    };
    proof {
        assert(r@ =~= apply_update_spec(book@, request@));
    }
    r
}

} // verus!
