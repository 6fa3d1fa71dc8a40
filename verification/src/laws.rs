//! The laws of the service, each proved once and for all: what the
//! operations' contracts add up to across calls.

use vstd::prelude::*;
use crate::listing::filtered;
use crate::listing::page_of;
use crate::listing::sort_desc;
use crate::listing::sorted_desc;
use crate::listing::spec_limit;
use crate::listing::spec_offset;
use crate::listing::spec_page;
use crate::listing::lemma_sort_desc_len;
use crate::listing::lemma_sort_desc_sorted;
use crate::models::BookFilterView;
use crate::models::BookView;
use crate::models::CreateRequestView;
use crate::models::UpdateRequestView;
use crate::service::apply_update_spec;
use crate::service::has_book;
use crate::service::new_book_of;
use crate::service::patch_validates;
use crate::service::valid_book;
use crate::text::lemma_trim_idempotent;
use crate::text::lemma_trim_len;
use crate::text::trim_spec;
use crate::validation::create_errors;
use crate::validation::rating_error;
use crate::validation::update_errors;

verus! {

/// A create request whose title or author holds nothing but white
/// space is charged with a validation failure, so — by the create
/// contract — creation is rejected and nothing is persisted.
pub proof fn lemma_create_rejects_blank(req: CreateRequestView)
    requires
        trim_spec(req.title).len() == 0 || trim_spec(req.author).len() == 0,
    ensures
        create_errors(req).len() > 0,
{
}

/// A create request with a rating outside one to five is charged with
/// a validation failure, so creation is rejected.
pub proof fn lemma_create_rejects_bad_rating(req: CreateRequestView, r: i32)
    requires
        req.rating == Some(r),
        r < 1 || r > 5,
    ensures
        create_errors(req).len() > 0,
{
}

/// A rating at either boundary adds no failure: with a rating of one
/// or five the request is charged exactly as the same request without
/// a rating.
pub proof fn lemma_boundary_rating_passes(req: CreateRequestView, r: i32)
    requires
        req.rating == Some(r),
        r == 1 || r == 5,
    ensures
        rating_error(req.rating) is None,
        create_errors(req) == create_errors(CreateRequestView { rating: None, ..req }),
{
    assert(create_errors(req) =~= create_errors(CreateRequestView { rating: None, ..req }));
}

/// Round trip: after a passing create, the fresh id resolves to
/// exactly the created record — the trimmed, defaulted request fields,
/// the creation date as the date added, and the note counter at zero.
/// With the create and read contracts this pins what a read after a
/// create returns.
pub proof fn lemma_create_then_get(
    books: Seq<BookView>,
    next_id: i32,
    req: CreateRequestView,
    today: i32,
)
    requires
        forall|i: int| 0 <= i < books.len() ==> #[trigger] books[i].id < next_id,
        create_errors(req).len() == 0,
    ensures
        ({
            let b = new_book_of(next_id, req, today);
            let after = books.push(b);
            &&& has_book(after, next_id)
            &&& forall|i: int|
                0 <= i < after.len() && #[trigger] after[i].id == next_id ==> after[i] == b
            &&& b.title == trim_spec(req.title)
            &&& b.author == trim_spec(req.author)
            &&& b.date_added == today
            &&& b.notes_count == 0
        }),
{
    let b = new_book_of(next_id, req, today);
    let after = books.push(b);
    assert(after[books.len() as int] == b);
    assert(has_book(after, next_id));
    assert forall|i: int| 0 <= i < after.len() && #[trigger] after[i].id == next_id implies
        after[i] == b by {
        if i < books.len() {
            assert(books[i].id < next_id);
        }
    }
}

/// A passing create persists a record that satisfies every field
/// invariant, the optional-field caps included.
pub proof fn lemma_create_valid(id: i32, req: CreateRequestView, today: i32)
    requires
        create_errors(req).len() == 0,
    ensures
        valid_book(new_book_of(id, req, today)),
{
    lemma_trim_idempotent(req.title);
    lemma_trim_idempotent(req.author);
    lemma_trim_len(req.title);
    lemma_trim_len(req.author);
}

/// A patch that names no field at all is a no-op that still passes:
/// it is charged with no failure, skips validation, and leaves every
/// record it is applied to unchanged.
pub proof fn lemma_patch_all_absent_is_noop(b: BookView, r: UpdateRequestView)
    requires
        r.title is None,
        r.author is None,
        r.cover_url is None,
        r.tags is None,
        r.status is None,
        r.rating is None,
        r.description is None,
        r.date_finished is None,
    ensures
        apply_update_spec(b, r) == b,
        update_errors(r).len() == 0,
        !patch_validates(r),
{
    assert(apply_update_spec(b, r) =~= b);
}

/// No update ever moves the date added: whatever the request names,
/// the record it leaves behind keeps the stored date added — and the
/// id and the note counter with it.
pub proof fn lemma_update_preserves_date_added(b: BookView, r: UpdateRequestView)
    ensures
        apply_update_spec(b, r).date_added == b.date_added,
        apply_update_spec(b, r).id == b.id,
        apply_update_spec(b, r).notes_count == b.notes_count,
{
}

/// The applied page size never passes the hard cap, and an asked-for
/// two hundred is clamped to one hundred.
pub proof fn lemma_limit_clamped(f: BookFilterView)
    ensures
        spec_limit(f.limit) <= 100,
        f.limit == Some(200u32) ==> spec_limit(f.limit) == 100,
{
}

/// What a listing returns is ordered by date added, newest first —
/// the page of an ordered run is ordered.
pub proof fn lemma_list_ordered(books: Seq<BookView>, f: BookFilterView)
    ensures
        sorted_desc(
            page_of(
                sort_desc(filtered(books, f)),
                spec_offset(f),
                spec_limit(f.limit) as int,
            ),
        ),
{
    let s = sort_desc(filtered(books, f));
    lemma_sort_desc_sorted(filtered(books, f));
    let p = page_of(s, spec_offset(f), spec_limit(f.limit) as int);
    assert forall|i: int, j: int| 0 <= i < j < p.len() implies p[i].date_added
        >= p[j].date_added by {
        assert(p[i] == s[spec_offset(f) + i]);
        assert(p[j] == s[spec_offset(f) + j]);
    }
}

/// The first page is as long as it can be: the page size when enough
/// records pass the filter, all of them otherwise. In particular a
/// listing clamped to one hundred returns exactly one hundred records
/// when at least that many match.
pub proof fn lemma_first_page_len(books: Seq<BookView>, f: BookFilterView)
    requires
        spec_page(f) == 1,
    ensures
        ({
            let n = filtered(books, f).len() as int;
            let l = spec_limit(f.limit) as int;
            let p = page_of(sort_desc(filtered(books, f)), spec_offset(f), l);
            p.len() == if l <= n {
                l
            } else {
                n
            }
        }),
{
    lemma_sort_desc_len(filtered(books, f));
}

/// A deleted id stays gone: removing the one record that carries an
/// id leaves a table in which no record carries it, so — by the
/// delete contract — a second delete of the same id is not-found.
pub proof fn lemma_delete_then_gone(books: Seq<BookView>, k: int, id: i32)
    requires
        0 <= k < books.len(),
        books[k].id == id,
        forall|i: int, j: int|
            0 <= i < j < books.len() ==> #[trigger] books[i].id != #[trigger] books[j].id,
    ensures
        !has_book(books.remove(k), id),
{
    let after = books.remove(k);
    assert forall|i: int| 0 <= i < after.len() implies after[i].id != id by {
        if i < k {
            assert(after[i] == books[i]);
            assert(books[i].id != books[k].id);
        } else {
            assert(after[i] == books[i + 1]);
            assert(books[k].id != books[i + 1].id);
        }
    }
}

} // verus!
