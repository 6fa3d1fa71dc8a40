//! The one row-to-domain mapping every read path goes through, so
//! that no two paths can decode a stored row differently.

use vstd::prelude::*;
use crate::models::Book;
use crate::models::BookView;
use crate::models::decode_status;
use crate::models::spec_decode_status;

verus! {

/// A raw store row, as plain values: exactly what the row carries,
/// with every column that the store may leave empty still optional.
#[derive(Debug)]
pub struct BookRow {
    pub id: i32,
    pub title: String,
    pub author: String,
    pub cover_url: Option<String>,
    pub tags: Option<Vec<String>>,
    pub status: Option<String>,
    pub date_added: Option<i32>,
    pub date_finished: Option<i32>,
    pub rating: Option<i32>,
    pub description: Option<String>,
    pub notes_count: Option<i32>,
}

/// The mathematical value of a raw row.
#[verifier::ext_equal]
pub struct BookRowView {
    pub id: i32,
    pub title: Seq<char>,
    pub author: Seq<char>,
    pub cover_url: Option<Seq<char>>,
    pub tags: Option<Seq<Seq<char>>>,
    pub status: Option<Seq<char>>,
    pub date_added: Option<i32>,
    pub date_finished: Option<i32>,
    pub rating: Option<i32>,
    pub description: Option<Seq<char>>,
    pub notes_count: Option<i32>,
}

impl View for BookRow {
    type V = BookRowView;

    open spec fn view(&self) -> BookRowView {
        BookRowView {
            id: self.id,
            title: self.title@,
            author: self.author@,
            cover_url: self.cover_url.deep_view(),
            tags: self.tags.deep_view(),
            status: self.status.deep_view(),
            date_added: self.date_added,
            date_finished: self.date_finished,
            rating: self.rating,
            description: self.description.deep_view(),
            notes_count: self.notes_count,
        }
    }
}

/// The record a raw row decodes to: missing tags become the empty
/// list, the status text decodes with a wishlist fallback, a missing
/// date added falls back to the current date — a defensive default,
/// not a normal path — and a missing note counter becomes zero.
pub open spec fn spec_row_to_book(r: BookRowView, today: i32) -> BookView {
    BookView {
        id: r.id,
        title: r.title,
        author: r.author,
        cover_url: r.cover_url,
        tags: match r.tags {
            Some(t) => t,
            None => Seq::<Seq<char>>::empty(),
        },
        status: spec_decode_status(r.status),
        date_added: match r.date_added {
            Some(d) => d,
            None => today,
        },
        date_finished: r.date_finished,
        rating: r.rating,
        description: r.description,
        notes_count: match r.notes_count {
            Some(n) => n,
            None => 0,
        },
    }
}

/// Decodes one raw row into a record. Every read path uses this one
/// mapping.
pub fn row_to_book(row: BookRow, today: i32) -> (b: Book)
    ensures
        b@ == spec_row_to_book(row@, today),
{
    let status = decode_status(&row.status);
    let tags: Vec<String> = match row.tags {
        Some(t) => t,
        None => Vec::new(),
    };
    let date_added: i32 = match row.date_added {
        Some(d) => d,
        None => today,
    };
    let notes_count: i32 = match row.notes_count {
        Some(n) => n,
        None => 0,
    };
    let b = Book {
        id: row.id,
        title: row.title,
        author: row.author,
        cover_url: row.cover_url,
        tags,
        status,
        date_added,
        date_finished: row.date_finished,
        rating: row.rating,
        description: row.description,
        notes_count,
    };
    proof {
        assert(b@ =~= spec_row_to_book(row@, today));
    }
    b
}

} // verus!
