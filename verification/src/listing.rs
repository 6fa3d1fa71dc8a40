//! Filtered listing: the page-size rules, the filter predicate, the
//! date ordering, pagination, and the planning of the four query
//! shapes a filtered listing can take.

use vstd::prelude::*;
use crate::models::Book;
use crate::models::BookFilter;
use crate::models::BookFilterView;
use crate::models::BookStatus;
use crate::models::BookView;
use crate::models::status_text;
use crate::models::status_to_text;
use crate::text::contains_ci;
use crate::text::str_contains_ci;
use crate::text::trim_spec;
use crate::text::trim_str;

verus! {

/// The page size used when a listing request names none.
pub const DEFAULT_PAGE_LIMIT: u32 = 50;

/// The hard cap on the page size of a listing request.
pub const MAX_PAGE_LIMIT: u32 = 100;

/// The applied page size: the requested size defaulted to 50, capped
/// at 100.
pub open spec fn spec_limit(requested: Option<u32>) -> u32 {
    let base = match requested {
        Some(l) => l,
        None => DEFAULT_PAGE_LIMIT,
    };
    if base > MAX_PAGE_LIMIT {
        MAX_PAGE_LIMIT
    } else {
        base
    }
}

/// The page size actually applied to a listing.
pub fn clamp_limit(requested: Option<u32>) -> (r: u32)
    ensures
        r == spec_limit(requested),
{
    let base = match requested {
        Some(l) => l,
        None => DEFAULT_PAGE_LIMIT,
    };
    if base > MAX_PAGE_LIMIT {
        MAX_PAGE_LIMIT
    } else {
        base
    }
}

/// The page asked for, one-based, defaulting to the first.
pub open spec fn spec_page(f: BookFilterView) -> u32 {
    match f.page {
        Some(p) => p,
        None => 1u32,
    }
}

/// How many leading records of the ordered result the asked-for page
/// skips.
pub open spec fn spec_offset(f: BookFilterView) -> int {
    (spec_page(f) - 1) * spec_limit(f.limit)
}

/// The search text actually applied: the given text trimmed, and only
/// when something is left of it.
pub open spec fn search_needle(f: BookFilterView) -> Option<Seq<char>> {
    match f.search {
        Some(s) => if trim_spec(s).len() > 0 {
            Some(trim_spec(s))
        } else {
            None
        },
        None => None,
    }
}

/// Whether a record passes the filter: the status matches exactly when
/// one is asked for, and the search text occurs in the title or the
/// author, case-insensitively, when one is given.
pub open spec fn matches_filter(b: BookView, f: BookFilterView) -> bool {
    (match f.status {
        Some(st) => b.status == st,
        None => true,
    }) && (match search_needle(f) {
        Some(n) => contains_ci(b.title, n) || contains_ci(b.author, n),
        None => true,
    })
}

/// The records that pass the filter, in store order.
pub open spec fn filtered(books: Seq<BookView>, f: BookFilterView) -> Seq<BookView>
    decreases books.len(),
{
    if books.len() == 0 {
        Seq::<BookView>::empty()
    } else {
        filtered(books.drop_last(), f) + (if matches_filter(books.last(), f) {
            seq![books.last()]
        } else {
            Seq::<BookView>::empty()
        })
    }
}

/// Where a record lands when put into an ordered run: before the first
/// record with a strictly older date, so that records of equal date
/// keep their earlier order.
pub open spec fn insert_desc(s: Seq<BookView>, b: BookView) -> Seq<BookView>
    decreases s.len(),
{
    if s.len() == 0 {
        seq![b]
    } else if b.date_added > s[0].date_added {
        seq![b] + s
    } else {
        seq![s[0]] + insert_desc(s.drop_first(), b)
    }
}

/// The records ordered by date added, newest first, records of equal
/// date keeping their store order.
pub open spec fn sort_desc(s: Seq<BookView>) -> Seq<BookView>
    decreases s.len(),
{
    if s.len() == 0 {
        Seq::<BookView>::empty()
    } else {
        insert_desc(sort_desc(s.drop_last()), s.last())
    }
}

/// Whether a run is ordered by date added, newest first.
pub open spec fn sorted_desc(s: Seq<BookView>) -> bool {
    forall|i: int, j: int| 0 <= i < j < s.len() ==> s[i].date_added >= s[j].date_added
}

pub proof fn lemma_insert_desc_len(s: Seq<BookView>, b: BookView)
    ensures
        insert_desc(s, b).len() == s.len() + 1,
    decreases s.len(),
{
    if s.len() != 0 && !(b.date_added > s[0].date_added) {
        lemma_insert_desc_len(s.drop_first(), b);
    }
}

pub proof fn lemma_sort_desc_len(s: Seq<BookView>)
    ensures
        sort_desc(s).len() == s.len(),
    decreases s.len(),
{
    if s.len() != 0 {
        lemma_sort_desc_len(s.drop_last());
        lemma_insert_desc_len(sort_desc(s.drop_last()), s.last());
    }
}

/// Every record of an ordered run with one inserted is the inserted
/// one or one of the run.
pub proof fn lemma_insert_desc_elems(s: Seq<BookView>, b: BookView)
    ensures
        forall|k: int|
            0 <= k < insert_desc(s, b).len() ==> (insert_desc(s, b)[k] == b || s.contains(
                insert_desc(s, b)[k],
            )),
    decreases s.len(),
{
    lemma_insert_desc_len(s, b);
    if s.len() == 0 {
    } else if b.date_added > s[0].date_added {
        assert forall|k: int| 0 <= k < insert_desc(s, b).len() implies (insert_desc(s, b)[k] == b
            || s.contains(insert_desc(s, b)[k])) by {
            if k > 0 {
                assert(insert_desc(s, b)[k] == s[k - 1]);
            }
        }
    } else {
        let t = s.drop_first();
        lemma_insert_desc_elems(t, b);
        lemma_insert_desc_len(t, b);
        assert forall|k: int| 0 <= k < insert_desc(s, b).len() implies (insert_desc(s, b)[k] == b
            || s.contains(insert_desc(s, b)[k])) by {
            if k == 0 {
                assert(insert_desc(s, b)[0] == s[0]);
                assert(s.contains(s[0]));
            } else {
                assert(insert_desc(s, b)[k] == insert_desc(t, b)[k - 1]);
                if insert_desc(t, b)[k - 1] != b {
                    assert(t.contains(insert_desc(t, b)[k - 1]));
                    let m = choose|m: int|
                        0 <= m < t.len() && t[m] == insert_desc(t, b)[k - 1];
                    assert(s[m + 1] == t[m]);
                    assert(s.contains(insert_desc(s, b)[k]));
                }
            }
        }
    }
}

/// Inserting into an ordered run keeps it ordered.
pub proof fn lemma_insert_desc_sorted(s: Seq<BookView>, b: BookView)
    requires
        sorted_desc(s),
    ensures
        sorted_desc(insert_desc(s, b)),
    decreases s.len(),
{
    lemma_insert_desc_len(s, b);
    if s.len() == 0 {
    } else if b.date_added > s[0].date_added {
        assert forall|i: int, j: int|
            0 <= i < j < insert_desc(s, b).len() implies insert_desc(s, b)[i].date_added
            >= insert_desc(s, b)[j].date_added by {
            if i > 0 {
                assert(insert_desc(s, b)[i] == s[i - 1]);
            }
            assert(insert_desc(s, b)[j] == s[j - 1]);
        }
    } else {
        let t = s.drop_first();
        assert(sorted_desc(t));
        lemma_insert_desc_sorted(t, b);
        lemma_insert_desc_elems(t, b);
        lemma_insert_desc_len(t, b);
        let r = insert_desc(s, b);
        assert forall|i: int, j: int| 0 <= i < j < r.len() implies r[i].date_added
            >= r[j].date_added by {
            if i == 0 {
                assert(r[0] == s[0]);
                assert(r[j] == insert_desc(t, b)[j - 1]);
                if insert_desc(t, b)[j - 1] == b {
                    assert(s[0].date_added >= b.date_added);
                } else {
                    assert(t.contains(insert_desc(t, b)[j - 1]));
                    let m = choose|m: int|
                        0 <= m < t.len() && t[m] == insert_desc(t, b)[j - 1];
                    assert(s[0].date_added >= s[m + 1].date_added);
                }
            } else {
                assert(r[i] == insert_desc(t, b)[i - 1]);
                assert(r[j] == insert_desc(t, b)[j - 1]);
            }
        }
    }
}

/// The date ordering orders every run.
pub proof fn lemma_sort_desc_sorted(s: Seq<BookView>)
    ensures
        sorted_desc(sort_desc(s)),
    decreases s.len(),
{
    if s.len() != 0 {
        lemma_sort_desc_sorted(s.drop_last());
        lemma_insert_desc_sorted(sort_desc(s.drop_last()), s.last());
    }
}

/// Where the scan of an ordered run stops is where the ordered insert
/// lands: after the records with an equal or newer date, before the
/// rest.
pub proof fn lemma_insert_desc_at(s: Seq<BookView>, b: BookView, p: int)
    requires
        0 <= p <= s.len(),
        forall|q: int| 0 <= q < p ==> !(b.date_added > s[q].date_added),
        p == s.len() || b.date_added > s[p].date_added,
    ensures
        insert_desc(s, b) =~= s.subrange(0, p) + seq![b] + s.subrange(p, s.len() as int),
    decreases p,
{
    if p == 0 {
        if s.len() == 0 {
        } else {
            assert(b.date_added > s[0].date_added);
        }
    } else {
        let t = s.drop_first();
        assert(!(b.date_added > s[0].date_added));
        assert(forall|q: int| 0 <= q < p - 1 ==> s[q + 1] == t[q]);
        lemma_insert_desc_at(t, b, p - 1);
        assert(t.subrange(0, p - 1) =~= s.subrange(1, p));
        assert(t.subrange(p - 1, t.len() as int) =~= s.subrange(p, s.len() as int));
    }
}

/// The asked-for page of the ordered result: up to `limit` records
/// from `offset` on.
pub open spec fn page_of(s: Seq<BookView>, offset: int, limit: int) -> Seq<BookView> {
    if offset >= s.len() || offset < 0 || limit < 0 {
        Seq::<BookView>::empty()
    } else if offset + limit >= s.len() {
        s.subrange(offset, s.len() as int)
    } else {
        s.subrange(offset, offset + limit)
    }
}

/// The records that pass the filter, in store order.
pub fn filter_books(books: &Vec<Book>, filter: &BookFilter) -> (r: Vec<Book>)
    ensures
        r.deep_view() == filtered(books.deep_view(), filter@),
{
    let needle: Option<String> = match &filter.search {
        Some(s) => {
            let t = trim_str(s.as_str());
            if t.as_str().unicode_len() > 0 {
                Some(t)
            } else {
                None
            }
        },
        None => None,
    };
    proof {
        assert(needle.deep_view() == search_needle(filter@));
    }
    let mut out: Vec<Book> = Vec::new();
    let mut i: usize = 0;
    while i < books.len()
        invariant
            0 <= i <= books.len(),
            books.deep_view().len() == books.len(),
            needle.deep_view() == search_needle(filter@),
            out.deep_view() == filtered(books.deep_view().take(i as int), filter@),
        decreases books.len() - i,
    {
        let b = &books[i];
        let status_ok: bool = match &filter.status {
            Some(st) => b.status == *st,
            None => true,
        };
        let search_ok: bool = match &needle {
            Some(n) => str_contains_ci(b.title.as_str(), n.as_str()) || str_contains_ci(
                b.author.as_str(),
                n.as_str(),
            ),
            None => true,
        };
        proof {
            assert(books.deep_view().take(i + 1).drop_last() =~= books.deep_view().take(i as int));
            assert(books.deep_view().take(i + 1).last() == books.deep_view()[i as int]);
        }
        if status_ok && search_ok {
            out.push(b.duplicate());
        }
        proof {
            assert(out.deep_view() =~= filtered(books.deep_view().take(i + 1), filter@));
        }
        i = i + 1;
    }
    proof {
        assert(books.deep_view().take(books.len() as int) =~= books.deep_view());
    }
    out
}

/// The records ordered by date added, newest first, records of equal
/// date keeping their given order.
pub fn sort_books_desc(books: Vec<Book>) -> (r: Vec<Book>)
    ensures
        r.deep_view() == sort_desc(books.deep_view()),
{
    let mut out: Vec<Book> = Vec::new();
    let mut i: usize = 0;
    while i < books.len()
        invariant
            0 <= i <= books.len(),
            books.deep_view().len() == books.len(),
            out.deep_view() == sort_desc(books.deep_view().take(i as int)),
            out.len() == i,
        decreases books.len() - i,
    {
        let b = books[i].duplicate();
        let mut p: usize = 0;
        while p < out.len() && !(b.date_added > out[p].date_added)
            invariant
                0 <= p <= out.len(),
                forall|q: int| 0 <= q < p ==> !(b@.date_added > out.deep_view()[q].date_added),
                out.deep_view().len() == out.len(),
            decreases out.len() - p,
        {
            p = p + 1;
        }
        proof {
            lemma_insert_desc_at(out.deep_view(), b@, p as int);
        }
        let ghost prev = out.deep_view();
        out.insert(p, b);
        proof {
            assert(out.deep_view() =~= prev.subrange(0, p as int) + seq![b@] + prev.subrange(
                p as int,
                prev.len() as int,
            ));
            assert(out.deep_view() =~= insert_desc(prev, b@));
            assert(books.deep_view().take(i + 1).drop_last() =~= books.deep_view().take(i as int));
            assert(books.deep_view().take(i + 1).last() == books.deep_view()[i as int]);
            lemma_insert_desc_len(prev, b@);
        }
        i = i + 1;
    }
    proof {
        assert(books.deep_view().take(books.len() as int) =~= books.deep_view());
    }
    out
}

/// The asked-for page of the ordered result.
pub fn page_books(books: &Vec<Book>, offset: u64, limit: u32) -> (r: Vec<Book>)
    ensures
        r.deep_view() == page_of(books.deep_view(), offset as int, limit as int),
{
    let mut out: Vec<Book> = Vec::new();
    if offset >= books.len() as u64 {
        proof {
            assert(out.deep_view() =~= page_of(books.deep_view(), offset as int, limit as int));
        }
        return out;
    }
    let start: usize = offset as usize;
    proof {
        assert(start as int == offset as int);
    }
    let mut i: usize = start;
    while i < books.len() && i - start < limit as usize
        invariant
            start <= i <= books.len(),
            i - start <= limit,
            books.deep_view().len() == books.len(),
            out.deep_view() == books.deep_view().subrange(start as int, i as int),
        decreases books.len() - i,
    {
        let ghost prev = out.deep_view();
        out.push(books[i].duplicate());
        proof {
            assert(out.deep_view() =~= prev.push(books.deep_view()[i as int]));
            assert(prev.push(books.deep_view()[i as int]) =~= books.deep_view().subrange(
                start as int,
                i + 1,
            ));
        }
        i = i + 1;
    }
    proof {
        assert(out.deep_view() =~= page_of(books.deep_view(), offset as int, limit as int));
    }
    out
}

/// The four shapes a filtered listing query can take, one for each
/// combination of the optional status and search conditions.
#[derive(Clone, Copy, Debug, PartialEq, Eq, Structural)]
pub enum ListShape {
    All,
    ByStatus,
    BySearch,
    ByStatusAndSearch,
}

/// The plan of one listing query: which of the four fixed shapes to
/// run, and the values to bind to it. The search text is never spliced
/// into query text; it travels as the bound pattern.
#[derive(Debug)]
pub struct ListQuery {
    pub shape: ListShape,
    pub status: Option<String>,
    pub pattern: Option<String>,
    pub limit: i64,
    pub offset: i64,
}

/// The bound pattern that asks the store for a substring match.
pub open spec fn spec_pattern(n: Seq<char>) -> Seq<char> {
    "%"@ + n + "%"@
}

/// Plans a filtered listing: picks one of the four fixed query shapes
/// by which conditions are present, and carries the bound values — the
/// stored status text, the wrapped search pattern, the applied page
/// size and the records to skip.
pub fn build_list_query(filter: &BookFilter) -> (q: ListQuery)
    requires
        spec_page(filter@) >= 1,
    ensures
        q.limit == spec_limit(filter@.limit) as int,
        q.offset == spec_offset(filter@),
        match (filter@.status, search_needle(filter@)) {
            (Some(st), Some(n)) => q.shape == ListShape::ByStatusAndSearch
                && q.status.deep_view() == Some(status_text(st)) && q.pattern.deep_view() == Some(
                spec_pattern(n),
            ),
            (Some(st), None) => q.shape == ListShape::ByStatus && q.status.deep_view() == Some(
                status_text(st),
            ) && q.pattern.deep_view() == None::<Seq<char>>,
            (None, Some(n)) => q.shape == ListShape::BySearch && q.status.deep_view()
                == None::<Seq<char>> && q.pattern.deep_view() == Some(spec_pattern(n)),
            (None, None) => q.shape == ListShape::All && q.status.deep_view() == None::<Seq<char>>
                && q.pattern.deep_view() == None::<Seq<char>>,
        },
{
    let limit = clamp_limit(filter.limit);
    let page: u32 = match filter.page {
        Some(p) => p,
        None => 1u32,
    };
    proof {
        assert((page - 1) as u64 * limit as u64 <= 0xFFFF_FFFFu64 * 100) by (nonlinear_arith)
            requires
                1 <= page <= u32::MAX,
                limit <= 100,
        ;
    }
    let offset_w: u64 = (page as u64 - 1) * (limit as u64);
    let status_param: Option<String> = match &filter.status {
        Some(st) => Some(status_to_text(*st)),
        None => None,
    };
    let pattern_param: Option<String> = match &filter.search {
        Some(s) => {
            let t = trim_str(s.as_str());
            if t.as_str().unicode_len() > 0 {
                let mut p = String::from_str("%");
                p.append(t.as_str());
                p.append("%");
                proof {
                    assert(p@ =~= spec_pattern(trim_spec(s@)));
                }
                Some(p)
            } else {
                None
            }
        },
        None => None,
    };
    let shape = match (&status_param, &pattern_param) {
        (Some(_), Some(_)) => ListShape::ByStatusAndSearch,
        (Some(_), None) => ListShape::ByStatus,
        (None, Some(_)) => ListShape::BySearch,
        (None, None) => ListShape::All,
    };
    ListQuery {
        shape,
        status: status_param,
        pattern: pattern_param,
        limit: limit as i64,
        offset: offset_w as i64,
    }
}

} // verus!
