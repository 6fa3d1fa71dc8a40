//! The error taxonomy of the service, and the collected per-field
//! validation failures.

use vstd::prelude::*;
use crate::text::int_dec_str;
use crate::text::i32_dec_string;

verus! {

/// The errors a service operation can end in.
#[derive(Debug)]
pub enum ApiError {
    /// An underlying store failure, with its internal detail.
    DatabaseError(String),
    /// No record matches the given id.
    NotFound(String),
    /// A malformed request outside the field rules.
    BadRequest(String),
    /// Client-supplied data violates a field invariant; the message
    /// joins every failing field's report.
    ValidationError(String),
    /// A programming or invariant-violation failure.
    InternalError(String),
}

/// One failing field with its message.
#[derive(Debug)]
pub struct FieldError {
    pub field: String,
    pub message: String,
}

/// The mathematical value of one field failure.
#[verifier::ext_equal]
pub struct FieldErrorView {
    pub field: Seq<char>,
    pub message: Seq<char>,
}

impl View for FieldError {
    type V = FieldErrorView;

    open spec fn view(&self) -> FieldErrorView {
        FieldErrorView { field: self.field@, message: self.message@ }
    }
}

impl DeepView for FieldError {
    type V = FieldErrorView;

    open spec fn deep_view(&self) -> FieldErrorView {
        self.view()
    }
}

/// Every failing field of one request, in field order.
#[derive(Debug)]
pub struct ValidationErrors {
    pub errors: Vec<FieldError>,
}

impl View for ValidationErrors {
    type V = Seq<FieldErrorView>;

    open spec fn view(&self) -> Seq<FieldErrorView> {
        self.errors.deep_view()
    }
}

/// The messages of the collected failures, joined with a comma for
/// display.
pub open spec fn joined_msgs(errs: Seq<FieldErrorView>) -> Seq<char>
    decreases errs.len(),
{
    if errs.len() == 0 {
        Seq::<char>::empty()
    } else if errs.len() == 1 {
        errs[0].message
    } else {
        joined_msgs(errs.drop_last()) + ", "@ + errs.last().message
    }
}

impl ValidationErrors {
    /// The display form: every message, joined with a comma.
    pub fn joined(&self) -> (r: String)
        ensures
            r@ == joined_msgs(self@),
    {
        let mut out = String::new();
        let mut i: usize = 0;
        while i < self.errors.len()
            invariant
                0 <= i <= self.errors.len(),
                out@ == joined_msgs(self@.take(i as int)),
                self@.len() == self.errors.len(),
                forall|k: int| 0 <= k < self.errors.len() ==> self@[k] == self.errors[k]@,
            decreases self.errors.len() - i,
        {
            if i > 0 {
                out.append(", ");
            }
            out.append(self.errors[i].message.as_str());
            proof {
                let t = self@.take(i + 1);
                assert(t.drop_last() =~= self@.take(i as int));
                assert(t.last() == self@[i as int]);
            }
            i = i + 1;
        }
        proof {
            assert(self@.take(self.errors.len() as int) =~= self@);
        }
        out
    }
}

/// The not-found report for a given record id.
pub open spec fn not_found_msg(id: i32) -> Seq<char> {
    "Book with id "@ + int_dec_str(id as int) + " not found"@
}

/// The not-found report for a given record id.
pub fn make_not_found_msg(id: i32) -> (r: String)
    ensures
        r@ == not_found_msg(id),
{
    let mut s = String::from_str("Book with id ");
    let digits = i32_dec_string(id);
    s.append(digits.as_str());
    s.append(" not found");
    s
}

} // verus!
