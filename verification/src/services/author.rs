//! Authors: the courses an author teaches, the cleaning of name maps, and
//! the status of a new authorship.

use vstd::prelude::*;

use crate::text::{chars_of, str_eq, trim, trim_bounds};

verus! {

#[derive(Debug, Clone)]
pub struct AuthorCourseEntry {
    pub course_id: String,
    pub title: String,
    pub code: Option<String>,
    pub institution: Option<String>,
    pub semester: Option<String>,
}

/// The entries of a name map whose value is not blank, in order.
pub open spec fn kept_names(m: Seq<(String, String)>) -> Seq<(String, String)>
    decreases m.len(),
{
    if m.len() == 0 {
        m
    } else {
        kept_names(m.drop_last()) + if trim(m.last().1@).len() == 0 {
            Seq::empty()
        } else {
            seq![m.last()]
        }
    }
}

/// Whether a name is blank (only whitespace).
pub fn is_blank(s: &str) -> (r: bool)
    ensures
        r == (trim(s@).len() == 0),
{
    let v = chars_of(s);
    let (a, b) = trim_bounds(v.as_slice(), 0, v.len());
    assert(v@.subrange(0, v@.len() as int) =~= v@);
    a == b
}

/// Drop the names whose value is blank.
pub fn non_blank_names(m: Vec<(String, String)>) -> (r: Vec<(String, String)>)
    ensures
        r@ == kept_names(m@),
{
    let ghost all = m@;
    let mut rest = m;
    let mut out: Vec<(String, String)> = Vec::new();
    let ghost mut taken: int = 0;
    while rest.len() > 0
        invariant
            0 <= taken <= all.len(),
            rest@ == all.skip(taken),
            out@ == kept_names(all.take(taken)),
        decreases rest@.len(),
    {
        let e = rest.remove(0);
        assert(e == all[taken]);
        assert(all.take(taken + 1).drop_last() =~= all.take(taken));
        let blank = is_blank(e.1.as_str());
        if !blank {
            out.push(e);
        }
        proof {
            taken = taken + 1;
        }
        assert(rest@ =~= all.skip(taken));
    }
    assert(all.take(taken) =~= all);
    out
}


/// A user who adds themselves as an author is verified at once; anyone
/// else added waits for their confirmation.
pub fn authorship_status(author_did: &str, added_by: &str) -> (r: &'static str)
    ensures
        author_did@ == added_by@ ==> r@ == "verified"@,
        author_did@ != added_by@ ==> r@ == "pending"@,
{
    if str_eq(author_did, added_by) {
        "verified"
    } else {
        "pending"
    }
}
} // verus!
