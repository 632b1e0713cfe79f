//! Shared validation helpers for data-driven definitions.
//!
//! The numeric range check works on floating-point values and lives with the
//! runtime shell.

use vstd::prelude::*;

use crate::error::ValidationError;
use crate::text::{owned, str_equal};

verus! {

/// The id at `j` already occurred earlier.
pub open spec fn repeats_earlier(ids: Seq<&str>, j: int) -> bool {
    exists|i: int| 0 <= i < j && #[trigger] ids[i]@ == ids[j]@
}

/// `j` is the first position whose id already occurred earlier.
pub open spec fn is_first_duplicate(ids: Seq<&str>, j: int) -> bool {
    &&& 0 <= j < ids.len()
    &&& repeats_earlier(ids, j)
    &&& forall|t: int| 0 <= t < j ==> !#[trigger] repeats_earlier(ids, t)
}

/// No id occurs twice.
pub open spec fn all_distinct(ids: Seq<&str>) -> bool {
    forall|i: int, j: int| 0 <= i < j < ids.len() ==> #[trigger] ids[i]@ != #[trigger] ids[j]@
}

/// Fails on the first id that repeats an earlier one, reporting it with the context.
pub fn ensure_unique_ids(ids: &[&str], context: &str) -> (r: Result<(), ValidationError>)
    ensures
        all_distinct(ids@) <==> r is Ok,
        !all_distinct(ids@) ==> exists|j: int| #[trigger] is_first_duplicate(ids@, j)
            && (r matches Err(ValidationError::DuplicateId { id, context: c }) && id@ == ids@[j]@ && c@ == context@),
{
    let n = ids.len();
    let mut j: usize = 0;
    while j < n
        invariant
            n == ids@.len(),
            j <= n,
            forall|a: int, b: int| 0 <= a < b < j ==> #[trigger] ids@[a]@ != #[trigger] ids@[b]@,
        decreases n - j,
    {
        let mut i: usize = 0;
        while i < j
            invariant
                n == ids@.len(),
                i <= j,
                j < n,
                forall|a: int, b: int| 0 <= a < b < j ==> #[trigger] ids@[a]@ != #[trigger] ids@[b]@,
                forall|a: int| 0 <= a < i ==> #[trigger] ids@[a]@ != ids@[j as int]@,
            decreases j - i,
        {
            if str_equal(ids[i], ids[j]) {
                assert(repeats_earlier(ids@, j as int));
                assert forall|t: int| 0 <= t < j implies !#[trigger] repeats_earlier(ids@, t) by {
                    if repeats_earlier(ids@, t) {
                        let a = choose|a: int| 0 <= a < t && #[trigger] ids@[a]@ == ids@[t]@;
                        assert(ids@[a]@ != ids@[t]@);
                    }
                }
                assert(is_first_duplicate(ids@, j as int));
                return Err(ValidationError::DuplicateId { id: owned(ids[j]), context: owned(context) });
            }
            i = i + 1;
        }
        j = j + 1;
    }
    Ok(())
}

/// Succeeds exactly when the id is among the known ids; otherwise reports it with
/// the context.
pub fn ensure_reference_exists(id: &str, known_ids: &[&str], context: &str) -> (r: Result<(), ValidationError>)
    ensures
        (exists|i: int| 0 <= i < known_ids@.len() && #[trigger] known_ids@[i]@ == id@) <==> r is Ok,
        r matches Err(e) ==> (e matches ValidationError::MissingReference { id: m, context: c } && m@ == id@ && c@ == context@),
{
    let n = known_ids.len();
    let mut i: usize = 0;
    while i < n
        invariant
            n == known_ids@.len(),
            i <= n,
            forall|a: int| 0 <= a < i ==> #[trigger] known_ids@[a]@ != id@,
        decreases n - i,
    {
        if str_equal(known_ids[i], id) {
            return Ok(());
        }
        i = i + 1;
    }
    Err(ValidationError::MissingReference { id: owned(id), context: owned(context) })
}

} // verus!
