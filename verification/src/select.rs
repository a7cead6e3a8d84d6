//! Random selection of one record from the filtered subset.
//!
//! The subset is built in the records' original order; one index is then
//! drawn uniformly from it. An empty subset is rejected before any draw, so
//! no draw is ever made over an empty or truncated range.

use vstd::prelude::*;

use crate::errors::FortuneError;
use crate::filter::{SizeFilter, filter_records, size_matches, spec_filter};

verus! {

/// Relies on rand::random_range over `0..n` (thread-local generator): the
/// result lies in the range, uniformly. The call panics on an empty range,
/// which the precondition excludes; the generator's first seeding can also
/// abort if the system's entropy source fails — an environment failure
/// reachable by no input, like running out of memory.
#[verifier::external_body]
fn random_below(n: usize) -> (r: usize)
    requires
        n > 0,
    ensures
        r < n,
{
    rand::random_range(0..n)
}

/// Draw one record, uniformly at random, from the records of `records` that
/// satisfy `f`. Fails exactly when no record satisfies `f`.
pub fn select(records: &Vec<Vec<u8>>, f: SizeFilter) -> (r: Result<Vec<u8>, FortuneError>)
    ensures
        match r {
            Ok(q) => spec_filter(records.deep_view(), f).contains(q@) && size_matches(
                f,
                q@.len(),
            ) && records.deep_view().contains(q@),
            Err(e) => e == FortuneError::EmptySelectionFailure && spec_filter(
                records.deep_view(),
                f,
            ).len() == 0,
        },
        r is Err <==> spec_filter(records.deep_view(), f).len() == 0,
{
    broadcast use vstd::seq_lib::group_filter_ensures, Seq::lemma_filter_contains_rev;

    let mut subset = filter_records(records, f);
    if subset.len() == 0 {
        return Err(FortuneError::EmptySelectionFailure);
    }
    let idx = random_below(subset.len());
    let chosen = subset.swap_remove(idx);
    proof {
        let fs = spec_filter(records.deep_view(), f);
        assert(chosen.deep_view() =~= chosen@);
        assert(fs[idx as int] == chosen@);
        assert(size_matches(f, chosen@.len()));
        assert(fs.contains(chosen@));
    }
    Ok(chosen)
}

} // verus!
