//! Length-based classification of quote records.
//!
//! A record is classified by its byte length: `Short` admits records of at
//! most 150 bytes, `Medium` records strictly between 150 and 400 bytes,
//! `Long` records of at least 400 bytes, and `Any` admits every record.

use vstd::prelude::*;

verus! {

/// Largest byte length a `Short` record may have.
pub const SHORT_MAX: usize = 150;

/// Smallest byte length a `Long` record must have.
pub const LONG_MIN: usize = 400;

/// A length-based selection filter for quote records.
#[derive(Clone, Copy, Debug, PartialEq, Eq, Structural)]
pub enum SizeFilter {
    /// Records of at most 150 bytes.
    Short,
    /// Records of more than 150 and fewer than 400 bytes.
    Medium,
    /// Records of at least 400 bytes.
    Long,
    /// Every record, regardless of length.
    Any,
}

/// Whether a record of byte length `len` satisfies the filter `f`.
pub open spec fn size_matches(f: SizeFilter, len: nat) -> bool {
    match f {
        SizeFilter::Short => len <= SHORT_MAX,
        SizeFilter::Medium => SHORT_MAX < len < LONG_MIN,
        SizeFilter::Long => len >= LONG_MIN,
        SizeFilter::Any => true,
    }
}

/// Every length falls in exactly one of the three size classes, so the
/// classes partition the records and no record is double-counted.
pub proof fn lemma_size_classes_partition(len: nat)
    ensures
        size_matches(SizeFilter::Short, len) || size_matches(SizeFilter::Medium, len)
            || size_matches(SizeFilter::Long, len),
        !(size_matches(SizeFilter::Short, len) && size_matches(SizeFilter::Medium, len)),
        !(size_matches(SizeFilter::Medium, len) && size_matches(SizeFilter::Long, len)),
        !(size_matches(SizeFilter::Short, len) && size_matches(SizeFilter::Long, len)),
{
}

/// Whether the record `r` satisfies the filter `f`.
pub fn record_matches(f: SizeFilter, r: &Vec<u8>) -> (b: bool)
    ensures
        b == size_matches(f, r@.len()),
{
    match f {
        SizeFilter::Short => r.len() <= SHORT_MAX,
        SizeFilter::Medium => SHORT_MAX < r.len() && r.len() < LONG_MIN,
        SizeFilter::Long => r.len() >= LONG_MIN,
        SizeFilter::Any => true,
    }
}

/// The subsequence of `records` whose byte lengths satisfy `f`, in their
/// original order.
pub open spec fn spec_filter(records: Seq<Seq<u8>>, f: SizeFilter) -> Seq<Seq<u8>> {
    records.filter(|r: Seq<u8>| size_matches(f, r.len()))
}

/// Filtering partitions the records by the length predicate: a record value
/// lies in the filtered subset exactly when it occurs among the records and
/// its length satisfies the filter — so every record in the subset
/// satisfies the predicate, and every record outside it violates the
/// predicate or does not occur at all.
pub proof fn lemma_filter_partition(records: Seq<Seq<u8>>, f: SizeFilter)
    ensures
        forall|r: Seq<u8>|
            #[trigger] spec_filter(records, f).contains(r) <==> (records.contains(r)
                && size_matches(f, r.len())),
{
    broadcast use vstd::seq_lib::group_filter_ensures, Seq::lemma_filter_contains_rev;

    let fs = spec_filter(records, f);
    assert forall|r: Seq<u8>|
        #[trigger] fs.contains(r) <==> (records.contains(r) && size_matches(
            f,
            r.len(),
        )) by {
        if fs.contains(r) {
            let i = choose|i: int| 0 <= i < fs.len() && fs[i] == r;
            assert(size_matches(f, fs[i].len()));
            assert(records.contains(r));
        }
        if records.contains(r) && size_matches(f, r.len()) {
            let i = choose|i: int| 0 <= i < records.len() && records[i] == r;
            assert(fs.contains(records[i]));
        }
    }
}

/// Keep the records satisfying `f`, preserving their order.
pub fn filter_records(records: &Vec<Vec<u8>>, f: SizeFilter) -> (out: Vec<Vec<u8>>)
    ensures
        out.deep_view() == spec_filter(records.deep_view(), f),
{
    broadcast use vstd::seq_lib::group_filter_ensures;

    let mut out: Vec<Vec<u8>> = Vec::new();
    let mut i: usize = 0;
    while i < records.len()
        invariant
            i <= records.len(),
            out.deep_view() == records.deep_view().take(i as int).filter(
                |r: Seq<u8>| size_matches(f, r.len()),
            ),
        decreases records.len() - i,
    {
        let ghost prefix = records.deep_view().take(i as int);
        let r = &records[i];
        let matched = record_matches(f, r);
        proof {
            assert(records.deep_view().take(i + 1) =~~= prefix.push(r@));
            reveal(Seq::filter);
            assert(prefix.push(r@).drop_last() =~= prefix);
        }
        if matched {
            out.push(r.clone());
            proof {
                assert(out.deep_view() =~~= prefix.filter(
                    |r: Seq<u8>| size_matches(f, r.len()),
                ).push(r@));
            }
        }
        i += 1;
    }
    proof {
        assert(records.deep_view().take(records.deep_view().len() as int) =~= records.deep_view());
    }
    out
}

} // verus!
