//! The appender's decision: trim the line read from the user, refuse a line
//! that is whitespace only, and otherwise produce the exact bytes to append
//! to the database file — the trimmed quote followed by the separator, so a
//! later load sees it as one more record.

use vstd::prelude::*;

use crate::records::{
    lemma_split_nonempty, separator, spec_append_bytes, spec_split, split_content,
};

verus! {

/// Whether `b` is ASCII whitespace: space, tab, line feed, vertical tab,
/// form feed or carriage return — the single-byte characters of Unicode
/// White_Space. Non-ASCII whitespace occupies several bytes and is kept as
/// quote text rather than trimmed.
pub open spec fn is_ws(b: u8) -> bool {
    b == 32 || b == 9 || b == 10 || b == 11 || b == 12 || b == 13
}

/// `s` with its leading whitespace removed.
pub open spec fn trim_front(s: Seq<u8>) -> Seq<u8>
    decreases s.len(),
{
    if s.len() > 0 && is_ws(s[0]) {
        trim_front(s.skip(1))
    } else {
        s
    }
}

/// `s` with its trailing whitespace removed.
pub open spec fn trim_back(s: Seq<u8>) -> Seq<u8>
    decreases s.len(),
{
    if s.len() > 0 && is_ws(s.last()) {
        trim_back(s.drop_last())
    } else {
        s
    }
}

/// `s` with surrounding whitespace removed.
pub open spec fn spec_trim(s: Seq<u8>) -> Seq<u8> {
    trim_back(trim_front(s))
}

/// Dropping leading whitespace up to the first non-whitespace byte is all
/// that `trim_front` does.
proof fn lemma_trim_front_skip(s: Seq<u8>, lo: int)
    requires
        0 <= lo <= s.len(),
        forall|j: int| 0 <= j < lo ==> is_ws(s[j]),
        lo == s.len() || !is_ws(s[lo]),
    ensures
        trim_front(s) == s.skip(lo),
    decreases lo,
{
    if lo == 0 {
        assert(s.skip(0) =~= s);
    } else {
        assert(is_ws(s[0]));
        lemma_trim_front_skip(s.skip(1), lo - 1);
        assert(s.skip(1).skip(lo - 1) =~= s.skip(lo));
    }
}

/// Dropping trailing whitespace back to the last non-whitespace byte is all
/// that `trim_back` does.
proof fn lemma_trim_back_take(s: Seq<u8>, hi: int)
    requires
        0 <= hi <= s.len(),
        forall|j: int| hi <= j < s.len() ==> is_ws(s[j]),
        hi == 0 || !is_ws(s[hi - 1]),
    ensures
        trim_back(s) == s.take(hi),
    decreases s.len() - hi,
{
    if hi == s.len() {
        assert(s.take(hi) =~= s);
    } else {
        assert(is_ws(s.last()));
        lemma_trim_back_take(s.drop_last(), hi);
        assert(s.drop_last().take(hi) =~= s.take(hi));
    }
}

/// The trimmed line is empty exactly when every byte of the line is
/// whitespace.
pub proof fn lemma_trim_empty_iff_ws(s: Seq<u8>)
    ensures
        spec_trim(s).len() == 0 <==> (forall|j: int| 0 <= j < s.len() ==> is_ws(#[trigger] s[j])),
    decreases s.len(),
{
    if s.len() > 0 && is_ws(s[0]) {
        let s1 = s.skip(1);
        lemma_trim_empty_iff_ws(s1);
        assert(spec_trim(s) == spec_trim(s1));
        if spec_trim(s).len() == 0 {
            assert forall|j: int| 0 <= j < s.len() implies is_ws(#[trigger] s[j]) by {
                if j >= 1 {
                    assert(is_ws(s1[j - 1]));
                }
            }
        } else {
            let k = choose|k: int| 0 <= k < s1.len() && !is_ws(s1[k]);
            assert(s[k + 1] == s1[k]);
            assert(!is_ws(s[k + 1]));
        }
    } else if s.len() > 0 {
        // The first byte is not whitespace, and trim_back keeps it: the
        // trimmed line is nonempty.
        assert(trim_front(s) == s);
        lemma_trim_back_keeps_front(s);
    }
}

/// `trim_back` never removes a leading non-whitespace byte.
proof fn lemma_trim_back_keeps_front(s: Seq<u8>)
    requires
        s.len() > 0,
        !is_ws(s[0]),
    ensures
        trim_back(s).len() > 0,
        trim_back(s)[0] == s[0],
    decreases s.len(),
{
    if s.len() > 0 && is_ws(s.last()) {
        lemma_trim_back_keeps_front(s.drop_last());
    }
}

/// Whether `b` is ASCII whitespace.
pub fn is_ws_byte(b: u8) -> (r: bool)
    ensures
        r == is_ws(b),
{
    b == 32 || (b >= 9 && b <= 13)
}

/// Remove surrounding ASCII whitespace from `line`.
pub fn trim_bytes(line: &Vec<u8>) -> (out: Vec<u8>)
    ensures
        out@ == spec_trim(line@),
{
    let mut lo: usize = 0;
    while lo < line.len() && is_ws_byte(line[lo])
        invariant
            lo <= line@.len(),
            forall|j: int| 0 <= j < lo ==> is_ws(#[trigger] line@[j]),
        decreases line@.len() - lo,
    {
        lo += 1;
    }
    let mut hi: usize = line.len();
    while hi > lo && is_ws_byte(line[hi - 1])
        invariant
            lo <= hi <= line@.len(),
            forall|j: int| 0 <= j < lo ==> is_ws(#[trigger] line@[j]),
            forall|j: int| hi <= j < line@.len() ==> is_ws(#[trigger] line@[j]),
        decreases hi,
    {
        hi -= 1;
    }
    proof {
        lemma_trim_front_skip(line@, lo as int);
        let front = line@.skip(lo as int);
        assert(forall|j: int| 0 <= j < front.len() ==> front[j] == line@[j + lo]);
        lemma_trim_back_take(front, hi - lo);
    }
    let mut out: Vec<u8> = Vec::new();
    let mut i: usize = lo;
    while i < hi
        invariant
            lo <= i <= hi <= line@.len(),
            out@ =~= line@.subrange(lo as int, i as int),
        decreases hi - i,
    {
        out.push(line[i]);
        proof {
            assert(out@ =~= line@.subrange(lo as int, i as int + 1));
        }
        i += 1;
    }
    proof {
        assert(line@.skip(lo as int).take(hi - lo) =~= line@.subrange(lo as int, hi as int));
    }
    out
}

/// The bytes the appender writes to a database holding `content` for the
/// input `line`: the trimmed line and a terminating separator, preceded by
/// one more separator when the content does not already end at a record
/// boundary — so the new quote never merges into the last existing record.
/// Nothing is written when the trimmed line is empty: a whitespace-only
/// line leaves the database untouched.
pub fn prepare_append(content: &Vec<u8>, line: &Vec<u8>) -> (r: Option<Vec<u8>>)
    ensures
        match r {
            Some(out) => spec_trim(line@).len() > 0 && out@ == spec_append_bytes(
                content@,
                spec_trim(line@),
            ),
            None => spec_trim(line@).len() == 0,
        },
        r is None <==> (forall|j: int| 0 <= j < line@.len() ==> is_ws(#[trigger] line@[j])),
{
    proof {
        lemma_trim_empty_iff_ws(line@);
    }
    let trimmed = trim_bytes(line);
    if trimmed.len() == 0 {
        return None;
    }
    let pieces = split_content(content);
    proof {
        lemma_split_nonempty(content@);
        assert(pieces@.len() == spec_split(content@).len());
    }
    let mut out: Vec<u8> = Vec::new();
    if pieces[pieces.len() - 1].len() != 0 {
        proof {
            assert(pieces.deep_view().last() == spec_split(content@).last());
            assert(spec_split(content@).last() != Seq::<u8>::empty());
        }
        out.push(10);
        out.push(37);
        out.push(10);
    } else {
        proof {
            assert(pieces.deep_view().last() =~= Seq::<u8>::empty());
            assert(spec_split(content@).last() == Seq::<u8>::empty());
        }
    }
    let mut i: usize = 0;
    let ghost lead = out@;
    while i < trimmed.len()
        invariant
            i <= trimmed@.len(),
            out@ == lead + trimmed@.take(i as int),
        decreases trimmed@.len() - i,
    {
        out.push(trimmed[i]);
        proof {
            assert(out@ =~= lead + trimmed@.take(i as int + 1));
        }
        i += 1;
    }
    out.push(10);
    out.push(37);
    out.push(10);
    proof {
        assert(trimmed@.take(trimmed@.len() as int) =~= trimmed@);
        assert(out@ =~= spec_append_bytes(content@, spec_trim(line@)));
    }
    Some(out)
}

} // verus!
