//! The quote database model: raw file content is a byte sequence, and its
//! records are the pieces between occurrences of the separator line
//! `"\n%\n"` (newline, percent sign, newline).
//!
//! Splitting scans left to right and consumes the leftmost separator first,
//! so no record ever contains a separator. Content maintained by the
//! appender ends with a separator, which leaves one empty trailing piece
//! after the split; loading drops that trailing empty piece, so that empty
//! content loads as zero records.

use vstd::prelude::*;

verus! {

/// The record separator: newline, `%`, newline.
pub open spec fn separator() -> Seq<u8> {
    seq![10u8, 37u8, 10u8]
}

/// Whether the separator occurs in `c` at byte position `i`.
pub open spec fn sep_at(c: Seq<u8>, i: int) -> bool {
    &&& 0 <= i
    &&& i + 3 <= c.len()
    &&& c[i] == 10u8
    &&& c[i + 1] == 37u8
    &&& c[i + 2] == 10u8
}

/// Whether `c` contains no separator.
pub open spec fn sep_free(c: Seq<u8>) -> bool {
    forall|i: int| !sep_at(c, i)
}

/// Whether `c` ends with the two bytes newline, `%`: a suffix that fuses
/// with a following separator into an earlier separator occurrence.
pub open spec fn ends_open_sep(c: Seq<u8>) -> bool {
    c.len() >= 2 && c[c.len() - 2] == 10u8 && c[c.len() - 1] == 37u8
}

/// The pieces of `c` between consecutive separators, leftmost separator
/// first. Splitting empty content yields one empty piece, and a separator
/// at the very end yields a trailing empty piece, as with `str::split`.
pub open spec fn spec_split(c: Seq<u8>) -> Seq<Seq<u8>>
    decreases c.len(),
{
    if sep_at(c, 0) {
        seq![Seq::<u8>::empty()] + spec_split(c.skip(3))
    } else if c.len() == 0 {
        seq![Seq::<u8>::empty()]
    } else {
        let rest = spec_split(c.skip(1));
        seq![seq![c[0]] + rest[0]] + rest.skip(1)
    }
}

/// The records of database content `c`: the split pieces, with the one
/// empty piece a terminating separator leaves at the end dropped.
pub open spec fn spec_load(c: Seq<u8>) -> Seq<Seq<u8>> {
    let pieces = spec_split(c);
    if pieces.last() == Seq::<u8>::empty() {
        pieces.drop_last()
    } else {
        pieces
    }
}

/// Splitting always yields at least one piece.
pub proof fn lemma_split_nonempty(c: Seq<u8>)
    ensures
        spec_split(c).len() >= 1,
    decreases c.len(),
{
    if sep_at(c, 0) {
        lemma_split_nonempty(c.skip(3));
    } else if c.len() == 0 {
    } else {
        lemma_split_nonempty(c.skip(1));
    }
}

/// Separator-free content splits into the single piece that is the content
/// itself; in particular any content shorter than the separator does.
pub proof fn lemma_split_sep_free(c: Seq<u8>)
    requires
        sep_free(c),
    ensures
        spec_split(c) == seq![c],
    decreases c.len(),
{
    if sep_at(c, 0) {
        assert(false);
    } else if c.len() == 0 {
        assert(seq![Seq::<u8>::empty()] =~~= seq![c]);
    } else {
        assert forall|i: int| !sep_at(c.skip(1), i) by {
            if sep_at(c.skip(1), i) {
                assert(sep_at(c, i + 1));
            }
        }
        lemma_split_sep_free(c.skip(1));
        assert(seq![c[0]] + c.skip(1) =~= c);
        assert(spec_split(c) =~= seq![c]);
    }
}

/// The first split piece is a prefix of the content.
proof fn lemma_split_first_is_prefix(c: Seq<u8>)
    ensures
        spec_split(c)[0].len() <= c.len(),
        spec_split(c)[0] == c.take(spec_split(c)[0].len() as int),
    decreases c.len(),
{
    lemma_split_nonempty(c);
    if sep_at(c, 0) {
        assert(spec_split(c)[0] =~= c.take(0));
    } else if c.len() == 0 {
        assert(spec_split(c)[0] =~= c.take(0));
    } else {
        lemma_split_first_is_prefix(c.skip(1));
        lemma_split_nonempty(c.skip(1));
        let rest = spec_split(c.skip(1));
        assert(spec_split(c)[0] == seq![c[0]] + rest[0]);
        assert(seq![c[0]] + c.skip(1).take(rest[0].len() as int) =~= c.take(
            rest[0].len() as int + 1,
        ));
    }
}

/// No piece of the split contains a separator: records never hold the
/// separator sequence.
pub proof fn lemma_split_pieces_sep_free(c: Seq<u8>)
    ensures
        forall|k: int|
            0 <= k < spec_split(c).len() ==> sep_free(#[trigger] spec_split(c)[k]),
    decreases c.len(),
{
    if sep_at(c, 0) {
        lemma_split_pieces_sep_free(c.skip(3));
        assert forall|k: int|
            0 <= k < spec_split(c).len() implies sep_free(#[trigger] spec_split(c)[k]) by {
            if k == 0 {
                assert(forall|i: int| !sep_at(Seq::<u8>::empty(), i));
            } else {
                assert(spec_split(c)[k] == spec_split(c.skip(3))[k - 1]);
            }
        }
    } else if c.len() == 0 {
        assert(forall|i: int| !sep_at(Seq::<u8>::empty(), i));
    } else {
        lemma_split_pieces_sep_free(c.skip(1));
        lemma_split_nonempty(c.skip(1));
        lemma_split_first_is_prefix(c.skip(1));
        let rest = spec_split(c.skip(1));
        assert forall|k: int|
            0 <= k < spec_split(c).len() implies sep_free(#[trigger] spec_split(c)[k]) by {
            if k == 0 {
                let first = seq![c[0]] + rest[0];
                assert(spec_split(c)[k] == first);
                assert forall|i: int| !sep_at(first, i) by {
                    if sep_at(first, i) {
                        if i == 0 {
                            // The piece starts with the content's first
                            // byte and continues with bytes of `c.skip(1)`,
                            // so a separator here is one at position 0 of
                            // `c`, which this branch excludes.
                            assert(rest[0][0] == c.skip(1)[0]);
                            assert(rest[0][1] == c.skip(1)[1]);
                            assert(sep_at(c, 0));
                        } else {
                            assert(sep_at(rest[0], i - 1));
                        }
                    }
                }
            } else {
                assert(spec_split(c)[k] == rest[k - 1 + 1]);
            }
        }
    }
}

/// Splitting content that begins with one separator-free piece, then a
/// separator, then a remainder yields that piece followed by the split of
/// the remainder.
proof fn lemma_split_prefix(t: Seq<u8>, rest: Seq<u8>)
    requires
        sep_free(t),
        !ends_open_sep(t),
    ensures
        spec_split(t + separator() + rest) == seq![t] + spec_split(rest),
    decreases t.len(),
{
    let u = t + separator() + rest;
    if t.len() == 0 {
        assert(sep_at(u, 0));
        assert(u.skip(3) =~= rest);
        assert(seq![Seq::<u8>::empty()] + spec_split(rest) =~~= seq![t] + spec_split(rest));
    } else {
        assert(!sep_at(u, 0)) by {
            if sep_at(u, 0) {
                if t.len() >= 3 {
                    assert(sep_at(t, 0));
                } else if t.len() == 2 {
                    // u[2] is the separator's first byte, a newline; a
                    // separator at 0 would need t to end with newline, `%`.
                    assert(ends_open_sep(t));
                }
                // t.len() == 1: u[1] is a newline, never `%`.
            }
        }
        let t1 = t.skip(1);
        assert forall|i: int| !sep_at(t1, i) by {
            if sep_at(t1, i) {
                assert(sep_at(t, i + 1));
            }
        }
        assert(!ends_open_sep(t1)) by {
            if ends_open_sep(t1) {
                assert(t1[t1.len() - 2] == t[t.len() - 2]);
                assert(t1[t1.len() - 1] == t[t.len() - 1]);
            }
        }
        lemma_split_prefix(t1, rest);
        assert(u.skip(1) =~= t1 + separator() + rest);
        let r = spec_split(u.skip(1));
        assert(r == seq![t1] + spec_split(rest));
        lemma_split_nonempty(rest);
        assert(r[0] == t1);
        assert(seq![u[0]] + r[0] =~= t);
        assert(r.skip(1) =~= spec_split(rest));
        assert(spec_split(u) =~= seq![t] + spec_split(rest));
    }
}

/// Appending one separator-free piece and a terminating separator to
/// content that is empty or itself separator-terminated replaces the
/// trailing empty piece of the split with the new piece and a new trailing
/// empty piece.
proof fn lemma_split_append(c: Seq<u8>, t: Seq<u8>)
    requires
        spec_split(c).last() == Seq::<u8>::empty(),
        sep_free(t),
        !ends_open_sep(t),
    ensures
        spec_split(c + t + separator()) == spec_split(c).drop_last() + seq![
            t,
            Seq::<u8>::empty(),
        ],
    decreases c.len(),
{
    lemma_split_nonempty(c);
    let u = c + t + separator();
    if c.len() == 0 {
        assert(u =~= t + separator() + Seq::<u8>::empty());
        lemma_split_prefix(t, Seq::<u8>::empty());
        assert(spec_split(u) =~= spec_split(c).drop_last() + seq![t, Seq::<u8>::empty()]);
    } else if sep_at(c, 0) {
        let c3 = c.skip(3);
        lemma_split_nonempty(c3);
        assert(spec_split(c).last() == spec_split(c3).last());
        lemma_split_append(c3, t);
        assert(sep_at(u, 0));
        assert(u.skip(3) =~= c3 + t + separator());
        assert(spec_split(u) == seq![Seq::<u8>::empty()] + (spec_split(c3).drop_last()
            + seq![t, Seq::<u8>::empty()]));
        assert(spec_split(u) =~= spec_split(c).drop_last() + seq![t, Seq::<u8>::empty()]);
    } else {
        let c1 = c.skip(1);
        let r = spec_split(c1);
        lemma_split_nonempty(c1);
        assert(spec_split(c) == seq![seq![c[0]] + r[0]] + r.skip(1));
        if r.len() == 1 {
            // The whole content would be one nonempty piece, against the
            // premise that the last piece is empty.
            assert(spec_split(c).last() == seq![c[0]] + r[0]);
            assert(false);
        }
        assert(spec_split(c).last() == r.last());
        lemma_split_append(c1, t);
        assert(c.len() >= 3) by {
            if c.len() < 3 {
                assert(sep_free(c1)) by {
                    assert(forall|i: int| i + 3 > c1.len() ==> !sep_at(c1, i));
                }
                lemma_split_sep_free(c1);
            }
        }
        assert(u[0] == c[0] && u[1] == c[1] && u[2] == c[2]);
        assert(!sep_at(u, 0));
        assert(u.skip(1) =~= c1 + t + separator());
        let r2 = spec_split(u.skip(1));
        assert(r2 == r.drop_last() + seq![t, Seq::<u8>::empty()]);
        assert(r2[0] == r[0]);
        assert(spec_split(u) == seq![seq![u[0]] + r2[0]] + r2.skip(1));
        assert(spec_split(u) =~= spec_split(c).drop_last() + seq![t, Seq::<u8>::empty()]);
    }
}

/// Appending one separator closes the last piece: the split gains exactly
/// one empty trailing piece.
proof fn lemma_split_terminate(c: Seq<u8>)
    requires
        !ends_open_sep(spec_split(c).last()),
    ensures
        spec_split(c + separator()) == spec_split(c).push(Seq::<u8>::empty()),
    decreases c.len(),
{
    lemma_split_nonempty(c);
    let u = c + separator();
    if sep_at(c, 0) {
        let c3 = c.skip(3);
        lemma_split_nonempty(c3);
        assert(spec_split(c).last() == spec_split(c3).last());
        lemma_split_terminate(c3);
        assert(sep_at(u, 0));
        assert(u.skip(3) =~= c3 + separator());
        assert(spec_split(u) == seq![Seq::<u8>::empty()] + spec_split(c3).push(
            Seq::<u8>::empty(),
        ));
        assert(spec_split(u) =~= spec_split(c).push(Seq::<u8>::empty()));
    } else if c.len() == 0 {
        assert(c =~= Seq::<u8>::empty());
        assert(sep_at(u, 0));
        assert(u.skip(3) =~= Seq::<u8>::empty());
        assert(spec_split(Seq::<u8>::empty()) == seq![Seq::<u8>::empty()]);
        assert(spec_split(u) == seq![Seq::<u8>::empty()] + spec_split(u.skip(3)));
        assert(spec_split(u) =~= spec_split(c).push(Seq::<u8>::empty()));
    } else {
        let c1 = c.skip(1);
        let r = spec_split(c1);
        lemma_split_nonempty(c1);
        assert(spec_split(c) == seq![seq![c[0]] + r[0]] + r.skip(1));
        assert(!sep_at(u, 0)) by {
            if sep_at(u, 0) {
                if c.len() >= 3 {
                    assert(sep_at(c, 0));
                } else if c.len() == 2 {
                    // The content would be exactly the two bytes newline,
                    // `%`, which split into one piece that ends with them —
                    // excluded by the precondition.
                    assert(sep_free(c1)) by {
                        assert(forall|i: int| i + 3 > c1.len() ==> !sep_at(c1, i));
                    }
                    lemma_split_sep_free(c1);
                    assert(seq![c[0]] + c1 =~= c);
                    assert(spec_split(c).last() == c);
                    assert(ends_open_sep(c));
                }
                // c.len() == 1: the second byte of u is the separator's
                // first, a newline, never `%`.
            }
        }
        // The precondition carries to the tail of the content.
        if r.len() == 1 {
            assert(spec_split(c).last() == seq![c[0]] + r[0]);
            assert(!ends_open_sep(r[0])) by {
                if ends_open_sep(r[0]) {
                    let f = seq![c[0]] + r[0];
                    assert(f[f.len() - 2] == r[0][r[0].len() - 2]);
                    assert(f[f.len() - 1] == r[0][r[0].len() - 1]);
                }
            }
        } else {
            assert(spec_split(c).last() == r.last());
        }
        lemma_split_terminate(c1);
        assert(u.skip(1) =~= c1 + separator());
        let r2 = spec_split(u.skip(1));
        assert(r2 == r.push(Seq::<u8>::empty()));
        assert(r2[0] == r[0]);
        assert(spec_split(u) == seq![seq![u[0]] + r2[0]] + r2.skip(1));
        assert(r2.skip(1) =~= r.skip(1).push(Seq::<u8>::empty()));
        assert(spec_split(u) =~= spec_split(c).push(Seq::<u8>::empty()));
    }
}

/// The bytes the appender adds to database content `c` for the new quote
/// `t`: the quote and a terminating separator, preceded by one more
/// separator when `c` does not already end at a record boundary — so the
/// quote never merges into the last existing record.
pub open spec fn spec_append_bytes(c: Seq<u8>, t: Seq<u8>) -> Seq<u8> {
    if spec_split(c).last() == Seq::<u8>::empty() {
        t + separator()
    } else {
        separator() + t + separator()
    }
}

/// Appending a quote's bytes to any database and reloading yields the old
/// record sequence with the quote appended as the last record. The quote
/// must not contain the separator nor end with its first two bytes, and the
/// database's last record must not end with the separator's first two bytes
/// (such a record cannot be kept intact by any appended bytes).
pub proof fn lemma_append_round_trip(c: Seq<u8>, t: Seq<u8>)
    requires
        sep_free(t),
        !ends_open_sep(t),
        !ends_open_sep(spec_split(c).last()),
    ensures
        spec_load(c + spec_append_bytes(c, t)) == spec_load(c).push(t),
{
    lemma_split_nonempty(c);
    if spec_split(c).last() == Seq::<u8>::empty() {
        assert(c + spec_append_bytes(c, t) =~= c + t + separator());
        lemma_split_append(c, t);
        assert(spec_split(c + t + separator()).last() == Seq::<u8>::empty());
        assert(spec_load(c + t + separator()) =~= spec_load(c).push(t));
    } else {
        let cs = c + separator();
        assert(c + spec_append_bytes(c, t) =~= cs + t + separator());
        lemma_split_terminate(c);
        assert(spec_split(cs).last() == Seq::<u8>::empty());
        lemma_split_append(cs, t);
        assert(spec_split(cs).drop_last() =~= spec_split(c));
        assert(spec_split(cs + t + separator()).last() == Seq::<u8>::empty());
        assert(spec_load(cs + t + separator()) =~= spec_load(c).push(t));
    }
}

/// Split raw database content on the separator, leftmost occurrence first.
pub fn split_content(content: &Vec<u8>) -> (pieces: Vec<Vec<u8>>)
    ensures
        pieces.deep_view() == spec_split(content@),
{
    let mut acc: Vec<Vec<u8>> = Vec::new();
    let mut cur: Vec<u8> = Vec::new();
    let mut i: usize = 0;
    proof {
        lemma_split_nonempty(content@);
        assert(content@.skip(0) =~= content@);
        let s0 = spec_split(content@);
        assert(Seq::<Seq<u8>>::empty() + seq![Seq::<u8>::empty() + s0[0]] + s0.skip(1) =~~= s0);
    }
    while i < content.len()
        invariant
            i <= content@.len(),
            spec_split(content@) == acc.deep_view() + seq![
                cur@ + spec_split(content@.skip(i as int))[0],
            ] + spec_split(content@.skip(i as int)).skip(1),
        decreases content@.len() - i,
    {
        let ghost s = spec_split(content@.skip(i as int));
        let ghost acc0 = acc.deep_view();
        let ghost cur0 = cur@;
        proof {
            lemma_split_nonempty(content@.skip(i as int));
        }
        if content.len() - i >= 3 && content[i] == 10 && content[i + 1] == 37 && content[i
            + 2] == 10 {
            proof {
                assert(sep_at(content@.skip(i as int), 0));
                assert(content@.skip(i as int).skip(3) =~= content@.skip(i as int + 3));
                assert(s == seq![Seq::<u8>::empty()] + spec_split(content@.skip(i as int + 3)));
            }
            acc.push(cur);
            cur = Vec::new();
            proof {
                let s3 = spec_split(content@.skip(i as int + 3));
                lemma_split_nonempty(content@.skip(i as int + 3));
                assert(acc.deep_view() =~~= acc0.push(cur0));
                assert(s[0] == Seq::<u8>::empty());
                assert(cur0 + s[0] =~= cur0);
                assert(s.skip(1) =~= s3);
                assert(acc0.push(cur0) + seq![cur@ + s3[0]] + s3.skip(1) =~= acc0 + seq![
                    cur0 + s[0],
                ] + s.skip(1));
            }
            i += 3;
        } else {
            proof {
                assert(!sep_at(content@.skip(i as int), 0));
                assert(content@.skip(i as int).len() > 0);
                assert(content@.skip(i as int).skip(1) =~= content@.skip(i as int + 1));
                let r = spec_split(content@.skip(i as int + 1));
                lemma_split_nonempty(content@.skip(i as int + 1));
                assert(s == seq![seq![content@.skip(i as int)[0]] + r[0]] + r.skip(1));
            }
            let b = content[i];
            cur.push(b);
            proof {
                let r = spec_split(content@.skip(i as int + 1));
                assert(content@.skip(i as int)[0] == content@[i as int]);
                assert(s[0] == seq![content@[i as int]] + r[0]);
                assert(cur@ + r[0] =~= cur0 + s[0]);
                assert(s.skip(1) =~= r.skip(1));
                assert(acc0 + seq![cur@ + r[0]] + r.skip(1) =~= acc0 + seq![cur0 + s[0]]
                    + s.skip(1));
            }
            i += 1;
        }
    }
    let ghost accf = acc.deep_view();
    let ghost curf = cur@;
    proof {
        assert(content@.skip(content@.len() as int) =~= Seq::<u8>::empty());
        assert(!sep_at(Seq::<u8>::empty(), 0));
        assert(spec_split(content@.skip(content@.len() as int)) == seq![Seq::<u8>::empty()]);
    }
    acc.push(cur);
    proof {
        let s = spec_split(content@.skip(content@.len() as int));
        assert(s[0] == Seq::<u8>::empty());
        assert(curf + s[0] =~= curf);
        assert(s.skip(1) =~= Seq::<Seq<u8>>::empty());
        assert(spec_split(content@) =~= accf.push(curf));
        assert(acc.deep_view() =~~= accf.push(curf));
    }
    acc
}

/// Load the records of raw database content: split on the separator and
/// drop the one trailing empty piece a terminating separator leaves, so
/// that empty content yields zero records.
pub fn load_records(content: &Vec<u8>) -> (records: Vec<Vec<u8>>)
    ensures
        records.deep_view() == spec_load(content@),
{
    let mut pieces = split_content(content);
    proof {
        lemma_split_nonempty(content@);
        assert(pieces@.len() == spec_split(content@).len());
    }
    if pieces[pieces.len() - 1].len() == 0 {
        proof {
            assert(pieces.deep_view().last() =~= Seq::<u8>::empty());
        }
        pieces.pop();
        proof {
            assert(pieces.deep_view() =~~= spec_split(content@).drop_last());
        }
    } else {
        proof {
            assert(pieces.deep_view().last() == spec_split(content@).last());
            assert(spec_split(content@).last() != Seq::<u8>::empty());
        }
    }
    pieces
}

} // verus!
