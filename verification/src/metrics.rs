//! Per-file metrics: line counts and sizes in kilobytes.
//!
//! A file's content is handled as its byte sequence; a line boundary is the
//! newline byte. The line count is the number of segments produced by
//! splitting on newlines, so a trailing newline contributes one final empty
//! segment and empty content counts as a single empty line.

use vstd::prelude::*;

verus! {

/// The newline byte, the only line separator this library recognizes.
pub open spec fn newline() -> u8 {
    10
}

/// How many newline bytes `s` holds.
pub open spec fn count_newlines(s: Seq<u8>) -> nat
    decreases s.len(),
{
    if s.len() == 0 {
        0
    } else {
        count_newlines(s.drop_last()) + if s.last() == newline() {
            1nat
        } else {
            0nat
        }
    }
}

/// Counts the segments obtained by splitting `s` on newline bytes: one more
/// than the number of newlines, whatever the content.
pub open spec fn spec_line_count(s: Seq<u8>) -> nat {
    count_newlines(s) + 1
}

/// The size in kilobytes of content of `len` bytes: truncating division.
pub open spec fn spec_size_kb(len: nat) -> nat {
    len / 1024
}

/// The segments obtained by splitting `s` on newline bytes, in order. The
/// separators themselves are dropped; a trailing newline yields a final
/// empty segment, and empty content is one empty segment.
pub open spec fn spec_split_lines(s: Seq<u8>) -> Seq<Seq<u8>>
    decreases s.len(),
{
    if s.len() == 0 {
        seq![Seq::empty()]
    } else if s[0] == newline() {
        seq![Seq::<u8>::empty()] + spec_split_lines(s.drop_first())
    } else {
        let rest = spec_split_lines(s.drop_first());
        seq![seq![s[0]] + rest[0]] + rest.drop_first()
    }
}

/// Splitting always yields at least one segment.
proof fn lemma_split_nonempty(s: Seq<u8>)
    ensures
        spec_split_lines(s).len() >= 1,
    decreases s.len(),
{
    if s.len() > 0 {
        lemma_split_nonempty(s.drop_first());
    }
}

/// The newline count of a sequence decomposes at its first byte.
proof fn lemma_count_newlines_first(s: Seq<u8>)
    requires
        s.len() > 0,
    ensures
        count_newlines(s) == count_newlines(s.drop_first()) + if s[0] == newline() {
            1nat
        } else {
            0nat
        },
    decreases s.len(),
{
    if s.len() == 1 {
        assert(s.drop_first() =~= Seq::<u8>::empty());
        assert(s.drop_last() =~= Seq::<u8>::empty());
    } else {
        lemma_count_newlines_first(s.drop_last());
        assert(s.drop_last().drop_first() =~= s.drop_first().drop_last());
        assert(s.drop_first().last() == s.last());
    }
}

/// The splitting law: the number of segments that splitting on newlines
/// produces is always one more than the number of newline bytes, for any
/// content, with or without trailing newlines.
pub proof fn lemma_line_count_is_split_length(s: Seq<u8>)
    ensures
        spec_split_lines(s).len() == spec_line_count(s),
    decreases s.len(),
{
    if s.len() > 0 {
        lemma_line_count_is_split_length(s.drop_first());
        lemma_count_newlines_first(s);
        lemma_split_nonempty(s.drop_first());
    }
}

/// Appending one byte extends the last segment, or opens a new empty one
/// when the byte is a newline.
proof fn lemma_split_push(s: Seq<u8>, c: u8)
    ensures
        c == newline() ==> spec_split_lines(s.push(c)) =~~= spec_split_lines(s).push(
            Seq::empty(),
        ),
        c != newline() ==> spec_split_lines(s.push(c)) =~~= spec_split_lines(
            s,
        ).drop_last().push(spec_split_lines(s).last().push(c)),
    decreases s.len(),
{
    lemma_split_nonempty(s);
    if s.len() == 0 {
        assert(s.push(c).len() == 1);
        assert(s.push(c)[0] == c);
        assert(s.push(c).drop_first() =~= Seq::<u8>::empty());
        assert(spec_split_lines(s.push(c).drop_first()) == seq![Seq::<u8>::empty()]);
        assert(spec_split_lines(s) == seq![Seq::<u8>::empty()]);
        if c == newline() {
            assert(spec_split_lines(s.push(c)) == seq![Seq::<u8>::empty()]
                + spec_split_lines(s.push(c).drop_first()));
            assert(spec_split_lines(s.push(c)) =~~= spec_split_lines(s).push(Seq::empty()));
        } else {
            assert(spec_split_lines(s.push(c)) == seq![
                seq![c] + spec_split_lines(s.push(c).drop_first())[0],
            ] + spec_split_lines(s.push(c).drop_first()).drop_first());
            assert(spec_split_lines(s.push(c)) =~~= spec_split_lines(s).drop_last().push(
                spec_split_lines(s).last().push(c),
            ));
        }
    } else {
        lemma_split_push(s.drop_first(), c);
        lemma_split_nonempty(s.drop_first());
        assert(s.push(c)[0] == s[0]);
        assert(s.push(c).len() == s.len() + 1);
        assert(s.push(c).drop_first() =~= s.drop_first().push(c));
        let r0 = spec_split_lines(s.drop_first());
        let r1 = spec_split_lines(s.drop_first().push(c));
        assert(spec_split_lines(s.push(c)) == if s[0] == newline() {
            seq![Seq::<u8>::empty()] + r1
        } else {
            seq![seq![s[0]] + r1[0]] + r1.drop_first()
        });
        assert(spec_split_lines(s) == if s[0] == newline() {
            seq![Seq::<u8>::empty()] + r0
        } else {
            seq![seq![s[0]] + r0[0]] + r0.drop_first()
        });
        if c == newline() {
            assert(r1 =~~= r0.push(Seq::empty()));
            if s[0] == newline() {
                assert(spec_split_lines(s.push(c)) =~~= spec_split_lines(s).push(
                    Seq::empty(),
                ));
            } else {
                assert(r1[0] == r0[0]);
                assert(spec_split_lines(s.push(c)) =~~= spec_split_lines(s).push(
                    Seq::empty(),
                ));
            }
        } else {
            assert(r1 =~~= r0.drop_last().push(r0.last().push(c)));
            if s[0] == newline() {
                assert(spec_split_lines(s.push(c)) =~~= spec_split_lines(s).drop_last().push(
                    spec_split_lines(s).last().push(c),
                ));
            } else {
                if r0.len() == 1 {
                    assert(r1[0] == r0[0].push(c));
                    assert(spec_split_lines(s.push(c)) =~~= spec_split_lines(
                        s,
                    ).drop_last().push(spec_split_lines(s).last().push(c)));
                } else {
                    assert(r1[0] == r0[0]);
                    assert(r1.drop_first() =~~= r0.drop_first().drop_last().push(
                        r0.last().push(c),
                    ));
                    assert(spec_split_lines(s).last() == r0.last());
                    assert(spec_split_lines(s.push(c)) =~~= spec_split_lines(
                        s,
                    ).drop_last().push(spec_split_lines(s).last().push(c)));
                }
            }
        }
    }
}

/// The number of lines in `content`: the count of segments produced by
/// splitting on the newline byte, a trailing newline yielding a final empty
/// segment.
pub fn line_count(content: &Vec<u8>) -> (r: usize)
    requires
        content@.len() < usize::MAX,
    ensures
        r == spec_line_count(content@),
        r == spec_split_lines(content@).len(),
{
    proof {
        lemma_line_count_is_split_length(content@);
    }
    let mut count: usize = 0;
    let mut i: usize = 0;
    while i < content.len()
        invariant
            0 <= i <= content@.len(),
            content@.len() < usize::MAX,
            count == count_newlines(content@.take(i as int)),
            count <= i,
        decreases content@.len() - i,
    {
        if content[i] == 10 {
            count = count + 1;
        }
        proof {
            assert(content@.take(i + 1 as int).drop_last() =~= content@.take(i as int));
            assert(content@.take(i + 1 as int).last() == content@[i as int]);
        }
        i = i + 1;
    }
    proof {
        assert(content@.take(content@.len() as int) =~= content@);
    }
    count + 1
}

/// The views of a sequence of byte vectors.
pub open spec fn line_views(v: Seq<Vec<u8>>) -> Seq<Seq<u8>> {
    v.map_values(|l: Vec<u8>| l@)
}

/// Mapping byte vectors to their views commutes with appending one vector.
proof fn lemma_line_views_push(v: Seq<Vec<u8>>, x: Vec<u8>)
    ensures
        line_views(v.push(x)) =~= line_views(v).push(x@),
{
    assert forall|k: int| 0 <= k < v.len() + 1 implies line_views(v.push(x))[k]
        == line_views(v).push(x@)[k] by {
        if k < v.len() {
            assert(v.push(x)[k] == v[k]);
        } else {
            assert(v.push(x)[k] == x);
        }
    }
}

/// Splits `content` into its lines: the segments between newline bytes, in
/// order, without the separators, a trailing newline yielding a final empty
/// line.
pub fn split_lines(content: &Vec<u8>) -> (r: Vec<Vec<u8>>)
    ensures
        line_views(r@) == spec_split_lines(content@),
{
    let mut done: Vec<Vec<u8>> = Vec::new();
    let mut cur: Vec<u8> = Vec::new();
    let mut i: usize = 0;
    proof {
        assert(content@.take(0) =~= Seq::<u8>::empty());
    }
    while i < content.len()
        invariant
            0 <= i <= content@.len(),
            spec_split_lines(content@.take(i as int)) =~~= line_views(done@).push(cur@),
        decreases content@.len() - i,
    {
        let c = content[i];
        proof {
            assert(content@.take(i + 1 as int) =~= content@.take(i as int).push(
                content@[i as int],
            ));
            lemma_split_push(content@.take(i as int), c);
        }
        if c == 10 {
            let ghost done_old = done@;
            let finished = cur;
            proof {
                lemma_line_views_push(done_old, finished);
            }
            done.push(finished);
            cur = Vec::new();
            proof {
                assert(line_views(done@).push(cur@) =~~= line_views(done_old).push(
                    finished@,
                ).push(Seq::empty()));
            }
        } else {
            proof {
                assert(line_views(done@).push(cur@).drop_last() =~= line_views(done@));
                assert(line_views(done@).push(cur@).last() == cur@);
            }
            cur.push(c);
        }
        i = i + 1;
    }
    proof {
        assert(content@.take(content@.len() as int) =~= content@);
    }
    let ghost done_old = done@;
    proof {
        lemma_line_views_push(done_old, cur);
    }
    done.push(cur);
    done
}

/// The size of `len` bytes of content in kilobytes, rounded down.
pub fn size_kb(len: usize) -> (r: usize)
    ensures
        r == spec_size_kb(len as nat),
{
    len / 1024
}

} // verus!
