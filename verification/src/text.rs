//! Small text utilities the staging pipeline needs: splitting a file's
//! bytes into lines the way buffered readers do, decoding bytes to text,
//! and joining path segments with `/`.

use vstd::prelude::*;

verus! {

pub const NL: u8 = 10;

pub const CR: u8 = 13;

/// One trailing carriage return is dropped from a line.
pub open spec fn strip_cr(l: Seq<u8>) -> Seq<u8> {
    if l.len() > 0 && l.last() == CR {
        l.drop_last()
    } else {
        l
    }
}

/// Index of the first newline byte, or the length when there is none.
pub open spec fn first_nl(b: Seq<u8>) -> nat
    decreases b.len(),
{
    if b.len() == 0 {
        0
    } else if b[0] == NL {
        0
    } else {
        1 + first_nl(b.drop_first())
    }
}

proof fn lemma_first_nl(b: Seq<u8>)
    ensures
        first_nl(b) <= b.len(),
        first_nl(b) < b.len() ==> b[first_nl(b) as int] == NL,
        forall|j: int| 0 <= j < first_nl(b) ==> b[j] != NL,
    decreases b.len(),
{
    if b.len() == 0 {
    } else if b[0] == NL {
    } else {
        lemma_first_nl(b.drop_first());
        assert forall|j: int| 0 <= j < first_nl(b) implies b[j] != NL by {
            if j > 0 {
                assert(b.drop_first()[j - 1] == b[j]);
                assert(j - 1 < first_nl(b.drop_first()));
            }
        }
    }
}

/// The lines of a byte buffer: split at newline bytes, one trailing
/// carriage return removed from each line, and no final empty line when
/// the buffer ends with a newline.
pub open spec fn split_lines_view(b: Seq<u8>) -> Seq<Seq<u8>>
    decreases b.len(),
{
    if b.len() == 0 {
        Seq::empty()
    } else {
        let i = first_nl(b);
        if i >= b.len() {
            seq![strip_cr(b)]
        } else {
            seq![strip_cr(b.take(i as int))] + split_lines_view(b.skip(i as int + 1))
        }
    }
}

/// Splitting a buffer that starts with a newline-free line `cur`,
/// followed by a newline and a remainder, yields `cur` (stripped) and
/// then the remainder's lines.
proof fn lemma_split_lines_step(cur: Seq<u8>, rest: Seq<u8>)
    requires
        forall|j: int| 0 <= j < cur.len() ==> cur[j] != NL,
    ensures
        split_lines_view(cur + seq![NL] + rest) == seq![strip_cr(cur)] + split_lines_view(rest),
    decreases cur.len(),
{
    let whole = cur + seq![NL] + rest;
    lemma_first_nl_concat(cur, rest);
    assert(whole.len() > 0);
    assert(first_nl(whole) == cur.len());
    assert(first_nl(whole) < whole.len());
    assert(whole.take(cur.len() as int) =~= cur);
    assert(whole.skip(cur.len() as int + 1) =~= rest);
}

/// The first newline of `cur + [NL] + rest` sits right after `cur` when
/// `cur` has no newline of its own.
proof fn lemma_first_nl_concat(cur: Seq<u8>, rest: Seq<u8>)
    requires
        forall|j: int| 0 <= j < cur.len() ==> cur[j] != NL,
    ensures
        first_nl(cur + seq![NL] + rest) == cur.len(),
    decreases cur.len(),
{
    let whole = cur + seq![NL] + rest;
    if cur.len() == 0 {
        assert(whole[0] == NL);
    } else {
        assert(whole[0] == cur[0]);
        assert(whole[0] != NL);
        lemma_first_nl_concat(cur.drop_first(), rest);
        assert(whole.drop_first() =~= cur.drop_first() + seq![NL] + rest);
    }
}

/// A buffer without any newline is one line.
proof fn lemma_split_lines_last(cur: Seq<u8>)
    requires
        cur.len() > 0,
        forall|j: int| 0 <= j < cur.len() ==> cur[j] != NL,
    ensures
        split_lines_view(cur) == seq![strip_cr(cur)],
{
    lemma_first_nl_no_nl(cur);
}

/// Without a newline byte, `first_nl` is the length.
proof fn lemma_first_nl_no_nl(cur: Seq<u8>)
    requires
        forall|j: int| 0 <= j < cur.len() ==> cur[j] != NL,
    ensures
        first_nl(cur) == cur.len(),
    decreases cur.len(),
{
    if cur.len() == 0 {
    } else {
        lemma_first_nl_no_nl(cur.drop_first());
        assert(forall|j: int|
            0 <= j < cur.drop_first().len() ==> cur.drop_first()[j] == cur[j + 1]);
    }
}

/// Drops one trailing carriage return, if any.
fn strip_cr_exec(line: Vec<u8>) -> (r: Vec<u8>)
    ensures
        r@ == strip_cr(line@),
{
    let mut line = line;
    let n = line.len();
    if n > 0 && line[n - 1] == CR {
        line.pop();
    }
    line
}

/// Splits a byte buffer into its lines, as `split_lines_view` describes.
pub fn split_lines(data: &Vec<u8>) -> (r: Vec<Vec<u8>>)
    ensures
        r@.map_values(|l: Vec<u8>| l@) == split_lines_view(data@),
{
    let mut out: Vec<Vec<u8>> = Vec::new();
    let mut cur: Vec<u8> = Vec::new();
    let n = data.len();
    let mut pos: usize = 0;
    proof {
        assert(cur@ + data@.skip(0) =~= data@);
        assert(out@.map_values(|l: Vec<u8>| l@) =~= Seq::<Seq<u8>>::empty());
    }
    while pos < n
        invariant
            n == data@.len(),
            pos <= n,
            forall|j: int| 0 <= j < cur@.len() ==> cur@[j] != NL,
            out@.map_values(|l: Vec<u8>| l@) + split_lines_view(cur@ + data@.skip(pos as int))
                =~= split_lines_view(data@),
        decreases n - pos,
    {
        let x = data[pos];
        proof {
            assert(data@.skip(pos as int)[0] == data@[pos as int]);
        }
        if x == NL {
            proof {
                assert(cur@ + data@.skip(pos as int) =~= cur@ + seq![NL] + data@.skip(
                    pos as int + 1,
                ));
                lemma_split_lines_step(cur@, data@.skip(pos as int + 1));
            }
            let ghost old_out = out@;
            let ghost old_cur = cur@;
            let finished = strip_cr_exec(cur);
            cur = Vec::new();
            out.push(finished);
            proof {
                assert(out@.map_values(|l: Vec<u8>| l@) =~= old_out.map_values(|l: Vec<u8>| l@)
                    + seq![strip_cr(old_cur)]);
                assert(cur@ + data@.skip(pos as int + 1) =~= data@.skip(pos as int + 1));
            }
        } else {
            let ghost old_cur = cur@;
            cur.push(x);
            proof {
                assert(cur@ + data@.skip(pos as int + 1) =~= old_cur + data@.skip(pos as int));
            }
        }
        pos = pos + 1;
    }
    proof {
        assert(cur@ + data@.skip(n as int) =~= cur@);
    }
    if cur.len() > 0 {
        proof {
            lemma_split_lines_last(cur@);
        }
        let ghost old_out = out@;
        let ghost last_cur = cur@;
        let finished = strip_cr_exec(cur);
        out.push(finished);
        proof {
            assert(out@.map_values(|l: Vec<u8>| l@) =~= old_out.map_values(|l: Vec<u8>| l@)
                + seq![strip_cr(last_cur)]);
        }
    }
    out
}

/// The text that lossy UTF-8 decoding reads out of a byte sequence; it
/// depends on the bytes alone.
pub uninterp spec fn utf8_lossy(bytes: Seq<u8>) -> Seq<char>;

/// Relies on `String::from_utf8_lossy`: the decoded text is a function of
/// the bytes alone.
#[verifier::external_body]
pub(crate) fn bytes_to_string_lossy(bytes: &Vec<u8>) -> (r: String)
    ensures
        r@ == utf8_lossy(bytes@),
{
    String::from_utf8_lossy(bytes.as_slice()).into_owned()
}

/// The decoded lines of a byte buffer.
pub open spec fn text_lines(b: Seq<u8>) -> Seq<Seq<char>> {
    split_lines_view(b).map_values(|l: Seq<u8>| utf8_lossy(l))
}

/// Splits a buffer into its lines and decodes each lossily.
pub fn decode_lines(data: &Vec<u8>) -> (r: Vec<String>)
    ensures
        r@.map_values(|s: String| s@) == text_lines(data@),
{
    let raw = split_lines(data);
    let mut out: Vec<String> = Vec::new();
    let n = raw.len();
    let mut i: usize = 0;
    while i < n
        invariant
            n == raw@.len(),
            raw@.map_values(|l: Vec<u8>| l@) == split_lines_view(data@),
            i <= n,
            out@.map_values(|s: String| s@) == split_lines_view(data@).take(i as int).map_values(
                |l: Seq<u8>| utf8_lossy(l),
            ),
        decreases n - i,
    {
        let ghost old_out = out@;
        let ghost lines = split_lines_view(data@);
        proof {
            assert(lines[i as int] == raw@[i as int]@);
        }
        let decoded = bytes_to_string_lossy(&raw[i]);
        out.push(decoded);
        proof {
            old_out.lemma_push_map_commute(|s: String| s@, decoded);
            lines.lemma_map_take_succ(|l: Seq<u8>| utf8_lossy(l), i as int);
            assert(out@.map_values(|s: String| s@) =~= lines.take(i as int + 1).map_values(
                |l: Seq<u8>| utf8_lossy(l),
            ));
        }
        i = i + 1;
    }
    proof {
        assert(split_lines_view(data@).take(n as int) =~= split_lines_view(data@));
        assert(out@.map_values(|s: String| s@) =~= text_lines(data@));
    }
    out
}

/// A relative path as text: the segments joined with `/`.
pub open spec fn join_rel(segs: Seq<Seq<char>>) -> Seq<char>
    decreases segs.len(),
{
    if segs.len() == 0 {
        Seq::empty()
    } else if segs.len() == 1 {
        segs[0]
    } else {
        join_rel(segs.drop_last()) + "/"@ + segs.last()
    }
}

/// Joins the segments `segs[from..to]` with `/`.
pub fn join_range(segs: &Vec<String>, from: usize, to: usize) -> (r: String)
    requires
        from <= to <= segs@.len(),
    ensures
        r@ == join_rel(segs@.subrange(from as int, to as int).map_values(|s: String| s@)),
{
    let mut r = String::new();
    let mut i = from;
    proof {
        assert(segs@.subrange(from as int, from as int).map_values(|s: String| s@)
            =~= Seq::<Seq<char>>::empty());
    }
    while i < to
        invariant
            from <= i <= to <= segs@.len(),
            r@ == join_rel(segs@.subrange(from as int, i as int).map_values(|s: String| s@)),
        decreases to - i,
    {
        let ghost prefix = segs@.subrange(from as int, i as int).map_values(|s: String| s@);
        if i > from {
            r.append("/");
        }
        r.append(segs[i].as_str());
        proof {
            let longer = segs@.subrange(from as int, i as int + 1).map_values(|s: String| s@);
            assert(longer.drop_last() =~= prefix);
            assert(longer.last() == segs@[i as int]@);
            if i == from {
                assert(longer.len() == 1);
                assert(r@ == longer[0]);
            }
        }
        i = i + 1;
    }
    r
}

} // verus!
