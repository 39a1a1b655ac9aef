use vstd::prelude::*;
use vstd::string::StringSliceAdditionalSpecFns;
use vstd::utf8::{
    is_char_boundary, is_char_boundary_iff_not_is_continuation_byte, is_char_boundary_start_end_of_seq,
    is_continuation_byte, length_of_first_scalar, pop_first_scalar, valid_utf8,
};

verus! {

broadcast use vstd::utf8::encode_utf8_valid_utf8;

/// The byte `/`.
pub const SLASH: u8 = 0x2f;

/// In valid UTF-8 an ASCII byte is a whole character: the positions just
/// before and just after it are character boundaries.
pub proof fn lemma_ascii_boundaries(b: Seq<u8>, k: int)
    requires
        valid_utf8(b),
        0 <= k < b.len(),
        b[k] < 0x80,
    ensures
        is_char_boundary(b, k),
        is_char_boundary(b, k + 1),
    decreases b.len(),
{
    is_char_boundary_iff_not_is_continuation_byte(b, k);
    if k + 1 == b.len() {
        is_char_boundary_start_end_of_seq(b);
    } else {
        let w = length_of_first_scalar(b);
        if k < w {
            // b[k] is ASCII, so the first scalar is b[0] alone and k == 0
            if k > 0 {
                assert(b[0] >= 0xc0);
                assert(is_continuation_byte(b[k]));
            }
            assert(w == 1);
            let rest = pop_first_scalar(b);
            assert(rest.len() > 0);
            assert(valid_utf8(rest));
            assert(vstd::utf8::valid_first_scalar(rest));
            assert(!is_continuation_byte(rest[0]));
            assert(rest[0] == b[1]);
            is_char_boundary_iff_not_is_continuation_byte(b, k + 1);
        } else {
            let rest = pop_first_scalar(b);
            assert(rest[k - w] == b[k]);
            lemma_ascii_boundaries(rest, k - w);
            reveal_with_fuel(is_char_boundary, 2);
            assert(is_char_boundary(b, k + 1) == is_char_boundary(rest, k + 1 - w));
        }
    }
}

/// The index of the last `/` in `s`, if any.
pub open spec fn last_slash(s: Seq<u8>) -> int
    decreases s.len(),
{
    if s.len() == 0 {
        -1
    } else if s.last() == SLASH {
        s.len() - 1
    } else {
        last_slash(s.drop_last())
    }
}

pub proof fn lemma_last_slash(s: Seq<u8>)
    ensures
        -1 <= last_slash(s) < s.len(),
        last_slash(s) >= 0 ==> s[last_slash(s)] == SLASH,
        forall|j: int| last_slash(s) < j < s.len() ==> s[j] != SLASH,
    decreases s.len(),
{
    if s.len() > 0 && s.last() != SLASH {
        lemma_last_slash(s.drop_last());
        assert forall|j: int| last_slash(s) < j < s.len() implies s[j] != SLASH by {
            if j < s.len() - 1 {
                assert(s.drop_last()[j] == s[j]);
            }
        }
    }
}

/// Finds the last `/` in `b`.
pub fn rfind_slash(b: &[u8], len: usize) -> (r: Option<usize>)
    requires
        len <= b@.len(),
    ensures
        match r {
            Some(i) => i == last_slash(b@.subrange(0, len as int)),
            None => last_slash(b@.subrange(0, len as int)) == -1,
        },
{
    let mut i = len;
    while i > 0
        invariant
            i <= len <= b@.len(),
            last_slash(b@.subrange(0, len as int)) == last_slash(b@.subrange(0, i as int)),
        decreases i,
    {
        assert(b@.subrange(0, i as int).drop_last() =~= b@.subrange(0, i - 1));
        if b[i - 1] == SLASH {
            return Some(i - 1);
        }
        i = i - 1;
    }
    None
}

/// How a path splits into its parent directory and its last name, as bytes.
/// A path must start with `/` and not be `/` itself; one trailing `/` is
/// ignored; the parent of a top-level name is `/`.
pub open spec fn spec_split_path(b: Seq<u8>) -> Option<(Seq<u8>, Seq<u8>)> {
    if b.len() == 0 || b[0] != SLASH || b =~= seq![SLASH] {
        None
    } else {
        let t = if b.last() == SLASH { b.drop_last() } else { b };
        let k = last_slash(t);
        if k == 0 {
            Some((seq![SLASH], t.subrange(1, t.len() as int)))
        } else {
            Some((t.subrange(0, k), t.subrange(k + 1, t.len() as int)))
        }
    }
}

/// Splits a full path into the path of its parent directory and its own name.
pub fn split_file_path(path: &str) -> (r: Option<(&str, &str)>)
    ensures
        match spec_split_path(path.spec_bytes()) {
            None => r is None,
            Some((dir, name)) => r matches Some((d, n)) && d.spec_bytes() == dir && n.spec_bytes() == name,
        },
{
    let b = path.as_bytes();
    let len = b.len();
    if len == 0 || b[0] != SLASH {
        return None;
    }
    if len == 1 {
        assert(b@ =~= seq![SLASH]);
        return None;
    }
    assert(!(b@ =~= seq![SLASH]));
    proof {
        lemma_ascii_boundaries(b@, 0);
    }
    let ghost bs = b@;
    let tlen: usize = if b[len - 1] == SLASH { len - 1 } else { len };
    assert(bs.subrange(0, tlen as int) =~= (if bs.last() == SLASH { bs.drop_last() } else { bs }));
    let last = rfind_slash(b, tlen);
    let k = match last {
        Some(k) => k,
        None => {
            proof {
                lemma_last_slash(bs.subrange(0, tlen as int));
                assert(bs.subrange(0, tlen as int)[0] == SLASH);
            }
            0
        },
    };
    proof {
        lemma_last_slash(bs.subrange(0, tlen as int));
        assert(bs[k as int] == SLASH);
        lemma_ascii_boundaries(bs, k as int);
        if tlen < len {
            lemma_ascii_boundaries(bs, tlen as int);
        } else {
            is_char_boundary_start_end_of_seq(bs);
        }
    }
    let (trimmed, _) = path.split_at(tlen);
    proof {
        assert(trimmed.spec_bytes() =~= bs.subrange(0, tlen as int));
        lemma_ascii_boundaries(trimmed.spec_bytes(), 0);
        lemma_ascii_boundaries(trimmed.spec_bytes(), k as int);
    }
    if k == 0 {
        let (root, name) = trimmed.split_at(1);
        assert(root.spec_bytes() =~= seq![SLASH]);
        Some((root, name))
    } else {
        let (dir, rest) = trimmed.split_at(k);
        proof {
            assert(rest.spec_bytes() =~= bs.subrange(k as int, tlen as int));
            lemma_ascii_boundaries(rest.spec_bytes(), 0);
        }
        let (_, name) = rest.split_at(1);
        assert(name.spec_bytes() =~= bs.subrange(0, tlen as int).subrange(k + 1, tlen as int));
        Some((dir, name))
    }
}

/// The pieces of `b` between the separators `sep`, empty ones left out.
/// `cur` is the piece read so far.
pub open spec fn pieces_from(b: Seq<u8>, sep: u8, cur: Seq<u8>) -> Seq<Seq<u8>>
    decreases b.len(),
{
    if b.len() == 0 {
        if cur.len() == 0 {
            seq![]
        } else {
            seq![cur]
        }
    } else if b[0] == sep {
        (if cur.len() == 0 {
            seq![]
        } else {
            seq![cur]
        }) + pieces_from(b.drop_first(), sep, seq![])
    } else {
        pieces_from(b.drop_first(), sep, cur.push(b[0]))
    }
}

/// Every piece is non-empty.
pub proof fn lemma_pieces_nonempty(b: Seq<u8>, sep: u8, cur: Seq<u8>)
    ensures
        forall|i: int| 0 <= i < pieces_from(b, sep, cur).len() ==> #[trigger] pieces_from(b, sep, cur)[i].len() > 0,
    decreases b.len(),
{
    if b.len() > 0 {
        if b[0] == sep {
            lemma_pieces_nonempty(b.drop_first(), sep, seq![]);
            let head: Seq<Seq<u8>> = if cur.len() == 0 { seq![] } else { seq![cur] };
            assert forall|i: int| 0 <= i < pieces_from(b, sep, cur).len() implies #[trigger] pieces_from(b, sep, cur)[i].len() > 0 by {
                if i >= head.len() {
                    assert(pieces_from(b, sep, cur)[i] == pieces_from(b.drop_first(), sep, seq![])[i - head.len()]);
                }
            }
        } else {
            lemma_pieces_nonempty(b.drop_first(), sep, cur.push(b[0]));
            assert(pieces_from(b, sep, cur) == pieces_from(b.drop_first(), sep, cur.push(b[0])));
        }
    } else {
        if cur.len() > 0 {
            assert(pieces_from(b, sep, cur) == seq![cur]);
        } else {
            assert(pieces_from(b, sep, cur) == Seq::<Seq<u8>>::empty());
        }
    }
}

/// The names of the path `b`, in order.
pub open spec fn path_pieces(b: Seq<u8>) -> Seq<Seq<u8>> {
    pieces_from(b, SLASH, seq![])
}

/// A run without separators, read after `cur`, is one piece.
pub proof fn lemma_pieces_of_name(name: Seq<u8>, sep: u8, cur: Seq<u8>)
    requires
        (cur + name).len() > 0,
        forall|j: int| 0 <= j < name.len() ==> #[trigger] name[j] != sep,
    ensures
        pieces_from(name, sep, cur) == seq![cur + name],
    decreases name.len(),
{
    if name.len() == 0 {
        assert(cur + name =~= cur);
    } else {
        let rest = name.drop_first();
        assert forall|j: int| 0 <= j < rest.len() implies #[trigger] rest[j] != sep by {
            assert(rest[j] == name[j + 1]);
        }
        lemma_pieces_of_name(rest, sep, cur.push(name[0]));
        assert(cur.push(name[0]) + rest =~= cur + name);
    }
}

/// Appending a separator and a name without separators to `p` appends that
/// name to the pieces of `p`.
pub proof fn lemma_pieces_push(p: Seq<u8>, sep: u8, cur: Seq<u8>, name: Seq<u8>)
    requires
        name.len() > 0,
        forall|j: int| 0 <= j < name.len() ==> #[trigger] name[j] != sep,
    ensures
        pieces_from(p + seq![sep] + name, sep, cur) == pieces_from(p, sep, cur).push(name),
    decreases p.len(),
{
    let head: Seq<Seq<u8>> = if cur.len() == 0 { seq![] } else { seq![cur] };
    if p.len() == 0 {
        assert(p + seq![sep] + name =~= seq![sep] + name);
        assert((seq![sep] + name).drop_first() =~= name);
        lemma_pieces_of_name(name, sep, seq![]);
        assert(Seq::<u8>::empty() + name =~= name);
        assert(pieces_from(p, sep, cur) == head);
    } else {
        assert((p + seq![sep] + name).drop_first() =~= p.drop_first() + seq![sep] + name);
        assert((p + seq![sep] + name)[0] == p[0]);
        if p[0] == sep {
            lemma_pieces_push(p.drop_first(), sep, seq![], name);
            assert(head + pieces_from(p.drop_first(), sep, seq![]).push(name) =~= (head + pieces_from(
                p.drop_first(),
                sep,
                seq![],
            )).push(name));
        } else {
            lemma_pieces_push(p.drop_first(), sep, cur.push(p[0]), name);
        }
    }
}

/// A trailing separator adds no piece.
pub proof fn lemma_pieces_trailing(p: Seq<u8>, sep: u8, cur: Seq<u8>)
    ensures
        pieces_from(p.push(sep), sep, cur) == pieces_from(p, sep, cur),
    decreases p.len(),
{
    let head: Seq<Seq<u8>> = if cur.len() == 0 { seq![] } else { seq![cur] };
    if p.len() == 0 {
        assert(p.push(sep) =~= seq![sep]);
        assert(seq![sep].drop_first() =~= Seq::<u8>::empty());
        assert(pieces_from(Seq::<u8>::empty(), sep, seq![]) == Seq::<Seq<u8>>::empty());
        assert(pieces_from(seq![sep], sep, cur) == head + pieces_from(Seq::<u8>::empty(), sep, seq![]));
        assert(head + Seq::<Seq<u8>>::empty() =~= head);
        assert(pieces_from(p, sep, cur) == head);
    } else {
        assert(p.push(sep).drop_first() =~= p.drop_first().push(sep));
        assert(p.push(sep)[0] == p[0]);
        if p[0] == sep {
            lemma_pieces_trailing(p.drop_first(), sep, seq![]);
        } else {
            lemma_pieces_trailing(p.drop_first(), sep, cur.push(p[0]));
        }
    }
}

/// The pieces of `b` between the separators `sep`, in order.
pub open spec fn pieces(b: Seq<u8>, sep: u8) -> Seq<Seq<u8>> {
    pieces_from(b, sep, seq![])
}

/// Splits `b` at the separators `sep` into its non-empty pieces.
pub fn split_pieces(b: &[u8], sep: u8) -> (r: Vec<Vec<u8>>)
    ensures
        r@.map_values(|v: Vec<u8>| v@) == pieces(b@, sep),
{
    let mut out: Vec<Vec<u8>> = Vec::new();
    let mut cur: Vec<u8> = Vec::new();
    let mut i: usize = 0;
    assert(b@.subrange(0, b@.len() as int) =~= b@);
    assert(out@.map_values(|v: Vec<u8>| v@) =~= seq![]);
    assert(cur@ =~= seq![]);
    assert(seq![] + pieces(b@, sep) =~= pieces(b@, sep));
    while i < b.len()
        invariant
            i <= b@.len(),
            out@.map_values(|v: Vec<u8>| v@) + pieces_from(b@.subrange(i as int, b@.len() as int), sep, cur@)
                == pieces(b@, sep),
        decreases b@.len() - i,
    {
        let ghost rest = b@.subrange(i as int, b@.len() as int);
        assert(rest.drop_first() =~= b@.subrange(i + 1, b@.len() as int));
        let ghost before = out@.map_values(|v: Vec<u8>| v@);
        if b[i] == sep {
            if cur.len() > 0 {
                let piece = cur;
                out.push(piece);
                cur = Vec::new();
                assert(out@.map_values(|v: Vec<u8>| v@) =~= before + seq![piece@]);
                assert(before + (seq![piece@] + pieces_from(rest.drop_first(), sep, seq![])) =~= (before
                    + seq![piece@]) + pieces_from(rest.drop_first(), sep, seq![]));
            } else {
                assert(seq![] + pieces_from(rest.drop_first(), sep, seq![]) =~= pieces_from(rest.drop_first(), sep, seq![]));
                assert(cur@ =~= seq![]);
            }
        } else {
            cur.push(b[i]);
        }
        i = i + 1;
    }
    assert(b@.subrange(i as int, b@.len() as int) =~= Seq::<u8>::empty());
    if cur.len() > 0 {
        let ghost before = out@.map_values(|v: Vec<u8>| v@);
        let piece = cur;
        out.push(piece);
        assert(out@.map_values(|v: Vec<u8>| v@) =~= before + seq![piece@]);
    } else {
        assert(out@.map_values(|v: Vec<u8>| v@) + seq![] =~= out@.map_values(|v: Vec<u8>| v@));
    }
    out
}

/// `d` with the bytes from position `at` on replaced by `src`.
pub open spec fn splice(d: Seq<u8>, at: int, src: Seq<u8>) -> Seq<u8> {
    d.subrange(0, at) + src + d.subrange(at + src.len(), d.len() as int)
}

/// Writing the pieces `ps` of `s` backwards into `d`: each piece is copied
/// from position `si` of `s` to end at position `di` of `d`, then a
/// separator goes before it while there is room; `si` moves past the piece
/// and that separator. None where a piece does not fit.
pub open spec fn rev_fill(s: Seq<u8>, sep: u8, ps: Seq<Seq<u8>>, si: int, di: int, d: Seq<u8>) -> Option<Seq<u8>>
    decreases ps.len(),
{
    if ps.len() == 0 {
        Some(d)
    } else {
        let m = ps[0].len() as int;
        if si < 0 || di < m || si + m > s.len() || di > d.len() {
            None
        } else {
            let d1 = splice(d, di - m, s.subrange(si, si + m));
            if di - m < 1 {
                rev_fill(s, sep, ps.drop_first(), si + m, di - m, d1)
            } else {
                rev_fill(s, sep, ps.drop_first(), si + m + 1, di - m - 1, d1.update(di - m - 1, sep))
            }
        }
    }
}

/// The first `s.len()` bytes of `d0` once `s` is written into them with its
/// pieces in reverse order: a leading separator of `s` stays leading, a
/// trailing one stays trailing. None where a piece does not fit.
pub open spec fn spec_reverse_path(s: Seq<u8>, sep: u8, d0: Seq<u8>) -> Option<Seq<u8>> {
    let n = s.len() as int;
    let start = n > 0 && s[0] == sep;
    let end = n > 0 && s[n - 1] == sep;
    match rev_fill(
        s,
        sep,
        pieces(s, sep),
        if start {
            1int
        } else {
            0int
        },
        n - if end {
            1int
        } else {
            0int
        },
        d0.subrange(0, n),
    ) {
        None => None,
        Some(d) => {
            let d2 = if start {
                d.update(0, sep)
            } else {
                d
            };
            Some(
                if end {
                    d2.update(n - 1, sep)
                } else {
                    d2
                },
            )
        },
    }
}

/// The pieces `ps` joined by single separators `sep`.
pub open spec fn join(ps: Seq<Seq<u8>>, sep: u8) -> Seq<u8>
    decreases ps.len(),
{
    if ps.len() == 0 {
        seq![]
    } else if ps.len() == 1 {
        ps[0]
    } else {
        join(ps.drop_last(), sep) + seq![sep] + ps.last()
    }
}

/// The separator that `s` starts with, if it does.
pub open spec fn lead_sep(s: Seq<u8>, sep: u8) -> Seq<u8> {
    if s.len() > 0 && s[0] == sep {
        seq![sep]
    } else {
        seq![]
    }
}

/// The separator that `s` ends with, if it does and is longer than it.
pub open spec fn trail_sep(s: Seq<u8>, sep: u8) -> Seq<u8> {
    if s.len() > 1 && s.last() == sep {
        seq![sep]
    } else {
        seq![]
    }
}

/// `s` is a plain path: its pieces joined by single separators, with at
/// most one separator before them and one after (or nothing but one
/// separator, or nothing at all).
pub open spec fn plain_path(s: Seq<u8>, sep: u8) -> bool {
    if pieces(s, sep).len() == 0 {
        s.len() <= 1
    } else {
        s == lead_sep(s, sep) + join(pieces(s, sep), sep) + trail_sep(s, sep)
    }
}

/// `s` with its pieces in reverse order: a leading separator stays leading
/// and a trailing one trailing.
pub open spec fn reversed_path(s: Seq<u8>, sep: u8) -> Seq<u8> {
    if pieces(s, sep).len() == 0 {
        s
    } else {
        lead_sep(s, sep) + join(pieces(s, sep).reverse(), sep) + trail_sep(s, sep)
    }
}

/// A piece in front of more pieces comes first in their join.
pub proof fn lemma_join_cons(ps: Seq<Seq<u8>>, sep: u8)
    requires
        ps.len() > 1,
    ensures
        join(ps, sep) == ps[0] + seq![sep] + join(ps.drop_first(), sep),
    decreases ps.len(),
{
    let dl = ps.drop_last();
    let df = ps.drop_first();
    if ps.len() > 2 {
        lemma_join_cons(dl, sep);
        assert(dl.drop_first() =~= df.drop_last());
        assert(df.last() == ps.last());
        assert(dl[0] == ps[0]);
        assert(join(df, sep) == join(df.drop_last(), sep) + seq![sep] + df.last());
        assert(join(ps, sep) == join(dl, sep) + seq![sep] + ps.last());
        assert(join(ps, sep) =~= ps[0] + seq![sep] + join(df, sep));
    } else {
        assert(dl =~= seq![ps[0]]);
        assert(df =~= seq![ps[1]]);
        assert(join(dl, sep) == ps[0]);
        assert(join(df, sep) == ps[1]);
        assert(join(ps, sep) == join(dl, sep) + seq![sep] + ps.last());
    }
}

/// `d` with `j` written from position `lo` on and, where there is room, a
/// separator just before it.
pub open spec fn fill_at(d: Seq<u8>, lo: int, j: Seq<u8>, sep: u8) -> Seq<u8> {
    let r = splice(d, lo, j);
    if lo >= 1 {
        r.update(lo - 1, sep)
    } else {
        r
    }
}

/// Writing pieces backwards, when the source from `si` spells their join
/// and they end at `di` of the destination, writes their join in reverse
/// order from `lo` on.
proof fn lemma_rev_fill_join(s: Seq<u8>, sep: u8, ps: Seq<Seq<u8>>, si: int, di: int, d: Seq<u8>, lo: int)
    requires
        ps.len() > 0,
        0 <= si,
        si + join(ps, sep).len() <= s.len(),
        s.subrange(si, si + join(ps, sep).len()) == join(ps, sep),
        0 <= lo,
        di == lo + join(ps, sep).len(),
        di <= d.len(),
    ensures
        join(ps.reverse(), sep).len() == join(ps, sep).len(),
        rev_fill(s, sep, ps, si, di, d) == Some(fill_at(d, lo, join(ps.reverse(), sep), sep)),
    decreases ps.len(),
{
    let p = ps[0];
    let m = p.len() as int;
    let rest = ps.drop_first();
    if ps.len() == 1 {
        assert(ps.reverse() =~= ps);
        assert(rest.len() == 0);
        assert(join(ps, sep) == p);
        assert(join(ps.reverse(), sep) == p);
        assert(s.subrange(si, si + m) == p);
        let d1 = splice(d, di - m, p);
        assert(rev_fill(s, sep, rest, si + m, di - m, d1) == Some(d1));
        assert(rev_fill(s, sep, rest, si + m + 1, di - m - 1, d1.update(di - m - 1, sep)) == Some(
            d1.update(di - m - 1, sep),
        ));
    } else {
        lemma_join_cons(ps, sep);
        let jr = join(rest, sep);
        assert(s.subrange(si, si + m) =~= p) by {
            assert forall|t: int| 0 <= t < m implies s.subrange(si, si + m)[t] == p[t] by {
                assert(s.subrange(si, si + join(ps, sep).len())[t] == join(ps, sep)[t]);
            }
        }
        assert(s.subrange(si + m + 1, si + m + 1 + jr.len()) =~= jr) by {
            assert forall|t: int| 0 <= t < jr.len() implies s.subrange(si + m + 1, si + m + 1 + jr.len())[t] == jr[t] by {
                assert(s.subrange(si, si + join(ps, sep).len())[m + 1 + t] == join(ps, sep)[m + 1 + t]);
            }
        }
        let d1 = splice(d, di - m, p);
        let d2 = d1.update(di - m - 1, sep);
        lemma_rev_fill_join(s, sep, rest, si + m + 1, di - m - 1, d2, lo);
        assert(ps.reverse() =~= rest.reverse().push(p));
        let rr = rest.reverse();
        assert(rr.len() > 0);
        assert(ps.reverse().drop_last() =~= rr);
        assert(join(ps.reverse(), sep) == join(rr, sep) + seq![sep] + p);
        assert(splice(d2, lo, join(rr, sep)) =~= splice(d, lo, join(ps.reverse(), sep)));
    }
}

/// On a plain path, writing its pieces backwards gives the reversed path.
pub proof fn lemma_reverse_plain(s: Seq<u8>, sep: u8, d0: Seq<u8>)
    requires
        plain_path(s, sep),
        d0.len() >= s.len(),
    ensures
        spec_reverse_path(s, sep, d0) == Some(reversed_path(s, sep)),
{
    let n = s.len() as int;
    let ps = pieces(s, sep);
    if ps.len() == 0 {
        if n == 1 {
            assert(s[0] == sep) by {
                if s[0] != sep {
                    assert(s.drop_first() =~= Seq::<u8>::empty());
                    assert(pieces_from(s.drop_first(), sep, seq![s[0]]) == seq![seq![s[0]]]);
                }
            }
            assert(spec_reverse_path(s, sep, d0)->0 =~= s);
        } else {
            assert(spec_reverse_path(s, sep, d0)->0 =~= s);
        }
    } else {
        let l = lead_sep(s, sep);
        let t = trail_sep(s, sep);
        let j = join(ps, sep);
        assert(s == l + j + t);
        assert(n > 0);
        assert(s[n - 1] == sep ==> t.len() == 1) by {
            if s[n - 1] == sep && n <= 1 {
                assert(l + j + t =~= s);
                lemma_pieces_nonempty(s, sep, seq![]);
                assert(j.len() >= 1) by {
                    lemma_join_len_pos(ps, sep);
                }
            }
        }
        assert(s.subrange(l.len() as int, (l.len() + j.len()) as int) =~= j);
        lemma_rev_fill_join(s, sep, ps, l.len() as int, n - t.len(), d0.subrange(0, n), l.len() as int);
        assert(spec_reverse_path(s, sep, d0)->0 =~= reversed_path(s, sep));
    }
}

/// The join of non-empty pieces, at least one, is not empty.
proof fn lemma_join_len_pos(ps: Seq<Seq<u8>>, sep: u8)
    requires
        ps.len() > 0,
        forall|i: int| 0 <= i < ps.len() ==> #[trigger] ps[i].len() > 0,
    ensures
        join(ps, sep).len() > 0,
    decreases ps.len(),
{
    if ps.len() > 1 {
        lemma_join_len_pos(ps.drop_last(), sep);
    }
}

/// No piece holds the separator.
pub proof fn lemma_pieces_sep_free(b: Seq<u8>, sep: u8, cur: Seq<u8>)
    requires
        forall|k: int| 0 <= k < cur.len() ==> #[trigger] cur[k] != sep,
    ensures
        forall|i: int, k: int|
            0 <= i < pieces_from(b, sep, cur).len() && 0 <= k < pieces_from(b, sep, cur)[i].len() ==> #[trigger] pieces_from(
                b,
                sep,
                cur,
            )[i][k] != sep,
    decreases b.len(),
{
    let head: Seq<Seq<u8>> = if cur.len() == 0 { seq![] } else { seq![cur] };
    if b.len() == 0 {
        assert(pieces_from(b, sep, cur) == head);
        assert forall|i: int, k: int|
            0 <= i < head.len() && 0 <= k < head[i].len() implies #[trigger] head[i][k] != sep by {
            assert(head[i] == cur);
        }
    } else if b[0] == sep {
        lemma_pieces_sep_free(b.drop_first(), sep, seq![]);
        let tail = pieces_from(b.drop_first(), sep, seq![]);
        assert(pieces_from(b, sep, cur) == head + tail);
        assert forall|i: int, k: int|
            0 <= i < pieces_from(b, sep, cur).len() && 0 <= k < pieces_from(b, sep, cur)[i].len() implies #[trigger] pieces_from(
            b,
            sep,
            cur,
        )[i][k] != sep by {
            if i >= head.len() {
                assert(pieces_from(b, sep, cur)[i] == tail[i - head.len()]);
            }
        }
    } else {
        let c2 = cur.push(b[0]);
        assert forall|k: int| 0 <= k < c2.len() implies #[trigger] c2[k] != sep by {
            if k < cur.len() {
                assert(c2[k] == cur[k]);
            }
        }
        lemma_pieces_sep_free(b.drop_first(), sep, c2);
        assert(pieces_from(b, sep, cur) == pieces_from(b.drop_first(), sep, c2));
    }
}

/// The join of non-empty pieces starts with the first byte of the first
/// piece and ends with the last byte of the last.
proof fn lemma_join_ends(qs: Seq<Seq<u8>>, sep: u8)
    requires
        qs.len() > 0,
        forall|i: int| 0 <= i < qs.len() ==> #[trigger] qs[i].len() > 0,
    ensures
        join(qs, sep).len() > 0,
        join(qs, sep)[0] == qs[0][0],
        join(qs, sep).last() == qs.last().last(),
    decreases qs.len(),
{
    if qs.len() > 1 {
        let dl = qs.drop_last();
        lemma_join_ends(dl, sep);
        assert(dl[0] == qs[0]);
        let j = join(qs, sep);
        assert(j == join(dl, sep) + seq![sep] + qs.last());
        assert(j[0] == join(dl, sep)[0]);
    }
}

/// The pieces of non-empty pieces without separators, joined, with at most
/// one separator before and one after, are those pieces.
proof fn lemma_pieces_of_join(l: Seq<u8>, qs: Seq<Seq<u8>>, t: Seq<u8>, sep: u8)
    requires
        l == Seq::<u8>::empty() || l == seq![sep],
        t == Seq::<u8>::empty() || t == seq![sep],
        qs.len() > 0,
        forall|i: int| 0 <= i < qs.len() ==> #[trigger] qs[i].len() > 0,
        forall|i: int, k: int| 0 <= i < qs.len() && 0 <= k < qs[i].len() ==> #[trigger] qs[i][k] != sep,
    ensures
        pieces(l + join(qs, sep) + t, sep) == qs,
    decreases qs.len(), t.len(),
{
    if t.len() == 1 {
        lemma_pieces_of_join(l, qs, Seq::<u8>::empty(), sep);
        lemma_pieces_trailing(l + join(qs, sep), sep, seq![]);
        assert((l + join(qs, sep)).push(sep) =~= l + join(qs, sep) + t);
        assert(l + join(qs, sep) + Seq::<u8>::empty() =~= l + join(qs, sep));
    } else {
        assert(l + join(qs, sep) + t =~= l + join(qs, sep));
        let x = qs.last();
        assert(qs.last() == qs[qs.len() - 1]);
        assert forall|k: int| 0 <= k < x.len() implies #[trigger] x[k] != sep by {
            assert(qs[qs.len() - 1][k] != sep);
        }
        if qs.len() == 1 {
            assert(join(qs, sep) == qs[0]);
            if l.len() == 0 {
                lemma_pieces_of_name(qs[0], sep, seq![]);
                assert(l + qs[0] =~= qs[0]);
                assert(Seq::<u8>::empty() + qs[0] =~= qs[0]);
                assert(seq![qs[0]] =~= qs);
            } else {
                lemma_pieces_push(Seq::<u8>::empty(), sep, seq![], qs[0]);
                assert(Seq::<u8>::empty() + seq![sep] + qs[0] =~= l + qs[0]);
                assert(pieces_from(Seq::<u8>::empty(), sep, seq![]) == Seq::<Seq<u8>>::empty());
                assert(Seq::<Seq<u8>>::empty().push(qs[0]) =~= qs);
            }
        } else {
            let dl = qs.drop_last();
            lemma_pieces_of_join(l, dl, Seq::<u8>::empty(), sep);
            assert(l + join(dl, sep) + Seq::<u8>::empty() =~= l + join(dl, sep));
            lemma_pieces_push(l + join(dl, sep), sep, seq![], x);
            assert(l + join(dl, sep) + seq![sep] + x =~= l + join(qs, sep));
            assert(dl.push(x) =~= qs);
        }
    }
}

/// Reversing a plain path twice gives it back; the reversed path is plain
/// too.
pub proof fn lemma_reverse_twice(s: Seq<u8>, sep: u8)
    requires
        plain_path(s, sep),
    ensures
        plain_path(reversed_path(s, sep), sep),
        reversed_path(reversed_path(s, sep), sep) == s,
{
    let ps = pieces(s, sep);
    if ps.len() > 0 {
        let l = lead_sep(s, sep);
        let t = trail_sep(s, sep);
        let qs = ps.reverse();
        lemma_pieces_nonempty(s, sep, seq![]);
        lemma_pieces_sep_free(s, sep, seq![]);
        assert forall|i: int| 0 <= i < qs.len() implies #[trigger] qs[i].len() > 0 by {
            assert(qs[i] == ps[ps.len() - 1 - i]);
        }
        assert forall|i: int, k: int| 0 <= i < qs.len() && 0 <= k < qs[i].len() implies #[trigger] qs[i][k] != sep by {
            assert(qs[i] == ps[ps.len() - 1 - i]);
        }
        let r = l + join(qs, sep) + t;
        assert(r == reversed_path(s, sep));
        lemma_pieces_of_join(l, qs, t, sep);
        lemma_join_ends(qs, sep);
        let j = join(qs, sep);
        assert(qs[0][0] != sep);
        assert(qs.last() == qs[qs.len() - 1]);
        assert(qs.last().last() != sep) by {
            assert(qs[qs.len() - 1][qs[qs.len() - 1].len() - 1] != sep);
        }
        assert(lead_sep(r, sep) == l) by {
            if l.len() == 0 {
                assert(r[0] == j[0]);
            }
        }
        assert(trail_sep(r, sep) == t) by {
            if t.len() == 0 {
                assert(r.last() == j.last());
            }
        }
        assert(qs.reverse() =~= ps);
        assert(s == l + join(ps, sep) + t);
    }
}

/// Writes the bytes `src` into the front of `dest` with its pieces between
/// separators `sep` in reverse order.
pub fn reverse_path_bytes(src: &[u8], sep: u8, dest: &mut [u8])
    requires
        old(dest)@.len() >= src@.len(),
        src@.len() < usize::MAX,
        spec_reverse_path(src@, sep, old(dest)@) is Some,
    ensures
        final(dest)@.len() == old(dest)@.len(),
        final(dest)@.subrange(0, src@.len() as int) == spec_reverse_path(src@, sep, old(dest)@)->0,
        final(dest)@.subrange(src@.len() as int, old(dest)@.len() as int) == old(dest)@.subrange(
            src@.len() as int,
            old(dest)@.len() as int,
        ),
{
    let n = src.len();
    let ghost d0 = dest@;
    let start_sep = n > 0 && src[0] == sep;
    let end_sep = n > 0 && src[n - 1] == sep;
    let mut si: usize = if start_sep { 1 } else { 0 };
    let mut di: usize = if end_sep { n - 1 } else { n };
    let ps = split_pieces(src, sep);
    let ghost pv = ps@.map_values(|v: Vec<u8>| v@);
    let ghost full = rev_fill(src@, sep, pv, si as int, di as int, d0.subrange(0, n as int));
    let mut k: usize = 0;
    assert(pv.skip(0) =~= pv);
    assert(dest@.subrange(0, n as int) =~= d0.subrange(0, n as int));
    while k < ps.len()
        invariant
            n == src@.len(),
            n < usize::MAX,
            pv == ps@.map_values(|v: Vec<u8>| v@),
            pv == pieces(src@, sep),
            k <= ps@.len(),
            dest@.len() == d0.len(),
            n <= d0.len(),
            full is Some,
            full == rev_fill(src@, sep, pv.skip(k as int), si as int, di as int, dest@.subrange(0, n as int)),
            si <= n + 1,
            dest@.subrange(n as int, d0.len() as int) == d0.subrange(n as int, d0.len() as int),
            di <= n,
        decreases ps@.len() - k,
    {
        let ghost rest = pv.skip(k as int);
        assert(rest[0] == ps@[k as int]@);
        assert(rest.drop_first() =~= pv.skip(k + 1));
        let m = ps[k].len();
        let ghost before = dest@;
        let ghost d1 = splice(before.subrange(0, n as int), di - m, src@.subrange(si as int, si + m));
        let mut t: usize = 0;
        while t < m
            invariant
                n == src@.len(),
                m <= di <= n,
                si + m <= n,
                t <= m,
                dest@.len() == before.len(),
                before.len() == d0.len(),
                n <= d0.len(),
                forall|q: int| 0 <= q < before.len() && !(di - m <= q < di - m + t) ==> #[trigger] dest@[q] == before[q],
                forall|q: int| di - m <= q < di - m + t ==> #[trigger] dest@[q] == src@[si + q - (di - m)],
            decreases m - t,
        {
            dest[di - m + t] = src[si + t];
            t = t + 1;
        }
        proof {
            assert(dest@.subrange(0, n as int) =~= d1);
            assert(dest@.subrange(n as int, d0.len() as int) =~= before.subrange(n as int, d0.len() as int));
        }
        si = si + m;
        di = di - m;
        if di >= 1 {
            dest[di - 1] = sep;
            proof {
                assert(dest@.subrange(0, n as int) =~= d1.update(di - 1, sep));
                assert(dest@.subrange(n as int, d0.len() as int) =~= before.subrange(n as int, d0.len() as int));
            }
            si = si + 1;
            di = di - 1;
        }
        k = k + 1;
    }
    assert(pv.skip(k as int) =~= Seq::<Seq<u8>>::empty());
    let ghost d = dest@;
    if start_sep {
        dest[0] = sep;
    }
    if end_sep {
        dest[n - 1] = sep;
    }
    proof {
        assert(dest@.subrange(0, n as int) =~= spec_reverse_path(src@, sep, d0)->0);
        assert(dest@.subrange(n as int, d0.len() as int) =~= d0.subrange(n as int, d0.len() as int));
    }
}

/// An ASCII white-space byte: space, tab, line feed, vertical tab, form
/// feed, carriage return.
pub open spec fn is_ascii_ws(c: u8) -> bool {
    c == 0x20 || (0x09 <= c && c <= 0x0d)
}

/// The three bytes are the UTF-8 encoding of a white-space character that
/// takes three bytes: U+1680, U+2000 to U+200A, U+2028, U+2029, U+202F,
/// U+205F or U+3000.
pub open spec fn is_ws3(x: u8, y: u8, z: u8) -> bool {
    ||| x == 0xe1 && y == 0x9a && z == 0x80
    ||| x == 0xe2 && y == 0x80 && ((0x80 <= z && z <= 0x8a) || z == 0xa8 || z == 0xa9 || z == 0xaf)
    ||| x == 0xe2 && y == 0x81 && z == 0x9f
    ||| x == 0xe3 && y == 0x80 && z == 0x80
}

/// The two bytes are the UTF-8 encoding of U+0085 or U+00A0.
pub open spec fn is_ws2(x: u8, y: u8) -> bool {
    x == 0xc2 && (y == 0x85 || y == 0xa0)
}

/// The length of the UTF-8 encoding of the white-space character (Unicode
/// White_Space) that `b` begins with; 0 when it begins with none.
pub open spec fn ws_len_at_start(b: Seq<u8>) -> int {
    if b.len() >= 1 && is_ascii_ws(b[0]) {
        1
    } else if b.len() >= 2 && is_ws2(b[0], b[1]) {
        2
    } else if b.len() >= 3 && is_ws3(b[0], b[1], b[2]) {
        3
    } else {
        0
    }
}

/// The length of the UTF-8 encoding of the white-space character that `b`
/// ends with; 0 when it ends with none.
pub open spec fn ws_len_at_end(b: Seq<u8>) -> int {
    let n = b.len() as int;
    if n >= 1 && is_ascii_ws(b[n - 1]) {
        1
    } else if n >= 2 && is_ws2(b[n - 2], b[n - 1]) {
        2
    } else if n >= 3 && is_ws3(b[n - 3], b[n - 2], b[n - 1]) {
        3
    } else {
        0
    }
}

/// `b` without its leading white space.
pub open spec fn trim_start(b: Seq<u8>) -> Seq<u8>
    decreases b.len(),
{
    if ws_len_at_start(b) > 0 {
        trim_start(b.skip(ws_len_at_start(b)))
    } else {
        b
    }
}

/// `b` without its trailing white space.
pub open spec fn trim_end(b: Seq<u8>) -> Seq<u8>
    decreases b.len(),
{
    if ws_len_at_end(b) > 0 {
        trim_end(b.take(b.len() - ws_len_at_end(b)))
    } else {
        b
    }
}

/// `b` without white space at either end: for the bytes of a `str`, the
/// bytes of what `str::trim` gives.
pub open spec fn trim(b: Seq<u8>) -> Seq<u8> {
    trim_end(trim_start(b))
}

/// The length of the white-space character that the bytes `i..j` of `b`
/// begin with (see `ws_len_at_start`).
fn ws_len_from(b: &[u8], i: usize, j: usize) -> (w: usize)
    requires
        i <= j <= b@.len(),
    ensures
        w == ws_len_at_start(b@.subrange(i as int, j as int)),
{
    let t = vstd::slice::slice_subrange(b, i, j);
    assert(t@ =~= b@.subrange(i as int, j as int));
    let c = t.len();
    if c >= 1 && (t[0] == 0x20 || (0x09 <= t[0] && t[0] <= 0x0d)) {
        1
    } else if c >= 2 && t[0] == 0xc2 && (t[1] == 0x85 || t[1] == 0xa0) {
        2
    } else if c >= 3 && ((t[0] == 0xe1 && t[1] == 0x9a && t[2] == 0x80) || (t[0] == 0xe2 && t[1] == 0x80 && ((0x80
        <= t[2] && t[2] <= 0x8a) || t[2] == 0xa8 || t[2] == 0xa9 || t[2] == 0xaf)) || (t[0] == 0xe2 && t[1] == 0x81
        && t[2] == 0x9f) || (t[0] == 0xe3 && t[1] == 0x80 && t[2] == 0x80)) {
        3
    } else {
        0
    }
}

/// The length of the white-space character that the bytes `i..j` of `b`
/// end with (see `ws_len_at_end`).
fn ws_len_before(b: &[u8], i: usize, j: usize) -> (w: usize)
    requires
        i <= j <= b@.len(),
    ensures
        w == ws_len_at_end(b@.subrange(i as int, j as int)),
{
    let t = vstd::slice::slice_subrange(b, i, j);
    assert(t@ =~= b@.subrange(i as int, j as int));
    let c = t.len();
    if c >= 1 && (t[c - 1] == 0x20 || (0x09 <= t[c - 1] && t[c - 1] <= 0x0d)) {
        1
    } else if c >= 2 && t[c - 2] == 0xc2 && (t[c - 1] == 0x85 || t[c - 1] == 0xa0) {
        2
    } else if c >= 3 && ((t[c - 3] == 0xe1 && t[c - 2] == 0x9a && t[c - 1] == 0x80) || (t[c - 3] == 0xe2 && t[c - 2]
        == 0x80 && ((0x80 <= t[c - 1] && t[c - 1] <= 0x8a) || t[c - 1] == 0xa8 || t[c - 1] == 0xa9 || t[c - 1] == 0xaf))
        || (t[c - 3] == 0xe2 && t[c - 2] == 0x81 && t[c - 1] == 0x9f) || (t[c - 3] == 0xe3 && t[c - 2] == 0x80 && t[c
        - 1] == 0x80)) {
        3
    } else {
        0
    }
}

/// The part of `b` without white space at either end.
pub fn trim_bytes(b: &[u8]) -> (r: &[u8])
    ensures
        r@ == trim(b@),
{
    let n = b.len();
    let mut i: usize = 0;
    assert(b@.subrange(0, n as int) =~= b@);
    let mut w = ws_len_from(b, 0, n);
    while w > 0
        invariant
            i <= n == b@.len(),
            trim_start(b@) == trim_start(b@.subrange(i as int, n as int)),
            w == ws_len_at_start(b@.subrange(i as int, n as int)),
            w <= n - i,
        decreases n - i,
    {
        assert(b@.subrange(i as int, n as int).skip(w as int) =~= b@.subrange(i + w, n as int));
        i = i + w;
        w = ws_len_from(b, i, n);
    }
    assert(trim_start(b@) == b@.subrange(i as int, n as int));
    let mut j: usize = n;
    let mut v = ws_len_before(b, i, j);
    while v > 0
        invariant
            i <= j <= n == b@.len(),
            trim_end(b@.subrange(i as int, n as int)) == trim_end(b@.subrange(i as int, j as int)),
            v == ws_len_at_end(b@.subrange(i as int, j as int)),
            v <= j - i,
        decreases j - i,
    {
        assert(b@.subrange(i as int, j as int).take(j - i - v) =~= b@.subrange(i as int, j - v));
        j = j - v;
        v = ws_len_before(b, i, j);
    }
    vstd::slice::slice_subrange(b, i, j)
}

/// Writes `src`, trimmed of white space, into the front of `dest` with its
/// pieces between `separator`s in reverse order: `/a/b` becomes `/b/a`.
pub fn reverse_path(src: &str, separator: &str, dest: &mut [u8])
    requires
        separator.spec_bytes().len() == 1,
        src.spec_bytes().len() < usize::MAX,
        old(dest)@.len() >= trim(src.spec_bytes()).len(),
        plain_path(trim(src.spec_bytes()), separator.spec_bytes()[0]) || spec_reverse_path(
            trim(src.spec_bytes()),
            separator.spec_bytes()[0],
            old(dest)@,
        ) is Some,
    ensures
        final(dest)@.len() == old(dest)@.len(),
        final(dest)@.subrange(0, trim(src.spec_bytes()).len() as int) == spec_reverse_path(
            trim(src.spec_bytes()),
            separator.spec_bytes()[0],
            old(dest)@,
        )->0,
        plain_path(trim(src.spec_bytes()), separator.spec_bytes()[0]) ==> final(dest)@.subrange(
            0,
            trim(src.spec_bytes()).len() as int,
        ) == reversed_path(trim(src.spec_bytes()), separator.spec_bytes()[0]),
        final(dest)@.subrange(trim(src.spec_bytes()).len() as int, old(dest)@.len() as int) == old(
            dest,
        )@.subrange(trim(src.spec_bytes()).len() as int, old(dest)@.len() as int),
{
    let s = trim_bytes(src.as_bytes());
    let sep = separator.as_bytes()[0];
    proof {
        lemma_trim_len(src.spec_bytes());
        if plain_path(s@, sep) {
            lemma_reverse_plain(s@, sep, dest@);
        }
    }
    reverse_path_bytes(s, sep, dest);
}

pub proof fn lemma_trim_len(b: Seq<u8>)
    ensures
        trim(b).len() <= b.len(),
{
    lemma_trim_start_len(b);
    lemma_trim_end_len(trim_start(b));
}

proof fn lemma_trim_start_len(b: Seq<u8>)
    ensures
        trim_start(b).len() <= b.len(),
    decreases b.len(),
{
    if ws_len_at_start(b) > 0 {
        lemma_trim_start_len(b.skip(ws_len_at_start(b)));
    }
}

proof fn lemma_trim_end_len(b: Seq<u8>)
    ensures
        trim_end(b).len() <= b.len(),
    decreases b.len(),
{
    if ws_len_at_end(b) > 0 {
        lemma_trim_end_len(b.take(b.len() - ws_len_at_end(b)));
    }
}

} // verus!
