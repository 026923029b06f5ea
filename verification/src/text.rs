//! Byte-level text utilities: lexicographic comparison, prefixes,
//! whitespace-delimited fields, literal replacement and delimiter
//! splitting.  Lines and patterns are handled as raw bytes throughout, so
//! every operation here is total and fully verified.

use vstd::prelude::*;

verus! {

// ---------------------------------------------------------------------------
// Byte classes
// ---------------------------------------------------------------------------
/// ASCII whitespace: space, tab, line feed, vertical tab, form feed,
/// carriage return.
pub open spec fn is_space(b: u8) -> bool {
    b == 32 || (9 <= b && b <= 13)
}

/// ASCII decimal digit.
pub open spec fn is_digit(b: u8) -> bool {
    48 <= b && b <= 57
}

/// A line carries a leading timestamp token when it opens with a digit.
pub open spec fn timestamped(s: Seq<u8>) -> bool {
    s.len() > 0 && is_digit(s[0])
}

pub fn starts_with_digit(s: &Vec<u8>) -> (r: bool)
    ensures
        r == timestamped(s@),
{
    s.len() > 0 && 48 <= s[0] && s[0] <= 57
}

// ---------------------------------------------------------------------------
// Lexicographic comparison
// ---------------------------------------------------------------------------
/// Byte-wise lexicographic order: `a` is less than or equal to `b`.  A
/// proper prefix sorts before every extension of itself.
pub open spec fn lex_le(a: Seq<u8>, b: Seq<u8>) -> bool
    decreases a.len(),
{
    if a.len() == 0 {
        true
    } else if b.len() == 0 {
        false
    } else if a[0] < b[0] {
        true
    } else if a[0] > b[0] {
        false
    } else {
        lex_le(a.drop_first(), b.drop_first())
    }
}

pub proof fn lemma_lex_le_refl(a: Seq<u8>)
    ensures
        lex_le(a, a),
    decreases a.len(),
{
    if a.len() > 0 {
        lemma_lex_le_refl(a.drop_first());
    }
}

pub fn bytes_le(a: &Vec<u8>, b: &Vec<u8>) -> (r: bool)
    ensures
        r == lex_le(a@, b@),
{
    let mut i: usize = 0;
    proof {
        assert(a@.skip(0) =~= a@);
        assert(b@.skip(0) =~= b@);
    }
    while i < a.len() && i < b.len()
        invariant
            i <= a.len(),
            i <= b.len(),
            lex_le(a@, b@) == lex_le(a@.skip(i as int), b@.skip(i as int)),
        decreases a.len() - i,
    {
        let x = a[i];
        let y = b[i];
        if x < y {
            return true;
        }
        if x > y {
            return false;
        }
        proof {
            assert(a@.skip(i as int).drop_first() =~= a@.skip(i as int + 1));
            assert(b@.skip(i as int).drop_first() =~= b@.skip(i as int + 1));
        }
        i = i + 1;
    }
    i == a.len()
}

pub fn bytes_eq(a: &Vec<u8>, b: &Vec<u8>) -> (r: bool)
    ensures
        r == (a@ == b@),
{
    if a.len() != b.len() {
        return false;
    }
    let mut i: usize = 0;
    while i < a.len()
        invariant
            a@.len() == b@.len(),
            i <= a.len(),
            forall|k: int| 0 <= k < i ==> a@[k] == b@[k],
        decreases a.len() - i,
    {
        if a[i] != b[i] {
            return false;
        }
        i = i + 1;
    }
    proof {
        assert(a@ =~= b@);
    }
    true
}

// ---------------------------------------------------------------------------
// Prefixes and subranges
// ---------------------------------------------------------------------------
/// Does `s` start with `p`?
pub open spec fn starts_with(s: Seq<u8>, p: Seq<u8>) -> bool {
    s.len() >= p.len() && s.take(p.len() as int) == p
}

pub fn has_prefix(v: &Vec<u8>, p: &Vec<u8>) -> (r: bool)
    ensures
        r == starts_with(v@, p@),
{
    if v.len() < p.len() {
        return false;
    }
    let mut i: usize = 0;
    while i < p.len()
        invariant
            p@.len() <= v@.len(),
            i <= p.len(),
            forall|k: int| 0 <= k < i ==> v@[k] == p@[k],
        decreases p.len() - i,
    {
        if v[i] != p[i] {
            proof {
                assert(v@.take(p@.len() as int)[i as int] != p@[i as int]);
            }
            return false;
        }
        i = i + 1;
    }
    proof {
        assert(v@.take(p@.len() as int) =~= p@);
    }
    true
}

pub fn subrange_vec(v: &Vec<u8>, from: usize, to: usize) -> (r: Vec<u8>)
    requires
        from <= to <= v@.len(),
    ensures
        r@ == v@.subrange(from as int, to as int),
{
    let mut r: Vec<u8> = Vec::new();
    let mut i: usize = from;
    while i < to
        invariant
            from <= i <= to <= v@.len(),
            r@ == v@.subrange(from as int, i as int),
        decreases to - i,
    {
        r.push(v[i]);
        i = i + 1;
        proof {
            assert(v@.subrange(from as int, i as int) =~= v@.subrange(
                from as int,
                i as int - 1,
            ).push(v@[i as int - 1]));
        }
    }
    r
}

/// `s` cut down to its first `n` bytes; all of `s` when `s` is shorter.
pub open spec fn prefix_to(s: Seq<u8>, n: int) -> Seq<u8> {
    if s.len() <= n {
        s
    } else {
        s.take(n)
    }
}

pub fn prefix_vec(v: &Vec<u8>, n: usize) -> (r: Vec<u8>)
    ensures
        r@ == prefix_to(v@, n as int),
{
    let end = if n <= v.len() {
        n
    } else {
        v.len()
    };
    let r = subrange_vec(v, 0, end);
    proof {
        if n >= v@.len() {
            assert(v@.subrange(0, end as int) =~= v@);
        } else {
            assert(v@.subrange(0, end as int) =~= v@.take(n as int));
        }
    }
    r
}

pub fn append_bytes(dst: &mut Vec<u8>, src: &Vec<u8>)
    ensures
        final(dst)@ == old(dst)@ + src@,
{
    let mut i: usize = 0;
    while i < src.len()
        invariant
            i <= src.len(),
            dst@ == old(dst)@ + src@.take(i as int),
        decreases src.len() - i,
    {
        dst.push(src[i]);
        i = i + 1;
        proof {
            assert(old(dst)@ + src@.take(i as int) =~= (old(dst)@ + src@.take(i as int - 1)).push(
                src@[i as int - 1],
            ));
        }
    }
    proof {
        assert(src@.take(src@.len() as int) =~= src@);
    }
}

// ---------------------------------------------------------------------------
// Whitespace-delimited fields
// ---------------------------------------------------------------------------
/// Length of the leading run of non-space bytes.
pub open spec fn token_len(s: Seq<u8>) -> int
    decreases s.len(),
{
    if s.len() == 0 || is_space(s[0]) {
        0
    } else {
        1 + token_len(s.drop_first())
    }
}

/// The whitespace-delimited fields of `s`, in order.
pub open spec fn fields(s: Seq<u8>) -> Seq<Seq<u8>>
    decreases s.len(),
    via fields_decreases
{
    if s.len() == 0 {
        Seq::empty()
    } else if is_space(s[0]) {
        fields(s.drop_first())
    } else {
        seq![s.take(token_len(s))] + fields(s.skip(token_len(s)))
    }
}

#[via_fn]
proof fn fields_decreases(s: Seq<u8>) {
    lemma_token_len_bounds(s);
    if s.len() > 0 {
        lemma_token_len_bounds(s.drop_first());
    }
}

pub proof fn lemma_token_len_bounds(s: Seq<u8>)
    ensures
        0 <= token_len(s) <= s.len(),
        token_len(s) < s.len() ==> is_space(s[token_len(s)]),
        forall|m: int| 0 <= m < token_len(s) ==> !is_space(s[m]),
    decreases s.len(),
{
    if s.len() == 0 || is_space(s[0]) {
    } else {
        lemma_token_len_bounds(s.drop_first());
        assert forall|m: int| 0 <= m < token_len(s) implies !is_space(s[m]) by {
            if m > 0 {
                assert(s.drop_first()[m - 1] == s[m]);
            }
        }
    }
}

/// A stretch of non-space bytes closed off by a space (or the end) is
/// exactly the leading token.
pub proof fn lemma_token_len_is(s: Seq<u8>, k: int)
    requires
        0 <= k <= s.len(),
        forall|m: int| 0 <= m < k ==> !is_space(s[m]),
        k == s.len() || is_space(s[k]),
    ensures
        token_len(s) == k,
    decreases k,
{
    if k == 0 {
    } else {
        assert(!is_space(s[0]));
        assert forall|m: int| 0 <= m < k - 1 implies !is_space(s.drop_first()[m]) by {
            assert(s.drop_first()[m] == s[m + 1]);
        }
        if k < s.len() {
            assert(s.drop_first()[k - 1] == s[k]);
        }
        lemma_token_len_is(s.drop_first(), k - 1);
    }
}

/// The third whitespace-delimited field of the line, when there is one.
pub fn third_field(line: &Vec<u8>) -> (r: Option<Vec<u8>>)
    ensures
        r matches Some(v) ==> fields(line@).len() >= 3 && v@ == fields(line@)[2],
        r is None ==> fields(line@).len() < 3,
{
    let ghost s = line@;
    let mut i: usize = 0;
    let mut count: usize = 0;
    proof {
        assert(s.skip(0) =~= s);
        assert(fields(s).skip(0) =~= fields(s));
    }
    while i < line.len()
        invariant
            s == line@,
            i <= line@.len(),
            count <= 2,
            count <= fields(s).len(),
            fields(s).skip(count as int) == fields(s.skip(i as int)),
        decreases line.len() - i,
    {
        if is_space_byte(line[i]) {
            proof {
                assert(s.skip(i as int).drop_first() =~= s.skip(i as int + 1));
            }
            i = i + 1;
        } else {
            let ghost rest = s.skip(i as int);
            // find the end of the token
            let mut j: usize = i + 1;
            while j < line.len() && !is_space_byte(line[j])
                invariant
                    s == line@,
                    i < j <= line@.len(),
                    forall|m: int| i <= m < j ==> !is_space(s[m]),
                decreases line.len() - j,
            {
                j = j + 1;
            }
            proof {
                assert forall|m: int| 0 <= m < j - i implies !is_space(rest[m]) by {
                    assert(rest[m] == s[m + i]);
                }
                if j < s.len() {
                    assert(rest[j - i] == s[j as int]);
                }
                lemma_token_len_is(rest, j - i);
                assert(rest.take(j - i) =~= s.subrange(i as int, j as int));
                assert(rest.skip(j - i) =~= s.skip(j as int));
                assert(fields(rest) == seq![s.subrange(i as int, j as int)] + fields(
                    s.skip(j as int),
                ));
            }
            if count == 2 {
                let tok = subrange_vec(line, i, j);
                proof {
                    assert(fields(s).skip(2) == fields(rest));
                    assert(fields(rest).len() == 1 + fields(s.skip(j as int)).len());
                    assert(fields(s).skip(2).len() == fields(s).len() - 2);
                    assert(fields(rest)[0] == s.subrange(i as int, j as int));
                    assert(fields(s)[2] == fields(s).skip(2)[0]);
                }
                return Some(tok);
            }
            count = count + 1;
            i = j;
            proof {
                assert(fields(s).skip(count as int) =~= fields(s).skip(count as int - 1).drop_first());
                assert(fields(s).skip(count as int - 1).drop_first() =~= fields(s.skip(i as int)));
            }
        }
    }
    proof {
        assert(s.skip(line@.len() as int) =~= Seq::<u8>::empty());
        assert(fields(s).skip(count as int).len() == 0);
    }
    None
}

pub fn is_space_byte(b: u8) -> (r: bool)
    ensures
        r == is_space(b),
{
    b == 32 || (9 <= b && b <= 13)
}

// ---------------------------------------------------------------------------
// Literal replace-all
// ---------------------------------------------------------------------------
/// Every leftmost, non-overlapping occurrence of `tok` in `s` replaced by
/// `rep`.  An empty `tok` leaves `s` unchanged.
pub open spec fn replaced_lit(tok: Seq<u8>, rep: Seq<u8>, s: Seq<u8>) -> Seq<u8>
    decreases s.len(),
{
    if tok.len() == 0 {
        s
    } else if s.len() < tok.len() {
        s
    } else if s.take(tok.len() as int) == tok {
        rep + replaced_lit(tok, rep, s.skip(tok.len() as int))
    } else {
        seq![s[0]] + replaced_lit(tok, rep, s.skip(1))
    }
}

/// Does `tok` occur in `s` starting at position `at`?
fn match_at(s: &Vec<u8>, at: usize, tok: &Vec<u8>) -> (r: bool)
    requires
        at + tok@.len() <= s@.len(),
    ensures
        r == (s@.subrange(at as int, at as int + tok@.len() as int) == tok@),
{
    let n = s.len();
    let mut i: usize = 0;
    while i < tok.len()
        invariant
            n == s@.len(),
            at + tok@.len() <= s@.len(),
            i <= tok@.len(),
            forall|k: int| 0 <= k < i ==> s@[at + k] == tok@[k],
        decreases tok.len() - i,
    {
        if s[at + i] != tok[i] {
            proof {
                assert(s@.subrange(at as int, at as int + tok@.len() as int)[i as int] != tok@[
                    i as int
                ]);
            }
            return false;
        }
        i = i + 1;
    }
    proof {
        assert(s@.subrange(at as int, at as int + tok@.len() as int) =~= tok@);
    }
    true
}

pub fn replace_lit(tok: &Vec<u8>, rep: &Vec<u8>, s: &Vec<u8>) -> (r: Vec<u8>)
    ensures
        r@ == replaced_lit(tok@, rep@, s@),
{
    if tok.len() == 0 {
        let mut r: Vec<u8> = Vec::new();
        append_bytes(&mut r, s);
        proof {
            assert(Seq::<u8>::empty() + s@ =~= s@);
        }
        return r;
    }
    let mut out: Vec<u8> = Vec::new();
    let mut i: usize = 0;
    proof {
        assert(s@.skip(0) =~= s@);
        assert(out@ + replaced_lit(tok@, rep@, s@) =~= replaced_lit(tok@, rep@, s@));
    }
    while i < s.len()
        invariant
            tok@.len() >= 1,
            i <= s@.len(),
            replaced_lit(tok@, rep@, s@) == out@ + replaced_lit(tok@, rep@, s@.skip(i as int)),
        decreases s.len() - i,
    {
        let ghost tail = s@.skip(i as int);
        let ghost out0 = out@;
        if tok.len() <= s.len() - i && match_at(s, i, tok) {
            append_bytes(&mut out, rep);
            proof {
                assert(tail.take(tok@.len() as int) =~= s@.subrange(
                    i as int,
                    i as int + tok@.len() as int,
                ));
                assert(tail.skip(tok@.len() as int) =~= s@.skip(i as int + tok@.len() as int));
                assert(replaced_lit(tok@, rep@, tail) == rep@ + replaced_lit(
                    tok@,
                    rep@,
                    s@.skip(i as int + tok@.len() as int),
                ));
                assert(out0 + (rep@ + replaced_lit(tok@, rep@, s@.skip(i as int + tok@.len() as int)))
                    =~= out@ + replaced_lit(tok@, rep@, s@.skip(i as int + tok@.len() as int)));
            }
            i = i + tok.len();
        } else {
            out.push(s[i]);
            proof {
                if tail.len() < tok@.len() {
                    assert(replaced_lit(tok@, rep@, tail) == tail);
                    assert(tail.skip(1) =~= s@.skip(i as int + 1));
                    assert(replaced_lit(tok@, rep@, s@.skip(i as int + 1)) == s@.skip(i as int + 1));
                    assert(out0 + tail =~= out@ + s@.skip(i as int + 1));
                } else {
                    assert(tail.take(tok@.len() as int) =~= s@.subrange(
                        i as int,
                        i as int + tok@.len() as int,
                    ));
                    assert(tail.take(tok@.len() as int) != tok@);
                    assert(tail.skip(1) =~= s@.skip(i as int + 1));
                    assert(replaced_lit(tok@, rep@, tail) == seq![tail[0]] + replaced_lit(
                        tok@,
                        rep@,
                        s@.skip(i as int + 1),
                    ));
                    assert(out0 + (seq![tail[0]] + replaced_lit(tok@, rep@, s@.skip(i as int + 1)))
                        =~= out@ + replaced_lit(tok@, rep@, s@.skip(i as int + 1)));
                }
            }
            i = i + 1;
        }
    }
    proof {
        assert(s@.skip(s@.len() as int) =~= Seq::<u8>::empty());
        assert(out@ + Seq::<u8>::empty() =~= out@);
    }
    out
}

// ---------------------------------------------------------------------------
// Splitting on a delimiter byte
// ---------------------------------------------------------------------------
/// Index of the first occurrence of `d` in `s`; `s.len()` when absent.
pub open spec fn first_at(s: Seq<u8>, d: u8) -> int
    decreases s.len(),
{
    if s.len() == 0 {
        0
    } else if s[0] == d {
        0
    } else {
        1 + first_at(s.drop_first(), d)
    }
}

/// The pieces of `s` between occurrences of the delimiter `d`, in order;
/// leading, trailing and repeated delimiters yield empty pieces.
pub open spec fn split_by(s: Seq<u8>, d: u8) -> Seq<Seq<u8>>
    decreases s.len(),
    via split_by_decreases
{
    let k = first_at(s, d);
    if k == s.len() {
        seq![s]
    } else {
        seq![s.take(k)] + split_by(s.skip(k + 1), d)
    }
}

#[via_fn]
proof fn split_by_decreases(s: Seq<u8>, d: u8) {
    lemma_first_at_bounds(s, d);
}

pub proof fn lemma_first_at_bounds(s: Seq<u8>, d: u8)
    ensures
        0 <= first_at(s, d) <= s.len(),
        first_at(s, d) < s.len() ==> s[first_at(s, d)] == d,
        forall|m: int| 0 <= m < first_at(s, d) ==> s[m] != d,
    decreases s.len(),
{
    if s.len() == 0 || s[0] == d {
    } else {
        lemma_first_at_bounds(s.drop_first(), d);
        assert forall|m: int| 0 <= m < first_at(s, d) implies s[m] != d by {
            if m > 0 {
                assert(s.drop_first()[m - 1] == s[m]);
            }
        }
    }
}

pub proof fn lemma_first_at_is(s: Seq<u8>, d: u8, k: int)
    requires
        0 <= k <= s.len(),
        forall|m: int| 0 <= m < k ==> s[m] != d,
        k == s.len() || s[k] == d,
    ensures
        first_at(s, d) == k,
    decreases k,
{
    if k == 0 {
    } else {
        assert(s[0] != d);
        assert forall|m: int| 0 <= m < k - 1 implies s.drop_first()[m] != d by {
            assert(s.drop_first()[m] == s[m + 1]);
        }
        if k < s.len() {
            assert(s.drop_first()[k - 1] == s[k]);
        }
        lemma_first_at_is(s.drop_first(), d, k - 1);
    }
}

fn find_byte(s: &Vec<u8>, d: u8, from: usize) -> (r: Option<usize>)
    requires
        from <= s@.len(),
    ensures
        r matches Some(i) ==> from <= i < s@.len() && s@[i as int] == d && forall|k: int|
            from <= k < i ==> s@[k] != d,
        r is None ==> forall|k: int| from <= k < s@.len() ==> s@[k] != d,
{
    let mut i: usize = from;
    while i < s.len()
        invariant
            from <= i <= s@.len(),
            forall|k: int| from <= k < i ==> s@[k] != d,
        decreases s.len() - i,
    {
        if s[i] == d {
            return Some(i);
        }
        i = i + 1;
    }
    None
}

/// Splits `s` into the parts before and after the single occurrence of the
/// delimiter `d`; `None` unless `d` occurs exactly once.
pub fn split_once_exact(s: &Vec<u8>, d: u8) -> (r: Option<(Vec<u8>, Vec<u8>)>)
    ensures
        (r is Some) == (split_by(s@, d).len() == 2),
        r matches Some(p) ==> p.0@ == split_by(s@, d)[0] && p.1@ == split_by(s@, d)[1],
{
    proof {
        lemma_first_at_bounds(s@, d);
    }
    match find_byte(s, d, 0) {
        None => {
            proof {
                lemma_first_at_is(s@, d, s@.len() as int);
                assert(split_by(s@, d).len() == 1);
            }
            None
        },
        Some(i) => {
            proof {
                lemma_first_at_is(s@, d, i as int);
            }
            let n = s.len();
            let ghost tail = s@.skip(i as int + 1);
            match find_byte(s, d, i + 1) {
                Some(_j) => {
                    proof {
                        assert(tail[_j - i - 1] == s@[_j as int]);
                        lemma_first_at_bounds(tail, d);
                        lemma_split_by_len_ge_one(tail.skip(first_at(tail, d) + 1), d);
                        assert(first_at(tail, d) < tail.len()) by {
                            if first_at(tail, d) == tail.len() {
                                assert(tail[_j - i - 1] != d);
                            }
                        }
                        assert(split_by(s@, d).len() == 1 + split_by(tail, d).len());
                        assert(split_by(tail, d).len() == 1 + split_by(
                            tail.skip(first_at(tail, d) + 1),
                            d,
                        ).len());
                    }
                    None
                },
                None => {
                    let a = subrange_vec(s, 0, i);
                    let b = subrange_vec(s, i + 1, s.len());
                    proof {
                        assert forall|k: int| 0 <= k < tail.len() implies tail[k] != d by {
                            assert(tail[k] == s@[i + 1 + k]);
                        }
                        lemma_first_at_is(tail, d, tail.len() as int);
                        assert(split_by(tail, d) == seq![tail]);
                        assert(split_by(s@, d) == seq![s@.take(i as int)] + seq![tail]);
                        assert(a@ =~= s@.take(i as int));
                        assert(b@ =~= tail);
                    }
                    Some((a, b))
                },
            }
        },
    }
}

pub proof fn lemma_split_by_len_ge_one(s: Seq<u8>, d: u8)
    ensures
        split_by(s, d).len() >= 1,
    decreases s.len(),
{
    lemma_first_at_bounds(s, d);
    if first_at(s, d) == s.len() {
    } else {
        lemma_split_by_len_ge_one(s.skip(first_at(s, d) + 1), d);
    }
}

} // verus!
