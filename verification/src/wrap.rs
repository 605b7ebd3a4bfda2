//! Wrapping of one logical line into physical rows of bounded width.
//!
//! A line of `n` characters wrapped at `len` characters gives the rows
//! `[0, len)`, `[len, 2 len)`, ... of the line, the last one possibly shorter.
//! Widths count characters, not bytes: a row never ends inside the encoding
//! of a character.

use vstd::prelude::*;
use vstd::string::*;
use vstd::utf8::{
    encode_utf8, encode_utf8_decode_utf8, encode_utf8_first_scalar, encode_utf8_valid_utf8,
    is_char_boundary, pop_first_scalar,
};
use vstd::arithmetic::div_mod::{
    lemma_div_is_ordered, lemma_fundamental_div_mod, lemma_fundamental_div_mod_converse,
};

verus! {

/// How many rows a line of `n` characters takes at `len` characters a row.
pub open spec fn row_count(n: nat, len: nat) -> nat {
    if len == 0 {
        0
    } else {
        ((n + len - 1) / (len as int)) as nat
    }
}

/// Where row `i` of a line of `n` characters ends.
pub open spec fn row_end(n: nat, len: nat, i: int) -> int {
    if (i + 1) * len <= n {
        (i + 1) * len
    } else {
        n as int
    }
}

/// Row `i` of the line `s` wrapped at `len` characters.
pub open spec fn row(s: Seq<char>, len: nat, i: int) -> Seq<char> {
    s.subrange(i * len, row_end(s.len(), len, i))
}

/// The rows of the line `s` wrapped at `len` characters.
pub open spec fn wrap(s: Seq<char>, len: nat) -> Seq<Seq<char>> {
    Seq::new(row_count(s.len(), len), |i: int| row(s, len, i))
}

/// `k` rows are exactly enough for `n` characters: `k - 1` rows are too few
/// and `k` rows are not.
pub proof fn lemma_row_count_is(n: nat, len: nat, k: nat)
    requires
        len > 0,
        k == 0 ==> n == 0,
        k > 0 ==> (k - 1) * len < n,
        n <= k * len,
    ensures
        row_count(n, len) == k,
{
    // n + len - 1 == k * len + r with 0 <= r < len.
    let x = n + len - 1;
    let r = x - k * len;
    assert((k - 1) * len == k * len - len) by (nonlinear_arith);
    lemma_fundamental_div_mod_converse(x, len as int, k as int, r);
}

/// The bounds of each row: rows follow one another without a gap, none is
/// empty, and none is longer than `len`.
pub proof fn lemma_row_bounds(n: nat, len: nat, i: int)
    requires
        len > 0,
        0 <= i < row_count(n, len),
    ensures
        0 <= i * len < row_end(n, len, i) <= n,
        row_end(n, len, i) - i * len <= len,
        i + 1 < row_count(n, len) ==> row_end(n, len, i) == (i + 1) * len,
        i + 1 == row_count(n, len) ==> row_end(n, len, i) == n,
{
    let k = row_count(n, len);
    let x = n + len - 1;
    // x == k * len + x % len, hence (k - 1) * len < n <= k * len.
    lemma_fundamental_div_mod(x, len as int);
    assert(len * k == k * len) by (nonlinear_arith);
    assert((k - 1) * len == k * len - len) by (nonlinear_arith);
    assert((i + 1) * len == i * len + len) by (nonlinear_arith);
    if i + 1 < k {
        assert((i + 1) * len <= (k - 1) * len) by (nonlinear_arith)
            requires
                i + 1 <= k - 1,
                0 < len,
        ;
    }
}

/// The first `k` rows of a wrapped line, joined, are the line up to the end
/// of row `k - 1`.
proof fn lemma_rows_join(s: Seq<char>, len: nat, k: int)
    requires
        len > 0,
        0 <= k <= row_count(s.len(), len),
    ensures
        wrap(s, len).take(k).flatten() == s.take(
            if k == 0 {
                0
            } else {
                row_end(s.len(), len, k - 1)
            },
        ),
    decreases k,
{
    if k > 0 {
        let rows = wrap(s, len);
        lemma_rows_join(s, len, k - 1);
        lemma_row_bounds(s.len(), len, k - 1);
        assert(rows.take(k) =~= rows.take(k - 1).push(rows[k - 1]));
        rows.take(k - 1).lemma_flatten_push(rows[k - 1]);
    }
}

/// Wrapping loses nothing and adds nothing: the rows of a line, joined in
/// order, are the line.
pub proof fn lemma_wrap_round_trip(s: Seq<char>, len: nat)
    requires
        len > 0,
    ensures
        wrap(s, len).flatten() == s,
{
    let rows = wrap(s, len);
    let k = rows.len() as int;
    lemma_rows_join(s, len, k);
    assert(rows.take(k) =~= rows);
    if k == 0 {
        if s.len() > 0 {
            // A line that is not empty has a row.
            lemma_div_is_ordered(len as int, s.len() + len - 1, len as int);
        }
    } else {
        lemma_row_bounds(s.len(), len, k - 1);
    }
}

/// The encoding of two texts, one after the other, is the encoding of the
/// first followed by that of the second.
proof fn lemma_encode_add(a: Seq<char>, b: Seq<char>)
    ensures
        encode_utf8(a + b) == encode_utf8(a) + encode_utf8(b),
    decreases a.len(),
{
    if a.len() > 0 {
        assert((a + b).drop_first() =~= a.drop_first() + b);
        lemma_encode_add(a.drop_first(), b);
    }
}

/// Where the encoding of a text's first part ends, a character begins or the
/// text is over.
proof fn lemma_boundary_behind_prefix(a: Seq<char>, b: Seq<char>)
    ensures
        is_char_boundary(encode_utf8(a + b), encode_utf8(a).len() as int),
    decreases a.len(),
{
    let bytes = encode_utf8(a + b);
    encode_utf8_valid_utf8(a + b);
    if a.len() > 0 {
        encode_utf8_first_scalar(a + b);
        assert((a + b).drop_first() =~= a.drop_first() + b);
        assert(pop_first_scalar(bytes) =~= encode_utf8(a.drop_first() + b));
        lemma_boundary_behind_prefix(a.drop_first(), b);
    }
}

/// What is left of a text behind its first `k` characters is known by its
/// encoding: it is the text whose bytes are those behind the bytes of the
/// first `k` characters.
proof fn lemma_rest_behind_prefix(whole: Seq<char>, k: int, rest: Seq<char>)
    requires
        0 <= k <= whole.len(),
        encode_utf8(rest) == encode_utf8(whole).subrange(
            encode_utf8(whole.take(k)).len() as int,
            encode_utf8(whole).len() as int,
        ),
    ensures
        rest == whole.skip(k),
{
    assert(whole.take(k) + whole.skip(k) =~= whole);
    lemma_encode_add(whole.take(k), whole.skip(k));
    assert(encode_utf8(rest) =~= encode_utf8(whole.skip(k)));
    encode_utf8_decode_utf8(rest);
    encode_utf8_decode_utf8(whole.skip(k));
}

/// Splits `s` into rows of at most `len` characters each.
///
/// An empty line has no rows. A line that is not empty cannot be fitted into
/// rows of no width, so `len` must then be positive.
pub fn split_str_len(s: &str, len: usize) -> (rows: Vec<String>)
    requires
        s@.len() > 0 ==> len > 0,
    ensures
        rows.deep_view() == wrap(s@, len as nat),
{
    let n: usize = s.unicode_len();
    let mut rows: Vec<String> = Vec::new();
    if n == 0 {
        proof {
            if len > 0 {
                lemma_row_count_is(0, len as nat, 0);
            }
        }
        return rows;
    }
    let mut rest: &str = s;
    let mut start: usize = 0;
    while start < n
        invariant
            n == s@.len(),
            len > 0,
            start <= n,
            rest@ == s@.skip(start as int),
            start < n ==> start == rows.len() * len,
            start == n ==> rows.len() == row_count(n as nat, len as nat),
            forall|j: int| 0 <= j < rows.len() ==> (#[trigger] rows[j])@ == row(s@, len as nat, j),
        decreases n - start,
    {
        let ghost k = rows.len() as nat;
        let width: usize = if n - start > len {
            len
        } else {
            n - start
        };
        proof {
            assert((k + 1) * len == k * len + len) by (nonlinear_arith);
            if start + width == n {
                lemma_row_count_is(n as nat, len as nat, k + 1);
            }
        }
        // The row is cut off the front of what is left, at the byte where
        // its last character ends.
        let piece = rest.substring_char(0, width);
        let cut: usize = piece.as_bytes().len();
        proof {
            assert(rest@.take(width as int) + rest@.skip(width as int) =~= rest@);
            lemma_boundary_behind_prefix(rest@.take(width as int), rest@.skip(width as int));
        }
        let (_, behind) = rest.split_at(cut);
        proof {
            lemma_rest_behind_prefix(rest@, width as int, behind@);
        }
        rows.push(piece.to_owned());
        rest = behind;
        start = start + width;
    }
    rows
}

} // verus!
