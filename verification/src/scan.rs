//! Column reference extraction: a pure scan of the expression text for
//! tokens of the form `c` followed by one or more digits.  Each token is a
//! 1-based column reference; the scan returns the distinct 0-based indices,
//! in order of first occurrence.  Tokens whose number is zero or does not fit
//! a machine word cannot refer to a column and are ignored; the expression
//! validation rejects such expressions later, since the variable stays
//! unbound.

use vstd::prelude::*;

use crate::digits::all_digits;
use crate::digits::digit_val;
use crate::digits::digits_val;
use crate::digits::is_digit;
use crate::digits::lemma_digits_val_nonneg;

verus! {

/// The end of the digit run beginning at `i`: the first position at or after
/// `i` that is past the end or holds a non-digit.
pub open spec fn digit_run_end(s: Seq<char>, i: int) -> int
    decreases s.len() - i,
{
    if i < 0 || i >= s.len() || !is_digit(s[i]) {
        i
    } else {
        digit_run_end(s, i + 1)
    }
}

pub proof fn lemma_digit_run_end(s: Seq<char>, i: int)
    requires
        0 <= i <= s.len(),
    ensures
        i <= digit_run_end(s, i) <= s.len(),
        forall|k: int| i <= k < digit_run_end(s, i) ==> is_digit(s[k]),
        digit_run_end(s, i) == s.len() || !is_digit(s[digit_run_end(s, i)]),
    decreases s.len() - i,
{
    if i < s.len() && is_digit(s[i]) {
        lemma_digit_run_end(s, i + 1);
    }
}

/// The values of the column tokens found at or after position `i`,
/// in order of occurrence.
pub open spec fn col_refs_from(s: Seq<char>, i: int) -> Seq<int>
    decreases s.len() - i when 0 <= i via col_refs_from_decreases
{
    if i >= s.len() {
        Seq::empty()
    } else if s[i] == 'c' && i + 1 < s.len() && is_digit(s[i + 1]) {
        let e = digit_run_end(s, i + 1);
        seq![digits_val(s.subrange(i + 1, e))] + col_refs_from(s, e)
    } else {
        col_refs_from(s, i + 1)
    }
}

#[via_fn]
proof fn col_refs_from_decreases(s: Seq<char>, i: int) {
    if 0 <= i < s.len() && s[i] == 'c' && i + 1 < s.len() && is_digit(s[i + 1]) {
        lemma_digit_run_end(s, i + 1);
    }
}

/// The token values referenced in the whole text.
pub open spec fn col_refs(s: Seq<char>) -> Seq<int> {
    col_refs_from(s, 0)
}

/// Folds one token value into the accumulated 0-based index list: a value is
/// kept when it is a possible 1-based column number and its 0-based index is
/// not present yet.
pub open spec fn add_ref(acc: Seq<int>, v: int) -> Seq<int> {
    if 1 <= v <= usize::MAX && !acc.contains(v - 1) {
        acc.push(v - 1)
    } else {
        acc
    }
}

/// A digit run with a non-digit (or the end) at `j` ends exactly at `j`.
pub proof fn lemma_digit_run_end_is(s: Seq<char>, i: int, j: int)
    requires
        0 <= i <= j <= s.len(),
        forall|k: int| i <= k < j ==> is_digit(s[k]),
        j == s.len() || !is_digit(s[j]),
    ensures
        digit_run_end(s, i) == j,
    decreases j - i,
{
    if i < j {
        lemma_digit_run_end_is(s, i + 1, j);
    }
}

/// The distinct 0-based indices of a token value sequence, first occurrence
/// order.
pub open spec fn dedup_refs(refs: Seq<int>) -> Seq<int>
    decreases refs.len(),
{
    if refs.len() == 0 {
        Seq::empty()
    } else {
        add_ref(dedup_refs(refs.drop_last()), refs.last())
    }
}

/// The deduplicated index list holds machine-sized indices, each once.
pub proof fn lemma_dedup_refs_distinct(refs: Seq<int>)
    ensures
        forall|a: int, b: int|
            0 <= a < b < dedup_refs(refs).len() ==> dedup_refs(refs)[a] != dedup_refs(refs)[b],
        forall|a: int| 0 <= a < dedup_refs(refs).len() ==> 0 <= #[trigger] dedup_refs(refs)[a]
            < usize::MAX,
    decreases refs.len(),
{
    if refs.len() > 0 {
        lemma_dedup_refs_distinct(refs.drop_last());
        let acc = dedup_refs(refs.drop_last());
        let v = refs.last();
        if 1 <= v <= usize::MAX && !acc.contains(v - 1) {
            let out = acc.push(v - 1);
            assert(dedup_refs(refs) == out);
            assert forall|a: int, b: int| 0 <= a < b < out.len() implies out[a] != out[b] by {
                if b == out.len() - 1 {
                    assert(out[a] == acc[a]);
                    assert(!acc.contains(v - 1));
                    assert(acc[a] != v - 1);
                }
            }
            assert forall|a: int| 0 <= a < out.len() implies 0 <= #[trigger] out[a]
                < usize::MAX by {
                if a < out.len() - 1 {
                    assert(out[a] == acc[a]);
                }
            }
        }
    }
}

/// Does the vector hold `x`?
fn contains_usize(v: &Vec<usize>, x: usize) -> (r: bool)
    ensures
        r == v@.contains(x),
{
    let mut k: usize = 0;
    while k < v.len()
        invariant
            k <= v@.len(),
            forall|m: int| 0 <= m < k ==> v@[m] != x,
        decreases v@.len() - k,
    {
        if v[k] == x {
            return true;
        }
        k += 1;
    }
    false
}

/// Is `c` an ASCII digit?
fn is_digit_char(c: char) -> (r: bool)
    ensures
        r == is_digit(c),
{
    let u: u32 = c as u32;
    48 <= u && u <= 57
}

/// Finds the columns that the expression text may reference: every maximal
/// token `c<digits>`, taken as a 1-based column number, yields its 0-based
/// index; duplicates are dropped, first occurrence order is kept.
pub fn get_used_columns(expression: &str) -> (cols: Vec<usize>)
    ensures
        cols@.map_values(|c: usize| c as int) == dedup_refs(col_refs(expression@)),
        forall|a: int, b: int| 0 <= a < b < cols@.len() ==> cols@[a] != cols@[b],
{
    let ghost s = expression@;
    let n: usize = expression.unicode_len();
    let mut cols: Vec<usize> = Vec::new();
    let ghost mut seen: Seq<int> = Seq::empty();
    let mut i: usize = 0;
    proof {
        assert(seen + col_refs_from(s, 0) =~= col_refs_from(s, 0));
    }
    while i < n
        invariant
            n == s.len(),
            expression@ == s,
            i <= n,
            col_refs(s) == seen + col_refs_from(s, i as int),
            cols@.map_values(|c: usize| c as int) == dedup_refs(seen),
        decreases n - i,
    {
        let c = expression.get_char(i);
        let next_digit: bool = if i + 1 < n {
            is_digit_char(expression.get_char(i + 1))
        } else {
            false
        };
        if c == 'c' && next_digit {
            let mut j: usize = i + 1;
            let mut acc: usize = 0;
            let mut overflow: bool = false;
            loop
                invariant
                    n == s.len(),
                    expression@ == s,
                    i + 1 <= j <= n,
                    forall|k: int| i + 1 <= k < j ==> is_digit(s[k]),
                    !overflow ==> acc == digits_val(s.subrange(i + 1, j as int)),
                    overflow ==> digits_val(s.subrange(i + 1, j as int)) > usize::MAX,
                ensures
                    i + 1 <= j <= n,
                    forall|k: int| i + 1 <= k < j ==> is_digit(s[k]),
                    j == n || !is_digit(s[j as int]),
                    !overflow ==> acc == digits_val(s.subrange(i + 1, j as int)),
                    overflow ==> digits_val(s.subrange(i + 1, j as int)) > usize::MAX,
                decreases n - j,
            {
                if j >= n {
                    break;
                }
                let d = expression.get_char(j);
                if !is_digit_char(d) {
                    break;
                }
                let dv: u32 = d as u32 - 48;
                let dvu: usize = dv as usize;
                proof {
                    let pre = s.subrange(i + 1, j as int);
                    let post = s.subrange(i + 1, j + 1 as int);
                    assert(post.drop_last() =~= pre);
                    assert(post.last() == s[j as int]);
                    lemma_digits_val_nonneg(pre);
                }
                if overflow {
                    proof {
                        let pre = s.subrange(i + 1, j as int);
                        assert(digits_val(pre) * 10 + digit_val(s[j as int]) > usize::MAX) by {
                            assert(digits_val(pre) > usize::MAX);
                            assert(digits_val(pre) * 10 >= digits_val(pre)) by (nonlinear_arith)
                                requires digits_val(pre) >= 0;
                        }
                    }
                } else if acc > (usize::MAX - dvu) / 10 {
                    overflow = true;
                    proof {
                        let pre = s.subrange(i + 1, j as int);
                        assert(digits_val(pre) * 10 + digit_val(s[j as int]) > usize::MAX)
                            by (nonlinear_arith)
                            requires
                                digits_val(pre) == acc,
                                digit_val(s[j as int]) == dvu,
                                0 <= dvu <= 9,
                                acc > (usize::MAX - dvu) / 10,
                        ;
                    }
                } else {
                    proof {
                        let pre = s.subrange(i + 1, j as int);
                        assert(acc * 10 + dvu <= usize::MAX) by (nonlinear_arith)
                            requires
                                0 <= dvu <= 9,
                                0 <= acc,
                                acc <= (usize::MAX - dvu) / 10,
                        ;
                    }
                    acc = acc * 10 + dvu;
                }
                j += 1;
            }
            proof {
                lemma_digit_run_end_is(s, i + 1, j as int);
            }
            let ghost v = digits_val(s.subrange(i + 1, j as int));
            proof {
                assert(col_refs_from(s, i as int) =~= seq![v] + col_refs_from(s, j as int));
                assert(seen.push(v).drop_last() =~= seen);
                assert((seen + col_refs_from(s, i as int)) =~= (seen.push(v) + col_refs_from(
                    s,
                    j as int,
                )));
                lemma_digits_val_nonneg(s.subrange(i + 1, j as int));
            }
            proof {
                assert(seen.push(v).drop_last() =~= seen);
                assert(dedup_refs(seen.push(v)) == add_ref(dedup_refs(seen), v));
            }
            if !overflow && acc >= 1 {
                let idx: usize = acc - 1;
                let present = contains_usize(&cols, idx);
                proof {
                    let m = cols@.map_values(|c: usize| c as int);
                    if present {
                        let w = choose|w: int| 0 <= w < cols@.len() && cols@[w] == idx;
                        assert(m[w] == v - 1);
                        assert(m.contains(v - 1));
                    } else {
                        if m.contains(v - 1) {
                            let w = choose|w: int| 0 <= w < m.len() && m[w] == v - 1;
                            assert(cols@[w] == idx);
                            assert(cols@.contains(idx));
                        }
                    }
                }
                if !present {
                    cols.push(idx);
                    proof {
                        assert(cols@.map_values(|c: usize| c as int) =~= dedup_refs(seen).push(
                            v - 1,
                        ));
                    }
                }
            }
            proof {
                seen = seen.push(v);
            }
            i = j;
        } else {
            proof {
                assert(col_refs_from(s, i as int) == col_refs_from(s, i + 1));
            }
            i += 1;
        }
    }
    proof {
        assert(col_refs_from(s, n as int) =~= Seq::<int>::empty());
        assert(seen + col_refs_from(s, n as int) =~= seen);
        lemma_dedup_refs_distinct(seen);
        let m = cols@.map_values(|c: usize| c as int);
        assert forall|a: int, b: int| 0 <= a < b < cols@.len() implies cols@[a] != cols@[b] by {
            assert(m[a] == cols@[a] as int);
            assert(m[b] == cols@[b] as int);
        }
    }
    cols
}

} // verus!
