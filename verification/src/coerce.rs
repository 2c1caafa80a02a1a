//! The value model's coercion rules: a raw column substring and a declared
//! type yield a typed value, or fail.  Strings are taken unchanged, integers
//! and booleans follow Rust's literal rules, floats are parsed by the
//! standard library behind a named result, a don't-care column always yields
//! the empty value, and a list column splits on commas and never fails.

use vstd::prelude::*;

use crate::digits::all_digits;
use crate::digits::digit_val;
use crate::digits::digits_val;
use crate::digits::is_digit;
use crate::digits::lemma_digits_val_nonneg;
use crate::engine::float_parse;
use crate::engine::parse_float_bits;
use crate::value::ColumnType;
use crate::value::TypedValue;
use crate::value::ValueModel;

verus! {

/// The first position at or after `i` holding `sep`, or the length.
pub open spec fn first_sep_from(s: Seq<char>, sep: char, i: int) -> int
    decreases s.len() - i,
{
    if i < 0 || i >= s.len() {
        s.len() as int
    } else if s[i] == sep {
        i
    } else {
        first_sep_from(s, sep, i + 1)
    }
}

pub proof fn lemma_first_sep_from(s: Seq<char>, sep: char, i: int)
    requires
        0 <= i <= s.len(),
    ensures
        i <= first_sep_from(s, sep, i) <= s.len(),
        forall|k: int| i <= k < first_sep_from(s, sep, i) ==> s[k] != sep,
        first_sep_from(s, sep, i) < s.len() ==> s[first_sep_from(s, sep, i)] == sep,
    decreases s.len() - i,
{
    if i < s.len() && s[i] != sep {
        lemma_first_sep_from(s, sep, i + 1);
    }
}

/// The first separator is where the separators are.
pub proof fn lemma_first_sep_from_is(s: Seq<char>, sep: char, i: int, j: int)
    requires
        0 <= i <= j <= s.len(),
        forall|k: int| i <= k < j ==> s[k] != sep,
        j == s.len() || s[j] == sep,
    ensures
        first_sep_from(s, sep, i) == j,
    decreases j - i,
{
    if i < j {
        lemma_first_sep_from_is(s, sep, i + 1, j);
    }
}

/// The pieces of `s` from position `i` on, split at `sep`.  Splitting never
/// yields an empty sequence of pieces: an empty input gives one empty piece.
pub open spec fn split_from(s: Seq<char>, sep: char, i: int) -> Seq<Seq<char>>
    decreases s.len() - i when 0 <= i <= s.len() via split_from_decreases
{
    let k = first_sep_from(s, sep, i);
    if k >= s.len() {
        seq![s.subrange(i, s.len() as int)]
    } else {
        seq![s.subrange(i, k)] + split_from(s, sep, k + 1)
    }
}

#[via_fn]
proof fn split_from_decreases(s: Seq<char>, sep: char, i: int) {
    if 0 <= i <= s.len() {
        lemma_first_sep_from(s, sep, i);
    }
}

/// How `s` splits at `sep`.
pub open spec fn split_model(s: Seq<char>, sep: char) -> Seq<Seq<char>> {
    split_from(s, sep, 0)
}

/// Splits `s` at every occurrence of `sep`; adjacent separators and
/// separators at either end yield empty pieces.
pub fn split_char(s: &str, sep: char) -> (parts: Vec<String>)
    ensures
        parts@.map_values(|p: String| p@) == split_model(s@, sep),
{
    let n: usize = s.unicode_len();
    let mut parts: Vec<String> = Vec::new();
    let mut start: usize = 0;
    proof {
        assert(parts@.map_values(|p: String| p@) + split_from(s@, sep, 0) =~= split_from(
            s@,
            sep,
            0,
        ));
    }
    loop
        invariant_except_break
            n == s@.len(),
            start <= n,
            split_model(s@, sep) == parts@.map_values(|p: String| p@) + split_from(
                s@,
                sep,
                start as int,
            ),
        ensures
            parts@.map_values(|p: String| p@) == split_model(s@, sep),
        decreases n - start,
    {
        let mut k: usize = start;
        loop
            invariant_except_break
                n == s@.len(),
                start <= k <= n,
                forall|m: int| start <= m < k ==> s@[m] != sep,
            ensures
                start <= k <= n,
                forall|m: int| start <= m < k ==> s@[m] != sep,
                k == n || s@[k as int] == sep,
            decreases n - k,
        {
            if k >= n {
                break;
            }
            if s.get_char(k) == sep {
                break;
            }
            k += 1;
        }
        proof {
            lemma_first_sep_from_is(s@, sep, start as int, k as int);
        }
        let piece = s.substring_char(start, k).to_owned();
        let ghost old_parts = parts@;
        parts.push(piece);
        proof {
            assert(parts@.map_values(|p: String| p@) =~= old_parts.map_values(|p: String| p@)
                + seq![s@.subrange(start as int, k as int)]);
        }
        if k >= n {
            proof {
                assert(split_from(s@, sep, start as int) =~= seq![
                    s@.subrange(start as int, n as int),
                ]);
                assert(parts@.map_values(|p: String| p@) =~= split_model(s@, sep));
            }
            break;
        }
        proof {
            assert(parts@.map_values(|p: String| p@) + split_from(s@, sep, k + 1) =~= old_parts.map_values(
                |p: String| p@,
            ) + split_from(s@, sep, start as int));
        }
        start = k + 1;
    }
    parts
}

/// How a boolean literal reads, by Rust's rules: exactly `true` or `false`.
pub open spec fn bool_parse(s: Seq<char>) -> Option<bool> {
    if s == "true"@ {
        Some(true)
    } else if s == "false"@ {
        Some(false)
    } else {
        None
    }
}

/// Are the two texts equal?
fn str_eq(a: &str, b: &str) -> (r: bool)
    ensures
        r == (a@ == b@),
{
    let x = a.to_owned();
    let y = b.to_owned();
    x == y
}

/// Reads a boolean literal.
pub fn parse_bool(s: &str) -> (r: Option<bool>)
    ensures
        r == bool_parse(s@),
{
    if str_eq(s, "true") {
        Some(true)
    } else if str_eq(s, "false") {
        Some(false)
    } else {
        None
    }
}

/// How a signed 64-bit integer literal reads, by Rust's rules: an optional
/// sign, then one or more digits, denoting a value in the type's range.
pub open spec fn int_parse(s: Seq<char>) -> Option<int> {
    let neg = s.len() > 0 && s[0] == '-';
    let ds = if s.len() > 0 && (s[0] == '-' || s[0] == '+') {
        s.drop_first()
    } else {
        s
    };
    if ds.len() == 0 || !all_digits(ds) {
        None
    } else {
        let v = if neg {
            -digits_val(ds)
        } else {
            digits_val(ds)
        };
        if i64::MIN <= v <= i64::MAX {
            Some(v)
        } else {
            None
        }
    }
}

/// Reads a signed 64-bit integer literal.
pub fn parse_i64(s: &str) -> (r: Option<i64>)
    ensures
        r is Some <==> int_parse(s@) is Some,
        r matches Some(x) ==> int_parse(s@) == Some(x as int),
{
    let n: usize = s.unicode_len();
    if n == 0 {
        return None;
    }
    let c0 = s.get_char(0);
    let neg: bool = c0 == '-';
    let start: usize = if c0 == '-' || c0 == '+' {
        1
    } else {
        0
    };
    let ghost ds = if c0 == '-' || c0 == '+' {
        s@.drop_first()
    } else {
        s@
    };
    proof {
        assert(ds =~= s@.subrange(start as int, n as int));
    }
    if start >= n {
        return None;
    }
    let mut j: usize = start;
    let mut mag: u64 = 0;
    let mut overflow: bool = false;
    while j < n
        invariant
            n == s@.len(),
            n >= 1,
            start <= j <= n,
            start < n,
            start == (if s@[0] == '-' || s@[0] == '+' {
                1int
            } else {
                0int
            }),
            neg == (s@[0] == '-'),
            ds =~= s@.subrange(start as int, n as int),
            forall|k: int| start <= k < j ==> is_digit(s@[k]),
            !overflow ==> mag == digits_val(s@.subrange(start as int, j as int)),
            overflow ==> digits_val(s@.subrange(start as int, j as int)) > u64::MAX,
        decreases n - j,
    {
        let d = s.get_char(j);
        let u: u32 = d as u32;
        if !(48 <= u && u <= 57) {
            proof {
                assert(ds[j - start] == s@[j as int]);
                assert(!is_digit(ds[j - start]));
                assert(!all_digits(ds)) by {
                    if all_digits(ds) {
                        assert(is_digit(ds[j - start]));
                    }
                }
            }
            return None;
        }
        let dv: u64 = (u - 48) as u64;
        proof {
            let pre = s@.subrange(start as int, j as int);
            let post = s@.subrange(start as int, j + 1 as int);
            assert(post.drop_last() =~= pre);
            assert(post.last() == s@[j as int]);
            lemma_digits_val_nonneg(pre);
        }
        if overflow {
            proof {
                let pre = s@.subrange(start as int, j as int);
                assert(digits_val(pre) * 10 + digit_val(s@[j as int]) > u64::MAX) by {
                    assert(digits_val(pre) > u64::MAX);
                    assert(digits_val(pre) * 10 >= digits_val(pre)) by (nonlinear_arith)
                        requires digits_val(pre) >= 0;
                }
            }
        } else if mag > (u64::MAX - dv) / 10 {
            overflow = true;
            proof {
                let pre = s@.subrange(start as int, j as int);
                assert(digits_val(pre) * 10 + digit_val(s@[j as int]) > u64::MAX)
                    by (nonlinear_arith)
                    requires
                        digits_val(pre) == mag,
                        digit_val(s@[j as int]) == dv,
                        0 <= dv <= 9,
                        mag > (u64::MAX - dv) / 10,
                ;
            }
        } else {
            proof {
                assert(mag * 10 + dv <= u64::MAX) by (nonlinear_arith)
                    requires
                        0 <= dv <= 9,
                        0 <= mag,
                        mag <= (u64::MAX - dv) / 10,
                ;
            }
            mag = mag * 10 + dv;
        }
        j += 1;
    }
    proof {
        assert(all_digits(ds));
        assert(digits_val(ds) == digits_val(s@.subrange(start as int, n as int)));
        lemma_digits_val_nonneg(ds);
    }
    if overflow {
        return None;
    }
    if neg {
        if mag <= 9223372036854775807u64 {
            Some(-(mag as i64))
        } else if mag == 9223372036854775808u64 {
            Some(i64::MIN)
        } else {
            None
        }
    } else {
        if mag <= 9223372036854775807u64 {
            Some(mag as i64)
        } else {
            None
        }
    }
}

/// How one raw column substring coerces under a declared type.
pub open spec fn coerce_model(raw: Seq<char>, t: ColumnType) -> Option<ValueModel> {
    match t {
        ColumnType::Str => Some(ValueModel::Str(raw)),
        ColumnType::Int => match int_parse(raw) {
            Some(v) => Some(ValueModel::Int(v)),
            None => None,
        },
        ColumnType::Float => match float_parse(raw) {
            Some(bits) => Some(ValueModel::Float(bits)),
            None => None,
        },
        ColumnType::Bool => match bool_parse(raw) {
            Some(b) => Some(ValueModel::Bool(b)),
            None => None,
        },
        ColumnType::Empty => Some(ValueModel::Empty),
        ColumnType::List => Some(
            ValueModel::Tuple(split_model(raw, ',').map_values(|p: Seq<char>| ValueModel::Str(p))),
        ),
    }
}

/// Coerces one raw column substring to its declared type.
pub fn coerce_field(raw: &str, t: ColumnType) -> (r: Option<TypedValue>)
    ensures
        r is Some <==> coerce_model(raw@, t) is Some,
        r matches Some(v) ==> coerce_model(raw@, t) == Some(v@),
{
    match t {
        ColumnType::Str => Some(TypedValue::Str(raw.to_owned())),
        ColumnType::Int => match parse_i64(raw) {
            Some(v) => Some(TypedValue::Int(v)),
            None => None,
        },
        ColumnType::Float => match parse_float_bits(raw) {
            Some(bits) => Some(TypedValue::Float(bits)),
            None => None,
        },
        ColumnType::Bool => match parse_bool(raw) {
            Some(b) => Some(TypedValue::Bool(b)),
            None => None,
        },
        ColumnType::Empty => Some(TypedValue::Empty),
        ColumnType::List => {
            let parts = split_char(raw, ',');
            let mut items: Vec<TypedValue> = Vec::new();
            let mut k: usize = 0;
            while k < parts.len()
                invariant
                    k <= parts@.len(),
                    items@.len() == k,
                    forall|m: int| 0 <= m < k ==> #[trigger] items@[m]@ == ValueModel::Str(
                        parts@[m]@,
                    ),
                decreases parts@.len() - k,
            {
                let piece = parts[k].clone();
                items.push(TypedValue::Str(piece));
                k += 1;
            }
            let ghost gitems = items@;
            let v = TypedValue::Tuple(items);
            proof {
                let pieces = split_model(raw@, ',');
                assert(parts@.map_values(|p: String| p@) == pieces);
                let mapped = pieces.map_values(|p: Seq<char>| ValueModel::Str(p));
                assert(pieces.len() == parts@.len()) by {
                    assert(pieces == parts@.map_values(|p: String| p@));
                }
                assert(mapped.len() == pieces.len());
                assert(v@ is Tuple);
                let ms = v@->Tuple_0;
                assert(ms.len() == gitems.len());
                assert(gitems.len() == parts@.len());
                assert(ms.len() == mapped.len());
                assert forall|i: int| 0 <= i < ms.len() implies ms[i] == mapped[i] by {
                    assert(gitems[i]@ == ValueModel::Str(parts@[i]@));
                    assert(pieces[i] == parts@[i]@);
                    assert(mapped[i] == ValueModel::Str(pieces[i]));
                }
                assert(ms =~= mapped);
                assert(v@ == ValueModel::Tuple(mapped));
            }
            Some(v)
        },
    }
}

} // verus!
