//! The function registry's one builtin: the membership predicate `in`,
//! callable inside expressions.  Against a tuple haystack it tests typed
//! equality with any element; against a string haystack it tests whether the
//! needle, which must itself be a string, occurs as a substring; any other
//! haystack is a type fault.  Equality is across the whole tagged value,
//! type included: the integer two does not equal the string of the digit
//! two, and floats count as equal exactly on their bit patterns.

use vstd::prelude::*;

use crate::engine::err_expected_pair;
use crate::engine::err_expected_string;
use crate::engine::err_expected_tuple;
use crate::engine::err_type_error;
use crate::engine::typed_to_value;
use crate::engine::value_model;
use crate::engine::value_to_typed;
use crate::value::TypedValue;
use crate::value::ValueModel;

verus! {

broadcast use vstd::std_specs::vec::axiom_vec_decreases_to_view, vstd::seq::axiom_seq_index_decreases;

/// Does the sequence hold the value, equal in type and content?
pub open spec fn typed_contains(items: Seq<ValueModel>, needle: ValueModel) -> bool {
    exists|i: int| 0 <= i < items.len() && items[i] == needle
}

/// Does `needle` occur in `hay` as a contiguous run?
pub open spec fn is_substring(needle: Seq<char>, hay: Seq<char>) -> bool {
    exists|k: int|
        0 <= k <= hay.len() - needle.len() && #[trigger] hay.subrange(k, k + needle.len())
            == needle
}

/// A piece stands inside any concatenation around it.
pub proof fn lemma_substring_of_concat(pre: Seq<char>, mid: Seq<char>, post: Seq<char>)
    ensures
        is_substring(mid, pre + mid + post),
{
    let all = pre + mid + post;
    let k = pre.len() as int;
    assert(all.subrange(k, k + mid.len() as int) =~= mid);
    assert(0 <= k <= all.len() - mid.len());
}

/// What the membership predicate yields for a needle and a haystack:
/// a boolean, or nothing for an unsupported combination.
pub open spec fn in_result(needle: ValueModel, hay: ValueModel) -> Option<bool> {
    match hay {
        ValueModel::Tuple(items) => Some(typed_contains(items, needle)),
        ValueModel::Str(h) => match needle {
            ValueModel::Str(nd) => Some(is_substring(nd, h)),
            _ => None,
        },
        _ => None,
    }
}

/// What the membership call yields for its packed argument: the argument
/// must be a pair, and the pair must suit `in_result`.
pub open spec fn in_outcome(m: ValueModel) -> Option<bool> {
    match m {
        ValueModel::Tuple(args) => if args.len() == 2 {
            in_result(args[0], args[1])
        } else {
            None
        },
        _ => None,
    }
}

/// Why a membership call failed.
#[derive(Debug, PartialEq, Eq)]
pub enum MembershipFault {
    /// The haystack is a string but the needle is not.
    NeedleKind,
    /// The haystack is neither a tuple nor a string.
    HaystackKind,
}

/// Are the two tagged values equal, in type and content?
#[verifier::loop_isolation(false)]
pub fn typed_eq(a: &TypedValue, b: &TypedValue) -> (r: bool)
    ensures
        r == (a@ == b@),
    decreases *a,
{
    match (a, b) {
        (TypedValue::Str(x), TypedValue::Str(y)) => {
            let xo = x.as_str().to_owned();
            let yo = y.as_str().to_owned();
            xo == yo
        },
        (TypedValue::Int(x), TypedValue::Int(y)) => x == y,
        (TypedValue::Float(x), TypedValue::Float(y)) => x == y,
        (TypedValue::Bool(x), TypedValue::Bool(y)) => x == y,
        (TypedValue::Empty, TypedValue::Empty) => true,
        (TypedValue::Tuple(xs), TypedValue::Tuple(ys)) => {
            let ghost ma = a@->Tuple_0;
            let ghost mb = b@->Tuple_0;
            if xs.len() != ys.len() {
                proof {
                    assert(ma.len() != mb.len());
                }
                false
            } else {
                let mut i: usize = 0;
                while i < xs.len()
                    invariant
                        i <= xs@.len(),
                        xs@.len() == ys@.len(),
                        ma.len() == xs@.len(),
                        mb.len() == ys@.len(),
                        forall|m: int| 0 <= m < ma.len() ==> ma[m] == value_model_at(xs@, m),
                        forall|m: int| 0 <= m < mb.len() ==> mb[m] == value_model_at(ys@, m),
                        forall|m: int| 0 <= m < i ==> ma[m] == mb[m],
                    decreases xs@.len() - i,
                {
                    let eq = typed_eq(&xs[i], &ys[i]);
                    if !eq {
                        proof {
                            assert(ma[i as int] != mb[i as int]);
                        }
                        return false;
                    }
                    i += 1;
                }
                proof {
                    assert(ma =~= mb);
                }
                true
            }
        },
        _ => {
            proof {
                assert(a@ != b@);
            }
            false
        },
    }
}

/// The model of one element of a vector of tagged values.
pub open spec fn value_model_at(s: Seq<TypedValue>, i: int) -> ValueModel {
    crate::value::value_model_of(s[i])
}

/// Does `needle` occur in `hay`?  A plain character scan.
#[verifier::loop_isolation(false)]
pub fn str_contains(hay: &str, needle: &str) -> (r: bool)
    ensures
        r == is_substring(needle@, hay@),
{
    let hn: usize = hay.unicode_len();
    let nn: usize = needle.unicode_len();
    if nn > hn {
        return false;
    }
    if nn == 0 {
        proof {
            assert(hay@.subrange(0, 0 + needle@.len() as int) =~= needle@);
        }
        return true;
    }
    let mut k: usize = 0;
    while k <= hn - nn
        invariant
            hn == hay@.len(),
            nn == needle@.len(),
            nn <= hn,
            k <= hn - nn + 1,
            forall|m: int|
                0 <= m < k ==> #[trigger] hay@.subrange(m, m + needle@.len()) != needle@,
        decreases hn + 1 - k,
    {
        let mut j: usize = 0;
        let mut hit: bool = true;
        while j < nn
            invariant
                hn == hay@.len(),
                nn == needle@.len(),
                k + nn <= hn,
                j <= nn,
                hit ==> forall|m: int| 0 <= m < j ==> hay@[k + m] == needle@[m],
                !hit ==> hay@.subrange(k as int, k + needle@.len()) != needle@,
            decreases nn - j,
        {
            if hit {
                let hc = hay.get_char(k + j);
                let nc = needle.get_char(j);
                if hc != nc {
                    proof {
                        let sub = hay@.subrange(k as int, k + needle@.len());
                        assert(sub[j as int] == hay@[k + j]);
                    }
                    hit = false;
                }
            }
            j += 1;
        }
        if hit {
            proof {
                assert(hay@.subrange(k as int, k + needle@.len()) =~= needle@);
            }
            return true;
        }
        k += 1;
    }
    proof {
        assert forall|m: int| 0 <= m <= hay@.len() - needle@.len() implies #[trigger] hay@.subrange(
            m,
            m + needle@.len(),
        ) != needle@ by {
            assert(m < k);
        }
    }
    false
}

/// The membership predicate on tagged values.
#[verifier::loop_isolation(false)]
pub fn in_predicate(needle: &TypedValue, haystack: &TypedValue) -> (r: Result<
    bool,
    MembershipFault,
>)
    ensures
        match r {
            Ok(b) => in_result(needle@, haystack@) == Some(b),
            Err(MembershipFault::NeedleKind) => haystack@ is Str && !(needle@ is Str),
            Err(MembershipFault::HaystackKind) => !(haystack@ is Str) && !(haystack@ is Tuple),
        },
        r is Ok <==> in_result(needle@, haystack@) is Some,
{
    match haystack {
        TypedValue::Tuple(items) => {
            let ghost ms = haystack@->Tuple_0;
            let mut i: usize = 0;
            while i < items.len()
                invariant
                    i <= items@.len(),
                    ms.len() == items@.len(),
                    forall|m: int| 0 <= m < ms.len() ==> ms[m] == value_model_at(items@, m),
                    forall|m: int| 0 <= m < i ==> ms[m] != needle@,
                decreases items@.len() - i,
            {
                if typed_eq(needle, &items[i]) {
                    proof {
                        assert(ms[i as int] == needle@);
                        assert(typed_contains(ms, needle@));
                    }
                    return Ok(true);
                }
                i += 1;
            }
            proof {
                if typed_contains(ms, needle@) {
                    let w = choose|w: int| 0 <= w < ms.len() && ms[w] == needle@;
                    assert(ms[w] != needle@);
                }
            }
            Ok(false)
        },
        TypedValue::Str(h) => match needle {
            TypedValue::Str(nd) => Ok(str_contains(h.as_str(), nd.as_str())),
            _ => Err(MembershipFault::NeedleKind),
        },
        _ => Err(MembershipFault::HaystackKind),
    }
}

/// The membership call as the engine sees it: unpack the argument pair,
/// apply the predicate, pack the answer or the matching engine error.
pub fn in_call(argument: &evalexpr::Value) -> (r: Result<
    evalexpr::Value,
    evalexpr::EvalexprError,
>)
    ensures
        ({
            let out = in_outcome(value_model(*argument));
            match out {
                Some(b) => r matches Ok(v) && value_model(v) == ValueModel::Bool(b),
                None => r is Err,
            }
        }),
{
    let t = value_to_typed(argument);
    match &t {
        TypedValue::Tuple(items) => {
            if items.len() == 2 {
                proof {
                    let args = t@->Tuple_0;
                    assert(args[0] == value_model_at(items@, 0));
                    assert(args[1] == value_model_at(items@, 1));
                }
                match in_predicate(&items[0], &items[1]) {
                    Ok(b) => Ok(typed_to_value(&TypedValue::Bool(b))),
                    Err(MembershipFault::NeedleKind) => Err(err_expected_string(&items[0])),
                    Err(MembershipFault::HaystackKind) => Err(err_type_error(&items[1])),
                }
            } else {
                Err(err_expected_pair(&t))
            }
        },
        _ => Err(err_expected_tuple(&t)),
    }
}

} // verus!
