//! Per-row evaluation contexts.  A row's referenced columns are coerced and
//! bound under the names `c1`, `c2`, ... (1-based, as the expression syntax
//! has them); a missing field binds the empty value.  The mock context used
//! to validate an expression binds one representative value per declared
//! type instead.

use vstd::prelude::*;

use crate::coerce::coerce_field;
use crate::coerce::coerce_model;
use crate::digits::dec_rep;
use crate::digits::lemma_dec_rep_injective;
use crate::digits::u64_to_string;
use crate::engine::create_function_context;
use crate::engine::ctx_has_in;
use crate::engine::ctx_set_value;
use crate::engine::ctx_vars;
use crate::value::ColumnType;
use crate::value::TypedValue;
use crate::value::ValueModel;

verus! {

/// The variable name of a 0-based column: `c` and the 1-based number.
pub open spec fn col_var_name(col: int) -> Seq<char> {
    seq!['c'] + dec_rep(col + 1)
}

/// Different columns have different variable names.
pub proof fn lemma_col_var_name_injective(a: int, b: int)
    requires
        a >= 0,
        b >= 0,
        col_var_name(a) == col_var_name(b),
    ensures
        a == b,
{
    assert(col_var_name(a).skip(1) =~= dec_rep(a + 1));
    assert(col_var_name(b).skip(1) =~= dec_rep(b + 1));
    lemma_dec_rep_injective(a + 1, b + 1);
}

/// What one referenced column binds for a row: the coercion of its field
/// under its declared type; a column past the declared types is a don't-care
/// column; a column past the row's fields binds the empty value.
pub open spec fn field_binding(fields: Seq<Seq<char>>, types: Seq<ColumnType>, c: int) -> Option<
    ValueModel,
> {
    let t = if 0 <= c < types.len() {
        types[c]
    } else {
        ColumnType::Empty
    };
    if 0 <= c < fields.len() {
        coerce_model(fields[c], t)
    } else {
        Some(ValueModel::Empty)
    }
}

/// Does every referenced column of the row coerce?
pub open spec fn row_coercible(fields: Seq<Seq<char>>, types: Seq<ColumnType>, cols: Seq<
    int,
>) -> bool {
    forall|i: int| 0 <= i < cols.len() ==> #[trigger] field_binding(fields, types, cols[i]) is Some
}

/// The bindings a row produces for the referenced columns, in order.
pub open spec fn row_bindings(fields: Seq<Seq<char>>, types: Seq<ColumnType>, cols: Seq<
    int,
>) -> Map<Seq<char>, ValueModel>
    decreases cols.len(),
{
    if cols.len() == 0 {
        Map::empty()
    } else {
        let prev = row_bindings(fields, types, cols.drop_last());
        match field_binding(fields, types, cols.last()) {
            Some(v) => prev.insert(col_var_name(cols.last()), v),
            None => prev,
        }
    }
}

/// Every name bound by a row belongs to a referenced column.
pub proof fn lemma_row_bindings_dom(fields: Seq<Seq<char>>, types: Seq<ColumnType>, cols: Seq<
    int,
>)
    ensures
        forall|x: Seq<char>|
            #[trigger] row_bindings(fields, types, cols).dom().contains(x) ==> exists|m: int|
                0 <= m < cols.len() && x == col_var_name(cols[m]),
    decreases cols.len(),
{
    if cols.len() > 0 {
        lemma_row_bindings_dom(fields, types, cols.drop_last());
        assert forall|x: Seq<char>|
            #[trigger] row_bindings(fields, types, cols).dom().contains(x) implies exists|m: int|
            0 <= m < cols.len() && x == col_var_name(cols[m]) by {
            if x != col_var_name(cols.last()) {
                assert(row_bindings(fields, types, cols.drop_last()).dom().contains(x));
                let m = choose|m: int|
                    0 <= m < cols.drop_last().len() && x == col_var_name(cols.drop_last()[m]);
                assert(cols[m] == cols.drop_last()[m]);
            } else {
                assert(cols[cols.len() - 1] == cols.last());
            }
        }
    }
}

/// The variable name of a column, as a string.
pub fn col_name_string(col: usize) -> (s: String)
    requires
        col < usize::MAX,
    ensures
        s@ == col_var_name(col as int),
{
    proof {
        reveal_strlit("c");
    }
    let mut s = String::from_str("c");
    let num = u64_to_string((col + 1) as u64);
    s.append(num.as_str());
    proof {
        assert(s@ =~= col_var_name(col as int));
    }
    s
}

/// Builds the evaluation context for one row, already split into fields:
/// every referenced column is coerced and bound.  On the first referenced
/// column whose field does not coerce, the position of that column in
/// `cols` is returned instead.
#[verifier::loop_isolation(false)]
pub fn context_for_line(fields: &Vec<String>, column_types: &Vec<ColumnType>, cols: &Vec<
    usize,
>) -> (r: Result<evalexpr::HashMapContext, usize>)
    requires
        forall|a: int, b: int| 0 <= a < b < cols@.len() ==> cols@[a] != cols@[b],
        forall|a: int| 0 <= a < cols@.len() ==> #[trigger] cols@[a] < usize::MAX,
    ensures
        ({
            let fs = fields@.map_values(|f: String| f@);
            let cs = cols@.map_values(|c: usize| c as int);
            match r {
                Ok(c) => ctx_vars(c) == row_bindings(fs, column_types@, cs) && ctx_has_in(c)
                    && row_coercible(fs, column_types@, cs),
                Err(j) => j < cols@.len() && field_binding(fs, column_types@, cols@[j as int] as int)
                    is None && (forall|m: int|
                    0 <= m < j ==> #[trigger] field_binding(fs, column_types@, cols@[m] as int)
                        is Some),
            }
        }),
        r is Ok <==> row_coercible(
            fields@.map_values(|f: String| f@),
            column_types@,
            cols@.map_values(|c: usize| c as int),
        ),
{
    let ghost fs = fields@.map_values(|f: String| f@);
    let ghost cs = cols@.map_values(|c: usize| c as int);
    let mut ctx = create_function_context();
    let mut i: usize = 0;
    proof {
        assert(cs.subrange(0, 0) =~= Seq::<int>::empty());
    }
    while i < cols.len()
        invariant
            i <= cols@.len(),
            ctx_vars(ctx) == row_bindings(fs, column_types@, cs.subrange(0, i as int)),
            ctx_has_in(ctx),
            forall|m: int| 0 <= m < i ==> #[trigger] field_binding(fs, column_types@, cs[m])
                is Some,
        decreases cols@.len() - i,
    {
        let col = cols[i];
        let t: ColumnType = if col < column_types.len() {
            column_types[col]
        } else {
            ColumnType::Empty
        };
        let v: TypedValue = if col < fields.len() {
            match coerce_field(fields[col].as_str(), t) {
                Some(v) => v,
                None => {
                    proof {
                        assert(fs[col as int] == fields@[col as int]@);
                        assert(cs[i as int] == col as int);
                        assert(field_binding(fs, column_types@, cols@[i as int] as int) is None);
                        assert forall|m: int| 0 <= m < i implies #[trigger] field_binding(
                            fs,
                            column_types@,
                            cols@[m] as int,
                        ) is Some by {
                            assert(cs[m] == cols@[m] as int);
                            assert(field_binding(fs, column_types@, cs[m]) is Some);
                        }
                    }
                    return Err(i);
                },
            }
        } else {
            TypedValue::Empty
        };
        proof {
            assert(field_binding(fs, column_types@, cs[i as int]) == Some(v@));
        }
        let name = col_name_string(col);
        let ghost pre = cs.subrange(0, i as int);
        proof {
            lemma_row_bindings_dom(fs, column_types@, pre);
            if row_bindings(fs, column_types@, pre).dom().contains(name@) {
                let m = choose|m: int|
                    0 <= m < pre.len() && name@ == col_var_name(pre[m]);
                lemma_col_var_name_injective(pre[m], col as int);
                assert(cols@[m] == cols@[i as int]);
            }
        }
        let ok = ctx_set_value(&mut ctx, &name, &v);
        proof {
            assert(ok);
            let now = cs.subrange(0, i + 1);
            assert(now.drop_last() =~= pre);
            assert(now.last() == cs[i as int]);
            assert(ctx_vars(ctx) == row_bindings(fs, column_types@, now));
        }
        i += 1;
    }
    proof {
        assert(cs.subrange(0, cols@.len() as int) =~= cs);
    }
    Ok(ctx)
}

/// The bit pattern of the float one tenth, the representative value for a
/// float column in the mock row.
pub const MOCK_FLOAT_BITS: u64 = 0x3FB999999999999A;

/// The representative value bound for one declared type in the mock row:
/// a truthy boolean, a nonzero float, the zero integer, a sample string,
/// the empty value, a three-element sample list.
pub open spec fn mock_binding(t: ColumnType) -> ValueModel {
    match t {
        ColumnType::Bool => ValueModel::Bool(true),
        ColumnType::Float => ValueModel::Float(MOCK_FLOAT_BITS),
        ColumnType::Int => ValueModel::Int(0),
        ColumnType::Str => ValueModel::Str("string"@),
        ColumnType::Empty => ValueModel::Empty,
        ColumnType::List => ValueModel::Tuple(
            seq![ValueModel::Str("1"@), ValueModel::Str("2"@), ValueModel::Str("3"@)],
        ),
    }
}

/// What one referenced column binds in the mock row.
pub open spec fn mock_col_binding(types: Seq<ColumnType>, c: int) -> ValueModel {
    if 0 <= c < types.len() {
        mock_binding(types[c])
    } else {
        ValueModel::Empty
    }
}

/// The mock row's bindings for the referenced columns.
pub open spec fn mock_bindings(types: Seq<ColumnType>, cols: Seq<int>) -> Map<Seq<char>, ValueModel>
    decreases cols.len(),
{
    if cols.len() == 0 {
        Map::empty()
    } else {
        mock_bindings(types, cols.drop_last()).insert(
            col_var_name(cols.last()),
            mock_col_binding(types, cols.last()),
        )
    }
}

/// Every name bound by the mock row belongs to a referenced column.
pub proof fn lemma_mock_bindings_dom(types: Seq<ColumnType>, cols: Seq<int>)
    ensures
        forall|x: Seq<char>|
            #[trigger] mock_bindings(types, cols).dom().contains(x) ==> exists|m: int|
                0 <= m < cols.len() && x == col_var_name(cols[m]),
    decreases cols.len(),
{
    if cols.len() > 0 {
        lemma_mock_bindings_dom(types, cols.drop_last());
        assert forall|x: Seq<char>|
            #[trigger] mock_bindings(types, cols).dom().contains(x) implies exists|m: int|
            0 <= m < cols.len() && x == col_var_name(cols[m]) by {
            if x != col_var_name(cols.last()) {
                assert(mock_bindings(types, cols.drop_last()).dom().contains(x));
                let m = choose|m: int|
                    0 <= m < cols.drop_last().len() && x == col_var_name(cols.drop_last()[m]);
                assert(cols[m] == cols.drop_last()[m]);
            } else {
                assert(cols[cols.len() - 1] == cols.last());
            }
        }
    }
}

/// The representative value for one declared type.
fn mock_value(t: ColumnType) -> (v: TypedValue)
    ensures
        v@ == mock_binding(t),
{
    match t {
        ColumnType::Bool => TypedValue::Bool(true),
        ColumnType::Float => TypedValue::Float(MOCK_FLOAT_BITS),
        ColumnType::Int => TypedValue::Int(0),
        ColumnType::Str => {
            proof {
                reveal_strlit("string");
            }
            TypedValue::Str(String::from_str("string"))
        },
        ColumnType::Empty => TypedValue::Empty,
        ColumnType::List => {
            proof {
                reveal_strlit("1");
                reveal_strlit("2");
                reveal_strlit("3");
            }
            let mut items: Vec<TypedValue> = Vec::new();
            items.push(TypedValue::Str(String::from_str("1")));
            items.push(TypedValue::Str(String::from_str("2")));
            items.push(TypedValue::Str(String::from_str("3")));
            let ghost gitems = items@;
            let v = TypedValue::Tuple(items);
            proof {
                reveal_with_fuel(crate::value::value_model_of, 3);
                assert(gitems.len() == 3);
                assert(v@->Tuple_0.len() == 3);
                assert(v@->Tuple_0[0] == ValueModel::Str("1"@));
                assert(v@->Tuple_0[1] == ValueModel::Str("2"@));
                assert(v@->Tuple_0[2] == ValueModel::Str("3"@));
                assert(v@->Tuple_0 =~= mock_binding(ColumnType::List)->Tuple_0);
                assert(v@ == mock_binding(ColumnType::List));
            }
            v
        },
    }
}

/// Builds the mock evaluation context: one representative value per
/// referenced column, under the row's naming.
#[verifier::loop_isolation(false)]
pub fn mock_context(column_types: &Vec<ColumnType>, cols: &Vec<usize>) -> (c:
    evalexpr::HashMapContext)
    requires
        forall|a: int, b: int| 0 <= a < b < cols@.len() ==> cols@[a] != cols@[b],
        forall|a: int| 0 <= a < cols@.len() ==> #[trigger] cols@[a] < usize::MAX,
    ensures
        ctx_vars(c) == mock_bindings(column_types@, cols@.map_values(|c: usize| c as int)),
        ctx_has_in(c),
{
    let ghost cs = cols@.map_values(|c: usize| c as int);
    let mut ctx = create_function_context();
    let mut i: usize = 0;
    proof {
        assert(cs.subrange(0, 0) =~= Seq::<int>::empty());
    }
    while i < cols.len()
        invariant
            i <= cols@.len(),
            ctx_vars(ctx) == mock_bindings(column_types@, cs.subrange(0, i as int)),
            ctx_has_in(ctx),
        decreases cols@.len() - i,
    {
        let col = cols[i];
        let t: ColumnType = if col < column_types.len() {
            column_types[col]
        } else {
            ColumnType::Empty
        };
        let v = mock_value(t);
        proof {
            assert(mock_col_binding(column_types@, cs[i as int]) == v@);
        }
        let name = col_name_string(col);
        let ghost pre = cs.subrange(0, i as int);
        proof {
            lemma_mock_bindings_dom(column_types@, pre);
            if mock_bindings(column_types@, pre).dom().contains(name@) {
                let m = choose|m: int|
                    0 <= m < pre.len() && name@ == col_var_name(pre[m]);
                lemma_col_var_name_injective(pre[m], col as int);
                assert(cols@[m] == cols@[i as int]);
            }
        }
        let ok = ctx_set_value(&mut ctx, &name, &v);
        proof {
            assert(ok);
            let now = cs.subrange(0, i + 1);
            assert(now.drop_last() =~= pre);
            assert(now.last() == cs[i as int]);
            assert(ctx_vars(ctx) == mock_bindings(column_types@, now));
        }
        i += 1;
    }
    proof {
        assert(cs.subrange(0, cols@.len() as int) =~= cs);
    }
    ctx
}

} // verus!
