//! The trusted boundary: declarations and thin wrappers for the expression
//! engine (the `evalexpr` crate) and for standard-library float parsing.
//! Everything the library believes about outside code is stated here and
//! nowhere else; each wrapper's doc comment names what it relies on.

use vstd::prelude::*;

use crate::value::TypedValue;
use crate::value::ValueModel;

verus! {

#[verifier::external_type_specification]
#[verifier::external_body]
pub struct ExNode(evalexpr::Node);

#[verifier::external_type_specification]
#[verifier::external_body]
pub struct ExHashMapContext(evalexpr::HashMapContext);

#[verifier::external_type_specification]
#[verifier::external_body]
pub struct ExValue(evalexpr::Value);

#[verifier::external_type_specification]
#[verifier::external_body]
pub struct ExEvalexprError(evalexpr::EvalexprError);

/// What Rust's float parser makes of a text: the IEEE 754 bit pattern of the
/// parsed value, or nothing when the text is not a float literal.  The
/// result depends on the text alone.
pub uninterp spec fn float_parse(s: Seq<char>) -> Option<u64>;

/// Relies on the standard library's float parsing (through `str::parse` at
/// `evalexpr::FloatType`, the engine's 64-bit float type): deterministic in
/// its input; the bit pattern carries the parsed value.
#[verifier::external_body]
pub fn parse_float_bits(s: &str) -> (r: Option<u64>)
    ensures
        r == float_parse(s@),
{
    match s.parse::<evalexpr::FloatType>() {
        Ok(f) => Some(f.to_bits()),
        Err(_) => None,
    }
}

/// Whether the engine's grammar accepts a text; deterministic in the text.
pub uninterp spec fn expr_parses(s: Seq<char>) -> bool;

/// The text an operator tree was built from.
pub uninterp spec fn node_source(n: evalexpr::Node) -> Seq<char>;

/// The model of an engine value: the library's tagged value, with floats as
/// their bit patterns.
pub uninterp spec fn value_model(v: evalexpr::Value) -> ValueModel;

/// The variable bindings a context holds, by name.
pub uninterp spec fn ctx_vars(c: evalexpr::HashMapContext) -> Map<Seq<char>, ValueModel>;

/// Whether the context is as this library builds it: its function table
/// holds exactly the membership predicate under the name `in`, and the
/// engine's own builtin function table is disabled.
pub uninterp spec fn ctx_has_in(c: evalexpr::HashMapContext) -> bool;

/// What evaluating a tree built from a text yields against bindings, in a
/// context as this library builds it: a boolean, or nothing when evaluation
/// fails or yields a non-boolean.  The engine is deterministic in the tree
/// and the bindings: it is built without its optional randomness feature,
/// its builtin function table is disabled, and variables are only looked
/// up, never iterated.
pub uninterp spec fn eval_model(expr: Seq<char>, vars: Map<Seq<char>, ValueModel>) -> Option<bool>;

/// Relies on `evalexpr::build_operator_tree`: it parses the text into a
/// tree and is deterministic in the text; an error carries the parser's
/// message.  A deeply nested text can exhaust the stack in the engine's
/// recursive tree builder.
#[verifier::external_body]
pub fn compile_tree(expression: &str) -> (r: Result<evalexpr::Node, String>)
    ensures
        r is Ok <==> expr_parses(expression@),
        r matches Ok(n) ==> node_source(n) == expression@,
{
    match evalexpr::build_operator_tree(expression) {
        Ok(n) => Ok(n),
        Err(e) => Err(e.to_string()),
    }
}

/// Relies on `Node::eval_boolean_with_context`: evaluation walks the tree
/// against the context's bindings and functions and is deterministic in
/// them; a non-boolean result is reported as an error.  An error carries
/// the engine's message.  With the builtin function table disabled (which
/// `ctx_has_in` asks for), every evaluation step returns instead of
/// aborting: argument counts are checked before indexing, integer
/// arithmetic is checked, and assignment on the immutable path is a
/// returned error.  A deeply nested expression can still exhaust the stack
/// in the engine's recursive walker.
#[verifier::external_body]
pub fn eval_boolean(node: &evalexpr::Node, ctx: &evalexpr::HashMapContext) -> (r: Result<
    bool,
    String,
>)
    requires
        ctx_has_in(*ctx),
    ensures
        match r {
            Ok(b) => eval_model(node_source(*node), ctx_vars(*ctx)) == Some(b),
            Err(_) => eval_model(node_source(*node), ctx_vars(*ctx)) is None,
        },
{
    match node.eval_boolean_with_context(ctx) {
        Ok(b) => Ok(b),
        Err(e) => Err(e.to_string()),
    }
}

/// Relies on `HashMapContext::new`, `set_function` and
/// `set_builtin_functions_disabled` (each of which always succeeds on this
/// context): a fresh context with no variables, with this library's
/// membership predicate registered as `in`, and with the engine's builtin
/// function table disabled — several builtins can abort on malformed
/// arguments, so expressions are limited to the operators and `in`.
#[verifier::external_body]
pub fn create_function_context() -> (c: evalexpr::HashMapContext)
    ensures
        (ctx_vars(c) == Map::<Seq<char>, ValueModel>::empty()),
        ctx_has_in(c),
{
    let mut ctx = evalexpr::HashMapContext::new();
    let f = evalexpr::Function::new(|arg: &evalexpr::Value| crate::membership::in_call(arg));
    match evalexpr::ContextWithMutableFunctions::set_function(&mut ctx, String::from("in"), f) {
        _ => {},
    }
    match evalexpr::Context::set_builtin_functions_disabled(&mut ctx, true) {
        _ => {},
    }
    ctx
}

/// Relies on `HashMapContext::set_value`: it binds the name to the value;
/// an existing binding of another kind is refused and nothing changes.
#[verifier::external_body]
pub fn ctx_set_value(ctx: &mut evalexpr::HashMapContext, name: &String, v: &TypedValue) -> (r:
    bool)
    ensures
        r == (!ctx_vars(*old(ctx)).dom().contains(name@) || ctx_vars(*old(ctx))[name@].same_kind(
            v@,
        )),
        r ==> ctx_vars(*final(ctx)) == ctx_vars(*old(ctx)).insert(name@, v@),
        !r ==> ctx_vars(*final(ctx)) == ctx_vars(*old(ctx)),
        ctx_has_in(*final(ctx)) == ctx_has_in(*old(ctx)),
{
    evalexpr::ContextWithMutableVariables::set_value(ctx, name.clone(), typed_to_value(v)).is_ok()
}

/// Converts an engine value to the library's tagged value, variant by
/// variant; floats become their bit patterns.
#[verifier::external_body]
pub fn value_to_typed(v: &evalexpr::Value) -> (r: TypedValue)
    ensures
        r@ == value_model(*v),
{
    match v {
        evalexpr::Value::String(s) => TypedValue::Str(s.clone()),
        evalexpr::Value::Float(f) => TypedValue::Float(f.to_bits()),
        evalexpr::Value::Int(i) => TypedValue::Int(*i),
        evalexpr::Value::Boolean(b) => TypedValue::Bool(*b),
        evalexpr::Value::Tuple(items) => TypedValue::Tuple(
            items.iter().map(value_to_typed).collect(),
        ),
        evalexpr::Value::Empty => TypedValue::Empty,
    }
}

/// Converts the library's tagged value to an engine value, variant by
/// variant; bit patterns become floats again.
#[verifier::external_body]
pub fn typed_to_value(v: &TypedValue) -> (r: evalexpr::Value)
    ensures
        value_model(r) == v@,
{
    match v {
        TypedValue::Str(s) => evalexpr::Value::String(s.clone()),
        TypedValue::Float(bits) => evalexpr::Value::Float(evalexpr::FloatType::from_bits(*bits)),
        TypedValue::Int(i) => evalexpr::Value::Int(*i),
        TypedValue::Bool(b) => evalexpr::Value::Boolean(*b),
        TypedValue::Tuple(items) => evalexpr::Value::Tuple(
            items.iter().map(typed_to_value).collect(),
        ),
        TypedValue::Empty => evalexpr::Value::Empty,
    }
}

/// Relies on `EvalexprError::expected_tuple`: the error for a haystack that
/// is neither a tuple nor fit for the membership call's argument shape.
#[verifier::external_body]
pub fn err_expected_tuple(actual: &TypedValue) -> evalexpr::EvalexprError {
    evalexpr::EvalexprError::expected_tuple(typed_to_value(actual))
}

/// Relies on `EvalexprError::expected_fixed_len_tuple`: the error for an
/// argument tuple that does not hold exactly two values.
#[verifier::external_body]
pub fn err_expected_pair(actual: &TypedValue) -> evalexpr::EvalexprError {
    evalexpr::EvalexprError::expected_fixed_len_tuple(2, typed_to_value(actual))
}

/// Relies on `EvalexprError::expected_string`: the error for a needle that
/// is not a string while the haystack is one.
#[verifier::external_body]
pub fn err_expected_string(actual: &TypedValue) -> evalexpr::EvalexprError {
    evalexpr::EvalexprError::expected_string(typed_to_value(actual))
}

/// Relies on constructing `EvalexprError::TypeError`: the error for a
/// haystack kind the membership predicate does not support.
#[verifier::external_body]
pub fn err_type_error(actual: &TypedValue) -> evalexpr::EvalexprError {
    evalexpr::EvalexprError::TypeError {
        expected: vec![evalexpr::ValueType::Tuple, evalexpr::ValueType::String],
        actual: typed_to_value(actual),
    }
}

} // verus!
