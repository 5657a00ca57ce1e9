use vstd::prelude::*;
use vstd::string::StrSliceExecFns;

use crate::ast::{Expression, FunctionDecl, Operator, Parameter, Program, Statement};
use crate::environment::{Environment, NativeFunction, NativeHandler, StructDef};
use crate::ops::{
    add_values, binop_m, bitand_values, bitor_values, bitxor_values, div_values, ge_values,
    gt_values, le_values, lemma_model_num, lemma_numeric_type, lt_values, mul_values, rem_values,
    shl_values, shr_values, sub_values,
};
use crate::path::{path_value, Path};
use crate::render::display_value;
use crate::stack::{lookup_scopes, Stack};
use crate::store::{place_at, ValueStore};
use crate::text::concat_strings;
use crate::types::{same_type, Type};
use crate::values::{model, same_value, spec_is_number, ValModel, Value, ValueError};

verus! {

/// The unified error taxonomy of the evaluator. Errors are values returned
/// from every fallible operation; nothing panics or unwinds.
#[derive(Debug)]
pub enum InterpreterError {
    // typing
    InvalidValue(Value, Type),
    InvalidType(Type),
    InvalidCastType(Type),
    ExpectedValueType(Type),
    UnknownType,
    // arithmetic
    OverflowOccured,
    DivByZero,
    CastError,
    OperationNotNumberType,
    OperationNotSameType(Type, Type),
    // shape
    OutOfBounds(usize, usize),
    InvalidStructValue(Value),
    StructureNotFound(String),
    StructureFieldNotFound(String, String),
    InvalidStructField(u16),
    // name resolution
    VariableNotFound(u16),
    VariableAlreadyExists(u16),
    FunctionNotFound(String, Vec<Type>),
    // control
    ExpectedPath,
    ExpectedValue,
    ExpectedAssignOperator,
    UnexpectedOperator,
    UnexpectedInstanceType,
    ExpectedInstanceType,
    NoScopeFound,
    NoExitCode,
    FunctionEntry(bool, bool),
    // resource bounds
    LimitReached,
    RecursiveLimitReached,
}

impl InterpreterError {
    /// Lift an error of the value layer into the evaluator's taxonomy.
    pub fn from_value_error(e: ValueError) -> (r: InterpreterError)
        ensures
            r == InterpreterError::spec_from_value_error(e),
    {
        match e {
            ValueError::InvalidValue(v, t) => InterpreterError::InvalidValue(v, t),
            ValueError::InvalidStructValue(v) => InterpreterError::InvalidStructValue(v),
            ValueError::InvalidCastType(t) => InterpreterError::InvalidCastType(t),
            ValueError::OperationNotNumberType => InterpreterError::OperationNotNumberType,
            ValueError::SubValue => InterpreterError::ExpectedPath,
            ValueError::OptionalIsNull => InterpreterError::ExpectedValue,
            ValueError::OutOfBounds(i, l) => InterpreterError::OutOfBounds(i, l),
            ValueError::CastError => InterpreterError::CastError,
            ValueError::UnknownType => InterpreterError::UnknownType,
        }
    }

    /// The mapping from value-layer errors into the evaluator's taxonomy.
    pub open spec fn spec_from_value_error(e: ValueError) -> InterpreterError {
        match e {
            ValueError::InvalidValue(v, t) => InterpreterError::InvalidValue(v, t),
            ValueError::InvalidStructValue(v) => InterpreterError::InvalidStructValue(v),
            ValueError::InvalidCastType(t) => InterpreterError::InvalidCastType(t),
            ValueError::OperationNotNumberType => InterpreterError::OperationNotNumberType,
            ValueError::SubValue => InterpreterError::ExpectedPath,
            ValueError::OptionalIsNull => InterpreterError::ExpectedValue,
            ValueError::OutOfBounds(i, l) => InterpreterError::OutOfBounds(i, l),
            ValueError::CastError => InterpreterError::CastError,
            ValueError::UnknownType => InterpreterError::UnknownType,
        }
    }
}


/// The mutable counters of one evaluation: the expression meter and the
/// recursion depth, each with its bound.
pub struct EvalState {
    pub count_expr: u64,
    pub max_expr: u64,
    pub recursive: u16,
    pub max_recursive: u16,
}

/// The evaluation budget that is left: every step of the evaluator consumes
/// from it, which is what bounds every evaluation.
pub open spec fn fuel(st: EvalState) -> nat {
    if st.count_expr < st.max_expr {
        (st.max_expr - st.count_expr) as nat
    } else {
        0
    }
}

/// What every evaluator step preserves of the counters: the bounds are fixed,
/// the meter only grows and the recursion depth is restored.
pub open spec fn st_frame(pre: EvalState, post: EvalState) -> bool {
    &&& post.max_expr == pre.max_expr
    &&& post.max_recursive == pre.max_recursive
    &&& post.count_expr >= pre.count_expr
    &&& post.recursive == pre.recursive
}

/// Charge one step of the expression meter: the counter always moves (it
/// saturates at its largest value), and a counter that would exceed the bound
/// is the `LimitReached` outcome.
fn increment_state(st: &mut EvalState) -> (r: Result<(), InterpreterError>)
    ensures
        final(st).max_expr == old(st).max_expr,
        final(st).max_recursive == old(st).max_recursive,
        final(st).recursive == old(st).recursive,
        old(st).count_expr < u64::MAX ==> final(st).count_expr == old(st).count_expr + 1,
        old(st).count_expr == u64::MAX ==> final(st).count_expr == u64::MAX,
        final(st).count_expr >= old(st).count_expr,
        r is Ok <==> old(st).count_expr + 1 <= old(st).max_expr,
        r is Ok ==> final(st).count_expr == old(st).count_expr + 1,
        r is Err ==> (r == Err::<(), InterpreterError>(InterpreterError::LimitReached)
            && final(st).count_expr >= final(st).max_expr),
{
    let full = st.count_expr >= st.max_expr;
    if st.count_expr < u64::MAX {
        st.count_expr = st.count_expr + 1;
    }
    if full {
        return Err(InterpreterError::LimitReached);
    }
    Ok(())
}

/// Map an error of the value layer into the evaluator's taxonomy.
fn lift_err<T>(e: ValueError) -> (r: Result<T, InterpreterError>)
    ensures
        r == Err::<T, InterpreterError>(InterpreterError::spec_from_value_error(e)),
        !(r matches Err(InterpreterError::LimitReached)),
{
    Err(InterpreterError::from_value_error(e))
}

/// The declared parameter types of a user function.
pub open spec fn param_seq(ps: Seq<Parameter>) -> Seq<Type> {
    ps.map_values(|p: Parameter| p.value_type)
}

/// Whether a list of argument types fits a list of declared parameter types.
pub open spec fn args_compatible(args: Seq<Type>, params: Seq<Type>) -> bool {
    args.len() == params.len() && (forall|i: int|
        0 <= i < args.len() ==> (#[trigger] args[i]).spec_compatible_with(params[i]))
}

/// Whether the caller's receiver situation fits the function's: a plain call
/// needs a plain function, a method call needs a method of a compatible
/// receiver type.
pub open spec fn receiver_compatible(caller: Option<Type>, f: Option<Type>) -> bool {
    match (caller, f) {
        (Option::None, Option::None) => true,
        (Option::Some(a), Option::Some(b)) => a.spec_compatible_with(b),
        _ => false,
    }
}

/// Whether a user function answers a call.
pub open spec fn custom_matches(
    f: FunctionDecl,
    name: Seq<char>,
    for_type: Option<Type>,
    args: Seq<Type>,
) -> bool {
    f.name@ == name && receiver_compatible(for_type, f.for_type) && args_compatible(
        args,
        param_seq(f.parameters@),
    )
}

/// Whether a native function answers a call.
pub open spec fn native_matches(
    f: NativeFunction,
    name: Seq<char>,
    for_type: Option<Type>,
    args: Seq<Type>,
) -> bool {
    f.name@ == name && receiver_compatible(for_type, f.for_type) && args_compatible(
        args,
        f.parameters@,
    )
}

/// A resolved function: a position in the program's table or in the
/// environment's table.
#[derive(Clone, Copy, Debug, PartialEq, Eq, Structural)]
pub enum FunctionRef {
    Custom(usize),
    Native(usize),
}

/// The first user function from the given position on that answers the call.
pub open spec fn first_custom(
    fns: Seq<FunctionDecl>,
    i: int,
    name: Seq<char>,
    for_type: Option<Type>,
    args: Seq<Type>,
) -> Option<int>
    decreases fns.len() - i,
{
    if i < 0 || i >= fns.len() {
        None
    } else if custom_matches(fns[i], name, for_type, args) {
        Some(i)
    } else {
        first_custom(fns, i + 1, name, for_type, args)
    }
}

/// The first native function from the given position on that answers the call.
pub open spec fn first_native(
    fns: Seq<NativeFunction>,
    i: int,
    name: Seq<char>,
    for_type: Option<Type>,
    args: Seq<Type>,
) -> Option<int>
    decreases fns.len() - i,
{
    if i < 0 || i >= fns.len() {
        None
    } else if native_matches(fns[i], name, for_type, args) {
        Some(i)
    } else {
        first_native(fns, i + 1, name, for_type, args)
    }
}

/// A successful search yields an index in range whose function answers the
/// call.
pub proof fn lemma_first_custom(
    fns: Seq<FunctionDecl>,
    i0: int,
    name: Seq<char>,
    for_type: Option<Type>,
    args: Seq<Type>,
)
    requires
        first_custom(fns, i0, name, for_type, args) is Some,
    ensures
        first_custom(fns, i0, name, for_type, args) matches Some(i) ==> (i0 <= i < fns.len()
            && custom_matches(fns[i], name, for_type, args)),
    decreases fns.len() - i0,
{
    if i0 >= 0 && i0 < fns.len() && !custom_matches(fns[i0], name, for_type, args) {
        lemma_first_custom(fns, i0 + 1, name, for_type, args);
    }
}

/// How a call resolves: the program's functions are searched before the
/// environment's, and the first match wins.
pub open spec fn spec_resolve(
    program: Program,
    env: Environment,
    name: Seq<char>,
    for_type: Option<Type>,
    args: Seq<Type>,
) -> Option<FunctionRef> {
    match first_custom(program.functions@, 0, name, for_type, args) {
        Some(i) => Some(FunctionRef::Custom(i as usize)),
        None => match first_native(env.functions@, 0, name, for_type, args) {
            Some(i) => Some(FunctionRef::Native(i as usize)),
            None => None,
        },
    }
}

/// Check whether a list of argument types fits a list of parameter types.
fn check_args(args: &Vec<Type>, params: &Vec<Type>) -> (r: bool)
    ensures
        r == args_compatible(args@, params@),
{
    if args.len() != params.len() {
        return false;
    }
    let mut i: usize = 0;
    while i < args.len()
        invariant
            args@.len() == params@.len(),
            i <= args@.len(),
            forall|j: int| 0 <= j < i ==> (#[trigger] args@[j]).spec_compatible_with(params@[j]),
        decreases args@.len() - i,
    {
        if !args[i].is_compatible_with(&params[i]) {
            return false;
        }
        i = i + 1;
    }
    true
}

/// Check whether the receiver situations fit.
fn check_receiver(caller: &Option<Type>, f: &Option<Type>) -> (r: bool)
    ensures
        r == receiver_compatible(*caller, *f),
{
    match (caller, f) {
        (Option::None, Option::None) => true,
        (Option::Some(a), Option::Some(b)) => a.is_compatible_with(b),
        _ => false,
    }
}

/// Check whether a list of declared parameters fits a list of argument types.
fn check_params(args: &Vec<Type>, params: &Vec<Parameter>) -> (r: bool)
    ensures
        r == args_compatible(args@, param_seq(params@)),
{
    if args.len() != params.len() {
        proof {
            assert(param_seq(params@).len() == params@.len());
        }
        return false;
    }
    let mut i: usize = 0;
    while i < args.len()
        invariant
            args@.len() == params@.len(),
            i <= args@.len(),
            forall|j: int|
                0 <= j < i ==> (#[trigger] args@[j]).spec_compatible_with(
                    param_seq(params@)[j],
                ),
        decreases args@.len() - i,
    {
        proof {
            assert(param_seq(params@)[i as int] == params@[i as int].value_type);
        }
        if !args[i].is_compatible_with(&params[i].value_type) {
            return false;
        }
        i = i + 1;
    }
    proof {
        assert(param_seq(params@).len() == params@.len());
    }
    true
}

/// Resolve a call: the program's table first, the environment's second, the
/// first function whose name, receiver and parameter types fit.
fn get_function(
    program: &Program,
    env: &Environment,
    name: &String,
    for_type: &Option<Type>,
    parameters: &Vec<Type>,
) -> (r: Result<FunctionRef, InterpreterError>)
    ensures
        spec_resolve(*program, *env, name@, *for_type, parameters@) matches Some(fref) ==> r
            == Ok::<FunctionRef, InterpreterError>(fref),
        spec_resolve(*program, *env, name@, *for_type, parameters@) is None ==> (r matches Err(e)
            && e matches InterpreterError::FunctionNotFound(n, _) && n@ == name@),
{
    let mut i: usize = 0;
    while i < program.functions.len()
        invariant
            i <= program.functions@.len(),
            first_custom(program.functions@, 0, name@, *for_type, parameters@) == first_custom(
                program.functions@,
                i as int,
                name@,
                *for_type,
                parameters@,
            ),
        decreases program.functions@.len() - i,
    {
        let f = &program.functions[i];
        if f.name.eq(name) && check_receiver(for_type, &f.for_type) && check_params(
            parameters,
            &f.parameters,
        ) {
            return Ok(FunctionRef::Custom(i));
        }
        i = i + 1;
    }
    let mut k: usize = 0;
    while k < env.functions.len()
        invariant
            k <= env.functions@.len(),
            first_custom(program.functions@, 0, name@, *for_type, parameters@) is None,
            first_native(env.functions@, 0, name@, *for_type, parameters@) == first_native(
                env.functions@,
                k as int,
                name@,
                *for_type,
                parameters@,
            ),
        decreases env.functions@.len() - k,
    {
        let f = &env.functions[k];
        if f.name.eq(name) && check_receiver(for_type, &f.for_type) && check_args(
            parameters,
            &f.parameters,
        ) {
            return Ok(FunctionRef::Native(k));
        }
        k = k + 1;
    }
    let mut attempted: Vec<Type> = Vec::new();
    let mut j: usize = 0;
    while j < parameters.len()
        decreases parameters@.len() - j,
    {
        attempted.push(parameters[j].duplicate());
        j = j + 1;
    }
    Err(InterpreterError::FunctionNotFound(name.clone(), attempted))
}


/// The type of a runtime value, in the evaluator's taxonomy.
pub fn value_type(v: &Value) -> (r: Result<Type, InterpreterError>)
    ensures
        crate::values::type_of(*v) matches Some(t) ==> r == Ok::<Type, InterpreterError>(t),
        crate::values::type_of(*v) is None ==> r == Err::<Type, InterpreterError>(
            InterpreterError::UnknownType,
        ),
{
    match v.get_type() {
        Ok(t) => Ok(t),
        Err(e) => lift_err(e),
    }
}

/// The receiver type used for method resolution: a null or empty optional
/// receiver unifies as a wildcard optional, an empty array as a wildcard
/// array, so that the generic native methods resolve on them.
fn receiver_value_type(v: &Value) -> (r: Result<Type, InterpreterError>)
    ensures
        !(r matches Err(InterpreterError::LimitReached)),
{
    match v {
        Value::Null => Ok(Type::Optional(Box::new(Type::T))),
        Value::Optional(o) => {
            if o.is_none() {
                Ok(Type::Optional(Box::new(Type::T)))
            } else {
                value_type(v)
            }
        },
        Value::Array(values) => {
            if values.len() == 0 {
                Ok(Type::Array(Box::new(Type::T)))
            } else {
                value_type(v)
            }
        },
        _ => value_type(v),
    }
}

/// Whether every value of a list has a determined type.
pub open spec fn all_typed(vals: Seq<Value>) -> bool {
    forall|i: int| 0 <= i < vals.len() ==> crate::values::type_of(#[trigger] vals[i]) is Some
}

/// The types of a list of values whose types are all determined.
pub open spec fn spec_arg_types(vals: Seq<Value>) -> Seq<Type> {
    Seq::new(
        vals.len(),
        |i: int|
            match crate::values::type_of(vals[i]) {
                Some(t) => t,
                None => Type::Any,
            },
    )
}

/// The types of a list of argument values, used for function resolution.
fn get_types_from_values(values: &Vec<Value>) -> (r: Result<Vec<Type>, InterpreterError>)
    ensures
        !(r matches Err(InterpreterError::LimitReached)),
        r matches Ok(ts) ==> (all_typed(values@) && ts@ == spec_arg_types(values@)),
        r is Err ==> (!all_typed(values@) && r == Err::<Vec<Type>, InterpreterError>(
            InterpreterError::UnknownType,
        )),
{
    let mut types: Vec<Type> = Vec::new();
    let mut i: usize = 0;
    while i < values.len()
        invariant
            i <= values@.len(),
            types@.len() == i,
            forall|j: int|
                0 <= j < i ==> crate::values::type_of(#[trigger] values@[j]) == Some(types@[j]),
        decreases values@.len() - i,
    {
        match value_type(&values[i]) {
            Ok(t) => types.push(t),
            Err(e) => {
                return Err(e);
            },
        }
        i = i + 1;
    }
    proof {
        assert(types@ =~= spec_arg_types(values@));
    }
    Ok(types)
}

/// Read the boolean a path refers to.
fn path_bool(p: &Path, store: &ValueStore) -> (r: Result<bool, InterpreterError>)
    ensures
        !(r matches Err(InterpreterError::LimitReached)),
{
    match p.as_bool(store) {
        Ok(b) => Ok(b),
        Err(e) => lift_err(e),
    }
}

/// Materialise the value a path refers to.
fn path_owned(p: Path, store: &ValueStore) -> (r: Result<Value, InterpreterError>)
    ensures
        !(r matches Err(InterpreterError::LimitReached)),
        path_value(p, *store) matches Some(m) ==> (r matches Ok(v) && model(v) == m),
{
    match p.into_owned(store) {
        Ok(v) => Ok(v),
        Err(e) => lift_err(e),
    }
}

/// What each native behaviour returns, given the model of the value its
/// receiver refers to: the optional inspectors answer the emptiness question
/// (null counts as the empty optional), the extractors hand the inner value
/// or the fallback out, and the length of a string or an array is its element
/// count.
pub open spec fn native_call_pinned(
    handler: NativeHandler,
    m: ValModel,
    params: Seq<Value>,
    r: Result<Option<Value>, InterpreterError>,
) -> bool {
    match handler {
        NativeHandler::OptionalIsNone => match m {
            ValModel::Optional(o) => r == Ok::<Option<Value>, InterpreterError>(
                Some(Value::Boolean(o is None)),
            ),
            ValModel::Null => r == Ok::<Option<Value>, InterpreterError>(
                Some(Value::Boolean(true)),
            ),
            _ => r is Err,
        },
        NativeHandler::OptionalIsSome => match m {
            ValModel::Optional(o) => r == Ok::<Option<Value>, InterpreterError>(
                Some(Value::Boolean(o is Some)),
            ),
            ValModel::Null => r == Ok::<Option<Value>, InterpreterError>(
                Some(Value::Boolean(false)),
            ),
            _ => r is Err,
        },
        NativeHandler::OptionalUnwrap => match m {
            ValModel::Optional(o) => match o {
                Some(inner) => (r matches Ok(s) && s matches Some(v) && model(v) == *inner),
                None => r == Err::<Option<Value>, InterpreterError>(
                    InterpreterError::ExpectedValue,
                ),
            },
            _ => r is Err,
        },
        NativeHandler::OptionalUnwrapOr => {
            if params.len() != 1 {
                r is Err
            } else {
                match m {
                    ValModel::Optional(o) => match o {
                        Some(inner) => (r matches Ok(s) && s matches Some(v) && model(v)
                            == *inner),
                        None => (r matches Ok(s) && s matches Some(v) && model(v) == model(
                            params[0],
                        )),
                    },
                    ValModel::Null => (r matches Ok(s) && s matches Some(v) && model(v) == model(
                        params[0],
                    )),
                    _ => r is Err,
                }
            }
        },
        NativeHandler::Len => match m {
            ValModel::Str(cs) => cs.len() <= u32::MAX ==> r == Ok::<Option<Value>, InterpreterError>(
                Some(Value::U32(cs.len() as u32)),
            ),
            ValModel::Array(es) => es.len() <= u32::MAX ==> r == Ok::<
                Option<Value>,
                InterpreterError,
            >(Some(Value::U32(es.len() as u32))),
            _ => r is Err,
        },
    }
}

/// A location a handle can read, it can also overwrite with the emptied
/// optional.
proof fn lemma_write_back_defined(p: &Path, store: &ValueStore)
    ensures
        *p matches Path::Wrapper(c, idxs) ==> ((c as int) < store.cells@.len() && place_at(
            model(store.cells@[c as int]),
            idxs@,
        ) is Some ==> crate::store::updated_at(
            model(store.cells@[c as int]),
            idxs@,
            model(Value::Optional(Option::None)),
        ) is Some),
{
    match p {
        Path::Wrapper(c, idxs) => {
            if (*c as int) < store.cells@.len() && place_at(
                model(store.cells@[*c as int]),
                idxs@,
            ) is Some {
                crate::store::lemma_updated_at_defined(
                    model(store.cells@[*c as int]),
                    idxs@,
                    model(Value::Optional(Option::None)),
                );
            }
        },
        _ => (),
    }
}

/// After the successful write of the emptied optional, the handle's place
/// reads as the empty optional.
proof fn lemma_emptied_place(p: &Path, pre: ValueStore, post: ValueStore)
    requires
        *p matches Path::Wrapper(c, q) ==> ((c as int) < pre.cells@.len() && post.cells@.len()
            == pre.cells@.len() && (crate::store::updated_at(
            model(pre.cells@[c as int]),
            q@,
            model(Value::Optional(Option::None)),
        ) matches Some(u) ==> model(post.cells@[c as int]) == u) && crate::store::updated_at(
            model(pre.cells@[c as int]),
            q@,
            model(Value::Optional(Option::None)),
        ) is Some),
    ensures
        *p matches Path::Wrapper(c, q) ==> path_value(*p, post) == Some(
            ValModel::Optional(Option::None),
        ),
{
    match p {
        Path::Wrapper(c, q) => {
            let u = crate::store::updated_at(
                model(pre.cells@[*c as int]),
                q@,
                model(Value::Optional(Option::None)),
            );
            crate::store::lemma_read_after_update(
                model(pre.cells@[*c as int]),
                q@,
                model(Value::Optional(Option::None)),
                u.unwrap(),
            );
        },
        _ => (),
    }
}

/// Run one of the registered native behaviours: the optional inspectors and
/// extractors, and the length of a string or an array.
fn call_native(
    handler: NativeHandler,
    receiver: Option<Path>,
    params: Vec<Value>,
    store: &mut ValueStore,
) -> (r: Result<Option<Value>, InterpreterError>)
    ensures
        final(store).cells@.len() == old(store).cells@.len(),
        !(r matches Err(InterpreterError::LimitReached)),
        receiver is None ==> r == Err::<Option<Value>, InterpreterError>(
            InterpreterError::ExpectedInstanceType,
        ),
        receiver matches Some(p) ==> (path_value(p, *old(store)) matches Some(m)
            ==> native_call_pinned(handler, m, params@, r)),
        (handler == NativeHandler::OptionalUnwrap || handler == NativeHandler::OptionalUnwrapOr)
            ==> (receiver matches Some(p) ==> (p matches Path::Wrapper(_, _) ==> (path_value(
            p,
            *old(store),
        ) matches Some(m2) ==> (m2 matches ValModel::Optional(Some(_)) ==> (r is Ok ==> path_value(
            p,
            *final(store),
        ) == Some(ValModel::Optional(Option::None))))))),
{
    let ghost pre_store = *store;
    match handler {
        NativeHandler::OptionalIsNone => {
            match receiver {
                Option::Some(p) => {
                    let v = match p.into_owned(store) {
                        Ok(v) => v,
                        Err(e) => {
                            return lift_err(e);
                        },
                    };
                    match v.as_optional(&Type::T) {
                        Ok(o) => Ok(Some(Value::Boolean(o.is_none()))),
                        Err(e) => lift_err(e),
                    }
                },
                Option::None => Err(InterpreterError::ExpectedInstanceType),
            }
        },
        NativeHandler::OptionalIsSome => {
            match receiver {
                Option::Some(p) => {
                    let v = match p.into_owned(store) {
                        Ok(v) => v,
                        Err(e) => {
                            return lift_err(e);
                        },
                    };
                    match v.as_optional(&Type::T) {
                        Ok(o) => Ok(Some(Value::Boolean(o.is_some()))),
                        Err(e) => lift_err(e),
                    }
                },
                Option::None => Err(InterpreterError::ExpectedInstanceType),
            }
        },
        NativeHandler::OptionalUnwrap => {
            match receiver {
                Option::Some(mut p) => {
                    let mut v = match p.as_ref(store) {
                        Ok(vr) => vr.duplicate(),
                        Err(e) => {
                            return lift_err(e);
                        },
                    };
                    let inner = match v.take_from_optional(&Type::T) {
                        Ok(inner) => inner,
                        Err(e) => {
                            return lift_err(e);
                        },
                    };
                    // the optional is emptied in place, as every alias sees
                    proof {
                        lemma_write_back_defined(&p, store);
                    }
                    match p.write(store, Value::Optional(Option::None)) {
                        Ok(()) => {
                            proof {
                                lemma_emptied_place(&p, pre_store, *store);
                            }
                            Ok(Some(inner))
                        },
                        Err(e) => lift_err(e),
                    }
                },
                Option::None => Err(InterpreterError::ExpectedInstanceType),
            }
        },
        NativeHandler::OptionalUnwrapOr => {
            match receiver {
                Option::Some(mut p) => {
                    if params.len() != 1 {
                        return Err(InterpreterError::ExpectedValue);
                    }
                    let mut params = params;
                    let fallback = params.remove(0);
                    let mut v = match p.as_ref(store) {
                        Ok(vr) => vr.duplicate(),
                        Err(e) => {
                            return lift_err(e);
                        },
                    };
                    if v.is_null() {
                        return Ok(Some(fallback));
                    }
                    let taken = match v.take_optional() {
                        Ok(t) => t,
                        Err(e) => {
                            return lift_err(e);
                        },
                    };
                    match taken {
                        Option::Some(inner) => {
                            proof {
                                lemma_write_back_defined(&p, store);
                            }
                            match p.write(store, Value::Optional(Option::None)) {
                                Ok(()) => {
                                    proof {
                                        lemma_emptied_place(&p, pre_store, *store);
                                    }
                                    Ok(Some(inner))
                                },
                                Err(e) => lift_err(e),
                            }
                        },
                        Option::None => Ok(Some(fallback)),
                    }
                },
                Option::None => Err(InterpreterError::ExpectedInstanceType),
            }
        },
        NativeHandler::Len => {
            match receiver {
                Option::Some(p) => {
                    let v = match p.into_owned(store) {
                        Ok(v) => v,
                        Err(e) => {
                            return lift_err(e);
                        },
                    };
                    match v {
                        Value::String(s) => {
                            let n = s.as_str().unicode_len();
                            if n <= u32::MAX as usize {
                                Ok(Some(Value::U32(n as u32)))
                            } else {
                                Err(InterpreterError::CastError)
                            }
                        },
                        Value::Array(values) => {
                            proof {
                                crate::values::lemma_models_len(values@);
                            }
                            if values.len() <= u32::MAX as usize {
                                Ok(Some(Value::U32(values.len() as u32)))
                            } else {
                                Err(InterpreterError::CastError)
                            }
                        },
                        other => Err(
                            InterpreterError::InvalidValue(other, Type::String),
                        ),
                    }
                },
                Option::None => Err(InterpreterError::ExpectedInstanceType),
            }
        },
    }
}


/// What the truncating cast of the cast expression returns: low bits of a
/// number at a numeric target, the decimal or word rendering at the string
/// target, a zero test at the boolean target, and, per the unified cast
/// domain, an optional target wraps the cast to its inner type with null
/// becoming the empty optional; any other target is refused.
#[verifier::opaque]
pub open spec fn spec_cast(m: ValModel, t: Type) -> Result<ValModel, InterpreterError>
    decreases t,
{
    match t {
        Type::U8 | Type::U16 | Type::U32 | Type::U64 | Type::U128 | Type::U256 => {
            let w = (if t is U8 {
                8nat
            } else if t is U16 {
                16nat
            } else if t is U32 {
                32nat
            } else if t is U64 {
                64nat
            } else if t is U128 {
                128nat
            } else {
                256nat
            });
            if crate::cast::model_is_number(m) {
                Ok(crate::cast::make_num(w, crate::cast::model_num(m) % crate::cast::width_bound(w)))
            } else {
                match m {
                    ValModel::Bool(b) => Ok(crate::cast::make_num(w, if b {
                        1nat
                    } else {
                        0nat
                    })),
                    _ => Err(InterpreterError::InvalidCastType(t)),
                }
            }
        },
        Type::String => match m {
            ValModel::U8(_) | ValModel::U16(_) | ValModel::U32(_) | ValModel::U64(_)
            | ValModel::U128(_) | ValModel::U256(_) => Ok(
                ValModel::Str(crate::text::dec_chars(crate::cast::model_num(m))),
            ),
            ValModel::Str(cs) => Ok(ValModel::Str(cs)),
            ValModel::Bool(b) => Ok(ValModel::Str(crate::text::bool_chars(b))),
            _ => Err(InterpreterError::InvalidCastType(Type::String)),
        },
        Type::Bool => match m {
            ValModel::Bool(b) => Ok(ValModel::Bool(b)),
            _ => if crate::cast::model_is_number(m) {
                Ok(ValModel::Bool(crate::cast::model_num(m) != 0))
            } else {
                Err(InterpreterError::InvalidCastType(Type::Bool))
            },
        },
        Type::Optional(inner) => if m is Null {
            Ok(ValModel::Optional(Option::None))
        } else {
            match spec_cast(m, *inner) {
                Ok(v) => Ok(ValModel::Optional(Option::Some(Box::new(v)))),
                Err(e) => Err(e),
            }
        },
        _ => Err(InterpreterError::InvalidType(t)),
    }
}

/// Cast a value for the cast expression: the truncating family, with the
/// optional targets of the unified cast domain.
fn cast_value(v: Value, target: &Type) -> (r: Result<Value, InterpreterError>)
    ensures
        crate::ops::lift(r) == spec_cast(model(v), *target),
        !(r matches Err(InterpreterError::LimitReached)),
    decreases target,
{
    proof {
        reveal(spec_cast);
        lemma_model_num(v);
        if crate::values::spec_is_number(v) {
            crate::ops::lemma_num_value_bound(v);
            assert(crate::cast::width_bound(crate::values::num_width(v))
                <= crate::u256::pow256()) by {
                assert(crate::u256::pow128() <= crate::u256::pow256()) by (nonlinear_arith)
                    requires
                        crate::u256::pow256() == crate::u256::pow128() * crate::u256::pow128(),
                        crate::u256::pow128() >= 1,
                ;
            };
            vstd::arithmetic::div_mod::lemma_small_mod(
                crate::values::num_value(v),
                crate::u256::pow256(),
            );
        }
    }
    match target {
        Type::U8 => match v.cast_to_u8() {
            Ok(n) => Ok(Value::U8(n)),
            Err(e) => lift_err(e),
        },
        Type::U16 => match v.cast_to_u16() {
            Ok(n) => Ok(Value::U16(n)),
            Err(e) => lift_err(e),
        },
        Type::U32 => match v.cast_to_u32() {
            Ok(n) => Ok(Value::U32(n)),
            Err(e) => lift_err(e),
        },
        Type::U64 => match v.cast_to_u64() {
            Ok(n) => Ok(Value::U64(n)),
            Err(e) => lift_err(e),
        },
        Type::U128 => match v.cast_to_u128() {
            Ok(n) => Ok(Value::U128(n)),
            Err(e) => lift_err(e),
        },
        Type::U256 => match v.cast_to_u256() {
            Ok(n) => Ok(Value::U256(n)),
            Err(e) => lift_err(e),
        },
        Type::String => match v.cast_to_string() {
            Ok(cs) => Ok(Value::String(cs)),
            Err(e) => lift_err(e),
        },
        Type::Bool => match v.cast_to_bool() {
            Ok(b) => Ok(Value::Boolean(b)),
            Err(e) => lift_err(e),
        },
        Type::Optional(inner) => {
            if v.is_null() {
                Ok(Value::Optional(Option::None))
            } else {
                match cast_value(v, inner) {
                    Ok(c) => Ok(Value::Optional(Option::Some(Box::new(c)))),
                    Err(e) => Err(e),
                }
            }
        },
        t => Err(InterpreterError::InvalidType(t.duplicate())),
    }
}

/// What a pure binary operator yields on two typed operand models, mirroring
/// the evaluator's dispatch: equality compares types and structure, `+` with
/// a string side concatenates the display forms, the arithmetic, shift and
/// ordering operators go through the numeric semantics, and anything else
/// (the bitwise operators among them) is outside the pinned fragment.
pub open spec fn pure_op_result(op: Operator, ta: Type, tb: Type, a: ValModel, b: ValModel) -> Option<
    Result<ValModel, InterpreterError>,
> {
    match op {
        Operator::Equals => Some(Ok(ValModel::Bool(ta == tb && a == b))),
        Operator::NotEquals => Some(Ok(ValModel::Bool(!(ta == tb && a == b)))),
        Operator::Plus => if ta == Type::String || tb == Type::String {
            Some(
                Ok(
                    ValModel::Str(
                        crate::render::display_chars(a) + crate::render::display_chars(b),
                    ),
                ),
            )
        } else {
            Some(binop_m(op, a, b))
        },
        Operator::Minus | Operator::Multiply | Operator::Divide | Operator::Modulo
        | Operator::BitwiseLeft | Operator::BitwiseRight | Operator::GreaterThan
        | Operator::GreaterOrEqual | Operator::LessThan | Operator::LessOrEqual => Some(
            binop_m(op, a, b),
        ),
        _ => None,
    }
}

/// The pure fragment of the expression grammar: literals of a determined
/// type, combined by the operators of `pure_op_result`, the short-circuit
/// conjunction and disjunction over booleans, negation, the ternary and
/// parenthesised sub-expressions. On this fragment the evaluator's outcome
/// and its exact number of meter steps are functions of the expression alone,
/// and the contracts of the evaluator pin both.
pub open spec fn eval_pure(e: Expression) -> Option<(Result<ValModel, InterpreterError>, nat)>
    decreases e,
{
    match e {
        Expression::Value(v) => if crate::values::type_of(v) is Some {
            Some((Ok(model(v)), 1))
        } else {
            None
        },
        Expression::SubExpression(inner) => match eval_pure(*inner) {
            Some((res, si)) => Some((res, 1 + si)),
            None => None,
        },
        Expression::Cast(inner, t) => match eval_pure(*inner) {
            Some((Ok(mi), si)) => Some((spec_cast(mi, t), 1 + si)),
            Some((Err(ei), si)) => Some((Err(ei), 1 + si)),
            None => None,
        },
        Expression::IsNot(inner) => match eval_pure(*inner) {
            Some((Ok(mi), si)) => match mi {
                ValModel::Bool(b) => Some((Ok(ValModel::Bool(!b)), 1 + si)),
                _ => None,
            },
            Some((Err(ei), si)) => Some((Err(ei), 1 + si)),
            None => None,
        },
        Expression::Ternary(c, l, r) => match eval_pure(*c) {
            Some((Ok(mc), sc)) => match mc {
                ValModel::Bool(b) => {
                    let branch = if b {
                        *l
                    } else {
                        *r
                    };
                    match eval_pure(branch) {
                        Some((res, sb)) => Some((res, 1 + sc + sb)),
                        None => None,
                    }
                },
                _ => None,
            },
            Some((Err(ec), sc)) => Some((Err(ec), 1 + sc)),
            None => None,
        },
        Expression::Operator(op, l, r) => if op.spec_is_assignation() {
            None
        } else {
            match eval_pure(*l) {
            Some((Ok(ma), sl)) => {
                match crate::values::model_type_of(ma) {
                    None => Some((Err(InterpreterError::UnknownType), 1 + sl)),
                    Some(ta) => {
                        if op == Operator::And || op == Operator::Or {
                            match ma {
                                ValModel::Bool(lb) => {
                                    let take_right = (op == Operator::And && lb) || (op
                                        == Operator::Or && !lb);
                                    if !take_right {
                                        // the right operand is skipped and charges nothing
                                        Some((Ok(ValModel::Bool(op == Operator::Or)), 1 + sl))
                                    } else {
                                        match eval_pure(*r) {
                                            Some((Ok(mb), sr)) => match mb {
                                                ValModel::Bool(rb) => Some(
                                                    (Ok(ValModel::Bool(rb)), 1 + sl + sr),
                                                ),
                                                _ => None,
                                            },
                                            Some((Err(er), sr)) => Some((Err(er), 1 + sl + sr)),
                                            None => None,
                                        }
                                    }
                                },
                                _ => None,
                            }
                        } else {
                            match eval_pure(*r) {
                                Some((Ok(mb), sr)) => match crate::values::model_type_of(mb) {
                                    None => Some(
                                        (Err(InterpreterError::UnknownType), 1 + sl + sr),
                                    ),
                                    Some(tb) => match pure_op_result(op, ta, tb, ma, mb) {
                                        Some(res) => Some((res, 1 + sl + sr)),
                                        None => None,
                                    },
                                },
                                Some((Err(er), sr)) => Some((Err(er), 1 + sl + sr)),
                                None => None,
                            }
                        }
                    },
                }
            },
            Some((Err(el), sl)) => Some((Err(el), 1 + sl)),
            None => None,
            }
        },
        _ => None,
    }
}

/// Adding a value and then subtracting it is the identity/// Adding a value and then subtracting it is the identity on the arithmetic
/// fragment: for two numbers of one width whose sum fits the width, the
/// expression `(a + b) - b` evaluates to `a` exactly; when the sum passes the
/// width, the addition's outcome is exactly the overflow error. Together with
/// the fragment clause of `execute_expression`, this pins the evaluator's
/// behaviour on such expressions.
pub proof fn lemma_eval_add_sub_roundtrip(a: Value, b: Value)
    requires
        crate::ops::same_width_numbers(a, b),
    ensures
        crate::values::num_value(a) + crate::values::num_value(b) < crate::cast::width_bound(
            crate::values::num_width(a),
        ) ==> eval_pure(
            Expression::Operator(
                Operator::Minus,
                Box::new(
                    Expression::Operator(
                        Operator::Plus,
                        Box::new(Expression::Value(a)),
                        Box::new(Expression::Value(b)),
                    ),
                ),
                Box::new(Expression::Value(b)),
            ),
        ) == Some((Ok::<ValModel, InterpreterError>(model(a)), 5nat)),
        crate::values::num_value(a) + crate::values::num_value(b) >= crate::cast::width_bound(
            crate::values::num_width(a),
        ) ==> eval_pure(
            Expression::Operator(
                Operator::Plus,
                Box::new(Expression::Value(a)),
                Box::new(Expression::Value(b)),
            ),
        ) == Some(
            (Err::<ValModel, InterpreterError>(InterpreterError::OverflowOccured), 3nat),
        ),
{
    reveal_with_fuel(eval_pure, 4);
    lemma_model_num(a);
    lemma_model_num(b);
    lemma_numeric_type(a, b);
    crate::values::lemma_type_of_model(a);
    crate::values::lemma_type_of_model(b);
    crate::ops::lemma_num_value_bound(a);
    crate::ops::lemma_num_value_bound(b);
    let w = crate::values::num_width(a);
    let x = crate::values::num_value(a);
    let y = crate::values::num_value(b);
    if x + y < crate::cast::width_bound(w) {
        crate::ops::lemma_make_num_props(w, x + y);
        crate::ops::lemma_make_num_props(w, x);
        crate::ops::lemma_make_num_model(a);
    }
}

/// Evaluate an expression and insist on a value./// Evaluate an expression and insist on a value.
fn execute_expression_and_expect_value(
    program: &Program,
    env: &Environment,
    st: &mut EvalState,
    stack: &mut Stack,
    store: &mut ValueStore,
    constants: &Vec<(u16, Value)>,
    on_value: Option<Path>,
    expr: &Expression,
) -> (r: Result<Value, InterpreterError>)
    ensures
        st_frame(*old(st), *final(st)),
        r is Ok ==> final(st).count_expr > old(st).count_expr,
        r is Ok ==> old(st).count_expr + 1 <= old(st).max_expr,
        r == Err::<Value, InterpreterError>(InterpreterError::LimitReached) ==> final(st).count_expr
            >= final(st).max_expr,
        final(stack).scopes@.len() == old(stack).scopes@.len(),
        final(stack).loop_break == old(stack).loop_break,
        final(stack).loop_continue == old(stack).loop_continue,
        eval_pure(*expr) matches Some(oc) ==> ({
            &&& (old(st).count_expr + oc.1 <= old(st).max_expr ==> (final(st).count_expr == old(
                st,
            ).count_expr + oc.1 && (match oc.0 {
                Ok(m) => (r matches Ok(v) && model(v) == m),
                Err(e2) => r == Err::<Value, InterpreterError>(e2),
            })))
            &&& (old(st).count_expr + oc.1 > old(st).max_expr ==> r == Err::<
                Value,
                InterpreterError,
            >(InterpreterError::LimitReached))
        }),
    decreases fuel(*st), *expr, 2int,
{
    match execute_expression(program, env, st, stack, store, constants, on_value, expr) {
        Ok(Option::Some(p)) => path_owned(p, store),
        Ok(Option::None) => Err(InterpreterError::ExpectedValue),
        Err(e) => Err(e),
    }
}

/// Resolve an expression as an addressable place: a variable, an element of
/// one, or a chain of the two; anything else is no place.
fn get_from_path(
    program: &Program,
    env: &Environment,
    st: &mut EvalState,
    stack: &mut Stack,
    store: &mut ValueStore,
    constants: &Vec<(u16, Value)>,
    on_value: Option<Path>,
    expr: &Expression,
) -> (r: Result<Path, InterpreterError>)
    ensures
        st_frame(*old(st), *final(st)),
        r == Err::<Path, InterpreterError>(InterpreterError::LimitReached) ==> final(st).count_expr
            >= final(st).max_expr,
        final(stack).scopes@.len() == old(stack).scopes@.len(),
        final(stack).loop_break == old(stack).loop_break,
        final(stack).loop_continue == old(stack).loop_continue,
        !(*expr matches Expression::Variable(_)) && !(*expr matches Expression::ArrayCall(_, _))
            && !(*expr matches Expression::Path(_, _)) ==> r == Err::<Path, InterpreterError>(
            InterpreterError::ExpectedPath,
        ),
        *expr matches Expression::Variable(id) ==> (on_value is None ==> ({
            &&& (lookup_scopes(old(stack).scopes@, id) is None ==> (r == Err::<
                Path,
                InterpreterError,
            >(InterpreterError::VariableNotFound(id)) && final(stack).scopes@ == old(
                stack,
            ).scopes@ && final(store).cells@ == old(store).cells@))
            &&& (lookup_scopes(old(stack).scopes@, id) matches Some(pb) ==> ({
                &&& r is Ok
                &&& old(store).cells@.len() <= final(store).cells@.len()
                &&& (forall|j: int|
                    0 <= j < old(store).cells@.len() ==> final(store).cells@[j] == old(
                        store,
                    ).cells@[j])
                &&& (lookup_scopes(final(stack).scopes@, id) matches Some(stored) && stored
                    matches Path::Wrapper(c, q) && (r matches Ok(handed) && handed
                    matches Path::Wrapper(c2, q2) && c2 == c && q2@ == q@) && path_value(
                    stored,
                    *final(store),
                ) == path_value(pb, *old(store)))
                &&& (forall|id2: u16|
                    id2 != id ==> lookup_scopes(final(stack).scopes@, id2) == lookup_scopes(
                        old(stack).scopes@,
                        id2,
                    ))
            }))
        })),
    decreases fuel(*st), *expr, 3int,
{
    match expr {
        Expression::Variable(id) => {
            match on_value {
                Option::Some(p) => {
                    match p.get_sub_variable(*id as usize, store) {
                        Ok(sub) => Ok(sub),
                        Err(e) => lift_err(e),
                    }
                },
                Option::None => stack.get_variable_path(store, *id),
            }
        },
        Expression::ArrayCall(base, index_expr) => {
            let base_path = match get_from_path(program, env, st, stack, store, constants, on_value, base) {
                Ok(p) => p,
                Err(e) => {
                    return Err(e);
                },
            };
            let index_value = match execute_expression_and_expect_value(program, env, st, stack, store, constants,
                Option::None,
                index_expr,
            ) {
                Ok(v) => v,
                Err(e) => {
                    return Err(e);
                },
            };
            let index = match index_value.checked_cast_to_u64() {
                Ok(n) => n,
                Err(e) => {
                    return lift_err(e);
                },
            };
            if index > usize::MAX as u64 {
                return Err(InterpreterError::OutOfBounds(usize::MAX, 0));
            }
            match base_path.get_sub_variable(index as usize, store) {
                Ok(sub) => Ok(sub),
                Err(e) => lift_err(e),
            }
        },
        Expression::Path(left, right) => {
            let left_path = match get_from_path(program, env, st, stack, store, constants, on_value, left) {
                Ok(p) => p,
                Err(e) => {
                    return Err(e);
                },
            };
            get_from_path(program, env, st, stack, store, constants, Option::Some(left_path), right)
        },
        _ => Err(InterpreterError::ExpectedPath),
    }
}

/// Evaluate one expression. Every call charges the expression meter once; a
/// value-less outcome arises only from an assignment operator.
#[verifier::rlimit(100)]
fn execute_expression(
    program: &Program,
    env: &Environment,
    st: &mut EvalState,
    stack: &mut Stack,
    store: &mut ValueStore,
    constants: &Vec<(u16, Value)>,
    on_value: Option<Path>,
    expr: &Expression,
) -> (r: Result<Option<Path>, InterpreterError>)
    ensures
        st_frame(*old(st), *final(st)),
        r is Ok ==> final(st).count_expr > old(st).count_expr,
        r is Ok ==> old(st).count_expr + 1 <= old(st).max_expr,
        r == Err::<Option<Path>, InterpreterError>(InterpreterError::LimitReached) ==> final(st).count_expr
            >= final(st).max_expr,
        final(stack).scopes@.len() == old(stack).scopes@.len(),
        final(stack).loop_break == old(stack).loop_break,
        final(stack).loop_continue == old(stack).loop_continue,
        eval_pure(*expr) matches Some(oc) ==> ({
            &&& (old(st).count_expr + oc.1 <= old(st).max_expr ==> (final(st).count_expr == old(
                st,
            ).count_expr + oc.1 && (match oc.0 {
                Ok(m) => (r matches Ok(o) && o matches Some(p) && path_value(p, *final(store))
                    == Some(m)),
                Err(e2) => r == Err::<Option<Path>, InterpreterError>(e2),
            })))
            &&& (old(st).count_expr + oc.1 > old(st).max_expr ==> r == Err::<
                Option<Path>,
                InterpreterError,
            >(InterpreterError::LimitReached))
        }),
        *expr matches Expression::FunctionCall(nm, args) ==> (args@.len() == 0 ==> (old(
            st,
        ).count_expr + 1 <= old(st).max_expr ==> ({
            &&& (old(st).recursive as int + 1 >= old(st).max_recursive as int ==> r == Err::<
                Option<Path>,
                InterpreterError,
            >(InterpreterError::RecursiveLimitReached))
            &&& (old(st).recursive as int + 1 < old(st).max_recursive as int ==> (on_value
                is None ==> (spec_resolve(
                *program,
                *env,
                nm@,
                Option::None,
                Seq::<Type>::empty(),
            ) is None ==> (r matches Err(ef) && ef matches InterpreterError::FunctionNotFound(
                n2,
                _,
            ) && n2@ == nm@))))
        }))),
    decreases fuel(*st), *expr, 1int,
{
    match increment_state(st) {
        Ok(()) => (),
        Err(e) => {
            return Err(e);
        },
    }
    match expr {
        Expression::Value(v) => Ok(Some(Path::Owned(v.duplicate()))),
        Expression::Variable(id) => {
            match on_value {
                Option::Some(p) => {
                    match p.get_sub_variable(*id as usize, store) {
                        Ok(sub) => Ok(Some(sub)),
                        Err(e) => lift_err(e),
                    }
                },
                Option::None => {
                    match stack.get_variable_path(store, *id) {
                        Ok(p) => Ok(Some(p)),
                        Err(e) => Err(e),
                    }
                },
            }
        },
        Expression::FunctionCall(name, parameters) => {
            let mut values: Vec<Value> = Vec::new();
            let mut i: usize = 0;
            while i < parameters.len()
                invariant
                    eval_pure(*expr) is None,
                    (match *expr {
                        Expression::FunctionCall(_, ps2) => ps2@ == parameters@,
                        _ => false,
                    }),
                    i <= parameters@.len(),
                    values@.len() == i,
                    st_frame(*old(st), *st),
                    old(st).count_expr + 1 <= old(st).max_expr,
                    st.count_expr > old(st).count_expr,
                    stack.scopes@.len() == old(stack).scopes@.len(),
                    stack.loop_break == old(stack).loop_break,
                    stack.loop_continue == old(stack).loop_continue,
                decreases parameters@.len() - i,
            {
                let v = match execute_expression_and_expect_value(program, env, st, stack, store, constants,
                    Option::None,
                    &parameters[i],
                ) {
                    Ok(v) => v,
                    Err(e) => {
                        return Err(e);
                    },
                };
                values.push(v);
                i = i + 1;
            }
            if st.recursive as u32 + 1 >= st.max_recursive as u32 {
                return Err(InterpreterError::RecursiveLimitReached);
            }
            proof {
                if parameters@.len() == 0 {
                    assert(values@ =~= Seq::<Value>::empty());
                    assert(spec_arg_types(values@) =~= Seq::<Type>::empty());
                }
            }
            let types = match get_types_from_values(&values) {
                Ok(ts) => ts,
                Err(e) => {
                    return Err(e);
                },
            };
            let (receiver, receiver_type) = match on_value {
                Option::Some(p) => {
                    let t = match p.as_ref(store) {
                        Ok(v) => {
                            match receiver_value_type(v) {
                                Ok(t) => t,
                                Err(e) => {
                                    return Err(e);
                                },
                            }
                        },
                        Err(e) => {
                            return lift_err(e);
                        },
                    };
                    (Option::Some(p), Option::Some(t))
                },
                Option::None => (Option::None, Option::None),
            };
            let fref = match get_function(program, env, name, &receiver_type, &types) {
                Ok(f) => f,
                Err(e) => {
                    return Err(e);
                },
            };
            st.recursive = st.recursive + 1;
            let result = execute_function(
                program,
                env,
                st,
                store,
                constants,
                fref,
                receiver,
                values,
            );
            st.recursive = st.recursive - 1;
            match result {
                Ok(Option::Some(v)) => Ok(Some(Path::Owned(v))),
                Ok(Option::None) => Ok(None),
                Err(e) => Err(e),
            }
        },
        Expression::ArrayConstructor(expressions) => {
            let mut values: Vec<Value> = Vec::new();
            let mut i: usize = 0;
            while i < expressions.len()
                invariant
                    eval_pure(*expr) is None,
                    !(*expr matches Expression::FunctionCall(_, _)),
                    i <= expressions@.len(),
                    st_frame(*old(st), *st),
                    old(st).count_expr + 1 <= old(st).max_expr,
                    st.count_expr > old(st).count_expr,
                    stack.scopes@.len() == old(stack).scopes@.len(),
                    stack.loop_break == old(stack).loop_break,
                    stack.loop_continue == old(stack).loop_continue,
                decreases expressions@.len() - i,
            {
                let v = match execute_expression_and_expect_value(program, env, st, stack, store, constants,
                    Option::None,
                    &expressions[i],
                ) {
                    Ok(v) => v,
                    Err(e) => {
                        return Err(e);
                    },
                };
                values.push(v);
                i = i + 1;
            }
            Ok(Some(Path::Owned(Value::Array(values))))
        },
        Expression::StructConstructor(struct_name, field_exprs) => {
            let def_index = match find_struct(program, env, struct_name) {
                Ok(k) => k,
                Err(e) => {
                    return Err(e);
                },
            };
            // evaluate the provided fields in source order
            let mut provided_names: Vec<String> = Vec::new();
            let mut provided_values: Vec<Value> = Vec::new();
            let mut i: usize = 0;
            while i < field_exprs.len()
                invariant
                    eval_pure(*expr) is None,
                    !(*expr matches Expression::FunctionCall(_, _)),
                    i <= field_exprs@.len(),
                    provided_names@.len() == provided_values@.len(),
                    st_frame(*old(st), *st),
                    old(st).count_expr + 1 <= old(st).max_expr,
                    st.count_expr > old(st).count_expr,
                    stack.scopes@.len() == old(stack).scopes@.len(),
                    stack.loop_break == old(stack).loop_break,
                    stack.loop_continue == old(stack).loop_continue,
                decreases field_exprs@.len() - i,
            {
                let v = match execute_expression_and_expect_value(program, env, st, stack, store, constants,
                    Option::None,
                    &field_exprs[i].1,
                ) {
                    Ok(v) => v,
                    Err(e) => {
                        return Err(e);
                    },
                };
                provided_names.push(field_exprs[i].0.clone());
                provided_values.push(v);
                i = i + 1;
            }
            build_struct(program, env, def_index, struct_name, provided_names, provided_values)
        },
        Expression::ArrayCall(base, index_expr) => {
            let base_path = match execute_expression(program, env, st, stack, store, constants,
                on_value,
                base,
            ) {
                Ok(Option::Some(p)) => p,
                Ok(Option::None) => {
                    return Err(InterpreterError::ExpectedValue);
                },
                Err(e) => {
                    return Err(e);
                },
            };
            let index_value = match execute_expression_and_expect_value(program, env, st, stack, store, constants,
                Option::None,
                index_expr,
            ) {
                Ok(v) => v,
                Err(e) => {
                    return Err(e);
                },
            };
            let index = match index_value.checked_cast_to_u64() {
                Ok(n) => n,
                Err(e) => {
                    return lift_err(e);
                },
            };
            if index > usize::MAX as u64 {
                return Err(InterpreterError::OutOfBounds(usize::MAX, 0));
            }
            match base_path.get_sub_variable(index as usize, store) {
                Ok(sub) => Ok(Some(sub)),
                Err(e) => lift_err(e),
            }
        },
        Expression::IsNot(inner) => {
            let v = match execute_expression_and_expect_value(program, env, st, stack, store, constants,
                Option::None,
                inner,
            ) {
                Ok(v) => v,
                Err(e) => {
                    return Err(e);
                },
            };
            match v.to_bool() {
                Ok(b) => Ok(Some(Path::Owned(Value::Boolean(!b)))),
                Err(e) => lift_err(e),
            }
        },
        Expression::SubExpression(inner) => {
            execute_expression(program, env, st, stack, store, constants, Option::None, inner)
        },
        Expression::Ternary(condition, left, right) => {
            let c = match execute_expression_and_expect_value(program, env, st, stack, store, constants,
                Option::None,
                condition,
            ) {
                Ok(v) => v,
                Err(e) => {
                    return Err(e);
                },
            };
            let b = match c.to_bool() {
                Ok(b) => b,
                Err(e) => {
                    return lift_err(e);
                },
            };
            if b {
                match execute_expression_and_expect_value(program, env, st, stack, store, constants,
                    Option::None,
                    left,
                ) {
                    Ok(v) => Ok(Some(Path::Owned(v))),
                    Err(e) => Err(e),
                }
            } else {
                match execute_expression_and_expect_value(program, env, st, stack, store, constants,
                    Option::None,
                    right,
                ) {
                    Ok(v) => Ok(Some(Path::Owned(v))),
                    Err(e) => Err(e),
                }
            }
        },
        Expression::Path(left, right) => {
            let left_path = match get_from_path(program, env, st, stack, store, constants,
                on_value,
                left,
            ) {
                Ok(p) => p,
                Err(e) => {
                    return Err(e);
                },
            };
            execute_expression(program, env, st, stack, store, constants, Option::Some(left_path), right)
        },
        Expression::Cast(inner, cast_type) => {
            let v = match execute_expression_and_expect_value(program, env, st, stack, store, constants,
                on_value,
                inner,
            ) {
                Ok(v) => v,
                Err(e) => {
                    return Err(e);
                },
            };
            match cast_value(v, cast_type) {
                Ok(c) => Ok(Some(Path::Owned(c))),
                Err(e) => Err(e),
            }
        },
        Expression::Operator(op, expr_left, expr_right) => {
            if op.is_assignation() {
                let value = match execute_expression_and_expect_value(program, env, st, stack, store, constants,
                    Option::None,
                    expr_right,
                ) {
                    Ok(v) => v,
                    Err(e) => {
                        return Err(e);
                    },
                };
                let mut place = match get_from_path(program, env, st, stack, store, constants,
                    Option::None,
                    expr_left,
                ) {
                    Ok(p) => p,
                    Err(e) => {
                        return Err(e);
                    },
                };
                let current = match place.as_ref(store) {
                    Ok(v) => v.duplicate(),
                    Err(e) => {
                        return lift_err(e);
                    },
                };
                let path_type = match value_type(&current) {
                    Ok(t) => t,
                    Err(e) => {
                        return Err(e);
                    },
                };
                let value_type_r = match value_type(&value) {
                    Ok(t) => t,
                    Err(e) => {
                        return Err(e);
                    },
                };
                let string_concat = matches!(op, Operator::AssignPlus) && matches!(
                    path_type,
                    Type::String,
                );
                if op.is_number_operator() && !string_concat {
                    if !current.is_number() || !value.is_number() || !same_type(
                        &path_type,
                        &value_type_r,
                    ) {
                        return Err(InterpreterError::OperationNotNumberType);
                    }
                }
                let updated = match op {
                    Operator::Assign => Ok(value),
                    Operator::AssignPlus => {
                        if string_concat {
                            let cur_s = match current.to_string_value() {
                                Ok(s) => s,
                                Err(e) => {
                                    return lift_err(e);
                                },
                            };
                            let add_s = match value.to_string_value() {
                                Ok(s) => s,
                                Err(e) => {
                                    return lift_err(e);
                                },
                            };
                            Ok(Value::String(concat_strings(&cur_s, &add_s)))
                        } else {
                            add_values(current, value)
                        }
                    },
                    Operator::AssignMinus => sub_values(current, value),
                    Operator::AssignMultiply => mul_values(current, value),
                    Operator::AssignDivide => div_values(current, value),
                    Operator::AssignModulo => rem_values(current, value),
                    Operator::AssignBitwiseXor => bitxor_values(current, value),
                    Operator::AssignBitwiseAnd => bitand_values(current, value),
                    Operator::AssignBitwiseOr => bitor_values(current, value),
                    Operator::AssignBitwiseLeft => shl_values(current, value),
                    Operator::AssignBitwiseRight => shr_values(current, value),
                    _ => Err(InterpreterError::UnexpectedOperator),
                };
                let updated = match updated {
                    Ok(v) => v,
                    Err(e) => {
                        return Err(e);
                    },
                };
                match place.write(store, updated) {
                    Ok(()) => Ok(None),
                    Err(e) => lift_err(e),
                }
            } else {
                let left = match execute_expression_and_expect_value(program, env, st, stack, store, constants,
                    Option::None,
                    expr_left,
                ) {
                    Ok(v) => v,
                    Err(e) => {
                        return Err(e);
                    },
                };
                proof {
                    crate::values::lemma_type_of_model(left);
                }
                let left_type = match value_type(&left) {
                    Ok(t) => t,
                    Err(e) => {
                        return Err(e);
                    },
                };
                if op.is_and_or_or() {
                    let lb = match left.to_bool() {
                        Ok(b) => b,
                        Err(e) => {
                            return lift_err(e);
                        },
                    };
                    let take_right = match op {
                        Operator::And => lb,
                        _ => !lb,
                    };
                    let outcome = if !take_right {
                        // the right operand is skipped
                        matches!(op, Operator::Or)
                    } else {
                        let right = match execute_expression_and_expect_value(program, env, st, stack, store, constants,
                            Option::None,
                            expr_right,
                        ) {
                            Ok(v) => v,
                            Err(e) => {
                                return Err(e);
                            },
                        };
                        match right.to_bool() {
                            Ok(b) => b,
                            Err(e) => {
                                return lift_err(e);
                            },
                        }
                    };
                    Ok(Some(Path::Owned(Value::Boolean(outcome))))
                } else {
                    let right = match execute_expression_and_expect_value(program, env, st, stack, store, constants,
                        Option::None,
                        expr_right,
                    ) {
                        Ok(v) => v,
                        Err(e) => {
                            return Err(e);
                        },
                    };
                    proof {
                        crate::values::lemma_type_of_model(right);
                    }
                    let right_type = match value_type(&right) {
                        Ok(t) => t,
                        Err(e) => {
                            return Err(e);
                        },
                    };
                    if op.is_number_operator() && !(matches!(op, Operator::Plus) && (matches!(
                        left_type,
                        Type::String,
                    ) || matches!(right_type, Type::String))) {
                        if !left.is_number() || !right.is_number() || !same_type(
                            &left_type,
                            &right_type,
                        ) {
                            return Err(InterpreterError::OperationNotNumberType);
                        }
                    }
                    let result = match op {
                        Operator::Equals => Ok(
                            Value::Boolean(
                                same_type(&left_type, &right_type) && same_value(&left, &right),
                            ),
                        ),
                        Operator::NotEquals => Ok(
                            Value::Boolean(
                                !(same_type(&left_type, &right_type) && same_value(&left, &right)),
                            ),
                        ),
                        Operator::Plus => {
                            let stringy = matches!(left_type, Type::String) || matches!(
                                right_type,
                                Type::String,
                            );
                            if stringy {
                                let ls = display_value(&left);
                                let rs = display_value(&right);
                                Ok(Value::String(concat_strings(&ls, &rs)))
                            } else {
                                add_values(left, right)
                            }
                        },
                        Operator::Minus => sub_values(left, right),
                        Operator::Multiply => mul_values(left, right),
                        Operator::Divide => div_values(left, right),
                        Operator::Modulo => rem_values(left, right),
                        Operator::BitwiseXor => bitxor_values(left, right),
                        Operator::BitwiseAnd => bitand_values(left, right),
                        Operator::BitwiseOr => bitor_values(left, right),
                        Operator::BitwiseLeft => shl_values(left, right),
                        Operator::BitwiseRight => shr_values(left, right),
                        Operator::GreaterThan => gt_values(&left, &right),
                        Operator::GreaterOrEqual => ge_values(&left, &right),
                        Operator::LessThan => lt_values(&left, &right),
                        Operator::LessOrEqual => le_values(&left, &right),
                        _ => Err(InterpreterError::UnexpectedOperator),
                    };
                    match result {
                        Ok(v) => Ok(Some(Path::Owned(v))),
                        Err(e) => Err(e),
                    }
                }
            }
        },
    }
}

/// Find a declared structure by name: the environment's registrations are
/// searched before the program's, and the first entry whose name matches
/// wins.
fn find_struct(program: &Program, env: &Environment, name: &String) -> (r: Result<
    (bool, usize),
    InterpreterError,
>)
    ensures
        r matches Ok(k) ==> ({
            &&& (k.0 ==> (k.1 < env.structures@.len() && env.structures@[k.1 as int].name@
                == name@))
            &&& (!k.0 ==> (k.1 < program.structures@.len()
                && program.structures@[k.1 as int].name@ == name@ && (forall|j: int|
                0 <= j < env.structures@.len() ==> (#[trigger] env.structures@[j]).name@
                    != name@)))
        }),
        r is Err ==> ({
            &&& (r matches Err(e) && e matches InterpreterError::StructureNotFound(n) && n@
                == name@)
            &&& (forall|j: int|
                0 <= j < env.structures@.len() ==> (#[trigger] env.structures@[j]).name@ != name@)
            &&& (forall|j: int|
                0 <= j < program.structures@.len() ==> (#[trigger] program.structures@[j]).name@
                    != name@)
        }),
{
    let mut i: usize = 0;
    while i < env.structures.len()
        invariant
            i <= env.structures@.len(),
            forall|j: int| 0 <= j < i ==> (#[trigger] env.structures@[j]).name@ != name@,
        decreases env.structures@.len() - i,
    {
        if env.structures[i].name.eq(name) {
            return Ok((true, i));
        }
        i = i + 1;
    }
    let mut k: usize = 0;
    while k < program.structures.len()
        invariant
            k <= program.structures@.len(),
            forall|j: int|
                0 <= j < env.structures@.len() ==> (#[trigger] env.structures@[j]).name@ != name@,
            forall|j: int| 0 <= j < k ==> (#[trigger] program.structures@[j]).name@ != name@,
        decreases program.structures@.len() - k,
    {
        if program.structures[k].name.eq(name) {
            return Ok((false, k));
        }
        k = k + 1;
    }
    Err(InterpreterError::StructureNotFound(name.clone()))
}

/// Arrange the evaluated fields of a struct constructor in declared order,
/// checking that every provided field exists, that its runtime type equals
/// the declared type, and that no field is missing.
fn build_struct(
    program: &Program,
    env: &Environment,
    def_index: (bool, usize),
    struct_name: &String,
    provided_names: Vec<String>,
    provided_values: Vec<Value>,
) -> (r: Result<Option<Path>, InterpreterError>)
    requires
        def_index.0 ==> (def_index.1 as int) < env.structures@.len(),
        !def_index.0 ==> (def_index.1 as int) < program.structures@.len(),
        provided_names@.len() == provided_values@.len(),
    ensures
        !(r matches Err(InterpreterError::LimitReached)),
{
    let def: &StructDef = if def_index.0 {
        &env.structures[def_index.1]
    } else {
        &program.structures[def_index.1]
    };
    // every provided field must exist on the struct
    let mut i: usize = 0;
    while i < provided_names.len()
        invariant
            i <= provided_names@.len(),
        decreases provided_names@.len() - i,
    {
        let mut found = false;
        let mut k: usize = 0;
        while k < def.fields.len()
            invariant
                k <= def.fields@.len(),
                i < provided_names@.len(),
            decreases def.fields@.len() - k,
        {
            if def.fields[k].0.eq(&provided_names[i]) {
                found = true;
            }
            k = k + 1;
        }
        if !found {
            return Err(
                InterpreterError::StructureFieldNotFound(
                    struct_name.clone(),
                    provided_names[i].clone(),
                ),
            );
        }
        i = i + 1;
    }
    // a missing or doubled field shows up as a count mismatch
    if provided_names.len() != def.fields.len() {
        return Err(InterpreterError::InvalidStructField(def.id));
    }
    // arrange positionally, in declared field order
    let mut provided_names = provided_names;
    let mut provided_values = provided_values;
    let mut fields: Vec<Value> = Vec::new();
    let mut d: usize = 0;
    while d < def.fields.len()
        invariant
            provided_names@.len() == provided_values@.len(),
        decreases def.fields@.len() - d,
    {
        let mut pos_found = false;
        let mut pos: usize = 0;
        let mut k: usize = 0;
        while k < provided_names.len()
            invariant
                k <= provided_names@.len(),
                d < def.fields@.len(),
                pos_found ==> pos < provided_names@.len(),
            decreases provided_names@.len() - k,
        {
            if !pos_found && provided_names[k].eq(&def.fields[d].0) {
                pos_found = true;
                pos = k;
            }
            k = k + 1;
        }
        if !pos_found {
            return Err(
                InterpreterError::StructureFieldNotFound(
                    struct_name.clone(),
                    def.fields[d].0.clone(),
                ),
            );
        }
        let value = provided_values.remove(pos);
        let _ = provided_names.remove(pos);
        let vt = match value_type(&value) {
            Ok(t) => t,
            Err(e) => {
                return Err(e);
            },
        };
        if !same_type(&vt, &def.fields[d].1) {
            return Err(InterpreterError::InvalidType(vt));
        }
        fields.push(value);
        d = d + 1;
    }
    Ok(Some(Path::Owned(Value::Struct(fields, def.id))))
}


/// Execute the statements of one block in the current scope. A produced value
/// is a return value propagating up; the scope depth is restored on success
/// and on failure alike.
fn execute_statements(
    program: &Program,
    env: &Environment,
    st: &mut EvalState,
    stack: &mut Stack,
    store: &mut ValueStore,
    constants: &Vec<(u16, Value)>,
    statements: &Vec<Statement>,
) -> (r: Result<Option<Value>, InterpreterError>)
    ensures
        st_frame(*old(st), *final(st)),
        r == Err::<Option<Value>, InterpreterError>(InterpreterError::LimitReached) ==> final(st).count_expr
            >= final(st).max_expr,
        final(stack).scopes@.len() == old(stack).scopes@.len(),
        (r matches Ok(Some(_))) ==> (!final(stack).loop_break && !final(stack).loop_continue),
        statements@.len() == 0 ==> (r matches Ok(o) && o is None && final(st).count_expr == old(
            st,
        ).count_expr),
        return_first_outcome(*statements, *old(stack)) matches Some(oe) ==> ({
            &&& (oe is None ==> (old(st).count_expr + 1 <= old(st).max_expr ==> (r matches Ok(o)
                && o is None && final(st).count_expr == old(st).count_expr + 1)))
            &&& (oe matches Some(e2) ==> (eval_pure(e2) matches Some(oc) ==> ({
                &&& (old(st).count_expr + 1 + oc.1 <= old(st).max_expr ==> (final(st).count_expr
                    == old(st).count_expr + 1 + oc.1 && (match oc.0 {
                    Ok(m) => (r matches Ok(o) && o matches Some(v) && model(v) == m),
                    Err(er) => r == Err::<Option<Value>, InterpreterError>(er),
                })))
                &&& (old(st).count_expr + 1 + oc.1 > old(st).max_expr ==> r == Err::<
                    Option<Value>,
                    InterpreterError,
                >(InterpreterError::LimitReached))
            })))
        }),
    decreases fuel(*st), *statements, 0int,
{
    let ghost fuel0 = fuel(*st);
    let mut accept_else = false;
    let mut i: usize = 0;
    while i < statements.len()
        invariant
            i <= statements@.len(),
            st_frame(*old(st), *st),
            fuel(*st) <= fuel0,
            fuel0 == fuel(*old(st)),
            stack.scopes@.len() == old(stack).scopes@.len(),
            i == 0 ==> st.count_expr == old(st).count_expr,
            i == 0 ==> stack.loop_break == old(stack).loop_break,
            i == 0 ==> stack.loop_continue == old(stack).loop_continue,
            return_first_outcome(*statements, *old(stack)) is Some ==> i == 0,
        decreases statements@.len() - i,
    {
        match increment_state(st) {
            Ok(()) => (),
            Err(e) => {
                return Err(e);
            },
        }
        if stack.get_loop_break() || stack.get_loop_continue() {
            // the enclosing loop consumes the flag; nothing more runs here
            return Ok(None);
        }
        let statement = &statements[i];
        match statement {
            Statement::Break => {
                stack.set_loop_break(true);
            },
            Statement::Continue => {
                stack.set_loop_continue(true);
            },
            Statement::Variable(decl) => {
                // the initialiser's path is bound as it is, so that binding a
                // variable to another aliases the same storage
                let p = match execute_expression(program, env, st, stack, store, constants,
                    Option::None,
                    &decl.value,
                ) {
                    Ok(Option::Some(p)) => p,
                    Ok(Option::None) => {
                        return Err(InterpreterError::ExpectedValue);
                    },
                    Err(e) => {
                        return Err(e);
                    },
                };
                // a null initialiser of a declared optional is the empty optional
                let p = match p {
                    Path::Owned(v) => {
                        if v.is_null() && decl.value_type.allow_null() {
                            Path::Owned(Value::Optional(Option::None))
                        } else {
                            Path::Owned(v)
                        }
                    },
                    w => w,
                };
                match stack.register_variable(decl.id, p) {
                    Ok(()) => (),
                    Err(e) => {
                        return Err(e);
                    },
                }
            },
            Statement::Expression(e) => {
                match execute_expression(program, env, st, stack, store, constants, Option::None, e) {
                    Ok(_) => (),
                    Err(e) => {
                        return Err(e);
                    },
                }
            },
            Statement::Return(opt) => {
                match opt {
                    Option::Some(e) => {
                        let v = match execute_expression_and_expect_value(program, env, st, stack, store, constants,
                            Option::None,
                            e,
                        ) {
                            Ok(v) => v,
                            Err(e) => {
                                return Err(e);
                            },
                        };
                        return Ok(Some(v));
                    },
                    Option::None => {
                        return Ok(None);
                    },
                }
            },
            Statement::Scope(body) => {
                match run_block(program, env, st, stack, store, constants, body) {
                    Ok(Option::Some(v)) => {
                        return Ok(Some(v));
                    },
                    Ok(Option::None) => (),
                    Err(e) => {
                        return Err(e);
                    },
                }
            },
            Statement::If(condition, body) => {
                let c = match execute_expression_and_expect_value(program, env, st, stack, store, constants,
                    Option::None,
                    condition,
                ) {
                    Ok(v) => v,
                    Err(e) => {
                        return Err(e);
                    },
                };
                let b = match c.to_bool() {
                    Ok(b) => b,
                    Err(e) => {
                        return lift_err(e);
                    },
                };
                if b {
                    match run_block(program, env, st, stack, store, constants, body) {
                        Ok(Option::Some(v)) => {
                            return Ok(Some(v));
                        },
                        Ok(Option::None) => (),
                        Err(e) => {
                            return Err(e);
                        },
                    }
                } else {
                    accept_else = true;
                }
            },
            Statement::ElseIf(condition, body) => {
                if accept_else {
                    let c = match execute_expression_and_expect_value(program, env, st, stack, store, constants,
                        Option::None,
                        condition,
                    ) {
                        Ok(v) => v,
                        Err(e) => {
                            return Err(e);
                        },
                    };
                    let b = match c.to_bool() {
                        Ok(b) => b,
                        Err(e) => {
                            return lift_err(e);
                        },
                    };
                    if b {
                        accept_else = false;
                        match run_block(program, env, st, stack, store, constants, body) {
                            Ok(Option::Some(v)) => {
                                return Ok(Some(v));
                            },
                            Ok(Option::None) => (),
                            Err(e) => {
                                return Err(e);
                            },
                        }
                    }
                }
            },
            Statement::Else(body) => {
                if accept_else {
                    accept_else = false;
                    match run_block(program, env, st, stack, store, constants, body) {
                        Ok(Option::Some(v)) => {
                            return Ok(Some(v));
                        },
                        Ok(Option::None) => (),
                        Err(e) => {
                            return Err(e);
                        },
                    }
                }
            },
            Statement::While(condition, body) => {
                stack.begin_scope();
                let result = run_while(program, env, st, stack, store, constants, condition, body);
                match stack.end_scope() {
                    Ok(()) => (),
                    Err(e) => {
                        return Err(e);
                    },
                }
                match result {
                    Ok(Option::Some(v)) => {
                        return Ok(Some(v));
                    },
                    Ok(Option::None) => (),
                    Err(e) => {
                        return Err(e);
                    },
                }
            },
            Statement::For(decl, condition, increment, body) => {
                stack.begin_scope();
                let init = match execute_expression_and_expect_value(program, env, st, stack, store, constants,
                    Option::None,
                    &decl.value,
                ) {
                    Ok(v) => v,
                    Err(e) => {
                        let _ = stack.end_scope();
                        return Err(e);
                    },
                };
                match stack.register_variable(decl.id, Path::Owned(init)) {
                    Ok(()) => (),
                    Err(e) => {
                        let _ = stack.end_scope();
                        return Err(e);
                    },
                }
                let result = run_for(program, env, st, stack, store, constants, condition, increment, body);
                match stack.end_scope() {
                    Ok(()) => (),
                    Err(e) => {
                        return Err(e);
                    },
                }
                match result {
                    Ok(Option::Some(v)) => {
                        return Ok(Some(v));
                    },
                    Ok(Option::None) => (),
                    Err(e) => {
                        return Err(e);
                    },
                }
            },
            Statement::ForEach(var, iterable, body) => {
                let value = match execute_expression_and_expect_value(program, env, st, stack, store, constants,
                    Option::None,
                    iterable,
                ) {
                    Ok(v) => v,
                    Err(e) => {
                        return Err(e);
                    },
                };
                match value {
                    Value::Array(values) => {
                        stack.begin_scope();
                        let result = run_foreach_elems(program, env, st, stack, store, constants,
                            *var,
                            values,
                            body,
                        );
                        match stack.end_scope() {
                            Ok(()) => (),
                            Err(e) => {
                                return Err(e);
                            },
                        }
                        match result {
                            Ok(Option::Some(v)) => {
                                return Ok(Some(v));
                            },
                            Ok(Option::None) => (),
                            Err(e) => {
                                return Err(e);
                            },
                        }
                    },
                    Value::Range(start, end, t) => {
                        if !start.is_number() || !end.is_number() || !crate::ops::same_width_check(
                            &start,
                            &end,
                        ) {
                            return Err(InterpreterError::InvalidType(t));
                        }
                        stack.begin_scope();
                        let result = run_foreach_range(program, env, st, stack, store, constants,
                            *var,
                            *start,
                            *end,
                            body,
                        );
                        match stack.end_scope() {
                            Ok(()) => (),
                            Err(e) => {
                                return Err(e);
                            },
                        }
                        match result {
                            Ok(Option::Some(v)) => {
                                return Ok(Some(v));
                            },
                            Ok(Option::None) => (),
                            Err(e) => {
                                return Err(e);
                            },
                        }
                    },
                    other => {
                        let t = match value_type(&other) {
                            Ok(t) => t,
                            Err(e) => {
                                return Err(e);
                            },
                        };
                        return Err(InterpreterError::ExpectedValueType(t));
                    },
                }
            },
        }
        match statement {
            Statement::If(_, _) | Statement::ElseIf(_, _) => (),
            _ => {
                accept_else = false;
            },
        }
        i = i + 1;
    }
    Ok(None)
}

/// When a block starts with a return statement and the loop flags are clear,
/// the block's outcome is that return: the returned initialiser, or nothing.
pub open spec fn return_first_outcome(statements: Vec<Statement>, stack: Stack) -> Option<
    Option<Expression>,
> {
    if statements@.len() > 0 && !stack.loop_break && !stack.loop_continue {
        match statements@[0] {
            Statement::Return(oe) => Some(oe),
            _ => None,
        }
    } else {
        None
    }
}

/// Run a block of statements in a child scope; the scope closes on the error
/// path as well.
fn run_block(
    program: &Program,
    env: &Environment,
    st: &mut EvalState,
    stack: &mut Stack,
    store: &mut ValueStore,
    constants: &Vec<(u16, Value)>,
    body: &Vec<Statement>,
) -> (r: Result<Option<Value>, InterpreterError>)
    ensures
        st_frame(*old(st), *final(st)),
        r == Err::<Option<Value>, InterpreterError>(InterpreterError::LimitReached) ==> final(st).count_expr
            >= final(st).max_expr,
        final(stack).scopes@.len() == old(stack).scopes@.len(),
        (r matches Ok(Some(_))) ==> (!final(stack).loop_break && !final(stack).loop_continue),
    decreases fuel(*st), *body, 1int,
{
    stack.begin_scope();
    let result = execute_statements(program, env, st, stack, store, constants, body);
    match stack.end_scope() {
        Ok(()) => (),
        Err(e) => {
            return Err(e);
        },
    }
    result
}

/// Run a while loop: the condition is evaluated before each pass of the body,
/// and the loop honours the break and continue flags.
fn run_while(
    program: &Program,
    env: &Environment,
    st: &mut EvalState,
    stack: &mut Stack,
    store: &mut ValueStore,
    constants: &Vec<(u16, Value)>,
    condition: &Expression,
    body: &Vec<Statement>,
) -> (r: Result<Option<Value>, InterpreterError>)
    requires
        !old(stack).loop_break,
        !old(stack).loop_continue,
    ensures
        st_frame(*old(st), *final(st)),
        r == Err::<Option<Value>, InterpreterError>(InterpreterError::LimitReached) ==> final(st).count_expr
            >= final(st).max_expr,
        final(stack).scopes@.len() == old(stack).scopes@.len(),
        r is Ok ==> !final(stack).loop_break,
        r is Ok ==> !final(stack).loop_continue,
    decreases fuel(*st) + 1, *body, 2int,
{
    loop
        invariant
            st_frame(*old(st), *st),
            stack.scopes@.len() == old(stack).scopes@.len(),
            !stack.loop_break,
            !stack.loop_continue,
        decreases fuel(*st),
    {
        let c = match execute_expression_and_expect_value(
            program,
            env,
            st,
            stack,
            store,
            constants,
            Option::None,
            condition,
        ) {
            Ok(v) => v,
            Err(e) => {
                return Err(e);
            },
        };
        let b = match c.to_bool() {
            Ok(b) => b,
            Err(e) => {
                return lift_err(e);
            },
        };
        if !b {
            return Ok(None);
        }
        match execute_statements(program, env, st, stack, store, constants, body) {
            Ok(Option::Some(v)) => {
                return Ok(Some(v));
            },
            Ok(Option::None) => (),
            Err(e) => {
                return Err(e);
            },
        }
        if stack.get_loop_break() {
            stack.set_loop_break(false);
            stack.set_loop_continue(false);
            return Ok(None);
        }
        if stack.get_loop_continue() {
            stack.set_loop_continue(false);
        }
    }
}

/// Run a for loop: each pass evaluates the condition, then the step, which
/// must be an assignment, then the body.
fn run_for(
    program: &Program,
    env: &Environment,
    st: &mut EvalState,
    stack: &mut Stack,
    store: &mut ValueStore,
    constants: &Vec<(u16, Value)>,
    condition: &Expression,
    increment: &Expression,
    body: &Vec<Statement>,
) -> (r: Result<Option<Value>, InterpreterError>)
    requires
        !old(stack).loop_break,
        !old(stack).loop_continue,
    ensures
        st_frame(*old(st), *final(st)),
        r == Err::<Option<Value>, InterpreterError>(InterpreterError::LimitReached) ==> final(st).count_expr
            >= final(st).max_expr,
        final(stack).scopes@.len() == old(stack).scopes@.len(),
        r is Ok ==> !final(stack).loop_break,
        r is Ok ==> !final(stack).loop_continue,
    decreases fuel(*st) + 1, *body, 2int,
{
    loop
        invariant
            st_frame(*old(st), *st),
            stack.scopes@.len() == old(stack).scopes@.len(),
            !stack.loop_break,
            !stack.loop_continue,
        decreases fuel(*st),
    {
        let c = match execute_expression_and_expect_value(
            program,
            env,
            st,
            stack,
            store,
            constants,
            Option::None,
            condition,
        ) {
            Ok(v) => v,
            Err(e) => {
                return Err(e);
            },
        };
        let b = match c.to_bool() {
            Ok(b) => b,
            Err(e) => {
                return lift_err(e);
            },
        };
        if !b {
            return Ok(None);
        }
        match execute_expression(program, env, st, stack, store, constants, Option::None, increment) {
            Ok(Option::Some(_)) => {
                // an assignment produces no value
                return Err(InterpreterError::ExpectedAssignOperator);
            },
            Ok(Option::None) => (),
            Err(e) => {
                return Err(e);
            },
        }
        match execute_statements(program, env, st, stack, store, constants, body) {
            Ok(Option::Some(v)) => {
                return Ok(Some(v));
            },
            Ok(Option::None) => (),
            Err(e) => {
                return Err(e);
            },
        }
        if stack.get_loop_break() {
            stack.set_loop_break(false);
            stack.set_loop_continue(false);
            return Ok(None);
        }
        if stack.get_loop_continue() {
            stack.set_loop_continue(false);
        }
    }
}

/// Iterate the body over the elements of an array, rebinding the loop
/// variable before each pass.
fn run_foreach_elems(
    program: &Program,
    env: &Environment,
    st: &mut EvalState,
    stack: &mut Stack,
    store: &mut ValueStore,
    constants: &Vec<(u16, Value)>,
    var: u16,
    values: Vec<Value>,
    body: &Vec<Statement>,
) -> (r: Result<Option<Value>, InterpreterError>)
    requires
        !old(stack).loop_break,
        !old(stack).loop_continue,
    ensures
        st_frame(*old(st), *final(st)),
        r == Err::<Option<Value>, InterpreterError>(InterpreterError::LimitReached) ==> final(st).count_expr
            >= final(st).max_expr,
        final(stack).scopes@.len() == old(stack).scopes@.len(),
        r is Ok ==> !final(stack).loop_break,
        r is Ok ==> !final(stack).loop_continue,
    decreases fuel(*st) + 1, *body, 1int,
{
    let mut idx: usize = 0;
    while idx < values.len()
        invariant
            idx <= values@.len(),
            st_frame(*old(st), *st),
            stack.scopes@.len() == old(stack).scopes@.len(),
            !stack.loop_break,
            !stack.loop_continue,
        decreases values@.len() - idx,
    {
        let elem = values[idx].duplicate();
        match stack.register_variable(var, Path::Owned(elem)) {
            Ok(()) => (),
            Err(e) => {
                return Err(e);
            },
        }
        match execute_statements(program, env, st, stack, store, constants, body) {
            Ok(Option::Some(v)) => {
                return Ok(Some(v));
            },
            Ok(Option::None) => (),
            Err(e) => {
                return Err(e);
            },
        }
        if stack.get_loop_break() {
            stack.set_loop_break(false);
            stack.set_loop_continue(false);
            return Ok(None);
        }
        if stack.get_loop_continue() {
            stack.set_loop_continue(false);
        }
        idx = idx + 1;
    }
    Ok(None)
}

/// Iterate the body over a numeric range, rebinding the loop variable before
/// each pass; the end of the range is not included.
fn run_foreach_range(
    program: &Program,
    env: &Environment,
    st: &mut EvalState,
    stack: &mut Stack,
    store: &mut ValueStore,
    constants: &Vec<(u16, Value)>,
    var: u16,
    cur: Value,
    end: Value,
    body: &Vec<Statement>,
) -> (r: Result<Option<Value>, InterpreterError>)
    requires
        !old(stack).loop_break,
        !old(stack).loop_continue,
        crate::ops::same_width_numbers(cur, end),
    ensures
        st_frame(*old(st), *final(st)),
        r == Err::<Option<Value>, InterpreterError>(InterpreterError::LimitReached) ==> final(st).count_expr
            >= final(st).max_expr,
        final(stack).scopes@.len() == old(stack).scopes@.len(),
        r is Ok ==> !final(stack).loop_break,
        r is Ok ==> !final(stack).loop_continue,
    decreases fuel(*st) + 1, *body, 1int,
{
    let mut cursor = cur;
    loop
        invariant
            st_frame(*old(st), *st),
            stack.scopes@.len() == old(stack).scopes@.len(),
            !stack.loop_break,
            !stack.loop_continue,
            crate::ops::same_width_numbers(cursor, end),
        decreases crate::values::num_value(end) - crate::values::num_value(cursor),
    {
        let proceed = match lt_values(&cursor, &end) {
            Ok(Value::Boolean(b)) => b,
            Ok(_) => false,
            Err(e) => {
                return Err(e);
            },
        };
        if !proceed {
            return Ok(None);
        }
        let elem = cursor.duplicate();
        match stack.register_variable(var, Path::Owned(elem)) {
            Ok(()) => (),
            Err(e) => {
                return Err(e);
            },
        }
        match execute_statements(program, env, st, stack, store, constants, body) {
            Ok(Option::Some(v)) => {
                return Ok(Some(v));
            },
            Ok(Option::None) => (),
            Err(e) => {
                return Err(e);
            },
        }
        if stack.get_loop_break() {
            stack.set_loop_break(false);
            stack.set_loop_continue(false);
            return Ok(None);
        }
        if stack.get_loop_continue() {
            stack.set_loop_continue(false);
        }
        proof {
            crate::ops::lemma_next_fits(cursor, end);
        }
        match cursor.increment() {
            Ok(()) => (),
            Err(e) => {
                return lift_err(e);
            },
        }
    }
}

/// Invoke a resolved function: a native behaviour runs directly, a user
/// function runs its statements in a fresh context of its own.
fn execute_function(
    program: &Program,
    env: &Environment,
    st: &mut EvalState,
    store: &mut ValueStore,
    constants: &Vec<(u16, Value)>,
    fref: FunctionRef,
    receiver: Option<Path>,
    values: Vec<Value>,
) -> (r: Result<Option<Value>, InterpreterError>)
    ensures
        st_frame(*old(st), *final(st)),
        r == Err::<Option<Value>, InterpreterError>(InterpreterError::LimitReached) ==> final(st).count_expr
            >= final(st).max_expr,
        fref matches FunctionRef::Native(k) ==> (((k as int) >= env.functions@.len() || ((
        env.functions@[k as int].for_type is Some) != (receiver is Some))) ==> r == Err::<
            Option<Value>,
            InterpreterError,
        >(InterpreterError::UnexpectedInstanceType)),
        fref matches FunctionRef::Custom(k) ==> (((k as int) >= program.functions@.len() || ((
        program.functions@[k as int].for_type is Some) != (receiver is Some))) ==> r == Err::<
            Option<Value>,
            InterpreterError,
        >(InterpreterError::UnexpectedInstanceType)),
        fref matches FunctionRef::Custom(k) ==> (((k as int) < program.functions@.len()
            && program.functions@[k as int].for_type is None && receiver is None
            && program.functions@[k as int].instance_name is None && values@.len()
            != program.functions@[k as int].parameters@.len()) ==> r == Err::<
            Option<Value>,
            InterpreterError,
        >(InterpreterError::ExpectedValue)),
        custom_plain_call(*program, fref, receiver, values@.len() as int) matches Some(decl)
            ==> (return_first_outcome(decl.statements, fresh_stack()) matches Some(oe) ==> ({
            &&& (oe is None ==> (old(st).count_expr + 1 <= old(st).max_expr ==> (r matches Ok(o)
                && o is None && final(st).count_expr == old(st).count_expr + 1)))
            &&& (oe matches Some(e2) ==> (eval_pure(e2) matches Some(oc) ==> ({
                &&& (old(st).count_expr + 1 + oc.1 <= old(st).max_expr ==> (final(st).count_expr
                    == old(st).count_expr + 1 + oc.1 && (match oc.0 {
                    Ok(m) => (r matches Ok(o) && o matches Some(v) && model(v) == m),
                    Err(er) => r == Err::<Option<Value>, InterpreterError>(er),
                })))
                &&& (old(st).count_expr + 1 + oc.1 > old(st).max_expr ==> r == Err::<
                    Option<Value>,
                    InterpreterError,
                >(InterpreterError::LimitReached))
            })))
        })),
    decreases fuel(*st), spec_fref_stmts(*program, fref), 1int,
{
    match fref {
        FunctionRef::Native(k) => {
            if k >= env.functions.len() {
                return Err(InterpreterError::UnexpectedInstanceType);
            }
            let f = &env.functions[k];
            if f.for_type.is_some() != receiver.is_some() {
                return Err(InterpreterError::UnexpectedInstanceType);
            }
            call_native(f.handler, receiver, values, store)
        },
        FunctionRef::Custom(k) => {
            if k >= program.functions.len() {
                return Err(InterpreterError::UnexpectedInstanceType);
            }
            let f = &program.functions[k];
            if f.for_type.is_some() != receiver.is_some() {
                return Err(InterpreterError::UnexpectedInstanceType);
            }
            let mut cstack = Stack::new();
            let mut cstore = ValueStore::new();
            // the bottom scope of every context holds the program's constants
            cstack.begin_scope();
            let mut ci: usize = 0;
            while ci < constants.len()
                invariant
                    ci <= constants@.len(),
                    cstack.scopes@.len() == 1,
                    !cstack.loop_break,
                    !cstack.loop_continue,
                decreases constants@.len() - ci,
            {
                let cv = constants[ci].1.duplicate();
                match cstack.register_variable(constants[ci].0, Path::Owned(cv)) {
                    Ok(()) => (),
                    Err(e) => {
                        return Err(e);
                    },
                }
                ci = ci + 1;
            }
            cstack.begin_scope();
            match &f.instance_name {
                Option::Some(iname) => {
                    match receiver {
                        Option::Some(p) => {
                            let inst = match p.into_owned(store) {
                                Ok(v) => v,
                                Err(e) => {
                                    return lift_err(e);
                                },
                            };
                            match cstack.register_variable(*iname, Path::Owned(inst)) {
                                Ok(()) => (),
                                Err(e) => {
                                    return Err(e);
                                },
                            }
                        },
                        Option::None => {
                            return Err(InterpreterError::UnexpectedInstanceType);
                        },
                    }
                },
                Option::None => (),
            }
            if values.len() != f.parameters.len() {
                return Err(InterpreterError::ExpectedValue);
            }
            let mut values = values;
            let mut pi: usize = 0;
            while pi < f.parameters.len()
                invariant
                    pi <= f.parameters@.len(),
                    values@.len() + pi == f.parameters@.len(),
                    cstack.scopes@.len() >= 1,
                    !cstack.loop_break,
                    !cstack.loop_continue,
                decreases f.parameters@.len() - pi,
            {
                let v = values.remove(0);
                match cstack.register_variable(f.parameters[pi].name, Path::Owned(v)) {
                    Ok(()) => (),
                    Err(e) => {
                        return Err(e);
                    },
                }
                pi = pi + 1;
            }
            proof {
                assert(f.statements == spec_fref_stmts(*program, fref));
            }
            execute_statements(program, env, st, &mut cstack, &mut cstore, constants, &f.statements)
        },
    }
}

/// The declaration behind a plain call that can run: a user function, called
/// without a receiver, that is no method, binds no instance and takes as many
/// arguments as it declares parameters.
pub open spec fn custom_plain_call(
    program: Program,
    fref: FunctionRef,
    receiver: Option<Path>,
    arg_count: int,
) -> Option<FunctionDecl> {
    match fref {
        FunctionRef::Custom(k) => {
            if (k as int) < program.functions@.len() && program.functions@[k as int].for_type
                is None && receiver is None && program.functions@[k as int].instance_name is None
                && arg_count == program.functions@[k as int].parameters@.len() {
                Some(program.functions@[k as int])
            } else {
                None
            }
        },
        FunctionRef::Native(_) => None,
    }
}

/// The context a function body starts in: no flag is set.
pub open spec fn fresh_stack() -> Stack {
    Stack { scopes: arbitrary(), loop_break: false, loop_continue: false }
}

/// The statements a resolved function would run, for the termination
/// ordering of the evaluator.
pub open spec fn spec_fref_stmts(program: Program, fref: FunctionRef) -> Vec<Statement> {
    match fref {
        FunctionRef::Custom(i) => program.functions@[i as int].statements,
        FunctionRef::Native(i) => arbitrary(),
    }
}


/// What an entry call returns when the resolved function is a plain entry
/// function whose body starts with a return statement of the arithmetic
/// fragment: the returned 64-bit number, the refusal of a result of another
/// width, the propagated evaluation error, a missing result as `NoExitCode`,
/// or `LimitReached` exactly when the meter cannot pay for the body.
pub open spec fn entry_call_pinned(
    program: Program,
    fref: FunctionRef,
    nargs: int,
    pre: EvalState,
    r: Result<u64, InterpreterError>,
) -> bool {
    match custom_plain_call(program, fref, Option::None, nargs) {
        Some(decl) => {
            if !decl.entry {
                true
            } else {
                match return_first_outcome(decl.statements, fresh_stack()) {
                    Some(oe) => match oe {
                        None => pre.count_expr + 1 <= pre.max_expr ==> r == Err::<
                            u64,
                            InterpreterError,
                        >(InterpreterError::NoExitCode),
                        Some(e2) => match eval_pure(e2) {
                            Some(oc) => {
                                &&& (pre.count_expr + 1 + oc.1 <= pre.max_expr ==> ((
                                match oc.0 {
                                    Ok(m) => {
                                        if crate::cast::model_is_number(m) {
                                            if crate::cast::model_num(m) <= u64::MAX {
                                                r == Ok::<u64, InterpreterError>(
                                                    crate::cast::model_num(m) as u64,
                                                )
                                            } else {
                                                r == Err::<u64, InterpreterError>(
                                                    InterpreterError::CastError,
                                                )
                                            }
                                        } else {
                                            match m {
                                                ValModel::Bool(b) => r == Ok::<
                                                    u64,
                                                    InterpreterError,
                                                >(
                                                    if b {
                                                        1
                                                    } else {
                                                        0
                                                    },
                                                ),
                                                _ => r == Err::<u64, InterpreterError>(
                                                    InterpreterError::InvalidCastType(Type::U64),
                                                ),
                                            }
                                        }
                                    },
                                    Err(er) => r == Err::<u64, InterpreterError>(er),
                                })))
                                &&& (pre.count_expr + 1 + oc.1 > pre.max_expr ==> r == Err::<
                                    u64,
                                    InterpreterError,
                                >(InterpreterError::LimitReached))
                            },
                            None => true,
                        },
                    },
                    None => true,
                }
            }
        },
        None => true,
    }
}

/// The tree-walking interpreter: a program and a host environment, the two
/// resource meters, and the program's constants evaluated once at
/// construction.
pub struct Interpreter {
    pub program: Program,
    pub env: Environment,
    pub state: EvalState,
    pub constants: Vec<(u16, Value)>,
}

impl Interpreter {
    /// Build an interpreter and evaluate the program's constants, which every
    /// invocation will see in the bottom scope of its context. A bound of
    /// zero asks for no expression limit; the meter then runs against the
    /// largest representable bound.
    pub fn new(program: Program, max_expr: u64, max_recursive: u16, env: Environment) -> (r:
        Result<Interpreter, InterpreterError>)
        ensures
            r matches Ok(it) ==> (it.state.max_expr == (if max_expr == 0 {
                u64::MAX
            } else {
                max_expr
            }) && it.state.max_recursive == max_recursive && it.state.recursive == 0 && it.program
                == program && it.env == env && it.constants@.len() == program.constants@.len() && (
            forall|k: int|
                0 <= k < program.constants@.len() ==> (#[trigger] it.constants@[k]).0
                    == program.constants@[k].id)),
            program.constants@.len() == 0 ==> (r matches Ok(it3) && it3.state.count_expr == 0),
            r matches Ok(it2) ==> (program.constants@.len() > 0 ==> (eval_pure(
                program.constants@[0].value,
            ) matches Some(oc) ==> (oc.0 matches Ok(m) ==> (oc.1 <= (if max_expr == 0 {
                u64::MAX
            } else {
                max_expr
            }) ==> model(it2.constants@[0].1) == m)))),
    {
        let bound: u64 = if max_expr == 0 {
            u64::MAX
        } else {
            max_expr
        };
        let mut st = EvalState { count_expr: 0, max_expr: bound, recursive: 0, max_recursive };
        let mut stack = Stack::new();
        stack.begin_scope();
        let mut store = ValueStore::new();
        let empty_constants: Vec<(u16, Value)> = Vec::new();
        let mut evaluated: Vec<(u16, Value)> = Vec::new();
        let mut i: usize = 0;
        while i < program.constants.len()
            invariant
                i <= program.constants@.len(),
                evaluated@.len() == i,
                forall|k: int| 0 <= k < i ==> (#[trigger] evaluated@[k]).0 == program.constants@[k].id,
                i == 0 ==> st.count_expr == 0,
                i > 0 ==> (eval_pure(program.constants@[0].value) matches Some(oc) ==> (oc.0
                    matches Ok(m) ==> (oc.1 <= bound ==> model(evaluated@[0].1) == m))),
                st.max_expr == bound,
                bound == (if max_expr == 0 {
                    u64::MAX
                } else {
                    max_expr
                }),
                st.max_recursive == max_recursive,
                st.recursive == 0,
                stack.scopes@.len() == 1,
                stack.loop_break == false,
                stack.loop_continue == false,
                empty_constants@.len() == 0,
            decreases program.constants@.len() - i,
        {
            let c = &program.constants[i];
            let v = match execute_expression_and_expect_value(
                &program,
                &env,
                &mut st,
                &mut stack,
                &mut store,
                &empty_constants,
                Option::None,
                &c.value,
            ) {
                Ok(v) => v,
                Err(e) => {
                    return Err(e);
                },
            };
            let kept = v.duplicate();
            // later constant initialisers can read the earlier constants
            match stack.register_variable(c.id, Path::Owned(v)) {
                Ok(()) => (),
                Err(e) => {
                    return Err(e);
                },
            }
            evaluated.push((c.id, kept));
            i = i + 1;
        }
        Ok(Interpreter { program, env, state: st, constants: evaluated })
    }

    /// Charge one step of the expression meter; reaching the bound is the
    /// `LimitReached` outcome. The host can use it to pre-charge work.
    pub fn increment_expr(&mut self) -> (r: Result<(), InterpreterError>)
        ensures
            final(self).state.max_expr == old(self).state.max_expr,
            final(self).state.max_recursive == old(self).state.max_recursive,
            final(self).state.recursive == old(self).state.recursive,
            final(self).program == old(self).program,
            final(self).env == old(self).env,
            final(self).constants == old(self).constants,
            old(self).state.count_expr < u64::MAX ==> final(self).state.count_expr == old(
                self,
            ).state.count_expr + 1,
            old(self).state.count_expr == u64::MAX ==> final(self).state.count_expr == u64::MAX,
            r is Ok <==> old(self).state.count_expr + 1 <= old(self).state.max_expr,
            r is Err ==> (r == Err::<(), InterpreterError>(InterpreterError::LimitReached)
                && final(self).state.count_expr >= final(self).state.max_expr),
    {
        increment_state(&mut self.state)
    }

    /// The type of a runtime value; null and empty composites have none.
    pub fn get_type_from_value(&self, value: &Value) -> (r: Result<Type, InterpreterError>)
        ensures
            crate::values::type_of(*value) matches Some(t) ==> r == Ok::<Type, InterpreterError>(
                t,
            ),
            crate::values::type_of(*value) is None ==> r == Err::<Type, InterpreterError>(
                InterpreterError::UnknownType,
            ),
    {
        value_type(value)
    }

    /// The value of the expression meter.
    pub fn get_count_expr(&self) -> (r: u64)
        ensures
            r == self.state.count_expr,
    {
        self.state.count_expr
    }

    /// Pre-charge the expression meter by a number of steps; the meter
    /// saturates at its largest value.
    pub fn add_count_expr(&mut self, n: u64)
        ensures
            final(self).state.max_expr == old(self).state.max_expr,
            final(self).state.max_recursive == old(self).state.max_recursive,
            final(self).state.recursive == old(self).state.recursive,
            final(self).program == old(self).program,
            final(self).env == old(self).env,
            final(self).constants == old(self).constants,
            old(self).state.count_expr + n <= u64::MAX ==> final(self).state.count_expr == old(
                self,
            ).state.count_expr + n,
            old(self).state.count_expr + n > u64::MAX ==> final(self).state.count_expr
                == u64::MAX,
    {
        if self.state.count_expr <= u64::MAX - n {
            self.state.count_expr = self.state.count_expr + n;
        } else {
            self.state.count_expr = u64::MAX;
        }
    }

    /// Invoke an entry function by name with the given arguments: only a
    /// function carrying the entry flag may be called from outside, and its
    /// result is coerced without loss to the widest machine integer (a result
    /// that does not fit is refused). A missing result is the `NoExitCode`
    /// outcome; passing the expression meter's bound is exactly the
    /// `LimitReached` outcome.
    pub fn call_entry_function(&mut self, function_name: &String, parameters: Vec<Value>) -> (r:
        Result<u64, InterpreterError>)
        ensures
            st_frame(old(self).state, final(self).state),
            r == Err::<u64, InterpreterError>(InterpreterError::LimitReached) ==> final(self).state.count_expr
                >= final(self).state.max_expr,
            final(self).program == old(self).program,
            final(self).env == old(self).env,
            !all_typed(parameters@) ==> r == Err::<u64, InterpreterError>(
                InterpreterError::UnknownType,
            ),
            all_typed(parameters@) ==> ({
                let resolved = spec_resolve(
                    old(self).program,
                    old(self).env,
                    function_name@,
                    Option::None,
                    spec_arg_types(parameters@),
                );
                &&& (resolved is None ==> (r matches Err(e)
                    && e matches InterpreterError::FunctionNotFound(n, _) && n@ == function_name@))
                &&& (resolved matches Some(fref) ==> (fref matches FunctionRef::Native(_) ==> r
                    == Err::<u64, InterpreterError>(InterpreterError::FunctionEntry(true, false))))
                &&& (resolved matches Some(fref) ==> (fref matches FunctionRef::Custom(i) ==> (
                (i as int) < old(self).program.functions@.len() && !old(
                    self,
                ).program.functions@[i as int].entry ==> r == Err::<u64, InterpreterError>(
                    InterpreterError::FunctionEntry(true, false),
                ))))
                &&& (resolved matches Some(fref2) ==> entry_call_pinned(
                    old(self).program,
                    fref2,
                    parameters@.len() as int,
                    old(self).state,
                    r,
                ))
            }),
    {
        let types = match get_types_from_values(&parameters) {
            Ok(ts) => ts,
            Err(e) => {
                return Err(e);
            },
        };
        let fref = match get_function(
            &self.program,
            &self.env,
            function_name,
            &Option::None,
            &types,
        ) {
            Ok(f) => f,
            Err(e) => {
                return Err(e);
            },
        };
        let is_entry = match fref {
            FunctionRef::Custom(i) => {
                if i < self.program.functions.len() {
                    self.program.functions[i].entry
                } else {
                    false
                }
            },
            FunctionRef::Native(_) => false,
        };
        if !is_entry {
            // only a function marked as an entry can be called from outside
            return Err(InterpreterError::FunctionEntry(true, false));
        }
        proof {
            if spec_resolve(
                self.program,
                self.env,
                function_name@,
                Option::None,
                spec_arg_types(parameters@),
            ) matches Some(FunctionRef::Custom(i)) {
                lemma_first_custom(
                    self.program.functions@,
                    0,
                    function_name@,
                    Option::None,
                    spec_arg_types(parameters@),
                );
            }
        }
        let mut store = ValueStore::new();
        let result = execute_function(
            &self.program,
            &self.env,
            &mut self.state,
            &mut store,
            &self.constants,
            fref,
            Option::None,
            parameters,
        );
        match result {
            Ok(Option::Some(v)) => {
                // the result is coerced to the widest machine integer
                match v.checked_cast_to_u64() {
                    Ok(n) => Ok(n),
                    Err(e) => lift_err(e),
                }
            },
            Ok(Option::None) => Err(InterpreterError::NoExitCode),
            Err(e) => Err(e),
        }
    }
}

} // verus!
