use vstd::prelude::*;

use crate::environment::{Environment, NativeFunction, NativeHandler};
use crate::types::Type;
use vstd::string::StringExecFns;

verus! {

/// The receiver type the optional methods are registered for.
pub open spec fn opt_t() -> Type {
    Type::Optional(Box::new(Type::T))
}

/// What one registration record holds: the name, the receiver type, the
/// behaviour, the parameter count and the declared return type.
pub open spec fn registered(
    f: NativeFunction,
    name: Seq<char>,
    receiver: Type,
    handler: NativeHandler,
    params: nat,
    ret: Option<Type>,
) -> bool {
    &&& f.name@ == name
    &&& f.for_type == Some(receiver)
    &&& f.handler == handler
    &&& f.parameters@.len() == params
    &&& f.return_type == ret
}

/// Register the standard native functions: the optional inspectors and
/// extractors on any optional, and the length of a string or an array.
pub fn register(env: &mut Environment)
    ensures
        final(env).functions@.len() == old(env).functions@.len() + 6,
        final(env).structures@ == old(env).structures@,
        forall|j: int|
            0 <= j < old(env).functions@.len() ==> final(env).functions@[j] == old(
                env,
            ).functions@[j],
        ({
            let fs = final(env).functions@;
            let base = old(env).functions@.len() as int;
            &&& registered(fs[base + 0], "is_none"@, opt_t(), NativeHandler::OptionalIsNone, 0, Some(Type::Bool))
            &&& registered(fs[base + 1], "is_some"@, opt_t(), NativeHandler::OptionalIsSome, 0, Some(Type::Bool))
            &&& registered(fs[base + 2], "unwrap"@, opt_t(), NativeHandler::OptionalUnwrap, 0, Some(Type::T))
            &&& registered(fs[base + 3], "unwrap_or"@, opt_t(), NativeHandler::OptionalUnwrapOr, 1, Some(Type::T))
            &&& fs[base + 3].parameters@ =~= seq![Type::T]
            &&& registered(fs[base + 4], "len"@, Type::String, NativeHandler::Len, 0, Some(Type::U32))
            &&& registered(fs[base + 5], "len"@, Type::Array(Box::new(Type::T)), NativeHandler::Len, 0, Some(Type::U32))
        }),
{
    env.add_function(
        NativeFunction {
            name: String::from_str("is_none"),
            for_type: Option::Some(Type::Optional(Box::new(Type::T))),
            parameters: Vec::new(),
            handler: NativeHandler::OptionalIsNone,
            cost: 1,
            return_type: Option::Some(Type::Bool),
        },
    );
    env.add_function(
        NativeFunction {
            name: String::from_str("is_some"),
            for_type: Option::Some(Type::Optional(Box::new(Type::T))),
            parameters: Vec::new(),
            handler: NativeHandler::OptionalIsSome,
            cost: 1,
            return_type: Option::Some(Type::Bool),
        },
    );
    env.add_function(
        NativeFunction {
            name: String::from_str("unwrap"),
            for_type: Option::Some(Type::Optional(Box::new(Type::T))),
            parameters: Vec::new(),
            handler: NativeHandler::OptionalUnwrap,
            cost: 1,
            return_type: Option::Some(Type::T),
        },
    );
    let mut unwrap_or_params: Vec<Type> = Vec::new();
    unwrap_or_params.push(Type::T);
    env.add_function(
        NativeFunction {
            name: String::from_str("unwrap_or"),
            for_type: Option::Some(Type::Optional(Box::new(Type::T))),
            parameters: unwrap_or_params,
            handler: NativeHandler::OptionalUnwrapOr,
            cost: 1,
            return_type: Option::Some(Type::T),
        },
    );
    env.add_function(
        NativeFunction {
            name: String::from_str("len"),
            for_type: Option::Some(Type::String),
            parameters: Vec::new(),
            handler: NativeHandler::Len,
            cost: 1,
            return_type: Option::Some(Type::U32),
        },
    );
    env.add_function(
        NativeFunction {
            name: String::from_str("len"),
            for_type: Option::Some(Type::Array(Box::new(Type::T))),
            parameters: Vec::new(),
            handler: NativeHandler::Len,
            cost: 1,
            return_type: Option::Some(Type::U32),
        },
    );
}

} // verus!
