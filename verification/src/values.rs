use vstd::prelude::*;

use crate::types::Type;
use crate::u256::U256;

verus! {

/// A runtime value of the scripting language. Composite values own their
/// elements; aliasing between variables is realised by the value store, which
/// keeps whole values in numbered cells.
#[derive(Debug)]
pub enum Value {
    Null,
    U8(u8),
    U16(u16),
    U32(u32),
    U64(u64),
    U128(u128),
    U256(U256),
    String(String),
    Boolean(bool),
    Struct(Vec<Value>, u16),
    Array(Vec<Value>),
    Optional(Option<Box<Value>>),
    Range(Box<Value>, Box<Value>, Type),
}

/// The mathematical shape of a `Value`: strings become character sequences,
/// element vectors become sequences, and 256-bit numbers their value.
#[verifier::ext_equal]
pub enum ValModel {
    Null,
    U8(u8),
    U16(u16),
    U32(u32),
    U64(u64),
    U128(u128),
    U256(nat),
    Str(Seq<char>),
    Bool(bool),
    Struct(Seq<ValModel>, u16),
    Array(Seq<ValModel>),
    Optional(Option<Box<ValModel>>),
    Range(Box<ValModel>, Box<ValModel>, Type),
}

/// The model of a value.
pub open spec fn model(v: Value) -> ValModel
    decreases v,
{
    match v {
        Value::Null => ValModel::Null,
        Value::U8(n) => ValModel::U8(n),
        Value::U16(n) => ValModel::U16(n),
        Value::U32(n) => ValModel::U32(n),
        Value::U64(n) => ValModel::U64(n),
        Value::U128(n) => ValModel::U128(n),
        Value::U256(n) => ValModel::U256(n.as_nat()),
        Value::String(s) => ValModel::Str(s@),
        Value::Boolean(b) => ValModel::Bool(b),
        Value::Struct(fields, id) => ValModel::Struct(models(fields@), id),
        Value::Array(values) => ValModel::Array(models(values@)),
        Value::Optional(o) => match o {
            Option::Some(inner) => ValModel::Optional(Option::Some(Box::new(model(*inner)))),
            Option::None => ValModel::Optional(Option::None),
        },
        Value::Range(start, end, t) => ValModel::Range(
            Box::new(model(*start)),
            Box::new(model(*end)),
            t,
        ),
    }
}

/// The models of a sequence of values.
pub open spec fn models(s: Seq<Value>) -> Seq<ValModel>
    decreases s,
{
    if s.len() == 0 {
        Seq::empty()
    } else {
        seq![model(s[0])] + models(s.drop_first())
    }
}

pub proof fn lemma_models_len(s: Seq<Value>)
    ensures
        models(s).len() == s.len(),
    decreases s,
{
    if s.len() > 0 {
        lemma_models_len(s.drop_first());
    }
}

pub proof fn lemma_models_index(s: Seq<Value>, i: int)
    requires
        0 <= i < s.len(),
    ensures
        models(s).len() == s.len(),
        models(s)[i] == model(s[i]),
    decreases s,
{
    lemma_models_len(s);
    if i > 0 {
        lemma_models_index(s.drop_first(), i - 1);
    }
}

/// Errors of the value layer.
#[derive(Debug)]
pub enum ValueError {
    InvalidValue(Value, Type),
    InvalidStructValue(Value),
    InvalidCastType(Type),
    OperationNotNumberType,
    SubValue,
    OptionalIsNull,
    OutOfBounds(usize, usize),
    CastError,
    UnknownType,
}

/// The type of a value, when one can be determined: null, empty arrays and
/// empty optionals have none.
pub open spec fn type_of(v: Value) -> Option<Type>
    decreases v,
{
    match v {
        Value::Null => Option::None,
        Value::U8(_) => Option::Some(Type::U8),
        Value::U16(_) => Option::Some(Type::U16),
        Value::U32(_) => Option::Some(Type::U32),
        Value::U64(_) => Option::Some(Type::U64),
        Value::U128(_) => Option::Some(Type::U128),
        Value::U256(_) => Option::Some(Type::U256),
        Value::String(_) => Option::Some(Type::String),
        Value::Boolean(_) => Option::Some(Type::Bool),
        Value::Struct(_, id) => Option::Some(Type::Struct(id)),
        Value::Array(values) => if values@.len() == 0 {
            Option::None
        } else {
            match type_of(values@[0]) {
                Option::Some(inner) => Option::Some(Type::Array(Box::new(inner))),
                Option::None => Option::None,
            }
        },
        Value::Optional(o) => match o {
            Option::Some(inner) => match type_of(*inner) {
                Option::Some(t) => Option::Some(Type::Optional(Box::new(t))),
                Option::None => Option::None,
            },
            Option::None => Option::None,
        },
        Value::Range(_, _, t) => Option::Some(Type::Range(Box::new(t))),
    }
}

/// The type of a model, when one can be determined: the mirror of `type_of`
/// on the mathematical side.
pub open spec fn model_type_of(m: ValModel) -> Option<Type>
    decreases m,
{
    match m {
        ValModel::Null => Option::None,
        ValModel::U8(_) => Option::Some(Type::U8),
        ValModel::U16(_) => Option::Some(Type::U16),
        ValModel::U32(_) => Option::Some(Type::U32),
        ValModel::U64(_) => Option::Some(Type::U64),
        ValModel::U128(_) => Option::Some(Type::U128),
        ValModel::U256(_) => Option::Some(Type::U256),
        ValModel::Str(_) => Option::Some(Type::String),
        ValModel::Bool(_) => Option::Some(Type::Bool),
        ValModel::Struct(_, id) => Option::Some(Type::Struct(id)),
        ValModel::Array(es) => if es.len() == 0 {
            Option::None
        } else {
            match model_type_of(es[0]) {
                Option::Some(inner) => Option::Some(Type::Array(Box::new(inner))),
                Option::None => Option::None,
            }
        },
        ValModel::Optional(o) => match o {
            Option::Some(inner) => match model_type_of(*inner) {
                Option::Some(t) => Option::Some(Type::Optional(Box::new(t))),
                Option::None => Option::None,
            },
            Option::None => Option::None,
        },
        ValModel::Range(_, _, t) => Option::Some(Type::Range(Box::new(t))),
    }
}

/// A value's type is its model's type.
pub proof fn lemma_type_of_model(v: Value)
    ensures
        model_type_of(model(v)) == type_of(v),
    decreases v,
{
    match v {
        Value::Array(values) => {
            lemma_models_len(values@);
            if values@.len() > 0 {
                lemma_models_index(values@, 0);
                lemma_type_of_model(values@[0]);
            }
        },
        Value::Optional(o) => {
            match o {
                Option::Some(inner) => {
                    lemma_type_of_model(*inner);
                },
                Option::None => (),
            }
        },
        _ => (),
    }
}

/// The numeric value of a number variant; zero elsewhere.
pub open spec fn num_value(v: Value) -> nat {
    match v {
        Value::U8(n) => n as nat,
        Value::U16(n) => n as nat,
        Value::U32(n) => n as nat,
        Value::U64(n) => n as nat,
        Value::U128(n) => n as nat,
        Value::U256(n) => n.as_nat(),
        _ => 0,
    }
}

/// The bit width of a number variant; zero elsewhere.
pub open spec fn num_width(v: Value) -> nat {
    match v {
        Value::U8(_) => 8,
        Value::U16(_) => 16,
        Value::U32(_) => 32,
        Value::U64(_) => 64,
        Value::U128(_) => 128,
        Value::U256(_) => 256,
        _ => 0,
    }
}

/// Whether the value is one of the number variants.
pub open spec fn spec_is_number(v: Value) -> bool {
    match v {
        Value::U8(_) | Value::U16(_) | Value::U32(_) | Value::U64(_) | Value::U128(_)
        | Value::U256(_) => true,
        _ => false,
    }
}

impl Value {
    pub fn is_null(&self) -> (r: bool)
        ensures
            r == (self matches Value::Null),
    {
        match self {
            Value::Null => true,
            _ => false,
        }
    }

    pub fn is_string(&self) -> (r: bool)
        ensures
            r == (self matches Value::String(_)),
    {
        match self {
            Value::String(_) => true,
            _ => false,
        }
    }

    /// Check whether the value is a number.
    pub fn is_number(&self) -> (r: bool)
        ensures
            r == spec_is_number(*self),
    {
        match self {
            Value::U8(_) | Value::U16(_) | Value::U32(_) | Value::U64(_) | Value::U128(_)
            | Value::U256(_) => true,
            _ => false,
        }
    }

    pub fn as_u8(&self) -> (r: Result<u8, ValueError>)
        ensures
            (*self) matches Value::U8(n) ==> r == Ok::<u8, ValueError>(n),
            !((*self) matches Value::U8(_)) ==> (r matches Err(ValueError::InvalidValue(_, t))
                && t == Type::U8),
    {
        match self {
            Value::U8(n) => Ok(*n),
            v => Err(ValueError::InvalidValue(v.duplicate(), Type::U8)),
        }
    }

    pub fn as_u16(&self) -> (r: Result<u16, ValueError>)
        ensures
            (*self) matches Value::U16(n) ==> r == Ok::<u16, ValueError>(n),
            !((*self) matches Value::U16(_)) ==> (r matches Err(ValueError::InvalidValue(_, t))
                && t == Type::U16),
    {
        match self {
            Value::U16(n) => Ok(*n),
            v => Err(ValueError::InvalidValue(v.duplicate(), Type::U16)),
        }
    }

    pub fn as_u32(&self) -> (r: Result<u32, ValueError>)
        ensures
            (*self) matches Value::U32(n) ==> r == Ok::<u32, ValueError>(n),
            !((*self) matches Value::U32(_)) ==> (r matches Err(ValueError::InvalidValue(_, t))
                && t == Type::U32),
    {
        match self {
            Value::U32(n) => Ok(*n),
            v => Err(ValueError::InvalidValue(v.duplicate(), Type::U32)),
        }
    }

    pub fn as_u64(&self) -> (r: Result<u64, ValueError>)
        ensures
            (*self) matches Value::U64(n) ==> r == Ok::<u64, ValueError>(n),
            !((*self) matches Value::U64(_)) ==> (r matches Err(ValueError::InvalidValue(_, t))
                && t == Type::U64),
    {
        match self {
            Value::U64(n) => Ok(*n),
            v => Err(ValueError::InvalidValue(v.duplicate(), Type::U64)),
        }
    }

    pub fn as_u128(&self) -> (r: Result<u128, ValueError>)
        ensures
            (*self) matches Value::U128(n) ==> r == Ok::<u128, ValueError>(n),
            !((*self) matches Value::U128(_)) ==> (r matches Err(ValueError::InvalidValue(_, t))
                && t == Type::U128),
    {
        match self {
            Value::U128(n) => Ok(*n),
            v => Err(ValueError::InvalidValue(v.duplicate(), Type::U128)),
        }
    }

    pub fn as_u256(&self) -> (r: Result<U256, ValueError>)
        ensures
            (*self) matches Value::U256(n) ==> r == Ok::<U256, ValueError>(n),
            !((*self) matches Value::U256(_)) ==> (r matches Err(ValueError::InvalidValue(_, t))
                && t == Type::U256),
    {
        match self {
            Value::U256(n) => Ok(*n),
            v => Err(ValueError::InvalidValue(v.duplicate(), Type::U256)),
        }
    }

    pub fn as_string(&self) -> (r: Result<&String, ValueError>)
        ensures
            (*self) matches Value::String(_) ==> (r matches Ok(s) && model(*self) == ValModel::Str(
                s@,
            )),
            !((*self) matches Value::String(_)) ==> (r matches Err(ValueError::InvalidValue(_, t))
                && t == Type::String),
    {
        match self {
            Value::String(s) => Ok(s),
            v => Err(ValueError::InvalidValue(v.duplicate(), Type::String)),
        }
    }

    pub fn as_bool(&self) -> (r: Result<bool, ValueError>)
        ensures
            (*self) matches Value::Boolean(b) ==> r == Ok::<bool, ValueError>(b),
            !((*self) matches Value::Boolean(_)) ==> (r matches Err(ValueError::InvalidValue(_, t))
                && t == Type::Bool),
    {
        match self {
            Value::Boolean(b) => Ok(*b),
            v => Err(ValueError::InvalidValue(v.duplicate(), Type::Bool)),
        }
    }

    /// The fields of a struct value.
    pub fn as_map(&self) -> (r: Result<&Vec<Value>, ValueError>)
        ensures
            (*self) matches Value::Struct(_, id) ==> (r matches Ok(fields) && model(*self)
                == ValModel::Struct(models(fields@), id)),
            !((*self) matches Value::Struct(_, _)) ==> r matches Err(
                ValueError::InvalidStructValue(_),
            ),
    {
        match self {
            Value::Struct(fields, _) => Ok(fields),
            v => Err(ValueError::InvalidStructValue(v.duplicate())),
        }
    }

    /// The elements of an array value.
    pub fn as_vec(&self) -> (r: Result<&Vec<Value>, ValueError>)
        ensures
            (*self) matches Value::Array(_) ==> (r matches Ok(values) && model(*self)
                == ValModel::Array(models(values@))),
            !((*self) matches Value::Array(_)) ==> (r matches Err(ValueError::InvalidValue(_, t))
                && t == Type::Array(Box::new(Type::Any))),
    {
        match self {
            Value::Array(values) => Ok(values),
            v => Err(
                ValueError::InvalidValue(v.duplicate(), Type::Array(Box::new(Type::Any))),
            ),
        }
    }

    /// The elements of an array or the fields of a struct.
    pub fn as_sub_vec(&self) -> (r: Result<&Vec<Value>, ValueError>)
        ensures
            (*self) matches Value::Array(_) ==> (r matches Ok(values) && model(*self)
                == ValModel::Array(models(values@))),
            (*self) matches Value::Struct(_, id) ==> (r matches Ok(values) && model(*self)
                == ValModel::Struct(models(values@), id)),
            !((*self) matches Value::Array(_)) && !((*self) matches Value::Struct(_, _)) ==> r == Err::<
                &Vec<Value>,
                ValueError,
            >(ValueError::SubValue),
    {
        match self {
            Value::Array(values) => Ok(values),
            Value::Struct(fields, _) => Ok(fields),
            _ => Err(ValueError::SubValue),
        }
    }

    /// Consuming variant of `as_sub_vec`.
    pub fn to_sub_vec(self) -> (r: Result<Vec<Value>, ValueError>)
        ensures
            self matches Value::Array(_) ==> (r matches Ok(values) && model(self)
                == ValModel::Array(models(values@))),
            self matches Value::Struct(_, id) ==> (r matches Ok(values) && model(self)
                == ValModel::Struct(models(values@), id)),
            !(self matches Value::Array(_)) && !(self matches Value::Struct(_, _)) ==> r == Err::<
                Vec<Value>,
                ValueError,
            >(ValueError::SubValue),
    {
        match self {
            Value::Array(values) => Ok(values),
            Value::Struct(fields, _) => Ok(fields),
            _ => Err(ValueError::SubValue),
        }
    }

    /// The inner value of an optional; null counts as the empty optional.
    pub fn as_optional(&self, expected: &Type) -> (r: Result<&Option<Box<Value>>, ValueError>)
        ensures
            (self matches Value::Optional(_) || self matches Value::Null) ==> r is Ok,
            (*self) matches Value::Optional(o) ==> (r matches Ok(v) && *v == o),
            (*self) matches Value::Null ==> (r matches Ok(v) && *v is None),
            !((*self) matches Value::Optional(_)) && !((*self) matches Value::Null) ==> (r matches Err(
                ValueError::InvalidValue(_, t),
            ) && t == Type::Optional(Box::new(*expected))),
    {
        match self {
            Value::Null => Ok(&Option::None),
            Value::Optional(o) => Ok(o),
            v => Err(
                ValueError::InvalidValue(
                    v.duplicate(),
                    Type::Optional(Box::new(expected.duplicate())),
                ),
            ),
        }
    }

    /// Take the inner value out of an optional, failing when it is empty.
    pub fn take_from_optional(&mut self, expected: &Type) -> (r: Result<Value, ValueError>)
        ensures
            (*old(self)) matches Value::Optional(Option::Some(inner)) ==> (r matches Ok(v)
                && model(v) == model(*inner) && *final(self) == Value::Optional(Option::None)),
            (*old(self)) matches Value::Optional(Option::None) ==> (r == Err::<Value, ValueError>(
                ValueError::OptionalIsNull,
            ) && *final(self) == *old(self)),
            !(old(self) matches Value::Optional(_)) ==> (r matches Err(
                ValueError::InvalidValue(_, t),
            ) && t == Type::Optional(Box::new(*expected)) && *final(self) == *old(self)),
    {
        let mut current = Value::Null;
        core::mem::swap(self, &mut current);
        match current {
            Value::Optional(opt) => {
                *self = Value::Optional(Option::None);
                match opt {
                    Option::Some(inner) => Ok(*inner),
                    Option::None => Err(ValueError::OptionalIsNull),
                }
            },
            v => {
                let err = ValueError::InvalidValue(
                    v.duplicate(),
                    Type::Optional(Box::new(expected.duplicate())),
                );
                *self = v;
                Err(err)
            },
        }
    }

    /// Take the whole content of an optional.
    pub fn take_optional(&mut self) -> (r: Result<Option<Value>, ValueError>)
        ensures
            (*old(self)) matches Value::Optional(Option::Some(inner)) ==> (r matches Ok(v)
                && v matches Some(taken) && model(taken) == model(*inner) && *final(self)
                == Value::Optional(Option::None)),
            (*old(self)) matches Value::Optional(Option::None) ==> (r matches Ok(v) && v is None
                && *final(self) == *old(self)),
            !(old(self) matches Value::Optional(_)) ==> (r matches Err(
                ValueError::InvalidValue(_, t),
            ) && t == Type::Optional(Box::new(Type::Any)) && *final(self) == *old(self)),
    {
        let mut current = Value::Null;
        core::mem::swap(self, &mut current);
        match current {
            Value::Optional(opt) => {
                *self = Value::Optional(Option::None);
                match opt {
                    Option::Some(inner) => Ok(Option::Some(*inner)),
                    Option::None => Ok(Option::None),
                }
            },
            v => {
                let err = ValueError::InvalidValue(v.duplicate(), Type::Optional(Box::new(Type::Any)));
                *self = v;
                Err(err)
            },
        }
    }

    /// The endpoints and element type of a range value.
    pub fn as_range(&self) -> (r: Result<(&Value, &Value, &Type), ValueError>)
        ensures
            (*self) matches Value::Range(s, e, t) ==> (r matches Ok(v) && *v.0 == *s && *v.1 == *e
                && *v.2 == t),
            !((*self) matches Value::Range(_, _, _)) ==> (r matches Err(
                ValueError::InvalidValue(_, t),
            ) && t == Type::Range(Box::new(Type::Any))),
    {
        match self {
            Value::Range(start, end, t) => Ok((start, end, t)),
            v => Err(ValueError::InvalidValue(v.duplicate(), Type::Range(Box::new(Type::Any)))),
        }
    }

    /// Consuming variant of `as_range`.
    pub fn to_range(self) -> (r: Result<(Value, Value, Type), ValueError>)
        ensures
            self matches Value::Range(s, e, t) ==> (r matches Ok(v) && v.0 == *s && v.1 == *e
                && v.2 == t),
            !(self matches Value::Range(_, _, _)) ==> (r matches Err(
                ValueError::InvalidValue(_, t),
            ) && t == Type::Range(Box::new(Type::Any))),
    {
        match self {
            Value::Range(start, end, t) => Ok((*start, *end, t)),
            v => Err(ValueError::InvalidValue(v.duplicate(), Type::Range(Box::new(Type::Any)))),
        }
    }

    pub fn to_u8(self) -> (r: Result<u8, ValueError>)
        ensures
            self matches Value::U8(n) ==> r == Ok::<u8, ValueError>(n),
            !(self matches Value::U8(_)) ==> (r matches Err(ValueError::InvalidValue(_, t))
                && t == Type::U8),
    {
        match self {
            Value::U8(n) => Ok(n),
            v => Err(ValueError::InvalidValue(v, Type::U8)),
        }
    }

    pub fn to_u16(self) -> (r: Result<u16, ValueError>)
        ensures
            self matches Value::U16(n) ==> r == Ok::<u16, ValueError>(n),
            !(self matches Value::U16(_)) ==> (r matches Err(ValueError::InvalidValue(_, t))
                && t == Type::U16),
    {
        match self {
            Value::U16(n) => Ok(n),
            v => Err(ValueError::InvalidValue(v, Type::U16)),
        }
    }

    pub fn to_u32(self) -> (r: Result<u32, ValueError>)
        ensures
            self matches Value::U32(n) ==> r == Ok::<u32, ValueError>(n),
            !(self matches Value::U32(_)) ==> (r matches Err(ValueError::InvalidValue(_, t))
                && t == Type::U32),
    {
        match self {
            Value::U32(n) => Ok(n),
            v => Err(ValueError::InvalidValue(v, Type::U32)),
        }
    }

    pub fn to_u64(self) -> (r: Result<u64, ValueError>)
        ensures
            self matches Value::U64(n) ==> r == Ok::<u64, ValueError>(n),
            !(self matches Value::U64(_)) ==> (r matches Err(ValueError::InvalidValue(_, t))
                && t == Type::U64),
    {
        match self {
            Value::U64(n) => Ok(n),
            v => Err(ValueError::InvalidValue(v, Type::U64)),
        }
    }

    pub fn to_u128(self) -> (r: Result<u128, ValueError>)
        ensures
            self matches Value::U128(n) ==> r == Ok::<u128, ValueError>(n),
            !(self matches Value::U128(_)) ==> (r matches Err(ValueError::InvalidValue(_, t))
                && t == Type::U128),
    {
        match self {
            Value::U128(n) => Ok(n),
            v => Err(ValueError::InvalidValue(v, Type::U128)),
        }
    }

    pub fn to_u256(self) -> (r: Result<U256, ValueError>)
        ensures
            self matches Value::U256(n) ==> r == Ok::<U256, ValueError>(n),
            !(self matches Value::U256(_)) ==> (r matches Err(ValueError::InvalidValue(_, t))
                && t == Type::U256),
    {
        match self {
            Value::U256(n) => Ok(n),
            v => Err(ValueError::InvalidValue(v, Type::U256)),
        }
    }

    pub fn to_string_value(self) -> (r: Result<String, ValueError>)
        ensures
            self matches Value::String(_) ==> (r matches Ok(s) && model(self) == ValModel::Str(
                s@,
            )),
            !(self matches Value::String(_)) ==> (r matches Err(ValueError::InvalidValue(_, t))
                && t == Type::String),
    {
        match self {
            Value::String(s) => Ok(s),
            v => Err(ValueError::InvalidValue(v, Type::String)),
        }
    }

    pub fn to_bool(self) -> (r: Result<bool, ValueError>)
        ensures
            self matches Value::Boolean(b) ==> r == Ok::<bool, ValueError>(b),
            !(self matches Value::Boolean(_)) ==> (r matches Err(ValueError::InvalidValue(_, t))
                && t == Type::Bool),
    {
        match self {
            Value::Boolean(b) => Ok(b),
            v => Err(ValueError::InvalidValue(v, Type::Bool)),
        }
    }

    /// Consuming variant of `as_map`.
    pub fn to_map(self) -> (r: Result<Vec<Value>, ValueError>)
        ensures
            self matches Value::Struct(_, id) ==> (r matches Ok(fields) && model(self)
                == ValModel::Struct(models(fields@), id)),
            !(self matches Value::Struct(_, _)) ==> r matches Err(
                ValueError::InvalidStructValue(_),
            ),
    {
        match self {
            Value::Struct(fields, _) => Ok(fields),
            v => Err(ValueError::InvalidStructValue(v)),
        }
    }

    /// Consuming variant of `as_vec`.
    pub fn to_vec(self) -> (r: Result<Vec<Value>, ValueError>)
        ensures
            self matches Value::Array(_) ==> (r matches Ok(values) && model(self)
                == ValModel::Array(models(values@))),
            !(self matches Value::Array(_)) ==> (r matches Err(ValueError::InvalidValue(_, t))
                && t == Type::Array(Box::new(Type::Any))),
    {
        match self {
            Value::Array(values) => Ok(values),
            v => Err(ValueError::InvalidValue(v, Type::Array(Box::new(Type::Any)))),
        }
    }

    /// Deep copy: the copy has the same model as the original.
    pub fn duplicate(&self) -> (r: Value)
        ensures
            model(r) == model(*self),
        decreases self,
    {
        match self {
            Value::Null => Value::Null,
            Value::U8(n) => Value::U8(*n),
            Value::U16(n) => Value::U16(*n),
            Value::U32(n) => Value::U32(*n),
            Value::U64(n) => Value::U64(*n),
            Value::U128(n) => Value::U128(*n),
            Value::U256(n) => Value::U256(*n),
            Value::String(s) => Value::String(s.clone()),
            Value::Boolean(b) => Value::Boolean(*b),
            Value::Struct(fields, id) => Value::Struct(duplicate_values(fields), *id),
            Value::Array(values) => Value::Array(duplicate_values(values)),
            Value::Optional(o) => match o {
                Option::Some(inner) => Value::Optional(Option::Some(Box::new(inner.duplicate()))),
                Option::None => Value::Optional(Option::None),
            },
            Value::Range(start, end, t) => Value::Range(
                Box::new(start.duplicate()),
                Box::new(end.duplicate()),
                t.duplicate(),
            ),
        }
    }

    /// Retrieve the type of the value; fails with `UnknownType` where none is
    /// determined (null, empty arrays, empty optionals).
    pub fn get_type(&self) -> (r: Result<Type, ValueError>)
        ensures
            type_of(*self) matches Some(t) ==> r == Ok::<Type, ValueError>(t),
            type_of(*self) is None ==> r == Err::<Type, ValueError>(ValueError::UnknownType),
        decreases self,
    {
        match self {
            Value::Null => Err(ValueError::UnknownType),
            Value::U8(_) => Ok(Type::U8),
            Value::U16(_) => Ok(Type::U16),
            Value::U32(_) => Ok(Type::U32),
            Value::U64(_) => Ok(Type::U64),
            Value::U128(_) => Ok(Type::U128),
            Value::U256(_) => Ok(Type::U256),
            Value::String(_) => Ok(Type::String),
            Value::Boolean(_) => Ok(Type::Bool),
            Value::Struct(_, id) => Ok(Type::Struct(*id)),
            Value::Array(values) => {
                if values.len() == 0 {
                    Err(ValueError::UnknownType)
                } else {
                    match values[0].get_type() {
                        Ok(inner) => Ok(Type::Array(Box::new(inner))),
                        Err(_) => Err(ValueError::UnknownType),
                    }
                }
            },
            Value::Optional(o) => match o {
                Option::Some(inner) => match inner.get_type() {
                    Ok(t) => Ok(Type::Optional(Box::new(t))),
                    Err(_) => Err(ValueError::UnknownType),
                },
                Option::None => Err(ValueError::UnknownType),
            },
            Value::Range(_, _, t) => Ok(Type::Range(Box::new(t.duplicate()))),
        }
    }
}

/// Deep copy of a vector of values.
pub fn duplicate_values(values: &Vec<Value>) -> (r: Vec<Value>)
    ensures
        models(r@) =~= models(values@),
        r@.len() == values@.len(),
    decreases values,
{
    let mut out: Vec<Value> = Vec::new();
    let mut i: usize = 0;
    while i < values.len()
        invariant
            i <= values@.len(),
            out@.len() == i,
            forall|j: int| 0 <= j < i ==> model(out@[j]) == model(values@[j]),
        decreases values@.len() - i,
    {
        out.push(values[i].duplicate());
        i = i + 1;
    }
    proof {
        lemma_models_len(out@);
        lemma_models_len(values@);
        assert forall|j: int| 0 <= j < values@.len() implies models(out@)[j] == models(values@)[j]
        by {
            lemma_models_index(out@, j);
            lemma_models_index(values@, j);
        }
    }
    out
}

/// Structural equality of two values: equal models.
pub fn same_value(a: &Value, b: &Value) -> (r: bool)
    ensures
        r == (model(*a) == model(*b)),
    decreases a,
{
    match (a, b) {
        (Value::Null, Value::Null) => true,
        (Value::U8(x), Value::U8(y)) => x == y,
        (Value::U16(x), Value::U16(y)) => x == y,
        (Value::U32(x), Value::U32(y)) => x == y,
        (Value::U64(x), Value::U64(y)) => x == y,
        (Value::U128(x), Value::U128(y)) => x == y,
        (Value::U256(x), Value::U256(y)) => {
            proof {
                if x.as_nat() == y.as_nat() {
                    U256::lemma_as_nat_injective(*x, *y);
                }
            }
            x == y
        },
        (Value::String(x), Value::String(y)) => x.eq(y),
        (Value::Boolean(x), Value::Boolean(y)) => x == y,
        (Value::Struct(f1, id1), Value::Struct(f2, id2)) => id1 == id2 && same_values(f1, f2),
        (Value::Array(v1), Value::Array(v2)) => same_values(v1, v2),
        (Value::Optional(o1), Value::Optional(o2)) => match (o1, o2) {
            (Option::None, Option::None) => true,
            (Option::Some(x), Option::Some(y)) => same_value(&**x, &**y),
            _ => false,
        },
        (Value::Range(s1, e1, t1), Value::Range(s2, e2, t2)) => same_value(&**s1, &**s2)
            && same_value(&**e1, &**e2) && crate::types::same_type(t1, t2),
        _ => false,
    }
}

/// Elementwise structural equality of two value vectors.
pub fn same_values(a: &Vec<Value>, b: &Vec<Value>) -> (r: bool)
    ensures
        r == (models(a@) == models(b@)),
    decreases a,
{
    proof {
        lemma_models_len(a@);
        lemma_models_len(b@);
    }
    if a.len() != b.len() {
        return false;
    }
    let mut i: usize = 0;
    while i < a.len()
        invariant
            a@.len() == b@.len(),
            i <= a@.len(),
            forall|j: int| 0 <= j < i ==> model(a@[j]) == model(b@[j]),
        decreases a@.len() - i,
    {
        if !same_value(&a[i], &b[i]) {
            proof {
                lemma_models_index(a@, i as int);
                lemma_models_index(b@, i as int);
            }
            return false;
        }
        i = i + 1;
    }
    proof {
        assert forall|j: int| 0 <= j < a@.len() implies models(a@)[j] == models(b@)[j] by {
            lemma_models_index(a@, j);
            lemma_models_index(b@, j);
        }
        assert(models(a@) =~= models(b@));
    }
    true
}

impl Type {
    /// The type of a value, or nothing where none can be determined.
    pub fn from_value(value: &Value) -> (r: Option<Type>)
        ensures
            r == type_of(*value),
    {
        match value.get_type() {
            Ok(t) => Some(t),
            Err(_) => None,
        }
    }
}

/// Whether two types have the same head constructor.
pub open spec fn same_head(a: Type, b: Type) -> bool {
    match (a, b) {
        (Type::Any, Type::Any) => true,
        (Type::T, Type::T) => true,
        (Type::U8, Type::U8) => true,
        (Type::U16, Type::U16) => true,
        (Type::U32, Type::U32) => true,
        (Type::U64, Type::U64) => true,
        (Type::U128, Type::U128) => true,
        (Type::U256, Type::U256) => true,
        (Type::String, Type::String) => true,
        (Type::Bool, Type::Bool) => true,
        (Type::Struct(_), Type::Struct(_)) => true,
        (Type::Array(_), Type::Array(_)) => true,
        (Type::Optional(_), Type::Optional(_)) => true,
        (Type::Range(_), Type::Range(_)) => true,
        _ => false,
    }
}

/// Whether the typed accessor that belongs to a type accepts the value:
/// `as_u8` for the eight-bit width and so on, `as_bool` and `as_string` for
/// booleans and strings, `as_map` for any struct type, `as_vec` for any array
/// type, `as_range` for any range type, and `as_optional`, which also admits
/// null, for any optional type.
pub open spec fn accessor_accepts(v: Value, t: Type) -> bool {
    match t {
        Type::U8 => v is U8,
        Type::U16 => v is U16,
        Type::U32 => v is U32,
        Type::U64 => v is U64,
        Type::U128 => v is U128,
        Type::U256 => v is U256,
        Type::Bool => v is Boolean,
        Type::String => v is String,
        Type::Struct(_) => v is Struct,
        Type::Array(_) => v is Array,
        Type::Optional(_) => v is Optional || v is Null,
        Type::Range(_) => v is Range,
        _ => false,
    }
}

/// A value with a determined type is accepted by the typed accessor for that
/// type, and by no accessor of another kind.
pub proof fn lemma_type_accessor_agree(v: Value, t: Type)
    requires
        type_of(v) == Some(t),
    ensures
        accessor_accepts(v, t),
        forall|u: Type| accessor_accepts(v, u) ==> same_head(u, t),
{
}

} // verus!
