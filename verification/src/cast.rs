use vstd::prelude::*;

use crate::text::{bool_chars, dec_chars, u128_to_string, u256_to_string};
use crate::types::Type;
use crate::u256::{pow128, pow256, U256};
use crate::values::{model, num_value, num_width, spec_is_number, ValModel, Value, ValueError};
use vstd::string::StringExecFns;

verus! {

/// Number of values of an unsigned integer of the given bit width.
pub open spec fn width_bound(w: nat) -> nat {
    if w == 8 {
        0x100
    } else if w == 16 {
        0x10000
    } else if w == 32 {
        0x100000000
    } else if w == 64 {
        0x10000000000000000
    } else if w == 128 {
        pow128()
    } else if w == 256 {
        pow256()
    } else {
        0
    }
}

/// The numeric value of a number model; zero elsewhere.
pub open spec fn model_num(m: ValModel) -> nat {
    match m {
        ValModel::U8(n) => n as nat,
        ValModel::U16(n) => n as nat,
        ValModel::U32(n) => n as nat,
        ValModel::U64(n) => n as nat,
        ValModel::U128(n) => n as nat,
        ValModel::U256(n) => n,
        _ => 0,
    }
}

/// The bit width of a number model; zero elsewhere.
pub open spec fn model_width(m: ValModel) -> nat {
    match m {
        ValModel::U8(_) => 8,
        ValModel::U16(_) => 16,
        ValModel::U32(_) => 32,
        ValModel::U64(_) => 64,
        ValModel::U128(_) => 128,
        ValModel::U256(_) => 256,
        _ => 0,
    }
}

/// Whether the model is one of the number variants.
pub open spec fn model_is_number(m: ValModel) -> bool {
    match m {
        ValModel::U8(_) | ValModel::U16(_) | ValModel::U32(_) | ValModel::U64(_)
        | ValModel::U128(_) | ValModel::U256(_) => true,
        _ => false,
    }
}

/// The number model of the given width holding the given value.
pub open spec fn make_num(w: nat, n: nat) -> ValModel {
    if w == 8 {
        ValModel::U8(n as u8)
    } else if w == 16 {
        ValModel::U16(n as u16)
    } else if w == 32 {
        ValModel::U32(n as u32)
    } else if w == 64 {
        ValModel::U64(n as u64)
    } else if w == 128 {
        ValModel::U128(n as u128)
    } else {
        ValModel::U256(n)
    }
}

/// What a checked cast returns: an exact conversion for numbers that fit the
/// target and for booleans, the decimal or word rendering for string targets,
/// a zero test for boolean targets, and a wrapped cast for optional targets;
/// anything else is refused.
pub open spec fn spec_checked_cast(m: ValModel, t: Type) -> Result<ValModel, ValueError>
    decreases t,
{
    match t {
        Type::U8 | Type::U16 | Type::U32 | Type::U64 | Type::U128 | Type::U256 => {
            let w = (if t is U8 {
                8nat
            } else if t is U16 {
                16nat
            } else if t is U32 {
                32nat
            } else if t is U64 {
                64nat
            } else if t is U128 {
                128nat
            } else {
                256nat
            });
            if model_is_number(m) {
                if model_num(m) < width_bound(w) {
                    Ok(make_num(w, model_num(m)))
                } else {
                    Err(ValueError::CastError)
                }
            } else {
                match m {
                    ValModel::Bool(b) => Ok(make_num(w, if b {
                        1nat
                    } else {
                        0nat
                    })),
                    _ => Err(ValueError::InvalidCastType(t)),
                }
            }
        },
        Type::String => match m {
            ValModel::U8(_) | ValModel::U16(_) | ValModel::U32(_) | ValModel::U64(_)
            | ValModel::U128(_) | ValModel::U256(_) => Ok(ValModel::Str(dec_chars(model_num(m)))),
            ValModel::Str(s) => Ok(ValModel::Str(s)),
            ValModel::Bool(b) => Ok(ValModel::Str(bool_chars(b))),
            _ => Err(ValueError::InvalidCastType(Type::String)),
        },
        Type::Bool => match m {
            ValModel::Bool(b) => Ok(ValModel::Bool(b)),
            _ => if model_is_number(m) {
                Ok(ValModel::Bool(model_num(m) != 0))
            } else {
                Err(ValueError::InvalidCastType(Type::Bool))
            },
        },
        Type::Optional(inner) => if m is Null {
            Ok(ValModel::Optional(Option::None))
        } else {
            match spec_checked_cast(m, *inner) {
                Ok(v) => Ok(ValModel::Optional(Option::Some(Box::new(v)))),
                Err(e) => Err(e),
            }
        },
        _ => Err(ValueError::InvalidCastType(t)),
    }
}

impl Value {
    /// Truncating cast to `u8`: low bits of a number, 0 or 1 for a boolean.
    pub fn cast_to_u8(self) -> (r: Result<u8, ValueError>)
        ensures
            spec_is_number(self) ==> (r matches Ok(n) && n as nat == num_value(self) % 0x100),
            self matches Value::Boolean(b) ==> r == Ok::<u8, ValueError>(
                if b {
                    1u8
                } else {
                    0u8
                },
            ),
            !spec_is_number(self) && !(self matches Value::Boolean(_)) ==> r == Err::<
                u8,
                ValueError,
            >(ValueError::InvalidCastType(Type::U8)),
    {
        match self {
            Value::U8(n) => Ok(n),
            Value::U16(n) => Ok((n % 0x100) as u8),
            Value::U32(n) => Ok((n % 0x100) as u8),
            Value::U64(n) => Ok((n % 0x100) as u8),
            Value::U128(n) => Ok((n % 0x100) as u8),
            Value::U256(n) => {
                let low = n.low_u64();
                proof {
                    vstd::arithmetic::div_mod::lemma_mod_mod(
                        n.as_nat() as int,
                        0x100,
                        0x100000000000000,
                    );
                }
                Ok((low % 0x100) as u8)
            },
            Value::Boolean(b) => Ok(
                if b {
                    1
                } else {
                    0
                },
            ),
            _ => Err(ValueError::InvalidCastType(Type::U8)),
        }
    }

    /// Truncating cast to `u16`.
    pub fn cast_to_u16(self) -> (r: Result<u16, ValueError>)
        ensures
            spec_is_number(self) ==> (r matches Ok(n) && n as nat == num_value(self) % 0x10000),
            self matches Value::Boolean(b) ==> r == Ok::<u16, ValueError>(
                if b {
                    1u16
                } else {
                    0u16
                },
            ),
            !spec_is_number(self) && !(self matches Value::Boolean(_)) ==> r == Err::<
                u16,
                ValueError,
            >(ValueError::InvalidCastType(Type::U16)),
    {
        match self {
            Value::U8(n) => Ok(n as u16),
            Value::U16(n) => Ok(n),
            Value::U32(n) => Ok((n % 0x10000) as u16),
            Value::U64(n) => Ok((n % 0x10000) as u16),
            Value::U128(n) => Ok((n % 0x10000) as u16),
            Value::U256(n) => {
                let low = n.low_u64();
                proof {
                    vstd::arithmetic::div_mod::lemma_mod_mod(
                        n.as_nat() as int,
                        0x10000,
                        0x1000000000000,
                    );
                }
                Ok((low % 0x10000) as u16)
            },
            Value::Boolean(b) => Ok(
                if b {
                    1
                } else {
                    0
                },
            ),
            _ => Err(ValueError::InvalidCastType(Type::U16)),
        }
    }

    /// Truncating cast to `u32`.
    pub fn cast_to_u32(self) -> (r: Result<u32, ValueError>)
        ensures
            spec_is_number(self) ==> (r matches Ok(n) && n as nat == num_value(self)
                % 0x100000000),
            self matches Value::Boolean(b) ==> r == Ok::<u32, ValueError>(
                if b {
                    1u32
                } else {
                    0u32
                },
            ),
            !spec_is_number(self) && !(self matches Value::Boolean(_)) ==> r == Err::<
                u32,
                ValueError,
            >(ValueError::InvalidCastType(Type::U32)),
    {
        match self {
            Value::U8(n) => Ok(n as u32),
            Value::U16(n) => Ok(n as u32),
            Value::U32(n) => Ok(n),
            Value::U64(n) => Ok((n % 0x100000000) as u32),
            Value::U128(n) => Ok((n % 0x100000000) as u32),
            Value::U256(n) => {
                let low = n.low_u64();
                proof {
                    vstd::arithmetic::div_mod::lemma_mod_mod(
                        n.as_nat() as int,
                        0x100000000,
                        0x100000000,
                    );
                }
                Ok((low % 0x100000000) as u32)
            },
            Value::Boolean(b) => Ok(
                if b {
                    1
                } else {
                    0
                },
            ),
            _ => Err(ValueError::InvalidCastType(Type::U32)),
        }
    }

    /// Truncating cast to `u64`.
    pub fn cast_to_u64(self) -> (r: Result<u64, ValueError>)
        ensures
            spec_is_number(self) ==> (r matches Ok(n) && n as nat == num_value(self)
                % 0x10000000000000000),
            self matches Value::Boolean(b) ==> r == Ok::<u64, ValueError>(
                if b {
                    1u64
                } else {
                    0u64
                },
            ),
            !spec_is_number(self) && !(self matches Value::Boolean(_)) ==> r == Err::<
                u64,
                ValueError,
            >(ValueError::InvalidCastType(Type::U64)),
    {
        match self {
            Value::U8(n) => Ok(n as u64),
            Value::U16(n) => Ok(n as u64),
            Value::U32(n) => Ok(n as u64),
            Value::U64(n) => Ok(n),
            Value::U128(n) => Ok((n % 0x10000000000000000) as u64),
            Value::U256(n) => Ok(n.low_u64()),
            Value::Boolean(b) => Ok(
                if b {
                    1
                } else {
                    0
                },
            ),
            _ => Err(ValueError::InvalidCastType(Type::U64)),
        }
    }

    /// Truncating cast to `u128`.
    pub fn cast_to_u128(self) -> (r: Result<u128, ValueError>)
        ensures
            spec_is_number(self) ==> (r matches Ok(n) && n as nat == num_value(self) % pow128()),
            self matches Value::Boolean(b) ==> r == Ok::<u128, ValueError>(
                if b {
                    1u128
                } else {
                    0u128
                },
            ),
            !spec_is_number(self) && !(self matches Value::Boolean(_)) ==> r == Err::<
                u128,
                ValueError,
            >(ValueError::InvalidCastType(Type::U128)),
    {
        proof {
            if spec_is_number(self) && !(self matches Value::U256(_)) {
                vstd::arithmetic::div_mod::lemma_small_mod(num_value(self), pow128());
            }
        }
        match self {
            Value::U8(n) => Ok(n as u128),
            Value::U16(n) => Ok(n as u128),
            Value::U32(n) => Ok(n as u128),
            Value::U64(n) => Ok(n as u128),
            Value::U128(n) => Ok(n),
            Value::U256(n) => Ok(n.low_u128()),
            Value::Boolean(b) => Ok(
                if b {
                    1
                } else {
                    0
                },
            ),
            _ => Err(ValueError::InvalidCastType(Type::U128)),
        }
    }

    /// Widening cast to the 256-bit width.
    pub fn cast_to_u256(self) -> (r: Result<U256, ValueError>)
        ensures
            spec_is_number(self) ==> (r matches Ok(n) && n.as_nat() == num_value(self)),
            self matches Value::Boolean(b) ==> (r matches Ok(n) && n.as_nat() == (if b {
                1nat
            } else {
                0nat
            })),
            !spec_is_number(self) && !(self matches Value::Boolean(_)) ==> r == Err::<
                U256,
                ValueError,
            >(ValueError::InvalidCastType(Type::U256)),
    {
        match self {
            Value::U8(n) => Ok(U256::from_u64(n as u64)),
            Value::U16(n) => Ok(U256::from_u64(n as u64)),
            Value::U32(n) => Ok(U256::from_u64(n as u64)),
            Value::U64(n) => Ok(U256::from_u64(n)),
            Value::U128(n) => Ok(U256::from_u128(n)),
            Value::U256(n) => Ok(n),
            Value::Boolean(b) => Ok(
                if b {
                    U256::one()
                } else {
                    U256::zero()
                },
            ),
            _ => Err(ValueError::InvalidCastType(Type::U256)),
        }
    }

    /// Cast to a boolean: a zero test for numbers.
    pub fn cast_to_bool(self) -> (r: Result<bool, ValueError>)
        ensures
            spec_is_number(self) ==> r == Ok::<bool, ValueError>(num_value(self) != 0),
            self matches Value::Boolean(b) ==> r == Ok::<bool, ValueError>(b),
            !spec_is_number(self) && !(self matches Value::Boolean(_)) ==> r == Err::<
                bool,
                ValueError,
            >(ValueError::InvalidCastType(Type::Bool)),
    {
        match self {
            Value::U8(n) => Ok(n != 0),
            Value::U16(n) => Ok(n != 0),
            Value::U32(n) => Ok(n != 0),
            Value::U64(n) => Ok(n != 0),
            Value::U128(n) => Ok(n != 0),
            Value::U256(n) => Ok(!n.is_zero()),
            Value::Boolean(b) => Ok(b),
            _ => Err(ValueError::InvalidCastType(Type::Bool)),
        }
    }

    /// Cast to a string: numbers in decimal, booleans as words.
    pub fn cast_to_string(self) -> (r: Result<String, ValueError>)
        ensures
            spec_is_number(self) ==> (r matches Ok(s) && s@ == dec_chars(num_value(self))),
            self matches Value::String(_) ==> (r matches Ok(s) && model(self) == ValModel::Str(
                s@,
            )),
            self matches Value::Boolean(b) ==> (r matches Ok(s) && s@ == bool_chars(b)),
            !spec_is_number(self) && !(self matches Value::String(_)) && !(self
                matches Value::Boolean(_)) ==> r == Err::<String, ValueError>(
                ValueError::InvalidCastType(Type::String),
            ),
    {
        match self {
            Value::U8(n) => Ok(u128_to_string(n as u128)),
            Value::U16(n) => Ok(u128_to_string(n as u128)),
            Value::U32(n) => Ok(u128_to_string(n as u128)),
            Value::U64(n) => Ok(u128_to_string(n as u128)),
            Value::U128(n) => Ok(u128_to_string(n)),
            Value::U256(n) => Ok(u256_to_string(n)),
            Value::String(s) => Ok(s),
            Value::Boolean(b) => Ok(
                if b {
                    String::from_str("true")
                } else {
                    String::from_str("false")
                },
            ),
            _ => Err(ValueError::InvalidCastType(Type::String)),
        }
    }

    /// Checked cast to `u8`: fails when the value does not fit.
    pub fn checked_cast_to_u8(self) -> (r: Result<u8, ValueError>)
        ensures
            spec_is_number(self) && num_value(self) < 0x100 ==> (r matches Ok(n) && n as nat
                == num_value(self)),
            spec_is_number(self) && num_value(self) >= 0x100 ==> r == Err::<u8, ValueError>(
                ValueError::CastError,
            ),
            self matches Value::Boolean(b) ==> r == Ok::<u8, ValueError>(
                if b {
                    1u8
                } else {
                    0u8
                },
            ),
            !spec_is_number(self) && !(self matches Value::Boolean(_)) ==> r == Err::<
                u8,
                ValueError,
            >(ValueError::InvalidCastType(Type::U8)),
    {
        match self {
            Value::U8(n) => Ok(n),
            Value::U16(n) => if n < 0x100 {
                Ok(n as u8)
            } else {
                Err(ValueError::CastError)
            },
            Value::U32(n) => if n < 0x100 {
                Ok(n as u8)
            } else {
                Err(ValueError::CastError)
            },
            Value::U64(n) => if n < 0x100 {
                Ok(n as u8)
            } else {
                Err(ValueError::CastError)
            },
            Value::U128(n) => if n < 0x100 {
                Ok(n as u8)
            } else {
                Err(ValueError::CastError)
            },
            Value::U256(n) => match n.try_to_u128() {
                Option::Some(v) => if v < 0x100 {
                    Ok(v as u8)
                } else {
                    Err(ValueError::CastError)
                },
                Option::None => Err(ValueError::CastError),
            },
            Value::Boolean(b) => Ok(
                if b {
                    1
                } else {
                    0
                },
            ),
            _ => Err(ValueError::InvalidCastType(Type::U8)),
        }
    }

    /// Checked cast to `u16`: fails when the value does not fit.
    pub fn checked_cast_to_u16(self) -> (r: Result<u16, ValueError>)
        ensures
            spec_is_number(self) && num_value(self) < 0x10000 ==> (r matches Ok(n) && n as nat
                == num_value(self)),
            spec_is_number(self) && num_value(self) >= 0x10000 ==> r == Err::<u16, ValueError>(
                ValueError::CastError,
            ),
            self matches Value::Boolean(b) ==> r == Ok::<u16, ValueError>(
                if b {
                    1u16
                } else {
                    0u16
                },
            ),
            !spec_is_number(self) && !(self matches Value::Boolean(_)) ==> r == Err::<
                u16,
                ValueError,
            >(ValueError::InvalidCastType(Type::U16)),
    {
        match self {
            Value::U8(n) => Ok(n as u16),
            Value::U16(n) => Ok(n),
            Value::U32(n) => if n < 0x10000 {
                Ok(n as u16)
            } else {
                Err(ValueError::CastError)
            },
            Value::U64(n) => if n < 0x10000 {
                Ok(n as u16)
            } else {
                Err(ValueError::CastError)
            },
            Value::U128(n) => if n < 0x10000 {
                Ok(n as u16)
            } else {
                Err(ValueError::CastError)
            },
            Value::U256(n) => match n.try_to_u128() {
                Option::Some(v) => if v < 0x10000 {
                    Ok(v as u16)
                } else {
                    Err(ValueError::CastError)
                },
                Option::None => Err(ValueError::CastError),
            },
            Value::Boolean(b) => Ok(
                if b {
                    1
                } else {
                    0
                },
            ),
            _ => Err(ValueError::InvalidCastType(Type::U16)),
        }
    }

    /// Checked cast to `u32`: fails when the value does not fit.
    pub fn checked_cast_to_u32(self) -> (r: Result<u32, ValueError>)
        ensures
            spec_is_number(self) && num_value(self) < 0x100000000 ==> (r matches Ok(n) && n as nat
                == num_value(self)),
            spec_is_number(self) && num_value(self) >= 0x100000000 ==> r == Err::<u32, ValueError>(
                ValueError::CastError,
            ),
            self matches Value::Boolean(b) ==> r == Ok::<u32, ValueError>(
                if b {
                    1u32
                } else {
                    0u32
                },
            ),
            !spec_is_number(self) && !(self matches Value::Boolean(_)) ==> r == Err::<
                u32,
                ValueError,
            >(ValueError::InvalidCastType(Type::U32)),
    {
        match self {
            Value::U8(n) => Ok(n as u32),
            Value::U16(n) => Ok(n as u32),
            Value::U32(n) => Ok(n),
            Value::U64(n) => if n < 0x100000000 {
                Ok(n as u32)
            } else {
                Err(ValueError::CastError)
            },
            Value::U128(n) => if n < 0x100000000 {
                Ok(n as u32)
            } else {
                Err(ValueError::CastError)
            },
            Value::U256(n) => match n.try_to_u128() {
                Option::Some(v) => if v < 0x100000000 {
                    Ok(v as u32)
                } else {
                    Err(ValueError::CastError)
                },
                Option::None => Err(ValueError::CastError),
            },
            Value::Boolean(b) => Ok(
                if b {
                    1
                } else {
                    0
                },
            ),
            _ => Err(ValueError::InvalidCastType(Type::U32)),
        }
    }

    /// Checked cast to `u64`: fails when the value does not fit.
    pub fn checked_cast_to_u64(self) -> (r: Result<u64, ValueError>)
        ensures
            spec_is_number(self) && num_value(self) < 0x10000000000000000 ==> (r matches Ok(n)
                && n as nat == num_value(self)),
            spec_is_number(self) && num_value(self) >= 0x10000000000000000 ==> r == Err::<
                u64,
                ValueError,
            >(ValueError::CastError),
            self matches Value::Boolean(b) ==> r == Ok::<u64, ValueError>(
                if b {
                    1u64
                } else {
                    0u64
                },
            ),
            !spec_is_number(self) && !(self matches Value::Boolean(_)) ==> r == Err::<
                u64,
                ValueError,
            >(ValueError::InvalidCastType(Type::U64)),
    {
        match self {
            Value::U8(n) => Ok(n as u64),
            Value::U16(n) => Ok(n as u64),
            Value::U32(n) => Ok(n as u64),
            Value::U64(n) => Ok(n),
            Value::U128(n) => if n < 0x10000000000000000 {
                Ok(n as u64)
            } else {
                Err(ValueError::CastError)
            },
            Value::U256(n) => match n.try_to_u128() {
                Option::Some(v) => if v < 0x10000000000000000 {
                    Ok(v as u64)
                } else {
                    Err(ValueError::CastError)
                },
                Option::None => Err(ValueError::CastError),
            },
            Value::Boolean(b) => Ok(
                if b {
                    1
                } else {
                    0
                },
            ),
            _ => Err(ValueError::InvalidCastType(Type::U64)),
        }
    }

    /// Checked cast to `u128`: fails when the value does not fit.
    pub fn checked_cast_to_u128(self) -> (r: Result<u128, ValueError>)
        ensures
            spec_is_number(self) && num_value(self) < pow128() ==> (r matches Ok(n) && n as nat
                == num_value(self)),
            spec_is_number(self) && num_value(self) >= pow128() ==> r == Err::<u128, ValueError>(
                ValueError::CastError,
            ),
            self matches Value::Boolean(b) ==> r == Ok::<u128, ValueError>(
                if b {
                    1u128
                } else {
                    0u128
                },
            ),
            !spec_is_number(self) && !(self matches Value::Boolean(_)) ==> r == Err::<
                u128,
                ValueError,
            >(ValueError::InvalidCastType(Type::U128)),
    {
        match self {
            Value::U8(n) => Ok(n as u128),
            Value::U16(n) => Ok(n as u128),
            Value::U32(n) => Ok(n as u128),
            Value::U64(n) => Ok(n as u128),
            Value::U128(n) => Ok(n),
            Value::U256(n) => match n.try_to_u128() {
                Option::Some(v) => Ok(v),
                Option::None => Err(ValueError::CastError),
            },
            Value::Boolean(b) => Ok(
                if b {
                    1
                } else {
                    0
                },
            ),
            _ => Err(ValueError::InvalidCastType(Type::U128)),
        }
    }

    /// Checked cast to the 256-bit width: every number fits.
    pub fn checked_cast_to_u256(self) -> (r: Result<U256, ValueError>)
        ensures
            spec_is_number(self) ==> (r matches Ok(n) && n.as_nat() == num_value(self)),
            self matches Value::Boolean(b) ==> (r matches Ok(n) && n.as_nat() == (if b {
                1nat
            } else {
                0nat
            })),
            !spec_is_number(self) && !(self matches Value::Boolean(_)) ==> r == Err::<
                U256,
                ValueError,
            >(ValueError::InvalidCastType(Type::U256)),
    {
        self.cast_to_u256()
    }

    /// Cast without loss to a primitive (or optional primitive) target type.
    pub fn checked_cast_to_primitive_type(self, expected: &Type) -> (r: Result<Value, ValueError>)
        ensures
            r matches Ok(v) ==> spec_checked_cast(model(self), *expected) == Ok::<
                ValModel,
                ValueError,
            >(model(v)),
            r matches Err(e) ==> spec_checked_cast(model(self), *expected) == Err::<
                ValModel,
                ValueError,
            >(e),
        decreases expected,
    {
        match expected {
            Type::U8 => match self.checked_cast_to_u8() {
                Ok(n) => Ok(Value::U8(n)),
                Err(e) => Err(e),
            },
            Type::U16 => match self.checked_cast_to_u16() {
                Ok(n) => Ok(Value::U16(n)),
                Err(e) => Err(e),
            },
            Type::U32 => match self.checked_cast_to_u32() {
                Ok(n) => Ok(Value::U32(n)),
                Err(e) => Err(e),
            },
            Type::U64 => match self.checked_cast_to_u64() {
                Ok(n) => Ok(Value::U64(n)),
                Err(e) => Err(e),
            },
            Type::U128 => match self.checked_cast_to_u128() {
                Ok(n) => Ok(Value::U128(n)),
                Err(e) => Err(e),
            },
            Type::U256 => match self.checked_cast_to_u256() {
                Ok(n) => Ok(Value::U256(n)),
                Err(e) => Err(e),
            },
            Type::String => match self.cast_to_string() {
                Ok(s) => Ok(Value::String(s)),
                Err(e) => Err(e),
            },
            Type::Bool => match self.cast_to_bool() {
                Ok(b) => Ok(Value::Boolean(b)),
                Err(e) => Err(e),
            },
            Type::Optional(inner) => {
                if self.is_null() {
                    Ok(Value::Optional(Option::None))
                } else {
                    match self.checked_cast_to_primitive_type(inner) {
                        Ok(v) => Ok(Value::Optional(Option::Some(Box::new(v)))),
                        Err(e) => Err(e),
                    }
                }
            },
            t => Err(ValueError::InvalidCastType(t.duplicate())),
        }
    }

    /// Increment a number in place; other values are refused.
    pub fn increment(&mut self) -> (r: Result<(), ValueError>)
        requires
            spec_is_number(*old(self)) ==> num_value(*old(self)) + 1 < width_bound(
                num_width(*old(self)),
            ),
        ensures
            spec_is_number(*old(self)) ==> (r is Ok && spec_is_number(*final(self)) && num_width(
                *final(self),
            ) == num_width(*old(self)) && num_value(*final(self)) == num_value(*old(self)) + 1),
            !spec_is_number(*old(self)) ==> (r == Err::<(), ValueError>(
                ValueError::OperationNotNumberType,
            ) && *final(self) == *old(self)),
    {
        let mut current = Value::Null;
        core::mem::swap(self, &mut current);
        match current {
            Value::U8(n) => {
                *self = Value::U8(n + 1);
                Ok(())
            },
            Value::U16(n) => {
                *self = Value::U16(n + 1);
                Ok(())
            },
            Value::U32(n) => {
                *self = Value::U32(n + 1);
                Ok(())
            },
            Value::U64(n) => {
                *self = Value::U64(n + 1);
                Ok(())
            },
            Value::U128(n) => {
                *self = Value::U128(n + 1);
                Ok(())
            },
            Value::U256(n) => {
                let (s, _over) = n.overflowing_add(U256::one());
                proof {
                    s.lemma_as_nat_bound();
                }
                *self = Value::U256(s);
                Ok(())
            },
            v => {
                *self = v;
                Err(ValueError::OperationNotNumberType)
            },
        }
    }

    /// Decrement a number in place; other values are refused.
    pub fn decrement(&mut self) -> (r: Result<(), ValueError>)
        requires
            spec_is_number(*old(self)) ==> num_value(*old(self)) >= 1,
        ensures
            spec_is_number(*old(self)) ==> (r is Ok && spec_is_number(*final(self)) && num_width(
                *final(self),
            ) == num_width(*old(self)) && num_value(*final(self)) + 1 == num_value(*old(self))),
            !spec_is_number(*old(self)) ==> (r == Err::<(), ValueError>(
                ValueError::OperationNotNumberType,
            ) && *final(self) == *old(self)),
    {
        let mut current = Value::Null;
        core::mem::swap(self, &mut current);
        match current {
            Value::U8(n) => {
                *self = Value::U8(n - 1);
                Ok(())
            },
            Value::U16(n) => {
                *self = Value::U16(n - 1);
                Ok(())
            },
            Value::U32(n) => {
                *self = Value::U32(n - 1);
                Ok(())
            },
            Value::U64(n) => {
                *self = Value::U64(n - 1);
                Ok(())
            },
            Value::U128(n) => {
                *self = Value::U128(n - 1);
                Ok(())
            },
            Value::U256(n) => {
                let (s, _over) = n.overflowing_sub(U256::one());
                proof {
                    s.lemma_as_nat_bound();
                    n.lemma_as_nat_bound();
                }
                *self = Value::U256(s);
                Ok(())
            },
            v => {
                *self = v;
                Err(ValueError::OperationNotNumberType)
            },
        }
    }
}

/// A checked cast never loses an eight-bit value: casting a `U8` up to any
/// wider unsigned width succeeds, and casting the result back to the
/// eight-bit width returns the original value.
pub proof fn lemma_checked_cast_roundtrip(x: u8, t: Type)
    requires
        Type::U8.spec_castable_to_no_loss(t),
    ensures
        spec_checked_cast(ValModel::U8(x), t) matches Ok(up) && spec_checked_cast(up, Type::U8)
            == Ok::<ValModel, ValueError>(ValModel::U8(x)),
{
}

} // verus!
