use vstd::prelude::*;

use crate::ast::Operator;
use crate::cast::{make_num, model_is_number, model_num, model_width, width_bound};
use crate::interpreter::InterpreterError;
use crate::u256::{pow128, U256};
use crate::values::{model, num_value, num_width, spec_is_number, ValModel, Value};
use vstd::arithmetic::power2::pow2;

verus! {

/// Whether the two values are numbers of the same width.
pub open spec fn same_width_numbers(a: Value, b: Value) -> bool {
    spec_is_number(a) && spec_is_number(b) && num_width(a) == num_width(b)
}

/// The model of the value inside a result.
pub open spec fn lift(r: Result<Value, InterpreterError>) -> Result<ValModel, InterpreterError> {
    match r {
        Ok(v) => Ok(model(v)),
        Err(e) => Err(e),
    }
}

/// What numeric addition returns: the exact sum at the common width, an
/// overflow error when the sum passes the width, and a refusal when the
/// operands are not numbers of one width.
pub open spec fn spec_add(a: Value, b: Value) -> Result<ValModel, InterpreterError> {
    if !same_width_numbers(a, b) {
        Err(InterpreterError::OperationNotNumberType)
    } else if num_value(a) + num_value(b) < width_bound(num_width(a)) {
        Ok(make_num(num_width(a), num_value(a) + num_value(b)))
    } else {
        Err(InterpreterError::OverflowOccured)
    }
}

/// What numeric subtraction returns.
pub open spec fn spec_sub(a: Value, b: Value) -> Result<ValModel, InterpreterError> {
    if !same_width_numbers(a, b) {
        Err(InterpreterError::OperationNotNumberType)
    } else if num_value(a) >= num_value(b) {
        Ok(make_num(num_width(a), (num_value(a) - num_value(b)) as nat))
    } else {
        Err(InterpreterError::OverflowOccured)
    }
}

/// What numeric multiplication returns.
pub open spec fn spec_mul(a: Value, b: Value) -> Result<ValModel, InterpreterError> {
    if !same_width_numbers(a, b) {
        Err(InterpreterError::OperationNotNumberType)
    } else if num_value(a) * num_value(b) < width_bound(num_width(a)) {
        Ok(make_num(num_width(a), num_value(a) * num_value(b)))
    } else {
        Err(InterpreterError::OverflowOccured)
    }
}

/// What numeric division returns.
pub open spec fn spec_div(a: Value, b: Value) -> Result<ValModel, InterpreterError> {
    if !same_width_numbers(a, b) {
        Err(InterpreterError::OperationNotNumberType)
    } else if num_value(b) == 0 {
        Err(InterpreterError::DivByZero)
    } else {
        Ok(make_num(num_width(a), num_value(a) / num_value(b)))
    }
}

/// What the numeric remainder returns.
pub open spec fn spec_rem(a: Value, b: Value) -> Result<ValModel, InterpreterError> {
    if !same_width_numbers(a, b) {
        Err(InterpreterError::OperationNotNumberType)
    } else if num_value(b) == 0 {
        Err(InterpreterError::DivByZero)
    } else {
        Ok(make_num(num_width(a), num_value(a) % num_value(b)))
    }
}

/// What a comparison returns: the boolean answer for numbers of one width.
pub open spec fn spec_cmp(a: Value, b: Value, answer: bool) -> Result<
    ValModel,
    InterpreterError,
> {
    if !same_width_numbers(a, b) {
        Err(InterpreterError::OperationNotNumberType)
    } else {
        Ok(ValModel::Bool(answer))
    }
}

/// Numeric addition with overflow checking.
pub fn add_values(a: Value, b: Value) -> (r: Result<Value, InterpreterError>)
    ensures
        lift(r) == spec_add(a, b),
{
    match (a, b) {
        (Value::U8(x), Value::U8(y)) => {
            if x <= u8::MAX - y {
                Ok(Value::U8(x + y))
            } else {
                Err(InterpreterError::OverflowOccured)
            }
        },
        (Value::U16(x), Value::U16(y)) => {
            if x <= u16::MAX - y {
                Ok(Value::U16(x + y))
            } else {
                Err(InterpreterError::OverflowOccured)
            }
        },
        (Value::U32(x), Value::U32(y)) => {
            if x <= u32::MAX - y {
                Ok(Value::U32(x + y))
            } else {
                Err(InterpreterError::OverflowOccured)
            }
        },
        (Value::U64(x), Value::U64(y)) => {
            if x <= u64::MAX - y {
                Ok(Value::U64(x + y))
            } else {
                Err(InterpreterError::OverflowOccured)
            }
        },
        (Value::U128(x), Value::U128(y)) => {
            if x <= u128::MAX - y {
                Ok(Value::U128(x + y))
            } else {
                Err(InterpreterError::OverflowOccured)
            }
        },
        (Value::U256(x), Value::U256(y)) => match x.checked_add(y) {
            Option::Some(s) => Ok(Value::U256(s)),
            Option::None => Err(InterpreterError::OverflowOccured),
        },
        _ => Err(InterpreterError::OperationNotNumberType),
    }
}

/// Numeric subtraction with underflow checking.
pub fn sub_values(a: Value, b: Value) -> (r: Result<Value, InterpreterError>)
    ensures
        lift(r) == spec_sub(a, b),
{
    match (a, b) {
        (Value::U8(x), Value::U8(y)) => {
            if x >= y {
                Ok(Value::U8(x - y))
            } else {
                Err(InterpreterError::OverflowOccured)
            }
        },
        (Value::U16(x), Value::U16(y)) => {
            if x >= y {
                Ok(Value::U16(x - y))
            } else {
                Err(InterpreterError::OverflowOccured)
            }
        },
        (Value::U32(x), Value::U32(y)) => {
            if x >= y {
                Ok(Value::U32(x - y))
            } else {
                Err(InterpreterError::OverflowOccured)
            }
        },
        (Value::U64(x), Value::U64(y)) => {
            if x >= y {
                Ok(Value::U64(x - y))
            } else {
                Err(InterpreterError::OverflowOccured)
            }
        },
        (Value::U128(x), Value::U128(y)) => {
            if x >= y {
                Ok(Value::U128(x - y))
            } else {
                Err(InterpreterError::OverflowOccured)
            }
        },
        (Value::U256(x), Value::U256(y)) => match x.checked_sub(y) {
            Option::Some(s) => Ok(Value::U256(s)),
            Option::None => Err(InterpreterError::OverflowOccured),
        },
        _ => Err(InterpreterError::OperationNotNumberType),
    }
}

/// Numeric multiplication with overflow checking.
pub fn mul_values(a: Value, b: Value) -> (r: Result<Value, InterpreterError>)
    ensures
        lift(r) == spec_mul(a, b),
{
    match (a, b) {
        (Value::U8(x), Value::U8(y)) => {
            proof {
                assert((x as nat) * (y as nat) <= 255 * 255) by (nonlinear_arith)
                    requires
                        x <= 255,
                        y <= 255,
                ;
            }
            let p = (x as u16) * (y as u16);
            if p <= 0xff {
                Ok(Value::U8(p as u8))
            } else {
                Err(InterpreterError::OverflowOccured)
            }
        },
        (Value::U16(x), Value::U16(y)) => {
            proof {
                assert((x as nat) * (y as nat) <= 0xffff * 0xffff) by (nonlinear_arith)
                    requires
                        x <= 0xffff,
                        y <= 0xffff,
                ;
            }
            let p = (x as u32) * (y as u32);
            if p <= 0xffff {
                Ok(Value::U16(p as u16))
            } else {
                Err(InterpreterError::OverflowOccured)
            }
        },
        (Value::U32(x), Value::U32(y)) => {
            proof {
                assert((x as nat) * (y as nat) <= 0xffffffff * 0xffffffff) by (nonlinear_arith)
                    requires
                        x <= 0xffffffff,
                        y <= 0xffffffff,
                ;
            }
            let p = (x as u64) * (y as u64);
            if p <= 0xffffffff {
                Ok(Value::U32(p as u32))
            } else {
                Err(InterpreterError::OverflowOccured)
            }
        },
        (Value::U64(x), Value::U64(y)) => {
            proof {
                assert((x as nat) * (y as nat) <= 0xffffffffffffffff * 0xffffffffffffffff)
                    by (nonlinear_arith)
                    requires
                        x <= 0xffffffffffffffff,
                        y <= 0xffffffffffffffff,
                ;
            }
            let p = (x as u128) * (y as u128);
            if p <= 0xffffffffffffffff {
                Ok(Value::U64(p as u64))
            } else {
                Err(InterpreterError::OverflowOccured)
            }
        },
        (Value::U128(x), Value::U128(y)) => {
            if x == 0 {
                proof {
                    assert(0nat * (y as nat) == 0) by (nonlinear_arith);
                }
                Ok(Value::U128(0))
            } else {
                let limit = u128::MAX / x;
                proof {
                    lemma_mul_within(x as nat, y as nat, limit as nat, u128::MAX as nat);
                }
                if y <= limit {
                    Ok(Value::U128(x * y))
                } else {
                    Err(InterpreterError::OverflowOccured)
                }
            }
        },
        (Value::U256(x), Value::U256(y)) => match x.checked_mul(y) {
            Option::Some(s) => Ok(Value::U256(s)),
            Option::None => Err(InterpreterError::OverflowOccured),
        },
        _ => Err(InterpreterError::OperationNotNumberType),
    }
}

proof fn lemma_mul_within(x: nat, y: nat, limit: nat, max: nat)
    requires
        x >= 1,
        limit == max / x,
    ensures
        y <= limit ==> x * y <= max,
        y > limit ==> x * y > max,
{
    vstd::arithmetic::div_mod::lemma_fundamental_div_mod(max as int, x as int);
    if y <= limit {
        assert(x * y <= x * limit) by (nonlinear_arith)
            requires
                y <= limit,
                x >= 0,
        ;
        assert(x * limit <= max) by (nonlinear_arith)
            requires
                max == x * (max / x) + max % x,
                limit == max / x,
                max % x >= 0,
        ;
    } else {
        vstd::arithmetic::mul::lemma_mul_inequality((limit + 1) as int, y as int, x as int);
        vstd::arithmetic::mul::lemma_mul_is_distributive_add(x as int, limit as int, 1);
        vstd::arithmetic::mul::lemma_mul_is_commutative(x as int, (limit + 1) as int);
        assert(x * 1 == x) by (nonlinear_arith);
        let q = max / x;
        let rr = max % x;
        assert(x * q + x > max) by (nonlinear_arith)
            requires
                max == x * q + rr,
                rr < x,
        ;
    }
}

/// Numeric division; a zero divisor is refused.
pub fn div_values(a: Value, b: Value) -> (r: Result<Value, InterpreterError>)
    ensures
        lift(r) == spec_div(a, b),
{
    match (a, b) {
        (Value::U8(x), Value::U8(y)) => {
            if y == 0 {
                Err(InterpreterError::DivByZero)
            } else {
                Ok(Value::U8(x / y))
            }
        },
        (Value::U16(x), Value::U16(y)) => {
            if y == 0 {
                Err(InterpreterError::DivByZero)
            } else {
                Ok(Value::U16(x / y))
            }
        },
        (Value::U32(x), Value::U32(y)) => {
            if y == 0 {
                Err(InterpreterError::DivByZero)
            } else {
                Ok(Value::U32(x / y))
            }
        },
        (Value::U64(x), Value::U64(y)) => {
            if y == 0 {
                Err(InterpreterError::DivByZero)
            } else {
                Ok(Value::U64(x / y))
            }
        },
        (Value::U128(x), Value::U128(y)) => {
            if y == 0 {
                Err(InterpreterError::DivByZero)
            } else {
                Ok(Value::U128(x / y))
            }
        },
        (Value::U256(x), Value::U256(y)) => {
            if y.is_zero() {
                Err(InterpreterError::DivByZero)
            } else {
                let (q, rem) = x.div_rem(y);
                proof {
                    vstd::arithmetic::div_mod::lemma_fundamental_div_mod_converse(
                        x.as_nat() as int,
                        y.as_nat() as int,
                        q.as_nat() as int,
                        rem.as_nat() as int,
                    );
                }
                Ok(Value::U256(q))
            }
        },
        _ => Err(InterpreterError::OperationNotNumberType),
    }
}

/// Numeric remainder; a zero divisor is refused.
pub fn rem_values(a: Value, b: Value) -> (r: Result<Value, InterpreterError>)
    ensures
        lift(r) == spec_rem(a, b),
{
    match (a, b) {
        (Value::U8(x), Value::U8(y)) => {
            if y == 0 {
                Err(InterpreterError::DivByZero)
            } else {
                Ok(Value::U8(x % y))
            }
        },
        (Value::U16(x), Value::U16(y)) => {
            if y == 0 {
                Err(InterpreterError::DivByZero)
            } else {
                Ok(Value::U16(x % y))
            }
        },
        (Value::U32(x), Value::U32(y)) => {
            if y == 0 {
                Err(InterpreterError::DivByZero)
            } else {
                Ok(Value::U32(x % y))
            }
        },
        (Value::U64(x), Value::U64(y)) => {
            if y == 0 {
                Err(InterpreterError::DivByZero)
            } else {
                Ok(Value::U64(x % y))
            }
        },
        (Value::U128(x), Value::U128(y)) => {
            if y == 0 {
                Err(InterpreterError::DivByZero)
            } else {
                Ok(Value::U128(x % y))
            }
        },
        (Value::U256(x), Value::U256(y)) => {
            if y.is_zero() {
                Err(InterpreterError::DivByZero)
            } else {
                let (q, rem) = x.div_rem(y);
                proof {
                    vstd::arithmetic::div_mod::lemma_fundamental_div_mod_converse(
                        x.as_nat() as int,
                        y.as_nat() as int,
                        q.as_nat() as int,
                        rem.as_nat() as int,
                    );
                }
                Ok(Value::U256(rem))
            }
        },
        _ => Err(InterpreterError::OperationNotNumberType),
    }
}

/// What a left shift returns: the shift count must fit a `u32` and be below
/// the operand's width; the result keeps the low bits of the shifted value.
pub open spec fn spec_shl(a: Value, b: Value) -> Result<ValModel, InterpreterError> {
    if !same_width_numbers(a, b) {
        Err(InterpreterError::OperationNotNumberType)
    } else if num_value(b) > u32::MAX as nat {
        Err(InterpreterError::CastError)
    } else if num_value(b) >= num_width(a) {
        Err(InterpreterError::OverflowOccured)
    } else {
        Ok(
            make_num(
                num_width(a),
                (num_value(a) * pow2(num_value(b))) % width_bound(num_width(a)),
            ),
        )
    }
}

/// What a right shift returns, under the same conditions on the count.
pub open spec fn spec_shr(a: Value, b: Value) -> Result<ValModel, InterpreterError> {
    if !same_width_numbers(a, b) {
        Err(InterpreterError::OperationNotNumberType)
    } else if num_value(b) > u32::MAX as nat {
        Err(InterpreterError::CastError)
    } else if num_value(b) >= num_width(a) {
        Err(InterpreterError::OverflowOccured)
    } else {
        Ok(make_num(num_width(a), num_value(a) / pow2(num_value(b))))
    }
}

/// The power of two that fits a `u64`.
fn pow2_u64(k: u32) -> (r: u64)
    requires
        k < 64,
    ensures
        r as nat == pow2(k as nat),
{
    let mut r: u64 = 1;
    let mut i: u32 = 0;
    proof {
        vstd::arithmetic::power2::lemma2_to64();
    }
    while i < k
        invariant
            i <= k < 64,
            r as nat == pow2(i as nat),
        decreases k - i,
    {
        proof {
            vstd::arithmetic::power2::lemma2_to64();
            vstd::arithmetic::power2::lemma_pow2_unfold(i as nat + 1);
            vstd::arithmetic::power2::lemma_pow2_strictly_increases(i as nat + 1, 64);
        }
        r = r * 2;
        i = i + 1;
    }
    r
}

/// The power of two that fits a `u128`.
fn pow2_u128(k: u32) -> (r: u128)
    requires
        k < 128,
    ensures
        r as nat == pow2(k as nat),
{
    let mut r: u128 = 1;
    let mut i: u32 = 0;
    proof {
        vstd::arithmetic::power2::lemma2_to64();
        vstd::arithmetic::power2::lemma_pow2_adds(64, 64);
    }
    while i < k
        invariant
            i <= k < 128,
            r as nat == pow2(i as nat),
        decreases k - i,
    {
        proof {
            vstd::arithmetic::power2::lemma_pow2_unfold(i as nat + 1);
            vstd::arithmetic::power2::lemma_pow2_strictly_increases(i as nat + 1, 128);
            vstd::arithmetic::power2::lemma2_to64();
            vstd::arithmetic::power2::lemma_pow2_adds(64, 64);
        }
        r = r * 2;
        i = i + 1;
    }
    r
}

/// Left shift of two numbers of one width.
pub fn shl_values(a: Value, b: Value) -> (r: Result<Value, InterpreterError>)
    ensures
        lift(r) == spec_shl(a, b),
{
    proof {
        vstd::arithmetic::power2::lemma2_to64();
    }
    match (a, b) {
        (Value::U8(x), Value::U8(y)) => {
            if y >= 8 {
                Err(InterpreterError::OverflowOccured)
            } else {
                let p = pow2_u64(y as u32);
                proof {
                    vstd::arithmetic::power2::lemma_pow2_strictly_increases(y as nat, 8);
                    assert((x as nat) * (p as nat) < 256 * 256) by (nonlinear_arith)
                        requires
                            x < 256,
                            p < 256,
                    ;
                }
                Ok(Value::U8((((x as u64) * p) % 0x100) as u8))
            }
        },
        (Value::U16(x), Value::U16(y)) => {
            if y >= 16 {
                Err(InterpreterError::OverflowOccured)
            } else {
                let p = pow2_u64(y as u32);
                proof {
                    vstd::arithmetic::power2::lemma_pow2_strictly_increases(y as nat, 16);
                    assert((x as nat) * (p as nat) < 0x10000 * 0x10000) by (nonlinear_arith)
                        requires
                            x < 0x10000,
                            p < 0x10000,
                    ;
                }
                Ok(Value::U16((((x as u64) * p) % 0x10000) as u16))
            }
        },
        (Value::U32(x), Value::U32(y)) => {
            if y >= 32 {
                Err(InterpreterError::OverflowOccured)
            } else {
                let p = pow2_u64(y);
                proof {
                    vstd::arithmetic::power2::lemma_pow2_strictly_increases(y as nat, 32);
                    assert((x as nat) * (p as nat) < 0x100000000 * 0x100000000)
                        by (nonlinear_arith)
                        requires
                            x < 0x100000000,
                            p < 0x100000000,
                    ;
                }
                Ok(Value::U32((((x as u64) * p) % 0x100000000) as u32))
            }
        },
        (Value::U64(x), Value::U64(y)) => {
            if y > u32::MAX as u64 {
                Err(InterpreterError::CastError)
            } else if y >= 64 {
                Err(InterpreterError::OverflowOccured)
            } else {
                let p = pow2_u128(y as u32);
                proof {
                    vstd::arithmetic::power2::lemma_pow2_strictly_increases(y as nat, 64);
                    assert((x as nat) * (p as nat) < 0x10000000000000000 * 0x10000000000000000)
                        by (nonlinear_arith)
                        requires
                            x < 0x10000000000000000,
                            p < 0x10000000000000000,
                    ;
                }
                Ok(Value::U64((((x as u128) * p) % 0x10000000000000000) as u64))
            }
        },
        (Value::U128(x), Value::U128(y)) => {
            if y > u32::MAX as u128 {
                Err(InterpreterError::CastError)
            } else if y >= 128 {
                Err(InterpreterError::OverflowOccured)
            } else {
                let shifted = U256::from_u128(x).shl(y as u32);
                let low = shifted.low_u128();
                proof {
                    vstd::arithmetic::div_mod::lemma_mod_mod(
                        ((x as nat) * pow2(y as nat)) as int,
                        pow128() as int,
                        pow128() as int,
                    );
                }
                Ok(Value::U128(low))
            }
        },
        (Value::U256(x), Value::U256(y)) => match y.try_to_u128() {
            Option::Some(k) => {
                if k > u32::MAX as u128 {
                    Err(InterpreterError::CastError)
                } else if k >= 256 {
                    Err(InterpreterError::OverflowOccured)
                } else {
                    Ok(Value::U256(x.shl(k as u32)))
                }
            },
            Option::None => Err(InterpreterError::CastError),
        },
        _ => Err(InterpreterError::OperationNotNumberType),
    }
}

/// Right shift of two numbers of one width.
pub fn shr_values(a: Value, b: Value) -> (r: Result<Value, InterpreterError>)
    ensures
        lift(r) == spec_shr(a, b),
{
    proof {
        vstd::arithmetic::power2::lemma2_to64();
    }
    match (a, b) {
        (Value::U8(x), Value::U8(y)) => {
            if y >= 8 {
                Err(InterpreterError::OverflowOccured)
            } else {
                let p = pow2_u64(y as u32);
                proof {
                    vstd::arithmetic::power2::lemma_pow2_pos(y as nat);
                    vstd::arithmetic::power2::lemma_pow2_strictly_increases(y as nat, 8);
                }
                Ok(Value::U8(((x as u64) / p) as u8))
            }
        },
        (Value::U16(x), Value::U16(y)) => {
            if y >= 16 {
                Err(InterpreterError::OverflowOccured)
            } else {
                let p = pow2_u64(y as u32);
                proof {
                    vstd::arithmetic::power2::lemma_pow2_pos(y as nat);
                    vstd::arithmetic::power2::lemma_pow2_strictly_increases(y as nat, 16);
                }
                Ok(Value::U16(((x as u64) / p) as u16))
            }
        },
        (Value::U32(x), Value::U32(y)) => {
            if y >= 32 {
                Err(InterpreterError::OverflowOccured)
            } else {
                let p = pow2_u64(y);
                proof {
                    vstd::arithmetic::power2::lemma_pow2_pos(y as nat);
                    vstd::arithmetic::power2::lemma_pow2_strictly_increases(y as nat, 32);
                }
                Ok(Value::U32(((x as u64) / p) as u32))
            }
        },
        (Value::U64(x), Value::U64(y)) => {
            if y > u32::MAX as u64 {
                Err(InterpreterError::CastError)
            } else if y >= 64 {
                Err(InterpreterError::OverflowOccured)
            } else {
                let p = pow2_u64(y as u32);
                proof {
                    vstd::arithmetic::power2::lemma_pow2_pos(y as nat);
                }
                Ok(Value::U64(x / p))
            }
        },
        (Value::U128(x), Value::U128(y)) => {
            if y > u32::MAX as u128 {
                Err(InterpreterError::CastError)
            } else if y >= 128 {
                Err(InterpreterError::OverflowOccured)
            } else {
                let p = pow2_u128(y as u32);
                proof {
                    vstd::arithmetic::power2::lemma_pow2_pos(y as nat);
                }
                Ok(Value::U128(x / p))
            }
        },
        (Value::U256(x), Value::U256(y)) => match y.try_to_u128() {
            Option::Some(k) => {
                if k > u32::MAX as u128 {
                    Err(InterpreterError::CastError)
                } else if k >= 256 {
                    Err(InterpreterError::OverflowOccured)
                } else {
                    Ok(Value::U256(x.shr(k as u32)))
                }
            },
            Option::None => Err(InterpreterError::CastError),
        },
        _ => Err(InterpreterError::OperationNotNumberType),
    }
}

/// Bitwise conjunction of two numbers of one width, as a model.
pub open spec fn spec_bitand(a: Value, b: Value) -> Result<ValModel, InterpreterError> {
    match (a, b) {
        (Value::U8(x), Value::U8(y)) => Ok(ValModel::U8(x & y)),
        (Value::U16(x), Value::U16(y)) => Ok(ValModel::U16(x & y)),
        (Value::U32(x), Value::U32(y)) => Ok(ValModel::U32(x & y)),
        (Value::U64(x), Value::U64(y)) => Ok(ValModel::U64(x & y)),
        (Value::U128(x), Value::U128(y)) => Ok(ValModel::U128(x & y)),
        (Value::U256(x), Value::U256(y)) => Ok(
            ValModel::U256((U256 { lo: x.lo & y.lo, hi: x.hi & y.hi }).as_nat()),
        ),
        _ => Err(InterpreterError::OperationNotNumberType),
    }
}

/// Bitwise disjunction of two numbers of one width, as a model.
pub open spec fn spec_bitor(a: Value, b: Value) -> Result<ValModel, InterpreterError> {
    match (a, b) {
        (Value::U8(x), Value::U8(y)) => Ok(ValModel::U8(x | y)),
        (Value::U16(x), Value::U16(y)) => Ok(ValModel::U16(x | y)),
        (Value::U32(x), Value::U32(y)) => Ok(ValModel::U32(x | y)),
        (Value::U64(x), Value::U64(y)) => Ok(ValModel::U64(x | y)),
        (Value::U128(x), Value::U128(y)) => Ok(ValModel::U128(x | y)),
        (Value::U256(x), Value::U256(y)) => Ok(
            ValModel::U256((U256 { lo: x.lo | y.lo, hi: x.hi | y.hi }).as_nat()),
        ),
        _ => Err(InterpreterError::OperationNotNumberType),
    }
}

/// Bitwise exclusive disjunction of two numbers of one width, as a model.
pub open spec fn spec_bitxor(a: Value, b: Value) -> Result<ValModel, InterpreterError> {
    match (a, b) {
        (Value::U8(x), Value::U8(y)) => Ok(ValModel::U8(x ^ y)),
        (Value::U16(x), Value::U16(y)) => Ok(ValModel::U16(x ^ y)),
        (Value::U32(x), Value::U32(y)) => Ok(ValModel::U32(x ^ y)),
        (Value::U64(x), Value::U64(y)) => Ok(ValModel::U64(x ^ y)),
        (Value::U128(x), Value::U128(y)) => Ok(ValModel::U128(x ^ y)),
        (Value::U256(x), Value::U256(y)) => Ok(
            ValModel::U256((U256 { lo: x.lo ^ y.lo, hi: x.hi ^ y.hi }).as_nat()),
        ),
        _ => Err(InterpreterError::OperationNotNumberType),
    }
}

/// Bitwise conjunction of two numbers of one width.
pub fn bitand_values(a: Value, b: Value) -> (r: Result<Value, InterpreterError>)
    ensures
        lift(r) == spec_bitand(a, b),
{
    match (a, b) {
        (Value::U8(x), Value::U8(y)) => Ok(Value::U8(x & y)),
        (Value::U16(x), Value::U16(y)) => Ok(Value::U16(x & y)),
        (Value::U32(x), Value::U32(y)) => Ok(Value::U32(x & y)),
        (Value::U64(x), Value::U64(y)) => Ok(Value::U64(x & y)),
        (Value::U128(x), Value::U128(y)) => Ok(Value::U128(x & y)),
        (Value::U256(x), Value::U256(y)) => Ok(Value::U256(x.bitand(y))),
        _ => Err(InterpreterError::OperationNotNumberType),
    }
}

/// Bitwise disjunction of two numbers of one width.
pub fn bitor_values(a: Value, b: Value) -> (r: Result<Value, InterpreterError>)
    ensures
        lift(r) == spec_bitor(a, b),
{
    match (a, b) {
        (Value::U8(x), Value::U8(y)) => Ok(Value::U8(x | y)),
        (Value::U16(x), Value::U16(y)) => Ok(Value::U16(x | y)),
        (Value::U32(x), Value::U32(y)) => Ok(Value::U32(x | y)),
        (Value::U64(x), Value::U64(y)) => Ok(Value::U64(x | y)),
        (Value::U128(x), Value::U128(y)) => Ok(Value::U128(x | y)),
        (Value::U256(x), Value::U256(y)) => Ok(Value::U256(x.bitor(y))),
        _ => Err(InterpreterError::OperationNotNumberType),
    }
}

/// Bitwise exclusive disjunction of two numbers of one width.
pub fn bitxor_values(a: Value, b: Value) -> (r: Result<Value, InterpreterError>)
    ensures
        lift(r) == spec_bitxor(a, b),
{
    match (a, b) {
        (Value::U8(x), Value::U8(y)) => Ok(Value::U8(x ^ y)),
        (Value::U16(x), Value::U16(y)) => Ok(Value::U16(x ^ y)),
        (Value::U32(x), Value::U32(y)) => Ok(Value::U32(x ^ y)),
        (Value::U64(x), Value::U64(y)) => Ok(Value::U64(x ^ y)),
        (Value::U128(x), Value::U128(y)) => Ok(Value::U128(x ^ y)),
        (Value::U256(x), Value::U256(y)) => Ok(Value::U256(x.bitxor(y))),
        _ => Err(InterpreterError::OperationNotNumberType),
    }
}

/// The strict-order comparison of two numbers of one width.
pub fn lt_values(a: &Value, b: &Value) -> (r: Result<Value, InterpreterError>)
    ensures
        lift(r) == spec_cmp(*a, *b, num_value(*a) < num_value(*b)),
{
    match (a, b) {
        (Value::U8(x), Value::U8(y)) => Ok(Value::Boolean(x < y)),
        (Value::U16(x), Value::U16(y)) => Ok(Value::Boolean(x < y)),
        (Value::U32(x), Value::U32(y)) => Ok(Value::Boolean(x < y)),
        (Value::U64(x), Value::U64(y)) => Ok(Value::Boolean(x < y)),
        (Value::U128(x), Value::U128(y)) => Ok(Value::Boolean(x < y)),
        (Value::U256(x), Value::U256(y)) => Ok(Value::Boolean(x.lt(y))),
        _ => Err(InterpreterError::OperationNotNumberType),
    }
}

/// The reflexive-order comparison of two numbers of one width.
pub fn le_values(a: &Value, b: &Value) -> (r: Result<Value, InterpreterError>)
    ensures
        lift(r) == spec_cmp(*a, *b, num_value(*a) <= num_value(*b)),
{
    match (a, b) {
        (Value::U8(x), Value::U8(y)) => Ok(Value::Boolean(x <= y)),
        (Value::U16(x), Value::U16(y)) => Ok(Value::Boolean(x <= y)),
        (Value::U32(x), Value::U32(y)) => Ok(Value::Boolean(x <= y)),
        (Value::U64(x), Value::U64(y)) => Ok(Value::Boolean(x <= y)),
        (Value::U128(x), Value::U128(y)) => Ok(Value::Boolean(x <= y)),
        (Value::U256(x), Value::U256(y)) => Ok(Value::Boolean(x.le(y))),
        _ => Err(InterpreterError::OperationNotNumberType),
    }
}

/// The strict reverse-order comparison of two numbers of one width.
pub fn gt_values(a: &Value, b: &Value) -> (r: Result<Value, InterpreterError>)
    ensures
        lift(r) == spec_cmp(*a, *b, num_value(*a) > num_value(*b)),
{
    match (a, b) {
        (Value::U8(x), Value::U8(y)) => Ok(Value::Boolean(x > y)),
        (Value::U16(x), Value::U16(y)) => Ok(Value::Boolean(x > y)),
        (Value::U32(x), Value::U32(y)) => Ok(Value::Boolean(x > y)),
        (Value::U64(x), Value::U64(y)) => Ok(Value::Boolean(x > y)),
        (Value::U128(x), Value::U128(y)) => Ok(Value::Boolean(x > y)),
        (Value::U256(x), Value::U256(y)) => Ok(Value::Boolean(y.lt(x))),
        _ => Err(InterpreterError::OperationNotNumberType),
    }
}

/// The reflexive reverse-order comparison of two numbers of one width.
pub fn ge_values(a: &Value, b: &Value) -> (r: Result<Value, InterpreterError>)
    ensures
        lift(r) == spec_cmp(*a, *b, num_value(*a) >= num_value(*b)),
{
    match (a, b) {
        (Value::U8(x), Value::U8(y)) => Ok(Value::Boolean(x >= y)),
        (Value::U16(x), Value::U16(y)) => Ok(Value::Boolean(x >= y)),
        (Value::U32(x), Value::U32(y)) => Ok(Value::Boolean(x >= y)),
        (Value::U64(x), Value::U64(y)) => Ok(Value::Boolean(x >= y)),
        (Value::U128(x), Value::U128(y)) => Ok(Value::Boolean(x >= y)),
        (Value::U256(x), Value::U256(y)) => Ok(Value::Boolean(y.le(x))),
        _ => Err(InterpreterError::OperationNotNumberType),
    }
}

/// Check whether two values are numbers of one width.
pub fn same_width_check(a: &Value, b: &Value) -> (r: bool)
    ensures
        r == same_width_numbers(*a, *b),
{
    match (a, b) {
        (Value::U8(_), Value::U8(_)) => true,
        (Value::U16(_), Value::U16(_)) => true,
        (Value::U32(_), Value::U32(_)) => true,
        (Value::U64(_), Value::U64(_)) => true,
        (Value::U128(_), Value::U128(_)) => true,
        (Value::U256(_), Value::U256(_)) => true,
        _ => false,
    }
}

/// A number value always lies below the bound of its width.
pub proof fn lemma_num_value_bound(v: Value)
    requires
        spec_is_number(v),
    ensures
        num_value(v) < width_bound(num_width(v)),
{
    match v {
        Value::U256(n) => {
            n.lemma_as_nat_bound();
        },
        _ => (),
    }
}

/// The successor of a number that lies strictly below another of the same
/// width still fits the width.
pub proof fn lemma_next_fits(cur: Value, end: Value)
    requires
        same_width_numbers(cur, end),
        num_value(cur) < num_value(end),
    ensures
        num_value(cur) + 1 < width_bound(num_width(cur)),
{
    lemma_num_value_bound(end);
}

/// Whether two models are numbers of one width.
pub open spec fn same_width_models(a: ValModel, b: ValModel) -> bool {
    model_is_number(a) && model_is_number(b) && model_width(a) == model_width(b)
}

/// The operator semantics at the model level: the vocabulary the evaluator's
/// contract uses for the arithmetic fragment.
pub open spec fn binop_m(op: Operator, a: ValModel, b: ValModel) -> Result<
    ValModel,
    InterpreterError,
> {
    if !same_width_models(a, b) {
        Err(InterpreterError::OperationNotNumberType)
    } else {
        let w = model_width(a);
        let x = model_num(a);
        let y = model_num(b);
        match op {
            Operator::Plus => if x + y < width_bound(w) {
                Ok(make_num(w, x + y))
            } else {
                Err(InterpreterError::OverflowOccured)
            },
            Operator::Minus => if x >= y {
                Ok(make_num(w, (x - y) as nat))
            } else {
                Err(InterpreterError::OverflowOccured)
            },
            Operator::Multiply => if x * y < width_bound(w) {
                Ok(make_num(w, x * y))
            } else {
                Err(InterpreterError::OverflowOccured)
            },
            Operator::Divide => if y == 0 {
                Err(InterpreterError::DivByZero)
            } else {
                Ok(make_num(w, x / y))
            },
            Operator::Modulo => if y == 0 {
                Err(InterpreterError::DivByZero)
            } else {
                Ok(make_num(w, x % y))
            },
            Operator::BitwiseLeft => if y > u32::MAX as nat {
                Err(InterpreterError::CastError)
            } else if y >= w {
                Err(InterpreterError::OverflowOccured)
            } else {
                Ok(make_num(w, (x * pow2(y)) % width_bound(w)))
            },
            Operator::BitwiseRight => if y > u32::MAX as nat {
                Err(InterpreterError::CastError)
            } else if y >= w {
                Err(InterpreterError::OverflowOccured)
            } else {
                Ok(make_num(w, x / pow2(y)))
            },
            Operator::GreaterThan => Ok(ValModel::Bool(x > y)),
            Operator::GreaterOrEqual => Ok(ValModel::Bool(x >= y)),
            Operator::LessThan => Ok(ValModel::Bool(x < y)),
            Operator::LessOrEqual => Ok(ValModel::Bool(x <= y)),
            _ => Err(InterpreterError::UnexpectedOperator),
        }
    }
}

/// Numbers of one width have one type, numbers of different widths have
/// different types, and a number's type is never the string type.
pub proof fn lemma_numeric_type(v1: Value, v2: Value)
    requires
        spec_is_number(v1),
        spec_is_number(v2),
    ensures
        crate::values::type_of(v1) is Some,
        crate::values::type_of(v2) is Some,
        (crate::values::type_of(v1) == crate::values::type_of(v2)) == (num_width(v1) == num_width(
            v2,
        )),
        crate::values::type_of(v1) != Some(crate::types::Type::String),
{
}

/// A value's number facts are facts of its model.
pub proof fn lemma_model_num(v: Value)
    ensures
        model_num(model(v)) == num_value(v),
        model_is_number(model(v)) == spec_is_number(v),
        model_width(model(v)) == num_width(v),
{
}

/// For a value that fits the width, `make_num` is exact: the built model is a
/// number of that width holding that value.
pub proof fn lemma_make_num_props(w: nat, n: nat)
    requires
        w == 8 || w == 16 || w == 32 || w == 64 || w == 128 || w == 256,
        n < width_bound(w),
    ensures
        model_is_number(make_num(w, n)),
        model_width(make_num(w, n)) == w,
        model_num(make_num(w, n)) == n,
{
}

/// A number value is the model that `make_num` builds from its width and
/// numeric value.
pub proof fn lemma_make_num_model(v: Value)
    requires
        spec_is_number(v),
    ensures
        model(v) == make_num(num_width(v), num_value(v)),
{
}

} // verus!
