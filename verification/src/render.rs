use vstd::prelude::*;

use crate::text::{
    bool_chars, concat_strings, dec_chars, push_str, u128_to_string, u256_to_string,
};
use crate::values::{lemma_models_index, lemma_models_len, model, models, ValModel, Value};
use vstd::string::StringExecFns;

verus! {

/// The display form of a value: numbers in decimal, booleans as words,
/// arrays in brackets and structs in braces with elements separated by a
/// comma, optionals in an `optional<...>` shell, ranges as `start..end`.
/// This rendering is the library's canonical one and is fixed by the
/// contracts that use it, string concatenation among them.
pub open spec fn display_chars(m: ValModel) -> Seq<char>
    decreases m,
{
    match m {
        ValModel::Null => "null"@,
        ValModel::U8(n) => dec_chars(n as nat),
        ValModel::U16(n) => dec_chars(n as nat),
        ValModel::U32(n) => dec_chars(n as nat),
        ValModel::U64(n) => dec_chars(n as nat),
        ValModel::U128(n) => dec_chars(n as nat),
        ValModel::U256(n) => dec_chars(n),
        ValModel::Str(s) => s,
        ValModel::Bool(b) => bool_chars(b),
        ValModel::Struct(fields, _) => "{"@ + display_list(fields) + "}"@,
        ValModel::Array(values) => "["@ + display_list(values) + "]"@,
        ValModel::Optional(o) => match o {
            Option::Some(inner) => "optional<"@ + display_chars(*inner) + ">"@,
            Option::None => "optional<null>"@,
        },
        ValModel::Range(start, end, _) => display_chars(*start) + ".."@ + display_chars(*end),
    }
}

/// The display forms of a list of values, separated by a comma and a space.
pub open spec fn display_list(ms: Seq<ValModel>) -> Seq<char>
    decreases ms,
{
    if ms.len() == 0 {
        Seq::empty()
    } else if ms.len() == 1 {
        display_chars(ms[0])
    } else {
        display_chars(ms[0]) + ", "@ + display_list(ms.drop_first())
    }
}

pub proof fn lemma_display_list_push(ms: Seq<ValModel>, m: ValModel)
    ensures
        ms.len() == 0 ==> display_list(ms.push(m)) =~= display_chars(m),
        ms.len() > 0 ==> display_list(ms.push(m)) =~= display_list(ms) + ", "@ + display_chars(m),
    decreases ms,
{
    if ms.len() == 0 {
        assert(ms.push(m) =~= seq![m]);
    } else if ms.len() == 1 {
        assert(ms.push(m).len() == 2);
        assert(ms.push(m)[0] == ms[0]);
        assert(ms.push(m).drop_first() =~= seq![m]);
        assert(display_list(seq![m]) =~= display_chars(m));
    } else {
        assert(ms.push(m).drop_first() =~= ms.drop_first().push(m));
        lemma_display_list_push(ms.drop_first(), m);
        assert(ms.push(m)[0] == ms[0]);
    }
}

/// Render a value in its display form.
pub fn display_value(v: &Value) -> (r: String)
    ensures
        r@ == display_chars(model(*v)),
    decreases v,
{
    match v {
        Value::Null => String::from_str("null"),
        Value::U8(n) => u128_to_string(*n as u128),
        Value::U16(n) => u128_to_string(*n as u128),
        Value::U32(n) => u128_to_string(*n as u128),
        Value::U64(n) => u128_to_string(*n as u128),
        Value::U128(n) => u128_to_string(*n),
        Value::U256(n) => u256_to_string(*n),
        Value::String(s) => s.clone(),
        Value::Boolean(b) => {
            if *b {
                String::from_str("true")
            } else {
                String::from_str("false")
            }
        },
        Value::Struct(fields, _) => {
            let mut out = String::from_str("{");
            let inner = display_values(fields);
            push_str(&mut out, inner.as_str());
            push_str(&mut out, "}");
            out
        },
        Value::Array(values) => {
            let mut out = String::from_str("[");
            let inner = display_values(values);
            push_str(&mut out, inner.as_str());
            push_str(&mut out, "]");
            out
        },
        Value::Optional(o) => match o {
            Option::Some(inner) => {
                let mut out = String::from_str("optional<");
                let shown = display_value(&**inner);
                push_str(&mut out, shown.as_str());
                push_str(&mut out, ">");
                out
            },
            Option::None => String::from_str("optional<null>"),
        },
        Value::Range(start, end, _) => {
            let mut out = display_value(&**start);
            push_str(&mut out, "..");
            let shown = display_value(&**end);
            push_str(&mut out, shown.as_str());
            out
        },
    }
}

/// Render a list of values, separated by a comma and a space.
pub fn display_values(values: &Vec<Value>) -> (r: String)
    ensures
        r@ == display_list(models(values@)),
    decreases values,
{
    proof {
        lemma_models_len(values@);
    }
    let mut out = String::new();
    let mut i: usize = 0;
    while i < values.len()
        invariant
            i <= values@.len(),
            models(values@).len() == values@.len(),
            out@ == display_list(models(values@).take(i as int)),
        decreases values@.len() - i,
    {
        if i > 0 {
            push_str(&mut out, ", ");
        }
        let shown = display_value(&values[i]);
        push_str(&mut out, shown.as_str());
        proof {
            lemma_models_index(values@, i as int);
            let pre = models(values@).take(i as int);
            lemma_display_list_push(pre, models(values@)[i as int]);
            assert(models(values@).take(i + 1) =~= pre.push(models(values@)[i as int]));
        }
        i = i + 1;
    }
    proof {
        assert(models(values@).take(values@.len() as int) =~= models(values@));
    }
    out
}

} // verus!
