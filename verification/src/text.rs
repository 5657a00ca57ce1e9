use vstd::prelude::*;

use crate::u256::U256;

verus! {

/// The character of a single decimal digit.
pub open spec fn digit_char(d: nat) -> char {
    ((48 + d % 10) as u8) as char
}

/// The decimal rendering of a number, most significant digit first.
pub open spec fn dec_chars(n: nat) -> Seq<char>
    decreases n,
{
    if n < 10 {
        seq![digit_char(n)]
    } else {
        dec_chars(n / 10).push(digit_char(n % 10))
    }
}

/// The rendering of a boolean.
pub open spec fn bool_chars(b: bool) -> Seq<char> {
    if b {
        "true"@
    } else {
        "false"@
    }
}

/// The characters of a sequence of ASCII bytes.
pub open spec fn bytes_chars(s: Seq<u8>) -> Seq<char> {
    s.map_values(|b: u8| b as char)
}

/// Render a 128-bit number in decimal.
pub fn u128_to_string(n: u128) -> (r: String)
    ensures
        r@ == dec_chars(n as nat),
{
    let ghost orig: nat = n as nat;
    // Digits are collected least significant first, then reversed.
    let mut digits: Vec<u8> = Vec::new();
    let mut cur = n;
    let mut first = true;
    while first || cur != 0
        invariant
            first ==> cur == n && digits@.len() == 0,
            !first ==> ({
                &&& (forall|i: int| 0 <= i < digits@.len() ==> 48 <= #[trigger] digits@[i] < 58)
                &&& (cur > 0 ==> dec_chars(orig) =~= dec_chars(cur as nat) + bytes_chars(
                    digits@.reverse(),
                ))
                &&& (cur == 0 ==> dec_chars(orig) =~= bytes_chars(digits@.reverse()))
            }),
            orig == n as nat,
        decreases cur + (if first {
            1nat
        } else {
            0nat
        }),
    {
        let q = cur / 10;
        let d = (cur % 10) as u8;
        let ghost prev = cur as nat;
        let ghost olddigits = digits@;
        digits.push(48 + d);
        proof {
            lemma_dec_step(prev, q as nat, d as nat, orig, olddigits, first);
        }
        cur = q;
        first = false;
    }
    let reversed = reverse_bytes(&digits);
    proof {
        assert(bytes_chars(reversed@) =~= bytes_chars(digits@.reverse()));
    }
    ascii_to_string(reversed)
}

/// Relies on `String::from_utf8`: bytes below 128 are ASCII and decode to one
/// character each.
#[verifier::external_body]
pub fn ascii_to_string(bytes: Vec<u8>) -> (r: String)
    requires
        forall|i: int| 0 <= i < bytes@.len() ==> bytes@[i] < 128,
    ensures
        r@ == bytes_chars(bytes@),
{
    String::from_utf8(bytes).unwrap_or_default()
}

/// The concatenation of two strings.
pub fn concat_strings(a: &String, b: &String) -> (r: String)
    ensures
        r@ == a@ + b@,
{
    let mut r = a.clone();
    r.append(b.as_str());
    r
}

/// Append a string slice to a string.
pub fn push_str(s: &mut String, t: &str)
    ensures
        final(s)@ == old(s)@ + t@,
{
    s.append(t);
}

/// Render a 256-bit number in decimal.
pub fn u256_to_string(v: U256) -> (r: String)
    ensures
        r@ == dec_chars(v.as_nat()),
{
    let ghost orig: nat = v.as_nat();
    // Digits are collected least significant first, then reversed.
    let mut digits: Vec<u8> = Vec::new();
    let mut cur = v;
    let mut first = true;
    while first || !cur.is_zero()
        invariant
            first ==> cur == v && digits@.len() == 0,
            !first ==> ({
                &&& (forall|i: int| 0 <= i < digits@.len() ==> 48 <= #[trigger] digits@[i] < 58)
                &&& (cur.as_nat() > 0 ==> dec_chars(orig) =~= dec_chars(cur.as_nat())
                    + bytes_chars(digits@.reverse()))
                &&& (cur.as_nat() == 0 ==> dec_chars(orig) =~= bytes_chars(digits@.reverse()))
            }),
            orig == v.as_nat(),
        decreases cur.as_nat() + (if first {
            1nat
        } else {
            0nat
        }),
    {
        let (q, d) = cur.divmod10();
        let ghost prev = cur.as_nat();
        let ghost olddigits = digits@;
        digits.push(48 + d);
        proof {
            lemma_dec_step(prev, q.as_nat(), d as nat, orig, olddigits, first);
        }
        cur = q;
        first = false;
    }
    let reversed = reverse_bytes(&digits);
    proof {
        assert(bytes_chars(reversed@) =~= bytes_chars(digits@.reverse()));
    }
    ascii_to_string(reversed)
}

proof fn lemma_dec_step(prev: nat, q: nat, d: nat, orig: nat, olddigits: Seq<u8>, first: bool)
    requires
        q * 10 + d == prev,
        d < 10,
        48 + d < 58,
        first ==> prev == orig && olddigits.len() == 0,
        !first ==> prev > 0,
        !first ==> (prev > 0 ==> dec_chars(orig) =~= dec_chars(prev) + bytes_chars(
            olddigits.reverse(),
        )),
    ensures
        q > 0 ==> dec_chars(orig) =~= dec_chars(q) + bytes_chars(
            olddigits.push((48 + d) as u8).reverse(),
        ),
        q == 0 ==> dec_chars(orig) =~= bytes_chars(olddigits.push((48 + d) as u8).reverse()),
{
    let b = (48 + d) as u8;
    let newdigits = olddigits.push(b);
    assert(newdigits.reverse() =~= seq![b] + olddigits.reverse());
    assert(bytes_chars(newdigits.reverse()) =~= seq![b as char] + bytes_chars(
        olddigits.reverse(),
    ));
    assert(prev % 10 == d && prev / 10 == q) by (nonlinear_arith)
        requires
            q * 10 + d == prev,
            d < 10,
    ;
    assert(b as char == digit_char(prev));
    if first {
        // dec_chars(orig) with orig == prev
        if q > 0 {
            assert(prev >= 10);
            assert(dec_chars(prev) =~= dec_chars(q).push(digit_char(prev)));
            assert(dec_chars(q).push(digit_char(prev)) =~= dec_chars(q) + seq![digit_char(prev)]);
        } else {
            assert(prev < 10);
        }
    } else {
        if q > 0 {
            assert(prev >= 10);
            assert(dec_chars(prev) =~= dec_chars(q).push(digit_char(prev)));
        } else {
            assert(prev < 10);
            assert(dec_chars(prev) =~= seq![digit_char(prev)]);
        }
    }
}

/// The bytes of a vector in reverse order.
pub fn reverse_bytes(v: &Vec<u8>) -> (r: Vec<u8>)
    ensures
        r@ =~= v@.reverse(),
{
    let mut out: Vec<u8> = Vec::new();
    let mut j: usize = v.len();
    while j > 0
        invariant
            j <= v@.len(),
            out@.len() == v@.len() - j,
            forall|i: int| 0 <= i < out@.len() ==> out@[i] == v@[v@.len() - 1 - i],
        decreases j,
    {
        j = j - 1;
        out.push(v[j]);
    }
    out
}

} // verus!
