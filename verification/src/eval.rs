//! Integer arithmetic over the macro table: the two built-in functions,
//! the evaluation of one expression in a scope of macro values, and the
//! width of a packed range `[msb:lsb]`.
//!
//! Expressions are evaluated by the `rhai` scripting engine. What it
//! returns for a scope and a text is named [`evaluated`]; the contracts of
//! this module are exact over that name.

use crate::hdl_info::{define_views, Define, DefineView};
use crate::literal::{normalized, parse_sv_number};
use crate::text::{
    chars_of,
    is_white_space,
    lemma_trimmed_part,
    replace_all,
    replaced,
    string_of,
    string_of_range,
    trim_end_index,
    trim_range,
    trim_start_index,
    trimmed,
    trimmed_range,
};
use rhai::packages::{ArithmeticPackage, Package};
use rhai::{Engine, EvalAltResult, Scope};
use vstd::arithmetic::power2::{
    lemma2_to64,
    lemma2_to64_rest,
    lemma_pow2_strictly_increases,
    lemma_pow2_unfold,
    pow2,
};
use vstd::prelude::*;

verus! {

// ---------------------------------------------------------------------------
// Built-in functions

/// Whether `k` is the ceiling of the binary logarithm of `n`: 0 for every
/// `n` up to 1, and else the least `k` with `n <= 2^k`.
pub open spec fn is_ceil_log2(n: int, k: int) -> bool {
    if n <= 1 {
        k == 0
    } else {
        k >= 1 && pow2((k - 1) as nat) < n <= pow2(k as nat)
    }
}

/// At most one number is the ceiling of the binary logarithm of `n`.
pub proof fn lemma_ceil_log2_unique(n: int, k1: int, k2: int)
    requires
        k1 >= 0,
        k2 >= 0,
        is_ceil_log2(n, k1),
        is_ceil_log2(n, k2),
    ensures
        k1 == k2,
{
    if n > 1 {
        if k1 < k2 {
            if k1 < k2 - 1 {
                lemma_pow2_strictly_increases(k1 as nat, (k2 - 1) as nat);
            }
        } else if k2 < k1 {
            if k2 < k1 - 1 {
                lemma_pow2_strictly_increases(k2 as nat, (k1 - 1) as nat);
            }
        }
    }
}

/// The ceiling of the binary logarithm of `n`; 0 for every `n` up to 1.
pub fn clog2(n: i64) -> (k: i64)
    ensures
        is_ceil_log2(n as int, k as int),
        0 <= k <= 63,
{
    if n <= 1 {
        return 0;
    }
    let mut k: i64 = 0;
    let mut p: u64 = 1;
    proof {
        lemma2_to64();
    }
    while p < n as u64
        invariant
            n > 1,
            0 <= k <= 63,
            p >= 1,
            p == pow2(k as nat),
            k > 0 ==> pow2((k - 1) as nat) < n,
        decreases 63 - k,
    {
        proof {
            lemma2_to64_rest();
            lemma_pow2_unfold((k + 1) as nat);
        }
        p = p * 2;
        k = k + 1;
    }
    k
}

/// `b` to the power `e`; 1 for every `e` up to 0.
pub open spec fn int_pow(b: int, e: int) -> int
    decreases e,
{
    if e <= 0 {
        1
    } else {
        b * int_pow(b, e - 1)
    }
}

/// Whether `v` is a value of the 64-bit signed integers.
pub open spec fn fits_i64(v: int) -> bool {
    -0x8000_0000_0000_0000 <= v <= 0x7fff_ffff_ffff_ffff
}

/// What the power function gives: 0 for a negative exponent, else the
/// power where it is a 64-bit signed integer, else nothing.
pub open spec fn power_of(base: i64, exp: i64) -> Option<i64> {
    if exp < 0 {
        Some(0i64)
    } else if fits_i64(int_pow(base as int, exp as int)) {
        Some(int_pow(base as int, exp as int) as i64)
    } else {
        None
    }
}

spec fn abs(v: int) -> int {
    if v < 0 {
        -v
    } else {
        v
    }
}

proof fn lemma_pow_of_unit(b: int, e: int)
    requires
        e >= 0,
    ensures
        b == 0 ==> int_pow(b, e) == (if e == 0 {
            1int
        } else {
            0
        }),
        b == 1 ==> int_pow(b, e) == 1,
        b == -1 ==> int_pow(b, e) == (if e % 2 == 0 {
            1int
        } else {
            -1
        }),
    decreases e,
{
    if e > 0 {
        lemma_pow_of_unit(b, e - 1);
    }
}

proof fn lemma_pow_grows(b: int, k: int, e: int)
    requires
        b >= 2 || b <= -2,
        0 <= k <= e,
    ensures
        e == k ==> int_pow(b, e) == int_pow(b, k),
        e > k ==> abs(int_pow(b, e)) >= 2 * abs(int_pow(b, k)),
    decreases e - k,
{
    if e > k {
        lemma_pow_grows(b, k, e - 1);
        let p = int_pow(b, e - 1);
        assert(abs(b * p) >= 2 * abs(p)) by (nonlinear_arith)
            requires
                b >= 2 || b <= -2,
        ;
    }
}

/// `base` to the power `exp`. A negative exponent gives 0. A power that
/// is no 64-bit signed integer gives nothing.
pub fn power(base: i64, exp: i64) -> (r: Option<i64>)
    ensures
        r == power_of(base, exp),
{
    if exp < 0 {
        return Some(0);
    }
    proof {
        lemma_pow_of_unit(base as int, exp as int);
    }
    if base == 0 {
        return Some(if exp == 0 {
            1
        } else {
            0
        });
    }
    if base == 1 {
        return Some(1);
    }
    if base == -1 {
        return Some(if exp % 2 == 0 {
            1
        } else {
            -1
        });
    }
    let mut acc: i64 = 1;
    let mut i: i64 = 0;
    while i < exp
        invariant
            0 <= i <= exp,
            base >= 2 || base <= -2,
            acc == int_pow(base as int, i as int),
        decreases exp - i,
    {
        match acc.checked_mul(base) {
            Some(v) => {
                assert(acc * base == base * acc) by (nonlinear_arith);
                acc = v;
            },
            None => {
                proof {
                    assert(acc * base == base * acc) by (nonlinear_arith);
                    lemma_pow_grows(base as int, i + 1, exp as int);
                }
                return None;
            },
        }
        i = i + 1;
    }
    Some(acc)
}

// ---------------------------------------------------------------------------
// Evaluation

/// The views of a sequence of strings.
pub open spec fn string_views(v: Seq<String>) -> Seq<Seq<char>> {
    Seq::new(v.len(), |i: int| v[i]@)
}

/// What the `rhai` engine returns for the expression `text` in the scope
/// that binds `names[i]` to `values[i]`, a later binding of a name hiding
/// an earlier one: the value where the text is an expression of the
/// engine's language whose evaluation gives a 64-bit signed integer, and
/// `None` where parsing or evaluation fails. The engine is the raw engine
/// with the arithmetic package and the functions `clog2` and `pow` of
/// this module, `pow` also as an operator that binds as the engine's own
/// power operator does, without `eval` and without anonymous functions.
pub uninterp spec fn evaluated(names: Seq<Seq<char>>, values: Seq<i64>, text: Seq<char>) -> Option<
    i64,
>;

/// Evaluates `text` with `rhai::Engine::eval_expression_with_scope` in a
/// fresh scope that holds `values[i]` under `names[i]`.
///
/// Trusted: the result is what the engine computes. It depends on the
/// arguments alone: the engine is built anew for each call from
/// `rhai::Engine::new_raw`, the arithmetic package, [`clog2`] and
/// [`power`], the latter also as the operator `pow`. The two ways from
/// an expression to statements, `eval` and anonymous functions, are
/// switched off: no expression holds a loop, and none reaches a file or
/// a clock.
#[verifier::external_body]
fn evaluate(names: &Vec<String>, values: &Vec<i64>, text: &str) -> (r: Option<i64>)
    ensures
        r == evaluated(string_views(names@), values@, text@),
{
    let mut engine = Engine::new_raw();
    ArithmeticPackage::new().register_into_engine(&mut engine);
    engine.disable_symbol("eval");
    engine.set_allow_anonymous_fn(false);
    let _ = engine.register_custom_operator("pow", 190);
    engine.register_fn("clog2", |n: i64| clog2(n));
    engine.register_fn("pow", |b: i64, e: i64| power(b, e).ok_or(Box::<EvalAltResult>::from("overflow")));
    let mut scope = Scope::new();
    for (name, value) in names.iter().zip(values.iter()) {
        scope.push(name.clone(), *value);
    }
    engine.eval_expression_with_scope::<i64>(&mut scope, text).ok()
}

/// The text as it is handed to the engine: sized literals replaced by
/// decimal numerals, `**` by the operator `pow`, `$clog2` by `clog2`.
pub open spec fn preprocessed(text: Seq<char>) -> Seq<char> {
    replaced(replaced(normalized(text), "**"@, " pow "@), "$clog2"@, "clog2"@)
}

/// Rewrites an expression for the engine: sized literals become decimal
/// numerals, `**` becomes the operator `pow`, `$clog2` becomes `clog2`.
pub fn preprocess_for_rhai(input: &str) -> (out: String)
    ensures
        out@ == preprocessed(input@),
{
    let plain = parse_sv_number(input);
    let s0 = chars_of(plain.as_str());
    let s1 = replace_all(&s0, &chars_of("**"), &chars_of(" pow "));
    let s2 = replace_all(&s1, &chars_of("$clog2"), &chars_of("clog2"));
    string_of(&s2)
}

/// The scope that the macro table gives: the macros are taken in order;
/// each replacement text is evaluated in the scope of the macros before
/// it, and enters the scope under its name where that gives a value. A
/// macro without a value leaves the scope as it is.
pub open spec fn scope_of(defines: Seq<DefineView>) -> (Seq<Seq<char>>, Seq<i64>)
    decreases defines.len(),
{
    if defines.len() == 0 {
        (Seq::empty(), Seq::empty())
    } else {
        let before = scope_of(defines.drop_last());
        match evaluated(before.0, before.1, preprocessed(defines.last().value)) {
            Some(v) => (before.0.push(defines.last().name), before.1.push(v)),
            None => before,
        }
    }
}

/// The value of the expression `input` over the macro table; `None` where
/// it has none.
pub open spec fn value_of(input: Seq<char>, defines: Seq<DefineView>) -> Option<i64> {
    let scope = scope_of(defines);
    evaluated(scope.0, scope.1, preprocessed(input))
}

/// Evaluates the macros in order into a scope of names and values.
pub fn build_scope(defines: &Vec<Define>) -> (scope: (Vec<String>, Vec<i64>))
    ensures
        (string_views(scope.0@), scope.1@) == scope_of(define_views(defines@)),
{
    let mut names: Vec<String> = Vec::new();
    let mut values: Vec<i64> = Vec::new();
    let ghost all = define_views(defines@);
    let mut i: usize = 0;
    assert(all.take(0) == Seq::<DefineView>::empty());
    assert(string_views(names@) == Seq::<Seq<char>>::empty());
    while i < defines.len()
        invariant
            i <= defines.len(),
            all == define_views(defines@),
            (string_views(names@), values@) == scope_of(all.take(i as int)),
        decreases defines.len() - i,
    {
        let text = preprocess_for_rhai(defines[i].get_value().as_str());
        assert(all.take(i + 1).drop_last() == all.take(i as int));
        assert(all.take(i + 1).last() == defines[i as int]@);
        match evaluate(&names, &values, text.as_str()) {
            Some(v) => {
                let ghost before = names@;
                let name = defines[i].get_name();
                names.push(name);
                values.push(v);
                assert(string_views(names@) == string_views(before).push(name@));
            },
            None => {},
        }
        i = i + 1;
    }
    assert(all.take(defines.len() as int) == all);
    (names, values)
}

/// Evaluates one expression over the macro table. The macros are
/// evaluated first, in order, each in the scope of those before it.
/// Returns `None` where the expression has no value: an unknown name, a
/// syntax that the engine does not accept, a result that is no integer.
pub fn eval_int_expr(input: &str, defines: &Vec<Define>) -> (r: Option<i64>)
    ensures
        r == value_of(input@, define_views(defines@)),
{
    let scope = build_scope(defines);
    let text = preprocess_for_rhai(input);
    evaluate(&scope.0, &scope.1, text.as_str())
}

// ---------------------------------------------------------------------------
// The width of a range

/// The number of bits from `msb` to `lsb`, whichever is larger.
pub open spec fn range_width(msb: int, lsb: int) -> int {
    if msb >= lsb {
        msb - lsb + 1
    } else {
        lsb - msb + 1
    }
}

/// The width that two evaluated bounds give: [`range_width`] where both
/// have a value and the width is a 64-bit signed integer, else nothing.
pub open spec fn width_of_bounds(msb: Option<i64>, lsb: Option<i64>) -> Option<i64> {
    match (msb, lsb) {
        (Some(a), Some(b)) => if range_width(a as int, b as int) <= 0x7fff_ffff_ffff_ffff {
            Some(range_width(a as int, b as int) as i64)
        } else {
            None
        },
        _ => None,
    }
}

/// The width of the range whose bounds evaluated to `msb` and `lsb`.
pub fn width_from_bounds(msb: Option<i64>, lsb: Option<i64>) -> (r: Option<i64>)
    ensures
        r == width_of_bounds(msb, lsb),
        r matches Some(w) ==> w >= 1,
{
    match (msb, lsb) {
        (Some(a), Some(b)) => {
            let d: Option<i64> = if a >= b {
                a.checked_sub(b)
            } else {
                b.checked_sub(a)
            };
            match d {
                Some(x) => x.checked_add(1),
                None => None,
            }
        },
        _ => None,
    }
}

/// The width of a range does not depend on the order of its bounds.
pub proof fn lemma_width_order_independent(msb: Option<i64>, lsb: Option<i64>)
    ensures
        width_of_bounds(msb, lsb) == width_of_bounds(lsb, msb),
        msb is Some && lsb is Some ==> range_width(msb->0 as int, lsb->0 as int) == range_width(
            lsb->0 as int,
            msb->0 as int,
        ),
{
}

/// A range whose bounds evaluate to `n - 1` and `0`, with `n` positive,
/// has the width `n`, in either order of the bounds.
pub proof fn lemma_width_of_counted_range(n: i64)
    requires
        n >= 1,
    ensures
        width_of_bounds(Some((n - 1) as i64), Some(0i64)) == Some(n),
        width_of_bounds(Some(0i64), Some((n - 1) as i64)) == Some(n),
{
}

/// Two ranges that have the same two bounds in opposite order have the
/// same width over the same macro table.
pub proof fn lemma_swapped_range_same_width(
    first: Seq<char>,
    second: Seq<char>,
    msb: Seq<char>,
    lsb: Seq<char>,
    defines: Seq<DefineView>,
)
    requires
        range_bounds(first) == Some((msb, lsb)),
        range_bounds(second) == Some((lsb, msb)),
    ensures
        packed_range_width(first, defines) == packed_range_width(second, defines),
{
    lemma_width_order_independent(value_of(msb, defines), value_of(lsb, defines));
}

/// The first index at or after `from`, below `to`, that holds `c`; `to`
/// if there is none.
pub open spec fn first_index(s: Seq<char>, c: char, from: int, to: int) -> int
    decreases to - from,
{
    if from >= to {
        to
    } else if s[from] == c {
        from
    } else {
        first_index(s, c, from + 1, to)
    }
}

/// The two bounds of a range written `[msb:lsb]`, as texts: `expr` is
/// trimmed; it must begin with `[` and end with `]`; what stands between
/// is cut at its first colon, and both parts are trimmed. A text of
/// another form, such as the single index `[n]`, has no bounds.
pub open spec fn range_bounds(expr: Seq<char>) -> Option<(Seq<char>, Seq<char>)> {
    let b = trim_start_index(expr, 0, expr.len() as int);
    let e = trim_end_index(expr, b, expr.len() as int);
    if e - b >= 2 && expr[b] == '[' && expr[e - 1] == ']' {
        let c = first_index(expr, ':', b + 1, e - 1);
        if c < e - 1 {
            Some((trimmed_range(expr, b + 1, c), trimmed_range(expr, c + 1, e - 1)))
        } else {
            None
        }
    } else {
        None
    }
}

proof fn lemma_first_index_found(s: Seq<char>, c: char, from: int, to: int, k: int)
    requires
        0 <= from <= k < to <= s.len(),
        s[k] == c,
        forall|i: int| from <= i < k ==> s[i] != c,
    ensures
        first_index(s, c, from, to) == k,
    decreases k - from,
{
    if from < k {
        lemma_first_index_found(s, c, from + 1, to, k);
    }
}

/// The text `[msb:lsb]` has the two bounds `msb` and `lsb`, each without
/// the white space around it, whatever the two texts are, as long as
/// `msb` holds no colon.
pub proof fn lemma_bounds_of_bracketed_pair(msb: Seq<char>, lsb: Seq<char>)
    requires
        !msb.contains(':'),
    ensures
        range_bounds(seq!['['] + msb + seq![':'] + lsb + seq![']']) == Some(
            (trimmed(msb), trimmed(lsb)),
        ),
{
    let expr = seq!['['] + msb + seq![':'] + lsb + seq![']'];
    let n = expr.len() as int;
    let c = 1 + msb.len() as int;
    assert(n == msb.len() + lsb.len() + 3);
    assert(expr[0] == '[');
    assert(expr[n - 1] == ']');
    assert(expr[c] == ':');
    assert(!is_white_space('['));
    assert(!is_white_space(']'));
    assert(trim_start_index(expr, 0, n) == 0);
    assert(trim_end_index(expr, 0, n) == n);
    assert forall|i: int| 1 <= i < c implies expr[i] != ':' by {
        assert(expr[i] == msb[i - 1]);
        assert(msb.contains(msb[i - 1]));
    }
    lemma_first_index_found(expr, ':', 1, n - 1, c);
    lemma_trimmed_part(expr, 1, c);
    lemma_trimmed_part(expr, c + 1, n - 1);
    assert(expr.subrange(1, c) == msb);
    assert(expr.subrange(c + 1, n - 1) == lsb);
}

/// The width in bits of the range `expr` over the macro table: the width
/// of its two evaluated bounds; nothing where `expr` is no range of two
/// bounds.
pub open spec fn packed_range_width(expr: Seq<char>, defines: Seq<DefineView>) -> Option<i64> {
    match range_bounds(expr) {
        Some(bounds) => width_of_bounds(value_of(bounds.0, defines), value_of(bounds.1, defines)),
        None => None,
    }
}

/// Cuts the text of a range `[msb:lsb]` into its two bounds.
pub fn split_range(expr: &str) -> (r: Option<(String, String)>)
    ensures
        match r {
            Some(p) => range_bounds(expr@) == Some((p.0@, p.1@)),
            None => range_bounds(expr@) is None,
        },
{
    let s = chars_of(expr);
    let (b, e) = trim_range(&s, 0, s.len());
    if e - b < 2 || s[b] != '[' || s[e - 1] != ']' {
        return None;
    }
    let mut c: usize = b + 1;
    while c < e - 1 && s[c] != ':'
        invariant
            b + 1 <= c <= e - 1,
            e <= s.len(),
            first_index(s@, ':', b + 1, e - 1) == first_index(s@, ':', c as int, e - 1),
        decreases e - c,
    {
        c = c + 1;
    }
    if c >= e - 1 {
        return None;
    }
    let (lb, le) = trim_range(&s, b + 1, c);
    let (rb, re) = trim_range(&s, c + 1, e - 1);
    Some((string_of_range(&s, lb, le), string_of_range(&s, rb, re)))
}

/// The width in bits of a packed range `[msb:lsb]`: both bounds are
/// evaluated over the macro table, and the width is the distance between
/// them plus one. Returns `None` for a text of another form, and where a
/// bound has no value.
pub fn compute_packed_range_width_bits(expr: &str, defines: &Vec<Define>) -> (r: Option<i64>)
    ensures
        r == packed_range_width(expr@, define_views(defines@)),
        r matches Some(w) ==> w >= 1,
{
    match split_range(expr) {
        None => None,
        Some(bounds) => {
            let scope = build_scope(defines);
            let left = preprocess_for_rhai(bounds.0.as_str());
            let right = preprocess_for_rhai(bounds.1.as_str());
            let msb = evaluate(&scope.0, &scope.1, left.as_str());
            let lsb = evaluate(&scope.0, &scope.1, right.as_str());
            width_from_bounds(msb, lsb)
        },
    }
}

} // verus!
