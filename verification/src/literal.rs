//! Sized numeric literals such as `8'hFF`: their value, and the rewriting
//! of a text that holds them into plain decimal numerals.

use crate::hdl_info::option_view;
use crate::text::{chars_of, decimal_string, decimal_text};
use vstd::prelude::*;

verus! {

/// What stands in place of a literal that has no value.
pub open spec fn unknown_text() -> Seq<char> {
    "unknown"@
}

/// The largest value that a literal may have.
pub open spec fn max_value() -> int {
    0x7fff_ffff_ffff_ffff
}

/// The radix that a base letter stands for, in either case: `h` for 16,
/// `b` for 2, `o` for 8, `d` and `s` for 10.
pub open spec fn radix_of(base: Seq<char>) -> Option<int> {
    if base.len() != 1 {
        None
    } else if base[0] == 'h' || base[0] == 'H' {
        Some(16)
    } else if base[0] == 'b' || base[0] == 'B' {
        Some(2)
    } else if base[0] == 'o' || base[0] == 'O' {
        Some(8)
    } else if base[0] == 'd' || base[0] == 'D' || base[0] == 's' || base[0] == 'S' {
        Some(10)
    } else {
        None
    }
}

/// The value of a digit: 0 to 9 for `0` to `9`, 10 to 15 for `a` to `f` in
/// either case, and 16 for every other character, which is a digit of no
/// radix.
pub open spec fn digit_value(c: char) -> int {
    if '0' <= c <= '9' {
        c as int - '0' as int
    } else if 'a' <= c <= 'f' {
        c as int - 'a' as int + 10
    } else if 'A' <= c <= 'F' {
        c as int - 'A' as int + 10
    } else {
        16
    }
}

/// The text without its underscores.
pub open spec fn without_separators(s: Seq<char>) -> Seq<char>
    decreases s.len(),
{
    if s.len() == 0 {
        s
    } else if s.last() == '_' {
        without_separators(s.drop_last())
    } else {
        without_separators(s.drop_last()).push(s.last())
    }
}

/// Whether every character is a digit of the radix.
pub open spec fn all_digits(s: Seq<char>, radix: int) -> bool {
    forall|i: int| 0 <= i < s.len() ==> digit_value(#[trigger] s[i]) < radix
}

/// The number that the digits write in the radix, most significant first.
pub open spec fn positional_value(s: Seq<char>, radix: int) -> int
    decreases s.len(),
{
    if s.len() == 0 {
        0
    } else {
        positional_value(s.drop_last(), radix) * radix + digit_value(s.last())
    }
}

/// The value of the sized literal with the given base letter and digits:
/// the digits, underscores left out, read in the radix of the base. There
/// is none where the base is no base letter, where no digit is left, where
/// a character is no digit of the radix (a don't-care digit is none), or
/// where the number is above [`max_value`].
pub open spec fn literal_value(base: Seq<char>, digits: Seq<char>) -> Option<int> {
    match radix_of(base) {
        None => None,
        Some(radix) => {
            let d = without_separators(digits);
            if d.len() > 0 && all_digits(d, radix) && positional_value(d, radix) <= max_value() {
                Some(positional_value(d, radix))
            } else {
                None
            }
        },
    }
}

/// The text that replaces a sized literal: its value as a decimal numeral,
/// or [`unknown_text`] where it has none.
pub open spec fn literal_text(base: Seq<char>, digits: Seq<char>) -> Seq<char> {
    match literal_value(base, digits) {
        Some(v) => decimal_text(v as nat),
        None => unknown_text(),
    }
}

proof fn lemma_separators_keep(s: Seq<char>, i: int)
    requires
        0 <= i < s.len(),
        s[i] != '_',
    ensures
        without_separators(s).contains(s[i]),
    decreases s.len(),
{
    let rest = without_separators(s.drop_last());
    if i == s.len() - 1 {
        assert(rest.push(s.last())[rest.len() as int] == s[i]);
    } else {
        lemma_separators_keep(s.drop_last(), i);
        let k = choose|k: int| 0 <= k < rest.len() && rest[k] == s[i];
        if s.last() != '_' {
            assert(rest.push(s.last())[k] == s[i]);
        }
    }
}

/// A literal that holds a character which is neither an underscore nor a
/// digit of its radix, such as a don't-care digit, has no value, and its
/// text is [`unknown_text`].
pub proof fn lemma_foreign_digit_has_no_value(base: Seq<char>, digits: Seq<char>, i: int)
    requires
        0 <= i < digits.len(),
        digits[i] != '_',
        radix_of(base) matches Some(radix) ==> digit_value(digits[i]) >= radix,
    ensures
        literal_value(base, digits) is None,
        literal_text(base, digits) == unknown_text(),
{
    if radix_of(base) is Some {
        lemma_separators_keep(digits, i);
        let d = without_separators(digits);
        let k = choose|k: int| 0 <= k < d.len() && d[k] == digits[i];
        assert(digit_value(d[k]) >= radix_of(base)->0);
    }
}

proof fn lemma_value_nonnegative(s: Seq<char>, radix: int)
    requires
        radix >= 1,
    ensures
        positional_value(s, radix) >= 0,
    decreases s.len(),
{
    if s.len() > 0 {
        lemma_value_nonnegative(s.drop_last(), radix);
        let v = positional_value(s.drop_last(), radix);
        assert(v * radix >= 0) by (nonlinear_arith)
            requires
                v >= 0,
                radix >= 1,
        ;
    }
}

proof fn lemma_prefix_value(s: Seq<char>, radix: int, k: int)
    requires
        radix >= 1,
        0 <= k <= s.len(),
    ensures
        positional_value(s.take(k), radix) <= positional_value(s, radix),
    decreases s.len(),
{
    if k == s.len() {
        assert(s.take(k) == s);
    } else {
        lemma_prefix_value(s.drop_last(), radix, k);
        assert(s.drop_last().take(k) == s.take(k));
        lemma_value_nonnegative(s.drop_last(), radix);
        let v = positional_value(s.drop_last(), radix);
        assert(v * radix >= v) by (nonlinear_arith)
            requires
                v >= 0,
                radix >= 1,
        ;
    }
}

fn radix(base: &str) -> (r: Option<u64>)
    ensures
        match r {
            Some(x) => radix_of(base@) == Some(x as int) && 2 <= x <= 16,
            None => radix_of(base@) is None,
        },
{
    let b = chars_of(base);
    if b.len() != 1 {
        return None;
    }
    let c: char = b[0];
    if c == 'h' || c == 'H' {
        Some(16)
    } else if c == 'b' || c == 'B' {
        Some(2)
    } else if c == 'o' || c == 'O' {
        Some(8)
    } else if c == 'd' || c == 'D' || c == 's' || c == 'S' {
        Some(10)
    } else {
        None
    }
}

fn digit(c: char) -> (d: u64)
    ensures
        d == digit_value(c),
        d <= 16,
{
    let u: u32 = c as u32;
    if '0' <= c && c <= '9' {
        (u - 0x30) as u64
    } else if 'a' <= c && c <= 'f' {
        (u - 0x61 + 10) as u64
    } else if 'A' <= c && c <= 'F' {
        (u - 0x41 + 10) as u64
    } else {
        16
    }
}

fn strip_separators(s: &Vec<char>) -> (out: Vec<char>)
    ensures
        out@ == without_separators(s@),
{
    let mut out: Vec<char> = Vec::new();
    let mut i: usize = 0;
    assert(s@.take(0) == Seq::<char>::empty());
    while i < s.len()
        invariant
            i <= s.len(),
            out@ == without_separators(s@.take(i as int)),
        decreases s.len() - i,
    {
        assert(s@.take(i + 1).drop_last() == s@.take(i as int));
        if s[i] != '_' {
            out.push(s[i]);
        }
        i = i + 1;
    }
    assert(s@.take(s.len() as int) == s@);
    out
}

/// The value of the sized literal with the given base letter and digits.
pub fn sized_literal_value(base: &str, digits: &str) -> (r: Option<u64>)
    ensures
        match r {
            Some(v) => literal_value(base@, digits@) == Some(v as int),
            None => literal_value(base@, digits@) is None,
        },
{
    let rx: u64 = match radix(base) {
        Some(x) => x,
        None => {
            return None;
        },
    };
    let raw = chars_of(digits);
    let d = strip_separators(&raw);
    if d.len() == 0 {
        return None;
    }
    let mut acc: u64 = 0;
    let mut i: usize = 0;
    assert(d@.take(0) == Seq::<char>::empty());
    while i < d.len()
        invariant
            i <= d.len(),
            2 <= rx <= 16,
            radix_of(base@) == Some(rx as int),
            d@ == without_separators(digits@),
            d.len() > 0,
            acc <= max_value(),
            acc == positional_value(d@.take(i as int), rx as int),
            all_digits(d@.take(i as int), rx as int),
        decreases d.len() - i,
    {
        let v: u64 = digit(d[i]);
        assert(d@.take(i + 1).drop_last() == d@.take(i as int));
        assert(d@.take(i + 1).last() == d@[i as int]);
        if v >= rx {
            assert(digit_value(d@[i as int]) >= rx);
            return None;
        }
        assert(acc * rx <= 0x7fff_ffff_ffff_ffff * 16) by (nonlinear_arith)
            requires
                acc <= 0x7fff_ffff_ffff_ffff,
                rx <= 16,
        ;
        let next: u128 = acc as u128 * rx as u128 + v as u128;
        if next > 0x7fff_ffff_ffff_ffff {
            proof {
                lemma_prefix_value(d@, rx as int, i + 1);
                assert(positional_value(d@.take(i + 1), rx as int) == acc * rx + v);
            }
            return None;
        }
        assert forall|j: int| 0 <= j < i + 1 implies digit_value(#[trigger] d@.take(i + 1)[j])
            < rx by {
            if j < i {
                assert(d@.take(i + 1)[j] == d@.take(i as int)[j]);
            }
        }
        acc = next as u64;
        i = i + 1;
    }
    assert(d@.take(d.len() as int) == d@);
    Some(acc)
}

/// The text that replaces the sized literal with the given base letter
/// and digits.
pub fn sized_literal_text(base: &str, digits: &str) -> (out: String)
    ensures
        out@ == literal_text(base@, digits@),
{
    match sized_literal_value(base, digits) {
        Some(v) => decimal_string(v),
        None => "unknown".to_owned(),
    }
}

// ---------------------------------------------------------------------------
// Rewriting a text

/// The pattern of a sized literal, in the syntax of the `regex` crate: an
/// optional size in decimal digits, an apostrophe, a base letter, and one
/// or more digits, underscores or don't-care letters. Letters match in
/// either case. The base letter is the second group, the digits are the
/// third.
pub const SIZED_LITERAL: &'static str = "(?i)(\\d+)?'([sdhbo])([0-9a-f_xz]+)";

/// The text that `regex::Regex::replace_all` returns for the expression
/// compiled from `pattern` and the haystack `text`, when each match is
/// replaced by [`literal_text`] of what its second and third groups hold
/// (a group that took no part counts as empty); `None` where
/// `regex::Regex::new` does not accept the pattern.
pub uninterp spec fn rewritten(pattern: Seq<char>, text: Seq<char>) -> Option<Seq<char>>;

/// Compiles `pattern` with `regex::Regex::new` and replaces every match in
/// `text` with `regex::Regex::replace_all`; the replacement of a match is
/// computed by [`sized_literal_text`] from its second and third groups.
///
/// Trusted: the result is the value that the `regex` crate computes, which
/// depends on the two arguments alone.
#[verifier::external_body]
fn rewrite_literals(pattern: &str, text: &str) -> (out: Option<String>)
    ensures
        option_view(out) == rewritten(pattern@, text@),
{
    let re = regex::Regex::new(pattern).ok()?;
    let group = |c: &regex::Captures, i: usize| c.get(i).map_or("", |m| m.as_str()).to_owned();
    let value = |c: &regex::Captures| sized_literal_text(&group(c, 2), &group(c, 3));
    Some(re.replace_all(text, value).into_owned())
}

/// The text with every sized literal replaced by its value in decimal, or
/// by [`unknown_text`] where it has none. Were the pattern not accepted,
/// the text would stay as it is.
pub open spec fn normalized(text: Seq<char>) -> Seq<char> {
    match rewritten(SIZED_LITERAL@, text) {
        Some(s) => s,
        None => text,
    }
}

/// Replaces every sized literal in `lit` by its value in decimal, or by
/// `unknown` where it has none. All other text stays as it is.
pub fn parse_sv_number(lit: &str) -> (out: String)
    ensures
        out@ == normalized(lit@),
{
    match rewrite_literals(SIZED_LITERAL, lit) {
        Some(s) => s,
        None => lit.to_owned(),
    }
}

} // verus!
