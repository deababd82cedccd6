//! Character-level helpers shared by the other modules: conversion between
//! strings and character vectors, decimal rendering, trimming, substring
//! replacement, line splitting and joining.
//!
//! Every contract is stated over `Seq<char>`, the view of a string.

use vstd::prelude::*;

verus! {

/// Appends one character to a string.
///
/// Trusted: `String::push` is documented to append the given character to
/// the end of the string.
#[verifier::external_body]
pub(crate) fn push_char(s: &mut String, c: char)
    ensures
        final(s)@ == old(s)@.push(c),
{
    s.push(c)
}

/// The characters of a string, in order.
pub fn chars_of(s: &str) -> (out: Vec<char>)
    ensures
        out@ == s@,
{
    let mut out: Vec<char> = Vec::new();
    for c in it: s.chars()
        invariant
            it.seq() == s@,
            out@ == s@.subrange(0, it.index() as int),
    {
        out.push(c);
    }
    out
}

/// Appends the characters `chars[from..to]` to `out`.
pub fn append_range(out: &mut String, chars: &Vec<char>, from: usize, to: usize)
    requires
        from <= to <= chars.len(),
    ensures
        final(out)@ == old(out)@ + chars@.subrange(from as int, to as int),
{
    let mut i: usize = from;
    while i < to
        invariant
            from <= i <= to <= chars.len(),
            out@ == old(out)@ + chars@.subrange(from as int, i as int),
        decreases to - i,
    {
        push_char(out, chars[i]);
        i = i + 1;
    }
}

/// The string made of the characters `chars[from..to]`.
pub fn string_of_range(chars: &Vec<char>, from: usize, to: usize) -> (out: String)
    requires
        from <= to <= chars.len(),
    ensures
        out@ == chars@.subrange(from as int, to as int),
{
    let mut out = String::new();
    append_range(&mut out, chars, from, to);
    out
}

/// The string made of all the characters of `chars`.
pub fn string_of(chars: &Vec<char>) -> (out: String)
    ensures
        out@ == chars@,
{
    let out = string_of_range(chars, 0, chars.len());
    assert(chars@.subrange(0, chars@.len() as int) == chars@);
    out
}

// ---------------------------------------------------------------------------
// Decimal rendering

/// The character that writes the digit `d`; `'0'` where `d` is no digit.
pub open spec fn digit_char(d: int) -> char {
    if d == 1 {
        '1'
    } else if d == 2 {
        '2'
    } else if d == 3 {
        '3'
    } else if d == 4 {
        '4'
    } else if d == 5 {
        '5'
    } else if d == 6 {
        '6'
    } else if d == 7 {
        '7'
    } else if d == 8 {
        '8'
    } else if d == 9 {
        '9'
    } else {
        '0'
    }
}

/// The base-10 numeral of `n`, most significant digit first, without
/// leading zeros (`0` is written `"0"`).
pub open spec fn decimal_text(n: nat) -> Seq<char>
    decreases n,
{
    if n < 10 {
        seq![digit_char(n as int)]
    } else {
        decimal_text(n / 10).push(digit_char((n % 10) as int))
    }
}

fn digit_to_char(d: u64) -> (c: char)
    requires
        d < 10,
    ensures
        c == digit_char(d as int),
{
    if d == 1 {
        '1'
    } else if d == 2 {
        '2'
    } else if d == 3 {
        '3'
    } else if d == 4 {
        '4'
    } else if d == 5 {
        '5'
    } else if d == 6 {
        '6'
    } else if d == 7 {
        '7'
    } else if d == 8 {
        '8'
    } else if d == 9 {
        '9'
    } else {
        '0'
    }
}

/// Appends the base-10 numeral of `n` to `out`.
pub fn append_decimal(out: &mut String, n: u64)
    ensures
        final(out)@ == old(out)@ + decimal_text(n as nat),
    decreases n,
{
    if n < 10 {
        push_char(out, digit_to_char(n));
        assert(out@ == old(out)@ + seq![digit_char(n as int)]);
    } else {
        append_decimal(out, n / 10);
        push_char(out, digit_to_char(n % 10));
        assert(out@ == old(out)@ + decimal_text((n / 10) as nat).push(
            digit_char((n % 10) as int),
        ));
    }
}

/// The base-10 numeral of `n` as a string.
pub fn decimal_string(n: u64) -> (out: String)
    ensures
        out@ == decimal_text(n as nat),
{
    let mut out = String::new();
    append_decimal(&mut out, n);
    assert(Seq::<char>::empty() + decimal_text(n as nat) == decimal_text(n as nat));
    out
}

// ---------------------------------------------------------------------------
// White space and trimming

/// The code points with the Unicode property `White_Space`.
pub open spec fn is_white_space(c: char) -> bool {
    let u = c as u32;
    ||| 0x09 <= u <= 0x0D
    ||| u == 0x20
    ||| u == 0x85
    ||| u == 0xA0
    ||| u == 0x1680
    ||| 0x2000 <= u <= 0x200A
    ||| u == 0x2028
    ||| u == 0x2029
    ||| u == 0x202F
    ||| u == 0x205F
    ||| u == 0x3000
}

/// Tests a character for the property `White_Space`.
pub fn white_space(c: char) -> (r: bool)
    ensures
        r == is_white_space(c),
{
    let u: u32 = c as u32;
    (0x09 <= u && u <= 0x0D) || u == 0x20 || u == 0x85 || u == 0xA0 || u == 0x1680 || (0x2000 <= u
        && u <= 0x200A) || u == 0x2028 || u == 0x2029 || u == 0x202F || u == 0x205F || u == 0x3000
}

/// The first index at or after `from`, below `to`, whose character is not
/// white space; `to` if there is none.
pub open spec fn trim_start_index(s: Seq<char>, from: int, to: int) -> int
    decreases to - from,
{
    if from >= to {
        to
    } else if is_white_space(s[from]) {
        trim_start_index(s, from + 1, to)
    } else {
        from
    }
}

/// The least index `e >= from` such that `s[e..to]` is all white space.
pub open spec fn trim_end_index(s: Seq<char>, from: int, to: int) -> int
    decreases to - from,
{
    if from >= to {
        from
    } else if is_white_space(s[to - 1]) {
        trim_end_index(s, from, to - 1)
    } else {
        to
    }
}

/// `s[from..to]` without its leading and trailing white space.
pub open spec fn trimmed_range(s: Seq<char>, from: int, to: int) -> Seq<char> {
    let b = trim_start_index(s, from, to);
    s.subrange(b, trim_end_index(s, b, to))
}

/// `s` without its leading and trailing white space.
pub open spec fn trimmed(s: Seq<char>) -> Seq<char> {
    trimmed_range(s, 0, s.len() as int)
}

proof fn lemma_trim_start_shift(s: Seq<char>, t: Seq<char>, k: int, from: int, to: int)
    requires
        0 <= k,
        0 <= from <= to <= t.len(),
        k + t.len() <= s.len(),
        t == s.subrange(k, k + t.len()),
    ensures
        trim_start_index(s, k + from, k + to) == k + trim_start_index(t, from, to),
        from <= trim_start_index(t, from, to) <= to,
    decreases to - from,
{
    if from < to {
        assert(t[from] == s[k + from]);
        if is_white_space(t[from]) {
            lemma_trim_start_shift(s, t, k, from + 1, to);
        }
    }
}

proof fn lemma_trim_end_shift(s: Seq<char>, t: Seq<char>, k: int, from: int, to: int)
    requires
        0 <= k,
        0 <= from <= to <= t.len(),
        k + t.len() <= s.len(),
        t == s.subrange(k, k + t.len()),
    ensures
        trim_end_index(s, k + from, k + to) == k + trim_end_index(t, from, to),
        from <= trim_end_index(t, from, to) <= to,
    decreases to - from,
{
    if from < to {
        assert(t[to - 1] == s[k + to - 1]);
        if is_white_space(t[to - 1]) {
            lemma_trim_end_shift(s, t, k, from, to - 1);
        }
    }
}

/// Trimming a part of a text in place gives the same as trimming the part
/// taken out of the text.
pub proof fn lemma_trimmed_part(s: Seq<char>, from: int, to: int)
    requires
        0 <= from <= to <= s.len(),
    ensures
        trimmed_range(s, from, to) == trimmed(s.subrange(from, to)),
{
    let t = s.subrange(from, to);
    assert(t == s.subrange(from, from + t.len()));
    lemma_trim_start_shift(s, t, from, 0, t.len() as int);
    let b = trim_start_index(t, 0, t.len() as int);
    lemma_trim_end_shift(s, t, from, b, t.len() as int);
    let e = trim_end_index(t, b, t.len() as int);
    assert(s.subrange(from + b, from + e) == t.subrange(b, e));
}

/// The bounds `(b, e)` of `chars[from..to]` without its leading and
/// trailing white space.
pub fn trim_range(chars: &Vec<char>, from: usize, to: usize) -> (r: (usize, usize))
    requires
        from <= to <= chars.len(),
    ensures
        from <= r.0 <= r.1 <= to,
        r.0 == trim_start_index(chars@, from as int, to as int),
        r.1 == trim_end_index(chars@, r.0 as int, to as int),
        chars@.subrange(r.0 as int, r.1 as int) == trimmed_range(chars@, from as int, to as int),
{
    let mut b: usize = from;
    while b < to && white_space(chars[b])
        invariant
            from <= b <= to <= chars.len(),
            trim_start_index(chars@, from as int, to as int) == trim_start_index(
                chars@,
                b as int,
                to as int,
            ),
        decreases to - b,
    {
        b = b + 1;
    }
    let mut e: usize = to;
    while e > b && white_space(chars[e - 1])
        invariant
            b <= e <= to <= chars.len(),
            trim_end_index(chars@, b as int, to as int) == trim_end_index(
                chars@,
                b as int,
                e as int,
            ),
        decreases e - b,
    {
        e = e - 1;
    }
    (b, e)
}

// ---------------------------------------------------------------------------
// Substring replacement

/// Whether `pattern` occurs in `s` at index `i`.
pub open spec fn occurs_at(s: Seq<char>, pattern: Seq<char>, i: int) -> bool {
    &&& 0 <= i
    &&& i + pattern.len() <= s.len()
    &&& s.subrange(i, i + pattern.len()) == pattern
}

/// `s[i..]` with every occurrence of `pattern` replaced by `with`, the
/// occurrences taken from left to right and never overlapping.
pub open spec fn replaced_from(s: Seq<char>, pattern: Seq<char>, with: Seq<char>, i: int) -> Seq<
    char,
>
    decreases s.len() - i,
{
    if i < 0 || i >= s.len() || pattern.len() == 0 {
        if 0 <= i <= s.len() {
            s.subrange(i, s.len() as int)
        } else {
            Seq::empty()
        }
    } else if occurs_at(s, pattern, i) {
        with + replaced_from(s, pattern, with, i + pattern.len())
    } else {
        seq![s[i]] + replaced_from(s, pattern, with, i + 1)
    }
}

/// `s` with every occurrence of `pattern` replaced by `with`, the
/// occurrences taken from left to right and never overlapping. An empty
/// pattern occurs nowhere.
pub open spec fn replaced(s: Seq<char>, pattern: Seq<char>, with: Seq<char>) -> Seq<char> {
    replaced_from(s, pattern, with, 0)
}

/// Tests whether `pattern` occurs in `chars` at index `i`.
pub fn occurs(chars: &Vec<char>, pattern: &Vec<char>, i: usize) -> (r: bool)
    requires
        i <= chars.len(),
    ensures
        r == occurs_at(chars@, pattern@, i as int),
{
    let m: usize = pattern.len();
    if m > chars.len() - i {
        return false;
    }
    let mut k: usize = 0;
    while k < m
        invariant
            k <= m,
            m == pattern.len(),
            i + m <= chars.len(),
            chars@.subrange(i as int, i + k) == pattern@.subrange(0, k as int),
        decreases m - k,
    {
        if chars[i + k] != pattern[k] {
            assert(chars@.subrange(i as int, i + m)[k as int] != pattern@[k as int]);
            return false;
        }
        assert(chars@.subrange(i as int, i + k + 1) == chars@.subrange(i as int, i + k).push(
            chars@[i + k],
        ));
        assert(pattern@.subrange(0, k + 1) == pattern@.subrange(0, k as int).push(pattern@[k as int]));
        k = k + 1;
    }
    assert(pattern@.subrange(0, m as int) == pattern@);
    true
}

/// Replaces every occurrence of `pattern` in `chars` by `with`.
pub fn replace_all(chars: &Vec<char>, pattern: &Vec<char>, with: &Vec<char>) -> (out: Vec<char>)
    ensures
        out@ == replaced(chars@, pattern@, with@),
{
    let n: usize = chars.len();
    let m: usize = pattern.len();
    let mut out: Vec<char> = Vec::new();
    let mut i: usize = 0;
    if m == 0 {
        let mut j: usize = 0;
        while j < n
            invariant
                j <= n,
                n == chars.len(),
                out@ == chars@.subrange(0, j as int),
            decreases n - j,
        {
            out.push(chars[j]);
            j = j + 1;
        }
        return out;
    }
    while i < n
        invariant
            i <= n,
            n == chars.len(),
            m == pattern.len(),
            m > 0,
            replaced(chars@, pattern@, with@) == out@ + replaced_from(
                chars@,
                pattern@,
                with@,
                i as int,
            ),
        decreases n - i,
    {
        if occurs(chars, pattern, i) {
            let ghost before = out@;
            let mut k: usize = 0;
            while k < with.len()
                invariant
                    k <= with.len(),
                    out@ == before + with@.subrange(0, k as int),
                decreases with.len() - k,
            {
                out.push(with[k]);
                k = k + 1;
            }
            assert(with@.subrange(0, with@.len() as int) == with@);
            assert(out@ + replaced_from(chars@, pattern@, with@, i + m) == before + (with@
                + replaced_from(chars@, pattern@, with@, i + m)));
            i = i + m;
        } else {
            let ghost before = out@;
            out.push(chars[i]);
            assert(out@ + replaced_from(chars@, pattern@, with@, i + 1) == before + (seq![
                chars@[i as int],
            ] + replaced_from(chars@, pattern@, with@, i + 1)));
            i = i + 1;
        }
    }
    assert(replaced_from(chars@, pattern@, with@, i as int) == Seq::<char>::empty());
    out
}

// ---------------------------------------------------------------------------
// Lines

/// The index of the first line feed at or after `i`; the length of `s` if
/// there is none.
pub open spec fn line_end(s: Seq<char>, i: int) -> int
    decreases s.len() - i,
{
    if i < 0 || i >= s.len() {
        s.len() as int
    } else if s[i] == '\n' {
        i
    } else {
        line_end(s, i + 1)
    }
}

pub proof fn lemma_line_end_bounds(s: Seq<char>, i: int)
    requires
        0 <= i <= s.len(),
    ensures
        i <= line_end(s, i) <= s.len(),
        line_end(s, i) < s.len() ==> s[line_end(s, i)] == '\n',
    decreases s.len() - i,
{
    if i < s.len() && s[i] != '\n' {
        lemma_line_end_bounds(s, i + 1);
    }
}

/// The line that starts at index `i`: the characters up to the next line
/// feed, without the carriage return that may stand before that line feed.
pub open spec fn line_at(s: Seq<char>, i: int) -> Seq<char> {
    let e = line_end(s, i);
    if e < s.len() && i < e && s[e - 1] == '\r' {
        s.subrange(i, e - 1)
    } else {
        s.subrange(i, e)
    }
}

/// The lines of `s` from index `i` on.
pub open spec fn lines_from(s: Seq<char>, i: int) -> Seq<Seq<char>>
    decreases s.len() + 1 - i,
{
    if i < 0 || i >= s.len() {
        Seq::empty()
    } else {
        proof {
            lemma_line_end_bounds(s, i);
        }
        seq![line_at(s, i)] + lines_from(s, line_end(s, i) + 1)
    }
}

/// The lines of `s`. A line ends at a line feed or at a carriage return
/// followed by a line feed; the terminator is not part of the line, and a
/// terminator at the very end opens no further line.
pub open spec fn lines_of(s: Seq<char>) -> Seq<Seq<char>> {
    lines_from(s, 0)
}

/// The views of a sequence of character vectors.
pub open spec fn views_of(v: Seq<Vec<char>>) -> Seq<Seq<char>> {
    Seq::new(v.len(), |i: int| v[i]@)
}

/// Splits `chars` into its lines.
pub fn split_lines(chars: &Vec<char>) -> (out: Vec<Vec<char>>)
    ensures
        views_of(out@) == lines_of(chars@),
{
    let n: usize = chars.len();
    let mut out: Vec<Vec<char>> = Vec::new();
    let mut i: usize = 0;
    assert(views_of(out@) == Seq::<Seq<char>>::empty());
    while i < n
        invariant
            i <= n,
            n == chars.len(),
            lines_of(chars@) == views_of(out@) + lines_from(chars@, i as int),
        decreases n - i,
    {
        let mut e: usize = i;
        while e < n && chars[e] != '\n'
            invariant
                i <= e <= n,
                n == chars.len(),
                line_end(chars@, i as int) == line_end(chars@, e as int),
            decreases n - e,
        {
            e = e + 1;
        }
        let stop: usize = if e < n && i < e && chars[e - 1] == '\r' {
            e - 1
        } else {
            e
        };
        let mut line: Vec<char> = Vec::new();
        let mut k: usize = i;
        while k < stop
            invariant
                i <= k <= stop <= n,
                n == chars.len(),
                line@ == chars@.subrange(i as int, k as int),
            decreases stop - k,
        {
            line.push(chars[k]);
            k = k + 1;
        }
        assert(line@ == line_at(chars@, i as int));
        let ghost before = out@;
        out.push(line);
        assert(views_of(out@) == views_of(before).push(line_at(chars@, i as int)));
        assert(views_of(out@) + lines_from(chars@, e + 1) == views_of(before) + (seq![
            line_at(chars@, i as int),
        ] + lines_from(chars@, e + 1)));
        if e < n {
            i = e + 1;
        } else {
            i = n;
        }
    }
    assert(lines_from(chars@, i as int) == Seq::<Seq<char>>::empty());
    out
}

/// The parts written one after another with `sep` between each two.
pub open spec fn joined(parts: Seq<Seq<char>>, sep: Seq<char>) -> Seq<char>
    decreases parts.len(),
{
    if parts.len() == 0 {
        Seq::empty()
    } else if parts.len() == 1 {
        parts[0]
    } else {
        joined(parts.drop_last(), sep) + sep + parts.last()
    }
}

/// `n` spaces.
pub open spec fn padding(n: nat) -> Seq<char> {
    Seq::new(n, |i: int| ' ')
}

/// A line moved right by `width` spaces; an empty line stays empty.
pub open spec fn indented_line(line: Seq<char>, width: nat) -> Seq<char> {
    if line.len() == 0 {
        line
    } else {
        padding(width) + line
    }
}

/// Each of the lines moved right by `width` spaces.
pub open spec fn indented_lines(lines: Seq<Seq<char>>, width: nat) -> Seq<Seq<char>> {
    Seq::new(lines.len(), |i: int| indented_line(lines[i], width))
}

/// The text with every non-empty line moved right by `width` spaces and
/// the lines joined by single line feeds.
pub open spec fn indented(s: Seq<char>, width: nat) -> Seq<char> {
    joined(indented_lines(lines_of(s), width), seq!['\n'])
}

/// Appends `n` spaces to `out`.
pub fn append_padding(out: &mut String, n: usize)
    ensures
        final(out)@ == old(out)@ + padding(n as nat),
{
    let mut j: usize = 0;
    assert(out@ == old(out)@ + padding(0));
    while j < n
        invariant
            j <= n,
            out@ == old(out)@ + padding(j as nat),
        decreases n - j,
    {
        push_char(out, ' ');
        assert(padding((j + 1) as nat) == padding(j as nat).push(' '));
        j = j + 1;
    }
}

/// Moves every non-empty line of `text` right by `indent_size` spaces and
/// joins the lines by single line feeds.
pub fn indent_block(text: &str, indent_size: usize) -> (out: String)
    ensures
        out@ == indented(text@, indent_size as nat),
{
    let chars = chars_of(text);
    let lines = split_lines(&chars);
    let ghost parts = indented_lines(lines_of(text@), indent_size as nat);
    let ghost nl = seq!['\n'];
    let mut out = String::new();
    let mut k: usize = 0;
    assert(parts.take(0) == Seq::<Seq<char>>::empty());
    while k < lines.len()
        invariant
            k <= lines.len(),
            views_of(lines@) == lines_of(text@),
            parts == indented_lines(lines_of(text@), indent_size as nat),
            nl == seq!['\n'],
            out@ == joined(parts.take(k as int), nl),
        decreases lines.len() - k,
    {
        let ghost before = out@;
        if k > 0 {
            push_char(&mut out, '\n');
        }
        let line = &lines[k];
        assert(line@ == views_of(lines@)[k as int]);
        if line.len() > 0 {
            append_padding(&mut out, indent_size);
            append_range(&mut out, line, 0, line.len());
            assert(line@.subrange(0, line@.len() as int) == line@);
        }
        proof {
            let next = parts.take(k + 1);
            assert(next.drop_last() == parts.take(k as int));
            assert(next.last() == indented_line(line@, indent_size as nat));
            if k > 0 {
                assert(before + nl == before.push('\n'));
                assert(out@ == before + nl + next.last());
            } else {
                assert(out@ == next.last());
            }
        }
        k = k + 1;
    }
    assert(parts.take(lines.len() as int) == parts);
    out
}

} // verus!
