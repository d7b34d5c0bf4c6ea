//! Character-level helpers shared by the analysis and the code generator:
//! decimal formatting and parsing of `u64`, string comparison, substring
//! search and joining.

use vstd::prelude::*;
use vstd::string::*;

verus! {

/// The character of a decimal digit.
pub open spec fn digit_char(d: nat) -> char
    recommends
        d < 10,
{
    if d == 0 { '0' }
    else if d == 1 { '1' }
    else if d == 2 { '2' }
    else if d == 3 { '3' }
    else if d == 4 { '4' }
    else if d == 5 { '5' }
    else if d == 6 { '6' }
    else if d == 7 { '7' }
    else if d == 8 { '8' }
    else { '9' }
}

/// The decimal representation of `n`, without sign or leading zeros.
pub open spec fn decimal(n: nat) -> Seq<char>
    decreases n,
{
    if n < 10 {
        seq![digit_char(n)]
    } else {
        decimal(n / 10).push(digit_char(n % 10))
    }
}

/// Formats `n` in decimal, as `format!("{}", n)` does.
pub fn u64_to_decimal(n: u64) -> (s: String)
    ensures
        s@ == decimal(n as nat),
    decreases n,
{
    let digits = "0123456789";
    proof {
        reveal_strlit("0123456789");
    }
    let d: usize = (n % 10) as usize;
    let last = digits.substring_char(d, d + 1);
    assert(last@ =~= seq![digit_char(d as nat)]);
    if n < 10 {
        String::from_str(last)
    } else {
        let mut s = u64_to_decimal(n / 10);
        s.append(last);
        s
    }
}


/// Why a text is not the decimal form of a `u64`; the kinds that `str::parse::<u64>` reports.
#[derive(Debug, Clone, Copy, PartialEq, Eq, Structural)]
pub enum IntErrorKind {
    /// The text is empty.
    Empty,
    /// The text holds a character that is not a decimal digit (a lone sign counts as one).
    InvalidDigit,
    /// The value is larger than `u64::MAX`.
    PosOverflow,
}

pub open spec fn is_decimal_digit(c: char) -> bool {
    '0' <= c && c <= '9'
}

pub open spec fn digit_value(c: char) -> nat {
    ((c as int) - ('0' as int)) as nat
}

/// Reads the first `n` characters of `digits` from left to right, as the
/// standard library does: a non-digit is reported where it stands, and a
/// value that leaves the range of `u64` is reported at the digit that makes it do so.
pub open spec fn accumulate_digits(digits: Seq<char>, n: nat) -> Result<u64, IntErrorKind>
    recommends
        n <= digits.len(),
    decreases n,
{
    if n == 0 {
        Ok(0)
    } else {
        match accumulate_digits(digits, (n - 1) as nat) {
            Err(e) => Err(e),
            Ok(acc) => {
                let c = digits[n - 1];
                if !is_decimal_digit(c) {
                    Err(IntErrorKind::InvalidDigit)
                } else if acc * 10 + digit_value(c) > u64::MAX {
                    Err(IntErrorKind::PosOverflow)
                } else {
                    Ok((acc * 10 + digit_value(c)) as u64)
                }
            },
        }
    }
}

/// What `str::parse::<u64>` gives for a text: an optional leading `+`
/// followed by at least one decimal digit.
pub open spec fn spec_parse_u64(s: Seq<char>) -> Result<u64, IntErrorKind> {
    if s.len() == 0 {
        Err(IntErrorKind::Empty)
    } else if s.len() == 1 && (s[0] == '+' || s[0] == '-') {
        Err(IntErrorKind::InvalidDigit)
    } else if s[0] == '+' {
        accumulate_digits(s.drop_first(), (s.len() - 1) as nat)
    } else {
        accumulate_digits(s, s.len())
    }
}

/// Reads the digits of `s` from character `start` to the end.
fn accumulate_from(s: &str, start: usize) -> (r: Result<u64, IntErrorKind>)
    requires
        start <= 1,
        start <= s@.len(),
    ensures
        r == accumulate_digits(s@.subrange(start as int, s@.len() as int), (s@.len() - start) as nat),
{
    let n = s.unicode_len();
    let ghost digits = s@.subrange(start as int, s@.len() as int);
    let mut acc: u64 = 0;
    let mut i: usize = start;
    while i < n
        invariant
            n == s@.len(),
            start <= i <= n,
            digits == s@.subrange(start as int, s@.len() as int),
            accumulate_digits(digits, (i - start) as nat) == Ok::<u64, IntErrorKind>(acc),
        decreases n - i,
    {
        let c = s.get_char(i);
        assert(digits[(i - start) as int] == c);
        if !('0' <= c && c <= '9') {
            assert(accumulate_digits(digits, (i + 1 - start) as nat) == Err::<u64, IntErrorKind>(IntErrorKind::InvalidDigit));
            proof { lemma_accumulate_error_sticks(digits, (i + 1 - start) as nat, digits.len()); }
            return Err(IntErrorKind::InvalidDigit);
        }
        let d: u64 = ((c as u32) - ('0' as u32)) as u64;
        assert(d == digit_value(c));
        let next = match acc.checked_mul(10) {
            Some(m) => m.checked_add(d),
            None => None,
        };
        match next {
            Some(v) => {
                acc = v;
                i = i + 1;
            },
            None => {
                assert(accumulate_digits(digits, (i + 1 - start) as nat) == Err::<u64, IntErrorKind>(IntErrorKind::PosOverflow));
                proof { lemma_accumulate_error_sticks(digits, (i + 1 - start) as nat, digits.len()); }
                return Err(IntErrorKind::PosOverflow);
            },
        }
    }
    Ok(acc)
}

/// Once reading the digits has failed, reading further digits fails the same way.
pub proof fn lemma_accumulate_error_sticks(digits: Seq<char>, n: nat, m: nat)
    requires
        n <= m,
        accumulate_digits(digits, n) is Err,
    ensures
        accumulate_digits(digits, m) == accumulate_digits(digits, n),
    decreases m - n,
{
    if n < m {
        lemma_accumulate_error_sticks(digits, n, (m - 1) as nat);
    }
}

/// Parses a `u64` from decimal text, as `str::parse::<u64>` does.
pub fn parse_u64(s: &str) -> (r: Result<u64, IntErrorKind>)
    ensures
        r == spec_parse_u64(s@),
{
    let n = s.unicode_len();
    if n == 0 {
        return Err(IntErrorKind::Empty);
    }
    let first = s.get_char(0);
    if n == 1 && (first == '+' || first == '-') {
        return Err(IntErrorKind::InvalidDigit);
    }
    if first == '+' {
        let r = accumulate_from(s, 1);
        assert(s@.subrange(1, s@.len() as int) =~= s@.drop_first());
        r
    } else {
        let r = accumulate_from(s, 0);
        assert(s@.subrange(0, s@.len() as int) =~= s@);
        r
    }
}

/// Compares two texts character by character.
pub fn str_eq(a: &str, b: &str) -> (r: bool)
    ensures
        r == (a@ == b@),
{
    let n = a.unicode_len();
    let m = b.unicode_len();
    if n != m {
        return false;
    }
    let mut i: usize = 0;
    while i < n
        invariant
            n == a@.len(),
            m == b@.len(),
            n == m,
            i <= n,
            forall|j: int| 0 <= j < i ==> a@[j] == b@[j],
        decreases n - i,
    {
        if a.get_char(i) != b.get_char(i) {
            return false;
        }
        i = i + 1;
    }
    assert(a@ =~= b@);
    true
}

/// `pattern` occurs in `s` starting at character `i`.
/// A character that a Rust identifier may hold: an ASCII letter, digit or
/// underscore, `#` (of a raw identifier `r#name`), or any character outside
/// ASCII. No ASCII punctuation, space or control character is one.
pub open spec fn is_name_char(c: char) -> bool {
    ('a' <= c && c <= 'z') || ('A' <= c && c <= 'Z') || ('0' <= c && c <= '9') || c == '_' || c == '#'
        || c >= '\u{80}'
}

/// A text made only of characters that a Rust identifier may hold.
pub open spec fn is_name(s: Seq<char>) -> bool {
    forall|i: int| 0 <= i < s.len() ==> is_name_char(#[trigger] s[i])
}

/// Whether the text is made only of characters that a Rust identifier may hold.
pub fn is_name_text(s: &str) -> (r: bool)
    ensures
        r == is_name(s@),
{
    let n = s.unicode_len();
    let mut i: usize = 0;
    while i < n
        invariant
            n == s@.len(),
            i <= n,
            forall|k: int| 0 <= k < i ==> is_name_char(#[trigger] s@[k]),
        decreases n - i,
    {
        let c = s.get_char(i);
        if !(('a' <= c && c <= 'z') || ('A' <= c && c <= 'Z') || ('0' <= c && c <= '9') || c == '_' || c == '#'
            || c >= '\u{80}') {
            return false;
        }
        i = i + 1;
    }
    true
}

pub open spec fn occurs_at(s: Seq<char>, pattern: Seq<char>, i: int) -> bool {
    0 <= i && i + pattern.len() <= s.len() && s.subrange(i, i + pattern.len()) == pattern
}

/// `pattern` occurs somewhere in `s`.
pub open spec fn contains_text(s: Seq<char>, pattern: Seq<char>) -> bool {
    exists|i: int| occurs_at(s, pattern, i)
}

/// Tells whether `pattern` occurs in `s`, as `str::contains` does for a `&str` pattern.
pub fn str_contains(s: &str, pattern: &str) -> (r: bool)
    ensures
        r == contains_text(s@, pattern@),
{
    let n = s.unicode_len();
    let m = pattern.unicode_len();
    if m > n {
        assert forall|i: int| !occurs_at(s@, pattern@, i) by {}
        return false;
    }
    let mut i: usize = 0;
    while i <= n - m
        invariant
            n == s@.len(),
            m == pattern@.len(),
            m <= n,
            i <= n - m + 1,
            forall|k: int| 0 <= k < i ==> !occurs_at(s@, pattern@, k),
        decreases n - m + 1 - i,
    {
        let mut j: usize = 0;
        let mut matched = true;
        while j < m
            invariant
                n == s@.len(),
                m == pattern@.len(),
                m <= n,
                i <= n - m,
                j <= m,
                matched ==> forall|k: int| 0 <= k < j ==> s@[i + k] == pattern@[k],
                !matched ==> exists|k: int| 0 <= k < m && s@[i + k] != pattern@[k],
            decreases m - j,
        {
            if s.get_char(i + j) != pattern.get_char(j) {
                matched = false;
            }
            j = j + 1;
        }
        if matched {
            assert(s@.subrange(i as int, i + m) =~= pattern@);
            assert(occurs_at(s@, pattern@, i as int));
            return true;
        }
        proof {
            let k = choose|k: int| 0 <= k < m && s@[i + k] != pattern@[k];
            assert(s@.subrange(i as int, i + m)[k] != pattern@[k]);
        }
        i = i + 1;
    }
    false
}

/// The parts joined with `sep` between consecutive parts, as `[String]::join` does.
pub open spec fn join(parts: Seq<Seq<char>>, sep: Seq<char>) -> Seq<char>
    decreases parts.len(),
{
    if parts.len() == 0 {
        Seq::empty()
    } else if parts.len() == 1 {
        parts[0]
    } else {
        join(parts.drop_last(), sep) + sep + parts.last()
    }
}

/// The views of a vector of strings.
pub open spec fn string_views(v: Seq<String>) -> Seq<Seq<char>> {
    v.map_values(|s: String| s@)
}

/// Joins the strings with `sep` between consecutive ones.
pub fn join_strings(parts: &Vec<String>, sep: &str) -> (r: String)
    ensures
        r@ == join(string_views(parts@), sep@),
{
    let mut r = String::new();
    let n = parts.len();
    let ghost views = string_views(parts@);
    let mut i: usize = 0;
    while i < n
        invariant
            n == parts@.len(),
            views == string_views(parts@),
            i <= n,
            r@ == join(views.take(i as int), sep@),
        decreases n - i,
    {
        assert(views.take(i + 1).drop_last() =~= views.take(i as int));
        if i != 0 {
            r.append(sep);
        } else {
            assert(r@ + parts@[0]@ =~= parts@[0]@);
        }
        r.append(parts[i].as_str());
        i = i + 1;
    }
    assert(views.take(n as int) =~= views);
    r
}

// ---------------------------------------------------------------------
// Escape sequences of SystemVerilog string literals.
// ---------------------------------------------------------------------

pub open spec fn is_octal_digit(c: char) -> bool {
    '0' <= c && c <= '7'
}

pub open spec fn is_hex_digit(c: char) -> bool {
    ('0' <= c && c <= '9') || ('a' <= c && c <= 'f') || ('A' <= c && c <= 'F')
}

pub open spec fn hex_value(c: char) -> nat {
    if '0' <= c && c <= '9' {
        digit_value(c)
    } else if 'a' <= c && c <= 'f' {
        ((c as int) - ('a' as int) + 10) as nat
    } else {
        ((c as int) - ('A' as int) + 10) as nat
    }
}

/// The number of octal digits (at most three) at the start of `t`.
pub open spec fn octal_run(t: Seq<char>) -> nat {
    if t.len() >= 1 && is_octal_digit(t[0]) {
        if t.len() >= 2 && is_octal_digit(t[1]) {
            if t.len() >= 3 && is_octal_digit(t[2]) { 3 } else { 2 }
        } else {
            1
        }
    } else {
        0
    }
}

/// The value of the first `k` octal digits of `t`.
pub open spec fn octal_value(t: Seq<char>, k: nat) -> nat {
    if k == 1 {
        digit_value(t[0])
    } else if k == 2 {
        digit_value(t[0]) * 8 + digit_value(t[1])
    } else {
        digit_value(t[0]) * 64 + digit_value(t[1]) * 8 + digit_value(t[2])
    }
}

/// The number of hexadecimal digits (at most two) at the start of `t`.
pub open spec fn hex_run(t: Seq<char>) -> nat {
    if t.len() >= 1 && is_hex_digit(t[0]) {
        if t.len() >= 2 && is_hex_digit(t[1]) { 2 } else { 1 }
    } else {
        0
    }
}

/// The value of the first `k` hexadecimal digits of `t`.
pub open spec fn hex_digits_value(t: Seq<char>, k: nat) -> nat {
    if k == 1 { hex_value(t[0]) } else { hex_value(t[0]) * 16 + hex_value(t[1]) }
}

/// The character whose code is the byte `v`.
pub open spec fn byte_char(v: nat) -> char {
    (v as u8) as char
}

/// The character that a backslash followed by `c` stands for, where `c`
/// starts no octal, hexadecimal or line continuation escape: `\n` newline,
/// `\t` tab, `\v` vertical tab, `\f` form feed, `\a` bell; any other
/// character, `\\` and `\"` among them, stands for itself.
pub open spec fn simple_escape(c: char) -> char {
    if c == 'n' { '\n' }
    else if c == 't' { '\t' }
    else if c == 'v' { '\x0B' }
    else if c == 'f' { '\x0C' }
    else if c == 'a' { '\x07' }
    else { c }
}

/// `prefix` followed by the text of `rest`, if there is one.
pub open spec fn prepend(prefix: Seq<char>, rest: Option<Seq<char>>) -> Option<Seq<char>> {
    match rest {
        Some(r) => Some(prefix + r),
        None => None,
    }
}

/// The escape sequence at the start of `t`, which starts with a backslash:
/// the text it stands for and the number of characters it takes. A backslash
/// before a newline stands for nothing; `\ddd` with one to three octal digits
/// and `\xdd` with one or two hexadecimal digits stand for the character of
/// that code, which must be at most 255; the other escapes are those of
/// `simple_escape`. `None` where the backslash ends the text, `\x` has no
/// hexadecimal digit, or an octal code exceeds 255.
pub open spec fn escape_step(t: Seq<char>) -> Option<(Seq<char>, nat)> {
    if t.len() < 2 {
        None
    } else if t[1] == '\n' {
        Some((Seq::empty(), 2))
    } else if is_octal_digit(t[1]) {
        let k = octal_run(t.skip(1));
        let v = octal_value(t.skip(1), k);
        if v > 255 { None } else { Some((seq![byte_char(v)], 1 + k)) }
    } else if t[1] == 'x' {
        let k = hex_run(t.skip(2));
        if k == 0 { None } else { Some((seq![byte_char(hex_digits_value(t.skip(2), k))], 2 + k)) }
    } else {
        Some((seq![simple_escape(t[1])], 2))
    }
}

/// An escape sequence takes at least two characters and no more than the text holds.
pub proof fn lemma_escape_step_len(t: Seq<char>)
    ensures
        escape_step(t) matches Some((_, k)) ==> 2 <= k <= t.len(),
{
}

/// Replaces the escape sequences of the text of a string literal (without its
/// quotes), from left to right, as `escape_step` says; `None` where one of
/// them is malformed.
pub open spec fn spec_unescape(s: Seq<char>) -> Option<Seq<char>>
    decreases s.len(),
{
    if s.len() == 0 {
        Some(Seq::empty())
    } else if s[0] != '\\' {
        prepend(seq![s[0]], spec_unescape(s.skip(1)))
    } else {
        match escape_step(s) {
            None => None,
            Some((piece, k)) => {
                proof {
                    lemma_escape_step_len(s);
                }
                prepend(piece, spec_unescape(s.skip(k as int)))
            },
        }
    }
}

/// Calls `String::from_iter` on the characters: the string of those
/// characters, in order.
#[verifier::external_body]
fn string_from_chars(chars: &Vec<char>) -> (s: String)
    ensures
        s@ == chars@,
{
    String::from_iter(chars.iter())
}

fn octal_digit_value(c: char) -> (v: u32)
    requires
        is_octal_digit(c),
    ensures
        v == digit_value(c),
{
    (c as u32) - ('0' as u32)
}

fn hex_digit_value(c: char) -> (v: u32)
    requires
        is_hex_digit(c),
    ensures
        v == hex_value(c),
{
    if '0' <= c && c <= '9' {
        (c as u32) - ('0' as u32)
    } else if 'a' <= c && c <= 'f' {
        (c as u32) - ('a' as u32) + 10
    } else {
        (c as u32) - ('A' as u32) + 10
    }
}

fn is_octal(c: char) -> (r: bool)
    ensures
        r == is_octal_digit(c),
{
    '0' <= c && c <= '7'
}

fn is_hex(c: char) -> (r: bool)
    ensures
        r == is_hex_digit(c),
{
    ('0' <= c && c <= '9') || ('a' <= c && c <= 'f') || ('A' <= c && c <= 'F')
}

proof fn lemma_prepend_assoc(a: Seq<char>, b: Seq<char>, r: Option<Seq<char>>)
    ensures
        prepend(a, prepend(b, r)) == prepend(a + b, r),
{
    if r is Some {
        assert(a + (b + r->Some_0) =~= (a + b) + r->Some_0);
    }
}

/// The escape sequence that starts at character `i` of `s`, a backslash.
fn escape_at(s: &str, i: usize) -> (r: Option<(Option<char>, usize)>)
    requires
        i < s@.len(),
        s@[i as int] == '\\',
    ensures
        match r {
            None => escape_step(s@.skip(i as int)) is None,
            Some((c, k)) => escape_step(s@.skip(i as int)) == Some((
                match c { Some(c) => seq![c], None => Seq::<char>::empty() },
                k as nat,
            )),
        },
{
    let n = s.unicode_len();
    let ghost t = s@.skip(i as int);
    if i + 1 >= n {
        return None;
    }
    let e = s.get_char(i + 1);
    assert(t[1] == e);
    if e == '\n' {
        Some((None, 2))
    } else if is_octal(e) {
        let ghost u = t.skip(1);
        assert(u[0] == e);
        let mut k: usize = 1;
        let mut v: u32 = octal_digit_value(e);
        if i + 2 < n && is_octal(s.get_char(i + 2)) {
            assert(u[1] == s@[i + 2]);
            v = v * 8 + octal_digit_value(s.get_char(i + 2));
            k = 2;
            if i + 3 < n && is_octal(s.get_char(i + 3)) {
                assert(u[2] == s@[i + 3]);
                v = v * 8 + octal_digit_value(s.get_char(i + 3));
                k = 3;
            } else {
                assert(!(u.len() >= 3 && is_octal_digit(u[2]))) by {
                    if u.len() >= 3 {
                        assert(u[2] == s@[i + 3]);
                    }
                }
            }
        } else {
            assert(!(u.len() >= 2 && is_octal_digit(u[1]))) by {
                if u.len() >= 2 {
                    assert(u[1] == s@[i + 2]);
                }
            }
        }
        assert(k == octal_run(u));
        assert(v == octal_value(u, k as nat));
        if v > 255 {
            None
        } else {
            Some((Some((v as u8) as char), 1 + k))
        }
    } else if e == 'x' {
        let ghost u = t.skip(2);
        if i + 2 < n && is_hex(s.get_char(i + 2)) {
            assert(u[0] == s@[i + 2]);
            let mut k: usize = 1;
            let mut v: u32 = hex_digit_value(s.get_char(i + 2));
            if i + 3 < n && is_hex(s.get_char(i + 3)) {
                assert(u[1] == s@[i + 3]);
                v = v * 16 + hex_digit_value(s.get_char(i + 3));
                k = 2;
            } else {
                assert(!(u.len() >= 2 && is_hex_digit(u[1]))) by {
                    if u.len() >= 2 {
                        assert(u[1] == s@[i + 3]);
                    }
                }
            }
            assert(k == hex_run(u));
            assert(v == hex_digits_value(u, k as nat));
            Some((Some((v as u8) as char), 2 + k))
        } else {
            assert(hex_run(u) == 0) by {
                if u.len() >= 1 {
                    assert(u[0] == s@[i + 2]);
                }
            }
            None
        }
    } else {
        let c = if e == 'n' {
            '\n'
        } else if e == 't' {
            '\t'
        } else if e == 'v' {
            '\x0B'
        } else if e == 'f' {
            '\x0C'
        } else if e == 'a' {
            '\x07'
        } else {
            e
        };
        Some((Some(c), 2))
    }
}

/// Replaces the escape sequences of the text of a string literal, as
/// `spec_unescape` says.
pub fn unescape(s: &str) -> (r: Option<String>)
    ensures
        match r {
            Some(t) => spec_unescape(s@) == Some(t@),
            None => spec_unescape(s@) is None,
        },
{
    let n = s.unicode_len();
    let mut out: Vec<char> = Vec::new();
    let mut i: usize = 0;
    assert(s@.skip(0) =~= s@);
    assert(out@ + Seq::<char>::empty() =~= out@);
    while i < n
        invariant
            n == s@.len(),
            i <= n,
            spec_unescape(s@) == prepend(out@, spec_unescape(s@.skip(i as int))),
        decreases n - i,
    {
        let ghost t = s@.skip(i as int);
        let ghost before = out@;
        let c = s.get_char(i);
        assert(t[0] == c);
        if c != '\\' {
            out.push(c);
            assert(t.skip(1) =~= s@.skip(i + 1));
            proof { lemma_prepend_assoc(before, seq![c], spec_unescape(t.skip(1))); }
            assert(out@ =~= before + seq![c]);
            i = i + 1;
        } else {
            match escape_at(s, i) {
                None => return None,
                Some((piece, k)) => {
                    proof { lemma_escape_step_len(t); }
                    assert(t.skip(k as int) =~= s@.skip(i + k));
                    let ghost ps = match piece { Some(c) => seq![c], None => Seq::<char>::empty() };
                    match piece {
                        Some(b) => out.push(b),
                        None => {},
                    }
                    proof { lemma_prepend_assoc(before, ps, spec_unescape(t.skip(k as int))); }
                    assert(out@ =~= before + ps);
                    i = i + k;
                },
            }
        }
    }
    assert(s@.skip(n as int) =~= Seq::<char>::empty());
    Some(string_from_chars(&out))
}

} // verus!
