//! Character-level text: conversions between strings and character
//! sequences, decimal and hexadecimal rendering of integers, integer parsing
//! as `str::parse` performs it, and whitespace trimming as `str::trim`
//! performs it.

use vstd::prelude::*;

verus! {

// ---------------------------------------------------------------------------
// Strings and character vectors
// ---------------------------------------------------------------------------

/// The characters of `s`, in order.
pub fn chars_of(s: &str) -> (v: Vec<char>)
    ensures
        v@ == s@,
{
    let mut v: Vec<char> = Vec::new();
    for c in it: s.chars()
        invariant
            v@ == it.seq().take(it.index() as int),
            it.seq() == s@,
    {
        v.push(c);
    }
    v
}

/// `String::from_iter` over a slice of characters.
#[verifier::external_body]
pub(crate) fn string_from_chars(v: &[char]) -> (s: String)
    ensures
        s@ == v@,
{
    String::from_iter(v.iter())
}

/// Appends the characters of `s` to `out`.
pub fn push_str(out: &mut Vec<char>, s: &str)
    ensures
        final(out)@ == old(out)@ + s@,
{
    let ghost start = out@;
    for c in it: s.chars()
        invariant
            out@ == start + it.seq().take(it.index() as int),
            it.seq() == s@,
    {
        out.push(c);
    }
    assert(s@.take(s@.len() as int) =~= s@);
}

/// Whether two strings hold the same characters.
pub fn str_eq(a: &str, b: &str) -> (r: bool)
    ensures
        r == (a@ == b@),
{
    let x = a.to_owned();
    let y = b.to_owned();
    x == y
}

/// The text `format!("{:?}", s)` gives for a string: the string in double
/// quotes, with Rust's escapes.
pub uninterp spec fn debug_text(s: Seq<char>) -> Seq<char>;

/// `format!("{:?}", s)` for a string.
#[verifier::external_body]
pub(crate) fn debug_quoted(s: &str) -> (r: String)
    ensures
        r@ == debug_text(s@),
{
    format!("{s:?}")
}

/// `s.trim()`.
pub fn trim_str(s: &str) -> (r: String)
    ensures
        r@ == trim(s@),
{
    let v = chars_of(s);
    let t = trim_chars(&v);
    string_from_chars(t.as_slice())
}

// ---------------------------------------------------------------------------
// Decimal rendering
// ---------------------------------------------------------------------------

/// The character for a decimal digit `d < 10`.
pub open spec fn digit_char(d: nat) -> char {
    (48 + d) as char
}

/// The decimal digits of `n`, most significant first, without leading zeros.
pub open spec fn decimal(n: nat) -> Seq<char>
    decreases n,
{
    if n < 10 {
        seq![digit_char(n)]
    } else {
        decimal(n / 10).push(digit_char(n % 10))
    }
}

/// The decimal rendering of a signed integer: a `-` before the digits of a
/// negative value.
pub open spec fn signed_decimal(n: int) -> Seq<char> {
    if n < 0 {
        seq!['-'] + decimal((-n) as nat)
    } else {
        decimal(n as nat)
    }
}

fn digit_to_char(d: u64) -> (c: char)
    requires
        d < 10,
    ensures
        c == digit_char(d as nat),
{
    let b: u8 = 48u8 + (d as u8);
    b as char
}

/// Appends the decimal digits of `n` to `out`.
pub fn push_decimal(out: &mut Vec<char>, n: u64)
    ensures
        final(out)@ == old(out)@ + decimal(n as nat),
    decreases n,
{
    if n >= 10 {
        push_decimal(out, n / 10);
    }
    let c = digit_to_char(n % 10);
    let ghost before = out@;
    out.push(c);
    proof {
        if n >= 10 {
            assert(before == old(out)@ + decimal((n / 10) as nat));
            assert(out@ =~= old(out)@ + decimal(n as nat));
        } else {
            assert(out@ =~= old(out)@ + decimal(n as nat));
        }
    }
}

/// Appends the decimal rendering of the signed `n` to `out`.
pub fn push_signed_decimal(out: &mut Vec<char>, n: i64)
    ensures
        final(out)@ == old(out)@ + signed_decimal(n as int),
{
    if n < 0 {
        out.push('-');
        let magnitude: u64 = (0i128 - (n as i128)) as u64;
        push_decimal(out, magnitude);
        assert(out@ =~= old(out)@ + signed_decimal(n as int));
    } else {
        push_decimal(out, n as u64);
    }
}

/// `n.to_string()` for an unsigned integer.
pub fn u64_text(n: u64) -> (s: String)
    ensures
        s@ == decimal(n as nat),
{
    let mut v: Vec<char> = Vec::new();
    push_decimal(&mut v, n);
    assert(v@ =~= decimal(n as nat));
    string_from_chars(v.as_slice())
}

/// `n.to_string()` for a signed integer.
pub fn i64_text(n: i64) -> (s: String)
    ensures
        s@ == signed_decimal(n as int),
{
    let mut v: Vec<char> = Vec::new();
    push_signed_decimal(&mut v, n);
    assert(v@ =~= signed_decimal(n as int));
    string_from_chars(v.as_slice())
}

// ---------------------------------------------------------------------------
// Hexadecimal rendering (`{:x}`)
// ---------------------------------------------------------------------------

/// The character for a hexadecimal digit `d < 16`, lower case.
pub open spec fn hex_digit_char(d: nat) -> char {
    if d < 10 {
        (48 + d) as char
    } else {
        (87 + d) as char
    }
}

/// The lower-case hexadecimal digits of `n`, without leading zeros.
pub open spec fn hex(n: nat) -> Seq<char>
    decreases n,
{
    if n < 16 {
        seq![hex_digit_char(n)]
    } else {
        hex(n / 16).push(hex_digit_char(n % 16))
    }
}

fn hex_digit_to_char(d: u64) -> (c: char)
    requires
        d < 16,
    ensures
        c == hex_digit_char(d as nat),
{
    if d < 10 {
        let b: u8 = 48u8 + (d as u8);
        b as char
    } else {
        let b: u8 = 87u8 + (d as u8);
        b as char
    }
}

/// Appends the lower-case hexadecimal digits of `n` to `out`.
pub fn push_hex(out: &mut Vec<char>, n: u64)
    ensures
        final(out)@ == old(out)@ + hex(n as nat),
    decreases n,
{
    if n >= 16 {
        push_hex(out, n / 16);
    }
    let c = hex_digit_to_char(n % 16);
    out.push(c);
    proof {
        assert(out@ =~= old(out)@ + hex(n as nat));
    }
}

// ---------------------------------------------------------------------------
// Integer parsing (`str::parse` for the integer types)
// ---------------------------------------------------------------------------

/// Whether `c` is an ASCII decimal digit.
pub open spec fn is_digit(c: char) -> bool {
    '0' <= c && c <= '9'
}

/// Whether every character of `s` is an ASCII decimal digit.
pub open spec fn all_digits(s: Seq<char>) -> bool {
    forall|i: int| 0 <= i < s.len() ==> is_digit(#[trigger] s[i])
}

/// The value of a run of decimal digits.
pub open spec fn digits_value(s: Seq<char>) -> nat
    decreases s.len(),
{
    if s.len() == 0 {
        0
    } else {
        digits_value(s.drop_last()) * 10 + ((s.last() as nat) - 48) as nat
    }
}

/// What `str::parse` gives for an unsigned integer type whose largest value
/// is `max`: an optional `+`, then one or more decimal digits, the value not
/// above `max`.
pub open spec fn parse_unsigned(s: Seq<char>, max: nat) -> Option<nat> {
    let body = if s.len() > 0 && s[0] == '+' {
        s.drop_first()
    } else {
        s
    };
    if body.len() > 0 && all_digits(body) && digits_value(body) <= max {
        Some(digits_value(body))
    } else {
        None
    }
}

/// What `str::parse` gives for a signed integer type with range
/// `min..=max`: an optional `+` or `-`, then one or more decimal digits, the
/// value within the range.
pub open spec fn parse_signed(s: Seq<char>, min: int, max: int) -> Option<int> {
    let negative = s.len() > 0 && s[0] == '-';
    let body = if s.len() > 0 && (s[0] == '+' || s[0] == '-') {
        s.drop_first()
    } else {
        s
    };
    let value: int = if negative {
        -(digits_value(body) as int)
    } else {
        digits_value(body) as int
    };
    if body.len() > 0 && all_digits(body) && min <= value <= max {
        Some(value)
    } else {
        None
    }
}

proof fn lemma_digits_value_prefix(s: Seq<char>, j: int, k: int)
    requires
        0 <= j <= k <= s.len(),
        all_digits(s),
    ensures
        digits_value(s.take(j)) <= digits_value(s.take(k)),
    decreases k - j,
{
    if j < k {
        lemma_digits_value_prefix(s, j, k - 1);
        assert(s.take(k).drop_last() =~= s.take(k - 1));
        assert(is_digit(s[k - 1]));
    }
}

/// Reads the digits of `body[0..]` as an unsigned value no greater than
/// `max`, or `None` where there are none, a non-digit, or a larger value.
fn parse_digits(body: &Vec<char>, max: u64) -> (r: Option<u64>)
    ensures
        r matches Some(v) ==> body@.len() > 0 && all_digits(body@) && v == digits_value(body@)
            && v <= max,
        r is None ==> !(body@.len() > 0 && all_digits(body@) && digits_value(body@) <= max),
{
    if body.len() == 0 {
        return None;
    }
    let mut acc: u64 = 0;
    let mut i: usize = 0;
    while i < body.len()
        invariant
            i <= body.len(),
            forall|j: int| 0 <= j < i ==> is_digit(#[trigger] body@[j]),
            acc == digits_value(body@.take(i as int)),
            acc <= max,
        decreases body.len() - i,
    {
        let c = body[i];
        if !('0' <= c && c <= '9') {
            assert(!all_digits(body@)) by {
                assert(!is_digit(body@[i as int]));
            }
            return None;
        }
        let d: u64 = ((c as u32) - 48) as u64;
        assert(body@.take(i + 1).drop_last() =~= body@.take(i as int));
        if d > max {
            proof {
                if all_digits(body@) {
                    lemma_digits_value_prefix(body@, i + 1, body@.len() as int);
                    assert(body@.take(body@.len() as int) =~= body@);
                }
            }
            return None;
        }
        if acc > (max - d) / 10 {
            proof {
                assert(acc * 10 + d > max) by (nonlinear_arith)
                    requires
                        acc > (max - d) / 10,
                        d <= max,
                ;
                if all_digits(body@) {
                    lemma_digits_value_prefix(body@, i + 1, body@.len() as int);
                    assert(body@.take(body@.len() as int) =~= body@);
                }
            }
            return None;
        }
        assert(acc * 10 + d <= max) by (nonlinear_arith)
            requires
                acc <= (max - d) / 10,
                d <= max,
        ;
        acc = acc * 10 + d;
        i = i + 1;
    }
    assert(body@.take(body@.len() as int) =~= body@);
    Some(acc)
}

/// `s.parse::<u32>()`, with `None` for every error.
pub fn parse_u32(s: &str) -> (r: Option<u32>)
    ensures
        r matches Some(v) ==> parse_unsigned(s@, u32::MAX as nat) == Some(v as nat),
        r is None ==> parse_unsigned(s@, u32::MAX as nat) is None,
{
    let v = chars_of(s);
    let body = drop_sign(&v, false);
    match parse_digits(&body, u32::MAX as u64) {
        Some(n) => Some(n as u32),
        None => None,
    }
}

/// `s.parse::<usize>()`, with `None` for every error.
pub fn parse_usize(s: &str) -> (r: Option<usize>)
    ensures
        r matches Some(v) ==> parse_unsigned(s@, usize::MAX as nat) == Some(v as nat),
        r is None ==> parse_unsigned(s@, usize::MAX as nat) is None,
{
    let v = chars_of(s);
    let body = drop_sign(&v, false);
    match parse_digits(&body, usize::MAX as u64) {
        Some(n) => Some(n as usize),
        None => None,
    }
}

/// `v` without its first character where that is `+` (or, when `minus` is
/// set, `-`).
fn drop_sign(v: &Vec<char>, minus: bool) -> (body: Vec<char>)
    ensures
        body@ == (if v@.len() > 0 && (v@[0] == '+' || (minus && v@[0] == '-')) {
            v@.drop_first()
        } else {
            v@
        }),
{
    if v.len() > 0 && (v[0] == '+' || (minus && v[0] == '-')) {
        let mut rest: Vec<char> = Vec::new();
        let mut i: usize = 1;
        while i < v.len()
            invariant
                1 <= i <= v.len(),
                rest@ == v@.subrange(1, i as int),
            decreases v.len() - i,
        {
            rest.push(v[i]);
            assert(v@.subrange(1, i + 1) =~= v@.subrange(1, i as int).push(v@[i as int]));
            i = i + 1;
        }
        assert(rest@ =~= v@.drop_first());
        rest
    } else {
        v.clone()
    }
}

/// `s.parse::<i64>()`, with `None` for every error.
pub fn parse_i64(s: &Vec<char>) -> (r: Option<i64>)
    ensures
        r matches Some(v) ==> parse_signed(s@, i64::MIN as int, i64::MAX as int) == Some(
            v as int,
        ),
        r is None ==> parse_signed(s@, i64::MIN as int, i64::MAX as int) is None,
{
    let negative = s.len() > 0 && s[0] == '-';
    let body = drop_sign(s, true);
    if negative {
        match parse_digits(&body, 9223372036854775808u64) {
            Some(n) => {
                let value: i64 = (0i128 - (n as i128)) as i64;
                Some(value)
            },
            None => None,
        }
    } else {
        match parse_digits(&body, i64::MAX as u64) {
            Some(n) => Some(n as i64),
            None => None,
        }
    }
}

// ---------------------------------------------------------------------------
// Floating-point syntax (`str::parse` for `f64`)
// ---------------------------------------------------------------------------

/// Whether `c` is the lower-case ASCII letter `letter` in either case.
pub open spec fn letter_either_case(c: char, letter: char) -> bool {
    c == letter || ('A' <= c <= 'Z' && c as int + 32 == letter as int)
}

/// Whether `s` spells `word` (lower-case ASCII letters), ignoring case.
pub open spec fn spells(s: Seq<char>, word: Seq<char>) -> bool {
    s.len() == word.len() && forall|i: int|
        0 <= i < s.len() ==> letter_either_case(#[trigger] s[i], word[i])
}

/// `s` without its leading `+` or `-`, if it has one.
pub open spec fn unsigned_part(s: Seq<char>) -> Seq<char> {
    if s.len() > 0 && (s[0] == '+' || s[0] == '-') {
        s.drop_first()
    } else {
        s
    }
}

/// `Digit+ | Digit+ '.' Digit* | Digit* '.' Digit+`.
pub open spec fn decimal_part(s: Seq<char>) -> bool {
    ||| s.len() > 0 && all_digits(s)
    ||| s.len() > 1 && exists|p: int|
        0 <= p < s.len() && s[p] == '.' && all_digits(#[trigger] s.take(p)) && all_digits(
            s.skip(p + 1),
        )
}

/// `'e' Sign? Digit+`, the `e` in either case.
pub open spec fn exponent_part(s: Seq<char>) -> bool {
    &&& s.len() > 0
    &&& letter_either_case(s[0], 'e')
    &&& unsigned_part(s.drop_first()).len() > 0
    &&& all_digits(unsigned_part(s.drop_first()))
}

/// `Number ::= Decimal Exp?`.
pub open spec fn float_number(s: Seq<char>) -> bool {
    ||| decimal_part(s)
    ||| exists|k: int| 0 <= k < s.len() && decimal_part(#[trigger] s.take(k)) && exponent_part(s.skip(k))
}

/// Whether `str::parse::<f64>` accepts `s`: the grammar its documentation
/// gives, `Sign? ( 'inf' | 'infinity' | 'nan' | Number )`, with letters in
/// either case. Values too large or too small for `f64` are accepted too
/// (they round to infinity or zero).
pub open spec fn float_syntax(s: Seq<char>) -> bool {
    let body = unsigned_part(s);
    ||| spells(body, seq!['i', 'n', 'f'])
    ||| spells(body, seq!['i', 'n', 'f', 'i', 'n', 'i', 't', 'y'])
    ||| spells(body, seq!['n', 'a', 'n'])
    ||| float_number(body)
}

/// Whether `v[lo..hi]` is all decimal digits.
fn digits_between(v: &Vec<char>, lo: usize, hi: usize) -> (r: bool)
    requires
        lo <= hi <= v@.len(),
    ensures
        r == all_digits(v@.subrange(lo as int, hi as int)),
{
    let mut i: usize = lo;
    while i < hi
        invariant
            lo <= i <= hi <= v@.len(),
            forall|j: int| lo <= j < i ==> is_digit(#[trigger] v@[j]),
        decreases hi - i,
    {
        if !(v[i] >= '0' && v[i] <= '9') {
            assert(v@.subrange(lo as int, hi as int)[i - lo] == v@[i as int]);
            return false;
        }
        i = i + 1;
    }
    assert forall|j: int| 0 <= j < hi - lo implies is_digit(
        #[trigger] v@.subrange(lo as int, hi as int)[j],
    ) by {
        assert(v@.subrange(lo as int, hi as int)[j] == v@[lo + j]);
    }
    true
}

/// The first index in `lo..hi` where `v` holds `a` or `b`, or `hi`.
fn first_of(v: &Vec<char>, lo: usize, hi: usize, a: char, b: char) -> (k: usize)
    requires
        lo <= hi <= v@.len(),
    ensures
        lo <= k <= hi,
        forall|j: int| lo <= j < k ==> #[trigger] v@[j] != a && v@[j] != b,
        k < hi ==> v@[k as int] == a || v@[k as int] == b,
{
    let mut i: usize = lo;
    while i < hi
        invariant
            lo <= i <= hi <= v@.len(),
            forall|j: int| lo <= j < i ==> #[trigger] v@[j] != a && v@[j] != b,
        decreases hi - i,
    {
        if v[i] == a || v[i] == b {
            return i;
        }
        i = i + 1;
    }
    hi
}

/// Whether `v[lo..hi]` is a decimal part; see [`decimal_part`].
fn decimal_between(v: &Vec<char>, lo: usize, hi: usize) -> (r: bool)
    requires
        lo <= hi <= v@.len(),
    ensures
        r == decimal_part(v@.subrange(lo as int, hi as int)),
{
    let ghost s = v@.subrange(lo as int, hi as int);
    let p = first_of(v, lo, hi, '.', '.');
    if p == hi {
        proof {
            assert forall|q: int| 0 <= q < s.len() implies s[q] != '.' by {
                assert(s[q] == v@[lo + q]);
            }
        }
        hi > lo && digits_between(v, lo, hi)
    } else {
        let ghost d = p - lo;
        proof {
            assert(s[d] == '.');
            assert(!is_digit(s[d]));
            assert forall|q: int| 0 <= q < d implies s[q] != '.' by {
                assert(s[q] == v@[lo + q]);
            }
            assert(s.take(d) =~= v@.subrange(lo as int, p as int));
            assert(s.skip(d + 1) =~= v@.subrange(p + 1, hi as int));
            assert forall|q: int|
                0 <= q < s.len() && s[q] == '.' && all_digits(#[trigger] s.take(q)) implies q
                == d by {
                if q > d {
                    assert(s.take(q)[d] == s[d]);
                }
            }
        }
        hi - lo > 1 && digits_between(v, lo, p) && digits_between(v, p + 1, hi)
    }
}

/// Whether `v[lo..hi]` is an exponent part; see [`exponent_part`].
fn exponent_between(v: &Vec<char>, lo: usize, hi: usize) -> (r: bool)
    requires
        lo <= hi <= v@.len(),
    ensures
        r == exponent_part(v@.subrange(lo as int, hi as int)),
{
    let ghost s = v@.subrange(lo as int, hi as int);
    if lo == hi || !(v[lo] == 'e' || v[lo] == 'E') {
        proof {
            if s.len() > 0 {
                assert(s[0] == v@[lo as int]);
            }
        }
        return false;
    }
    assert(s[0] == v@[lo as int]);
    let ghost rest = s.drop_first();
    assert(rest =~= v@.subrange(lo + 1, hi as int));
    let start: usize = if lo + 1 < hi && (v[lo + 1] == '+' || v[lo + 1] == '-') {
        lo + 2
    } else {
        lo + 1
    };
    proof {
        if lo + 1 < hi {
            assert(rest[0] == v@[lo + 1]);
        }
        assert(unsigned_part(rest) =~= v@.subrange(start as int, hi as int));
    }
    start < hi && digits_between(v, start, hi)
}

/// Whether `v[lo..hi]` is a number; see [`float_number`].
fn number_between(v: &Vec<char>, lo: usize, hi: usize) -> (r: bool)
    requires
        lo <= hi <= v@.len(),
    ensures
        r == float_number(v@.subrange(lo as int, hi as int)),
{
    let ghost s = v@.subrange(lo as int, hi as int);
    let k = first_of(v, lo, hi, 'e', 'E');
    if k == hi {
        proof {
            assert forall|j: int| 0 <= j < s.len() implies !(#[trigger] exponent_part(s.skip(j))) by {
                assert(s.skip(j)[0] == v@[lo + j]);
            }
        }
        decimal_between(v, lo, hi)
    } else {
        let ghost d = k - lo;
        proof {
            assert(s[d] == v@[k as int]);
            lemma_decimal_part_chars(s);
            assert forall|j: int|
                0 <= j < s.len() && decimal_part(#[trigger] s.take(j)) && exponent_part(
                    s.skip(j),
                ) implies j == d by {
                assert(s.skip(j)[0] == s[j]);
                assert(s[j] == v@[lo + j]);
                if j > d {
                    lemma_decimal_part_chars(s.take(j));
                    assert(s.take(j)[d] == s[d]);
                }
            }
            assert(s.take(d) =~= v@.subrange(lo as int, k as int));
            assert(s.skip(d) =~= v@.subrange(k as int, hi as int));
        }
        decimal_between(v, lo, k) && exponent_between(v, k, hi)
    }
}

/// A decimal part holds nothing but digits and full stops.
proof fn lemma_decimal_part_chars(s: Seq<char>)
    ensures
        decimal_part(s) ==> forall|i: int| 0 <= i < s.len() ==> is_digit(#[trigger] s[i]) || s[i] == '.',
{
    if decimal_part(s) && !all_digits(s) {
        let p = choose|p: int|
            0 <= p < s.len() && s[p] == '.' && all_digits(#[trigger] s.take(p)) && all_digits(
                s.skip(p + 1),
            );
        assert forall|i: int| 0 <= i < s.len() implies is_digit(#[trigger] s[i]) || s[i] == '.' by {
            if i < p {
                assert(s.take(p)[i] == s[i]);
            } else if i > p {
                assert(s.skip(p + 1)[i - p - 1] == s[i]);
            }
        }
    }
}

/// Whether `v[lo..hi]` spells `word`, ignoring case; see [`spells`].
fn spells_between(v: &Vec<char>, lo: usize, hi: usize, word: &Vec<char>) -> (r: bool)
    requires
        lo <= hi <= v@.len(),
        forall|j: int| 0 <= j < word@.len() ==> 'a' <= #[trigger] word@[j] <= 'z',
    ensures
        r == spells(v@.subrange(lo as int, hi as int), word@),
{
    let ghost s = v@.subrange(lo as int, hi as int);
    if hi - lo != word.len() {
        return false;
    }
    let mut i: usize = 0;
    while i < word.len()
        invariant
            hi - lo == word@.len(),
            lo <= hi <= v@.len(),
            i <= word@.len(),
            s == v@.subrange(lo as int, hi as int),
            forall|j: int| 0 <= j < word@.len() ==> 'a' <= #[trigger] word@[j] <= 'z',
            forall|j: int| 0 <= j < i ==> letter_either_case(#[trigger] s[j], word@[j]),
        decreases word.len() - i,
    {
        let c = v[lo + i];
        let l = word[i];
        assert(s[i as int] == c);
        if !(c == l || (c >= 'A' && c <= 'Z' && (c as u32) + 32 == (l as u32))) {
            return false;
        }
        i = i + 1;
    }
    true
}

/// Whether `s.parse::<f64>()` succeeds; see [`float_syntax`].
pub fn is_float_text(s: &str) -> (r: bool)
    ensures
        r == float_syntax(s@),
{
    let v = chars_of(s);
    let hi = v.len();
    let lo: usize = if hi > 0 && (v[0] == '+' || v[0] == '-') {
        1
    } else {
        0
    };
    assert(unsigned_part(v@) =~= v@.subrange(lo as int, hi as int));
    let inf = vec!['i', 'n', 'f'];
    let infinity = vec!['i', 'n', 'f', 'i', 'n', 'i', 't', 'y'];
    let nan = vec!['n', 'a', 'n'];
    proof {
        assert(inf@ =~= seq!['i', 'n', 'f']);
        assert(infinity@ =~= seq!['i', 'n', 'f', 'i', 'n', 'i', 't', 'y']);
        assert(nan@ =~= seq!['n', 'a', 'n']);
    }
    spells_between(&v, lo, hi, &inf) || spells_between(&v, lo, hi, &infinity)
        || spells_between(&v, lo, hi, &nan) || number_between(&v, lo, hi)
}

// ---------------------------------------------------------------------------
// Whitespace and trimming (`str::trim`)
// ---------------------------------------------------------------------------

/// `char::is_whitespace`: the Unicode `White_Space` property.
pub open spec fn is_whitespace(c: char) -> bool {
    let n = c as u32;
    (0x9 <= n && n <= 0xd) || n == 0x20 || n == 0x85 || n == 0xa0 || n == 0x1680 || (0x2000 <= n
        && n <= 0x200a) || n == 0x2028 || n == 0x2029 || n == 0x202f || n == 0x205f || n == 0x3000
}

fn char_is_whitespace(c: char) -> (r: bool)
    ensures
        r == is_whitespace(c),
{
    let n = c as u32;
    (0x9 <= n && n <= 0xd) || n == 0x20 || n == 0x85 || n == 0xa0 || n == 0x1680 || (0x2000 <= n
        && n <= 0x200a) || n == 0x2028 || n == 0x2029 || n == 0x202f || n == 0x205f || n == 0x3000
}

/// `s` without its leading whitespace.
pub open spec fn trim_start(s: Seq<char>) -> Seq<char>
    decreases s.len(),
{
    if s.len() > 0 && is_whitespace(s[0]) {
        trim_start(s.drop_first())
    } else {
        s
    }
}

/// `s` without its trailing whitespace.
pub open spec fn trim_end(s: Seq<char>) -> Seq<char>
    decreases s.len(),
{
    if s.len() > 0 && is_whitespace(s.last()) {
        trim_end(s.drop_last())
    } else {
        s
    }
}

/// `s` without leading and trailing whitespace.
pub open spec fn trim(s: Seq<char>) -> Seq<char> {
    trim_end(trim_start(s))
}

proof fn lemma_trim_start_skip(s: Seq<char>, i: int)
    requires
        0 <= i < s.len(),
        is_whitespace(s[i]),
    ensures
        trim_start(s.skip(i)) == trim_start(s.skip(i + 1)),
{
    assert(s.skip(i).drop_first() =~= s.skip(i + 1));
}

proof fn lemma_trim_end_take(s: Seq<char>, k: int)
    requires
        0 < k <= s.len(),
        is_whitespace(s[k - 1]),
    ensures
        trim_end(s.take(k)) == trim_end(s.take(k - 1)),
{
    assert(s.take(k).drop_last() =~= s.take(k - 1));
}

/// `s.trim()`, as characters.
pub fn trim_chars(s: &Vec<char>) -> (r: Vec<char>)
    ensures
        r@ == trim(s@),
{
    let mut start: usize = 0;
    assert(s@.skip(0) =~= s@);
    while start < s.len() && char_is_whitespace(s[start])
        invariant
            start <= s.len(),
            trim_start(s@) == trim_start(s@.skip(start as int)),
        decreases s.len() - start,
    {
        proof {
            lemma_trim_start_skip(s@, start as int);
        }
        start = start + 1;
    }
    let ghost rest = s@.skip(start as int);
    assert(trim_start(s@) == rest);
    let mut end: usize = s.len();
    assert(rest.take(end - start) =~= rest);
    while end > start && char_is_whitespace(s[end - 1])
        invariant
            start <= end <= s.len(),
            trim_end(rest) == trim_end(rest.take(end - start)),
            rest == s@.skip(start as int),
        decreases end,
    {
        proof {
            assert(rest[end - start - 1] == s@[end - 1]);
            lemma_trim_end_take(rest, end - start);
        }
        end = end - 1;
    }
    let mut r: Vec<char> = Vec::new();
    let mut i: usize = start;
    while i < end
        invariant
            start <= i <= end <= s.len(),
            r@ == s@.subrange(start as int, i as int),
        decreases end - i,
    {
        r.push(s[i]);
        assert(s@.subrange(start as int, i + 1) =~= s@.subrange(start as int, i as int).push(
            s@[i as int],
        ));
        i = i + 1;
    }
    proof {
        assert(rest.take(end - start) =~= s@.subrange(start as int, end as int));
        let t = rest.take(end - start);
        if t.len() > 0 {
            assert(t.last() == s@[end - 1]);
        }
    }
    r
}

} // verus!
