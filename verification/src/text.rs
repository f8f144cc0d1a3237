//! Verified text utilities: decimal rendering and parsing of integers,
//! character tests, string splitting and joining.

use vstd::prelude::*;

verus! {

/// The character for one decimal digit.
pub open spec fn dec_digit_char(d: nat) -> char {
    if d == 0 { '0' }
    else if d == 1 { '1' }
    else if d == 2 { '2' }
    else if d == 3 { '3' }
    else if d == 4 { '4' }
    else if d == 5 { '5' }
    else if d == 6 { '6' }
    else if d == 7 { '7' }
    else if d == 8 { '8' }
    else { '9' }
}

/// Decimal digit characters of `n`, most significant first.
pub open spec fn dec_digits(n: nat) -> Seq<char>
    decreases n,
{
    if n < 10 {
        seq![dec_digit_char(n)]
    } else {
        dec_digits(n / 10) + seq![dec_digit_char(n % 10)]
    }
}

/// Decimal text of a signed value: a minus sign before the digits when negative.
pub open spec fn dec_int(v: int) -> Seq<char> {
    if v < 0 {
        seq!['-'] + dec_digits((-v) as nat)
    } else {
        dec_digits(v as nat)
    }
}

/// Whether `c` is a decimal digit character.
pub open spec fn is_dec_digit(c: char) -> bool {
    c == '0' || c == '1' || c == '2' || c == '3' || c == '4'
    || c == '5' || c == '6' || c == '7' || c == '8' || c == '9'
}

/// The numeric value of a decimal digit character.
pub open spec fn digit_of(c: char) -> nat {
    if c == '0' { 0 }
    else if c == '1' { 1 }
    else if c == '2' { 2 }
    else if c == '3' { 3 }
    else if c == '4' { 4 }
    else if c == '5' { 5 }
    else if c == '6' { 6 }
    else if c == '7' { 7 }
    else if c == '8' { 8 }
    else { 9 }
}

/// Whether `s` is one or more decimal digit characters.
pub open spec fn is_digit_seq(s: Seq<char>) -> bool {
    s.len() > 0 && forall|i: int| 0 <= i < s.len() ==> is_dec_digit(#[trigger] s[i])
}

/// The value of a sequence of decimal digit characters.
pub open spec fn digits_val(s: Seq<char>) -> nat
    decreases s.len(),
{
    if s.len() == 0 {
        0
    } else {
        digits_val(s.drop_last()) * 10 + digit_of(s.last())
    }
}

fn digit_str(d: u64) -> (r: &'static str)
    requires
        d < 10,
    ensures
        r@ == seq![dec_digit_char(d as nat)],
{
    proof {
        reveal_strlit("0");
        reveal_strlit("1");
        reveal_strlit("2");
        reveal_strlit("3");
        reveal_strlit("4");
        reveal_strlit("5");
        reveal_strlit("6");
        reveal_strlit("7");
        reveal_strlit("8");
        reveal_strlit("9");
    }
    let r: &'static str = match d {
        0 => "0",
        1 => "1",
        2 => "2",
        3 => "3",
        4 => "4",
        5 => "5",
        6 => "6",
        7 => "7",
        8 => "8",
        _ => "9",
    };
    proof {
        assert(r@ =~= seq![dec_digit_char(d as nat)]);
    }
    r
}

/// Renders `n` in decimal.
pub fn u64_to_string(n: u64) -> (s: String)
    ensures
        s@ == dec_digits(n as nat),
    decreases n,
{
    if n < 10 {
        let mut s = String::new();
        s.append(digit_str(n));
        proof {
            assert(s@ =~= dec_digits(n as nat));
        }
        s
    } else {
        let mut s = u64_to_string(n / 10);
        s.append(digit_str(n % 10));
        s
    }
}

/// Renders `n` in decimal, with a minus sign when negative.
pub fn i32_to_string(n: i32) -> (s: String)
    ensures
        s@ == dec_int(n as int),
{
    if n >= 0 {
        u64_to_string(n as u64)
    } else {
        let magnitude: u64 = (-(n as i64)) as u64;
        let mut s = String::new();
        proof {
            reveal_strlit("-");
            assert("-"@ =~= seq!['-']);
        }
        s.append("-");
        let digits = u64_to_string(magnitude);
        s.append(digits.as_str());
        s
    }
}

/// The numeric value of a digit, or `None` when `c` is no digit.
pub fn char_digit(c: char) -> (r: Option<u64>)
    ensures
        r is Some <==> is_dec_digit(c),
        r is Some ==> r->0 == digit_of(c) && r->0 < 10,
{
    match c {
        '0' => Some(0),
        '1' => Some(1),
        '2' => Some(2),
        '3' => Some(3),
        '4' => Some(4),
        '5' => Some(5),
        '6' => Some(6),
        '7' => Some(7),
        '8' => Some(8),
        '9' => Some(9),
        _ => None,
    }
}

proof fn lemma_digits_val_take_succ(s: Seq<char>, i: int)
    requires
        0 <= i < s.len(),
    ensures
        digits_val(s.take(i + 1)) == digits_val(s.take(i)) * 10 + digit_of(s[i]),
{
    assert(s.take(i + 1).drop_last() =~= s.take(i));
    assert(s.take(i + 1).last() == s[i]);
}

proof fn lemma_digits_val_prefix_mono(s: Seq<char>, i: int, j: int)
    requires
        0 <= i <= j <= s.len(),
    ensures
        digits_val(s.take(i)) <= digits_val(s.take(j)),
    decreases j - i,
{
    if i < j {
        lemma_digits_val_prefix_mono(s, i, j - 1);
        lemma_digits_val_take_succ(s, j - 1);
    }
}

/// The digits of an unsigned decimal text, after at most one leading plus sign.
pub open spec fn unsigned_body(s: Seq<char>) -> Seq<char> {
    if s.len() > 0 && s[0] == '+' {
        s.drop_first()
    } else {
        s
    }
}

/// Whether `s` is a well-formed unsigned decimal text whose value fits in `u64`.
pub open spec fn is_u64_text(s: Seq<char>) -> bool {
    is_digit_seq(unsigned_body(s)) && digits_val(unsigned_body(s)) <= u64::MAX
}

fn parse_digits(s: &str, start: usize) -> (r: Option<u64>)
    requires
        start <= s@.len(),
    ensures
        r is Some <==> is_digit_seq(s@.skip(start as int)) && digits_val(s@.skip(start as int))
            <= u64::MAX,
        r is Some ==> r->0 == digits_val(s@.skip(start as int)),
{
    let ghost body = s@.skip(start as int);
    let n = s.unicode_len();
    if start >= n {
        proof {
            assert(!is_digit_seq(body));
        }
        return None;
    }
    let mut v: u64 = 0;
    let mut i: usize = start;
    while i < n
        invariant
            start <= i <= n,
            n == s@.len(),
            body == s@.skip(start as int),
            is_digit_seq(body.take(i - start)) || i == start,
            v == digits_val(body.take(i - start)),
        decreases n - i,
    {
        let c = s.get_char(i);
        proof {
            assert(body[i - start] == s@[i as int]);
        }
        match char_digit(c) {
            None => {
                proof {
                    assert(!is_dec_digit(body[i - start]));
                    assert(!is_digit_seq(body));
                }
                return None;
            }
            Some(d) => {
                let shifted = match v.checked_mul(10) {
                    Some(x) => x,
                    None => {
                        proof {
                            lemma_digits_val_take_succ(body, i - start);
                            lemma_digits_val_prefix_mono(body, i - start + 1, body.len() as int);
                            assert(body.take(body.len() as int) =~= body);
                        }
                        return None;
                    }
                };
                let next = match shifted.checked_add(d) {
                    Some(x) => x,
                    None => {
                        proof {
                            lemma_digits_val_take_succ(body, i - start);
                            lemma_digits_val_prefix_mono(body, i - start + 1, body.len() as int);
                            assert(body.take(body.len() as int) =~= body);
                        }
                        return None;
                    }
                };
                proof {
                    lemma_digits_val_take_succ(body, i - start);
                    assert(is_digit_seq(body.take(i - start + 1)));
                }
                v = next;
                i = i + 1;
            }
        }
    }
    proof {
        assert(body.take(body.len() as int) =~= body);
    }
    Some(v)
}

/// Parses an unsigned decimal text, with at most one leading plus sign.
pub fn parse_u64(s: &str) -> (r: Option<u64>)
    ensures
        r is Some <==> is_u64_text(s@),
        r is Some ==> r->0 == digits_val(unsigned_body(s@)),
{
    let n = s.unicode_len();
    if n > 0 && s.get_char(0) == '+' {
        proof {
            assert(unsigned_body(s@) =~= s@.skip(1));
        }
        parse_digits(s, 1)
    } else {
        proof {
            assert(unsigned_body(s@) =~= s@.skip(0));
        }
        parse_digits(s, 0)
    }
}

/// The digits of a signed decimal text, after at most one leading sign.
pub open spec fn signed_body(s: Seq<char>) -> Seq<char> {
    if s.len() > 0 && (s[0] == '+' || s[0] == '-') {
        s.drop_first()
    } else {
        s
    }
}

/// Whether the text carries a minus sign.
pub open spec fn is_negative_text(s: Seq<char>) -> bool {
    s.len() > 0 && s[0] == '-'
}

/// The value of a signed decimal text.
pub open spec fn signed_val(s: Seq<char>) -> int {
    if is_negative_text(s) {
        -(digits_val(signed_body(s)) as int)
    } else {
        digits_val(signed_body(s)) as int
    }
}

/// Whether `s` is a well-formed signed decimal text whose value fits in `i32`.
pub open spec fn is_i32_text(s: Seq<char>) -> bool {
    is_digit_seq(signed_body(s)) && i32::MIN <= signed_val(s) <= i32::MAX
}

/// Parses a signed decimal text into an `i32`.
pub fn parse_i32(s: &str) -> (r: Option<i32>)
    ensures
        r is Some <==> is_i32_text(s@),
        r is Some ==> r->0 == signed_val(s@),
{
    let n = s.unicode_len();
    let negative = n > 0 && s.get_char(0) == '-';
    let start: usize = if n > 0 && (s.get_char(0) == '-' || s.get_char(0) == '+') {
        1
    } else {
        0
    };
    proof {
        assert(signed_body(s@) =~= s@.skip(start as int));
    }
    match parse_digits(s, start) {
        None => None,
        Some(magnitude) => {
            if negative {
                if magnitude <= 0x8000_0000u64 {
                    Some((-(magnitude as i64)) as i32)
                } else {
                    None
                }
            } else {
                if magnitude <= 0x7fff_ffffu64 {
                    Some(magnitude as i32)
                } else {
                    None
                }
            }
        }
    }
}

/// Scanner state for the decimal floating-point literal grammar.
#[derive(Clone, Copy, PartialEq, Eq, Structural)]
pub enum FloatScan {
    /// Before any mantissa character.
    MantStart,
    /// Inside the integer part of the mantissa.
    MantDigits,
    /// Right after a leading dot, with no digit yet.
    FracStart,
    /// Inside the fractional digits, or right after a dot that followed digits.
    FracDigits,
    /// Right after the exponent marker.
    ExpStart,
    /// Right after the exponent's sign.
    ExpSigned,
    /// Inside the exponent's digits.
    ExpDigits,
}

/// Whether the scanner may stop in state `st`.
pub open spec fn float_accepting(st: FloatScan) -> bool {
    st == FloatScan::MantDigits || st == FloatScan::FracDigits || st == FloatScan::ExpDigits
}

/// One scanner step; `None` rejects the text.
pub open spec fn float_step(st: FloatScan, c: char) -> Option<FloatScan> {
    match st {
        FloatScan::MantStart => if is_dec_digit(c) {
            Some(FloatScan::MantDigits)
        } else if c == '.' {
            Some(FloatScan::FracStart)
        } else {
            None
        },
        FloatScan::MantDigits => if is_dec_digit(c) {
            Some(FloatScan::MantDigits)
        } else if c == '.' {
            Some(FloatScan::FracDigits)
        } else if c == 'e' || c == 'E' {
            Some(FloatScan::ExpStart)
        } else {
            None
        },
        FloatScan::FracStart => if is_dec_digit(c) {
            Some(FloatScan::FracDigits)
        } else {
            None
        },
        FloatScan::FracDigits => if is_dec_digit(c) {
            Some(FloatScan::FracDigits)
        } else if c == 'e' || c == 'E' {
            Some(FloatScan::ExpStart)
        } else {
            None
        },
        FloatScan::ExpStart => if is_dec_digit(c) {
            Some(FloatScan::ExpDigits)
        } else if c == '+' || c == '-' {
            Some(FloatScan::ExpSigned)
        } else {
            None
        },
        FloatScan::ExpSigned => if is_dec_digit(c) {
            Some(FloatScan::ExpDigits)
        } else {
            None
        },
        FloatScan::ExpDigits => if is_dec_digit(c) {
            Some(FloatScan::ExpDigits)
        } else {
            None
        },
    }
}

/// Whether the scanner accepts the rest of `s` from position `i` in state `st`.
pub open spec fn float_accept(s: Seq<char>, i: int, st: FloatScan) -> bool
    decreases s.len() - i,
{
    if i < 0 || i >= s.len() {
        float_accepting(st)
    } else {
        match float_step(st, s[i]) {
            Some(st2) => float_accept(s, i + 1, st2),
            None => false,
        }
    }
}

/// Whether `c` is `l`, or `l`'s upper-case form.
pub open spec fn ci_eq(c: char, l: char, u: char) -> bool {
    c == l || c == u
}

/// The word `inf`, in any letter case.
pub open spec fn is_inf_word(s: Seq<char>) -> bool {
    s.len() == 3 && ci_eq(s[0], 'i', 'I') && ci_eq(s[1], 'n', 'N') && ci_eq(s[2], 'f', 'F')
}

/// The word `infinity`, in any letter case.
pub open spec fn is_infinity_word(s: Seq<char>) -> bool {
    s.len() == 8 && ci_eq(s[0], 'i', 'I') && ci_eq(s[1], 'n', 'N') && ci_eq(s[2], 'f', 'F')
        && ci_eq(s[3], 'i', 'I') && ci_eq(s[4], 'n', 'N') && ci_eq(s[5], 'i', 'I')
        && ci_eq(s[6], 't', 'T') && ci_eq(s[7], 'y', 'Y')
}

/// The word `nan`, in any letter case.
pub open spec fn is_nan_word(s: Seq<char>) -> bool {
    s.len() == 3 && ci_eq(s[0], 'n', 'N') && ci_eq(s[1], 'a', 'A') && ci_eq(s[2], 'n', 'N')
}

/// Whether `s` is a well-formed decimal floating-point literal: an optional
/// sign, then an infinity or not-a-number word or a mantissa with an optional
/// fraction and exponent.
pub open spec fn is_float_text(s: Seq<char>) -> bool {
    let b = signed_body(s);
    is_inf_word(b) || is_infinity_word(b) || is_nan_word(b) || float_accept(
        b,
        0,
        FloatScan::MantStart,
    )
}

fn float_step_exec(st: FloatScan, c: char) -> (r: Option<FloatScan>)
    ensures
        r == float_step(st, c),
{
    let digit = char_digit(c).is_some();
    match st {
        FloatScan::MantStart => if digit {
            Some(FloatScan::MantDigits)
        } else if c == '.' {
            Some(FloatScan::FracStart)
        } else {
            None
        },
        FloatScan::MantDigits => if digit {
            Some(FloatScan::MantDigits)
        } else if c == '.' {
            Some(FloatScan::FracDigits)
        } else if c == 'e' || c == 'E' {
            Some(FloatScan::ExpStart)
        } else {
            None
        },
        FloatScan::FracStart => if digit {
            Some(FloatScan::FracDigits)
        } else {
            None
        },
        FloatScan::FracDigits => if digit {
            Some(FloatScan::FracDigits)
        } else if c == 'e' || c == 'E' {
            Some(FloatScan::ExpStart)
        } else {
            None
        },
        FloatScan::ExpStart => if digit {
            Some(FloatScan::ExpDigits)
        } else if c == '+' || c == '-' {
            Some(FloatScan::ExpSigned)
        } else {
            None
        },
        FloatScan::ExpSigned => if digit {
            Some(FloatScan::ExpDigits)
        } else {
            None
        },
        FloatScan::ExpDigits => if digit {
            Some(FloatScan::ExpDigits)
        } else {
            None
        },
    }
}

fn word_char_at(s: &str, start: usize, off: usize, l: char, u: char) -> (r: bool)
    requires
        start + off < s@.len(),
        s@.len() <= usize::MAX,
    ensures
        r == ci_eq(s@.skip(start as int)[off as int], l, u),
{
    let c = s.get_char(start + off);
    c == l || c == u
}

/// Whether `s` is a well-formed decimal floating-point literal.
pub fn is_float_literal(s: &str) -> (r: bool)
    ensures
        r == is_float_text(s@),
{
    let n = s.unicode_len();
    let start: usize = if n > 0 && (s.get_char(0) == '-' || s.get_char(0) == '+') {
        1
    } else {
        0
    };
    let ghost b = signed_body(s@);
    proof {
        assert(b =~= s@.skip(start as int));
    }
    let m = n - start;
    if m == 3 {
        if (word_char_at(s, start, 0, 'i', 'I') && word_char_at(s, start, 1, 'n', 'N')
            && word_char_at(s, start, 2, 'f', 'F')) || (word_char_at(s, start, 0, 'n', 'N')
            && word_char_at(s, start, 1, 'a', 'A') && word_char_at(s, start, 2, 'n', 'N')) {
            return true;
        }
    }
    if m == 8 {
        if word_char_at(s, start, 0, 'i', 'I') && word_char_at(s, start, 1, 'n', 'N')
            && word_char_at(s, start, 2, 'f', 'F') && word_char_at(s, start, 3, 'i', 'I')
            && word_char_at(s, start, 4, 'n', 'N') && word_char_at(s, start, 5, 'i', 'I')
            && word_char_at(s, start, 6, 't', 'T') && word_char_at(s, start, 7, 'y', 'Y') {
            return true;
        }
    }
    let mut st = FloatScan::MantStart;
    let mut i: usize = start;
    while i < n
        invariant
            start <= i <= n,
            n == s@.len(),
            b == s@.skip(start as int),
            b == signed_body(s@),
            float_accept(b, 0, FloatScan::MantStart) == float_accept(b, i - start, st),
            !is_inf_word(b) && !is_infinity_word(b) && !is_nan_word(b),
        decreases n - i,
    {
        let c = s.get_char(i);
        proof {
            assert(b[i - start] == s@[i as int]);
        }
        match float_step_exec(st, c) {
            Some(st2) => {
                st = st2;
            }
            None => {
                proof {
                    assert(0 <= i - start < b.len());
                    assert(!float_accept(b, i - start, st));
                }
                return false;
            }
        }
        i = i + 1;
    }
    proof {
        assert(i - start >= b.len());
        assert(float_accept(b, i - start, st) == float_accepting(st));
    }
    match st {
        FloatScan::MantDigits | FloatScan::FracDigits | FloatScan::ExpDigits => true,
        _ => false,
    }
}

/// Relies on std's String::push: appends one character at the end.
#[verifier::external_body]
pub fn push_char(s: &mut String, c: char)
    ensures
        final(s)@ == old(s)@.push(c),
{
    s.push(c);
}

/// Whether two strings hold the same characters.
pub fn str_eq(a: &str, b: &str) -> (r: bool)
    ensures
        r == (a@ == b@),
{
    let an = a.unicode_len();
    let bn = b.unicode_len();
    if an != bn {
        proof {
            assert(a@ != b@);
        }
        return false;
    }
    let mut i: usize = 0;
    while i < an
        invariant
            0 <= i <= an,
            an == a@.len() == b@.len(),
            forall|j: int| 0 <= j < i ==> a@[j] == b@[j],
        decreases an - i,
    {
        if a.get_char(i) != b.get_char(i) {
            proof {
                assert(a@[i as int] != b@[i as int]);
            }
            return false;
        }
        i = i + 1;
    }
    proof {
        assert(a@ =~= b@);
    }
    true
}

/// Whether `p` is a prefix of `s`.
pub open spec fn has_prefix(s: Seq<char>, p: Seq<char>) -> bool {
    p.len() <= s.len() && s.take(p.len() as int) == p
}

/// Whether `s` starts with `p`.
pub fn starts_with(s: &str, p: &str) -> (r: bool)
    ensures
        r == has_prefix(s@, p@),
{
    let sn = s.unicode_len();
    let pn = p.unicode_len();
    if pn > sn {
        return false;
    }
    let mut i: usize = 0;
    while i < pn
        invariant
            0 <= i <= pn,
            pn == p@.len(),
            sn == s@.len(),
            pn <= sn,
            forall|j: int| 0 <= j < i ==> s@[j] == p@[j],
        decreases pn - i,
    {
        if s.get_char(i) != p.get_char(i) {
            proof {
                assert(s@[i as int] != p@[i as int]);
                if has_prefix(s@, p@) {
                    assert(s@.take(p@.len() as int)[i as int] == p@[i as int]);
                }
            }
            return false;
        }
        i = i + 1;
    }
    proof {
        assert(s@.take(p@.len() as int) =~= p@);
    }
    true
}

/// Whether `sub` occurs in `s` at position `k`.
pub open spec fn occurs_at(s: Seq<char>, sub: Seq<char>, k: int) -> bool {
    0 <= k && k + sub.len() <= s.len() && s.subrange(k, k + sub.len() as int) == sub
}

/// Whether `sub` occurs somewhere in `s`.
pub open spec fn contains_sub(s: Seq<char>, sub: Seq<char>) -> bool {
    exists|k: int| occurs_at(s, sub, k)
}

fn matches_at(s: &str, sub: &str, k: usize) -> (r: bool)
    requires
        k + sub@.len() <= s@.len(),
        s@.len() <= usize::MAX,
    ensures
        r == occurs_at(s@, sub@, k as int),
{
    let n = sub.unicode_len();
    let mut i: usize = 0;
    while i < n
        invariant
            0 <= i <= n,
            n == sub@.len(),
            k + n <= s@.len() <= usize::MAX,
            forall|j: int| 0 <= j < i ==> s@[k + j] == sub@[j],
        decreases n - i,
    {
        if s.get_char(k + i) != sub.get_char(i) {
            proof {
                if occurs_at(s@, sub@, k as int) {
                    assert(s@.subrange(k as int, k + sub@.len() as int)[i as int] == sub@[i as int]);
                }
            }
            return false;
        }
        i = i + 1;
    }
    proof {
        assert(s@.subrange(k as int, k + sub@.len() as int) =~= sub@);
    }
    true
}

/// Whether `s` holds `sub` as a contiguous run of characters.
pub fn contains_str(s: &str, sub: &str) -> (r: bool)
    ensures
        r == contains_sub(s@, sub@),
{
    let sn = s.unicode_len();
    let n = sub.unicode_len();
    if n > sn {
        proof {
            assert(forall|k: int| !occurs_at(s@, sub@, k));
        }
        return false;
    }
    if n == 0 {
        proof {
            assert(s@.subrange(0, 0) =~= sub@);
            assert(occurs_at(s@, sub@, 0));
        }
        return true;
    }
    let mut k: usize = 0;
    while k <= sn - n
        invariant
            0 <= k <= sn - n + 1,
            1 <= n <= sn,
            sn == s@.len(),
            n == sub@.len(),
            forall|j: int| 0 <= j < k ==> !occurs_at(s@, sub@, j),
        decreases sn - n - k + 1,
    {
        if matches_at(s, sub, k) {
            return true;
        }
        k = k + 1;
    }
    proof {
        assert(forall|j: int| occurs_at(s@, sub@, j) ==> 0 <= j <= sn - n);
    }
    false
}

/// The position of the first occurrence of `sub` in `s`, if any.
pub open spec fn find_sub(s: Seq<char>, sub: Seq<char>) -> Option<nat>
    decreases s.len(),
{
    if occurs_at(s, sub, 0) {
        Some(0 as nat)
    } else if s.len() == 0 {
        None
    } else {
        match find_sub(s.drop_first(), sub) {
            Some(k) => Some((k + 1) as nat),
            None => None,
        }
    }
}

proof fn lemma_occurs_at_drop_first(s: Seq<char>, sub: Seq<char>, j: int)
    requires
        s.len() > 0,
        0 <= j,
    ensures
        occurs_at(s.drop_first(), sub, j) == occurs_at(s, sub, j + 1),
{
    if j + 1 + sub.len() <= s.len() {
        assert(s.drop_first().subrange(j, j + sub.len() as int) =~= s.subrange(
            j + 1,
            j + 1 + sub.len() as int,
        ));
    }
}

pub proof fn lemma_find_sub(s: Seq<char>, sub: Seq<char>)
    ensures
        match find_sub(s, sub) {
            Some(k) => occurs_at(s, sub, k as int) && forall|j: int|
                0 <= j < k ==> !occurs_at(s, sub, j),
            None => forall|j: int| !occurs_at(s, sub, j),
        },
    decreases s.len(),
{
    if !occurs_at(s, sub, 0) && s.len() > 0 {
        lemma_find_sub(s.drop_first(), sub);
        assert forall|j: int| 0 <= j implies occurs_at(s.drop_first(), sub, j) == occurs_at(
            s,
            sub,
            j + 1,
        ) by {
            lemma_occurs_at_drop_first(s, sub, j);
        }
        match find_sub(s.drop_first(), sub) {
            Some(k) => {
                assert(occurs_at(s, sub, k + 1 as int));
                assert forall|j: int| 0 <= j < k + 1 implies !occurs_at(s, sub, j) by {
                    if j > 0 {
                        assert(!occurs_at(s.drop_first(), sub, j - 1));
                    }
                }
            }
            None => {
                assert forall|j: int| !occurs_at(s, sub, j) by {
                    if j > 0 {
                        assert(!occurs_at(s.drop_first(), sub, j - 1));
                    }
                }
            }
        }
    }
}

/// The position of the first occurrence of `sub` in `s`, if any.
pub fn find_substr(s: &str, sub: &str) -> (r: Option<usize>)
    ensures
        match r {
            Some(k) => find_sub(s@, sub@) == Some(k as nat),
            None => find_sub(s@, sub@) is None,
        },
{
    proof {
        lemma_find_sub(s@, sub@);
    }
    let sn = s.unicode_len();
    let n = sub.unicode_len();
    if n > sn {
        proof {
            assert(forall|k: int| !occurs_at(s@, sub@, k));
        }
        return None;
    }
    if n == 0 {
        proof {
            assert(s@.subrange(0, 0) =~= sub@);
            assert(occurs_at(s@, sub@, 0));
        }
        return Some(0);
    }
    let mut k: usize = 0;
    while k <= sn - n
        invariant
            0 <= k <= sn - n + 1,
            1 <= n <= sn,
            sn == s@.len() <= usize::MAX,
            n == sub@.len(),
            forall|j: int| 0 <= j < k ==> !occurs_at(s@, sub@, j),
        decreases sn - n - k + 1,
    {
        if matches_at(s, sub, k) {
            proof {
                lemma_find_sub(s@, sub@);
                if find_sub(s@, sub@) is None {
                    assert(!occurs_at(s@, sub@, k as int));
                }
                let k0 = find_sub(s@, sub@)->0;
                if k0 < k {
                    assert(!occurs_at(s@, sub@, k0 as int));
                }
                if k0 > k {
                    assert(!occurs_at(s@, sub@, k as int));
                }
            }
            return Some(k);
        }
        k = k + 1;
    }
    proof {
        lemma_find_sub(s@, sub@);
        assert(forall|j: int| occurs_at(s@, sub@, j) ==> 0 <= j <= sn - n);
        if find_sub(s@, sub@) is Some {
            assert(occurs_at(s@, sub@, find_sub(s@, sub@)->0 as int));
        }
    }
    None
}

/// The pieces of `s` between occurrences of the separator `c`; always one
/// more piece than separators.
pub open spec fn split_seq(s: Seq<char>, c: char) -> Seq<Seq<char>>
    decreases s.len(),
{
    if s.len() == 0 {
        seq![Seq::<char>::empty()]
    } else if s[0] == c {
        seq![Seq::<char>::empty()] + split_seq(s.drop_first(), c)
    } else {
        let rest = split_seq(s.drop_first(), c);
        seq![seq![s[0]] + rest[0]] + rest.drop_first()
    }
}

pub proof fn lemma_split_seq_len(s: Seq<char>, c: char)
    ensures
        split_seq(s, c).len() >= 1,
    decreases s.len(),
{
    if s.len() != 0 {
        lemma_split_seq_len(s.drop_first(), c);
    }
}

/// The views of a vector of strings.
pub open spec fn views_of(v: Seq<String>) -> Seq<Seq<char>> {
    v.map_values(|t: String| t@)
}

/// Splits `s` at each occurrence of `c`.
pub fn split_str(s: &str, c: char) -> (r: Vec<String>)
    ensures
        views_of(r@) == split_seq(s@, c),
{
    let n = s.unicode_len();
    let mut parts: Vec<String> = Vec::new();
    let mut cur = String::new();
    let mut i: usize = 0;
    proof {
        lemma_split_seq_len(s@, c);
        assert(s@.skip(0) =~= s@);
        assert(views_of(parts@) =~= Seq::<Seq<char>>::empty());
        assert(cur@ + split_seq(s@, c)[0] =~= split_seq(s@, c)[0]);
        assert(split_seq(s@, c) =~= views_of(parts@) + seq![cur@ + split_seq(s@.skip(0), c)[0]]
            + split_seq(s@.skip(0), c).drop_first());
    }
    while i < n
        invariant
            0 <= i <= n,
            n == s@.len(),
            split_seq(s@, c) == views_of(parts@) + seq![cur@ + split_seq(s@.skip(i as int), c)[0]]
                + split_seq(s@.skip(i as int), c).drop_first(),
        decreases n - i,
    {
        let ghost tail = split_seq(s@.skip(i as int), c);
        let ghost tail2 = split_seq(s@.skip(i as int + 1), c);
        proof {
            lemma_split_seq_len(s@.skip(i as int), c);
            lemma_split_seq_len(s@.skip(i as int + 1), c);
            assert(s@.skip(i as int).len() > 0);
            assert(s@.skip(i as int)[0] == s@[i as int]);
            assert(s@.skip(i as int).drop_first() =~= s@.skip(i as int + 1));
        }
        let ch = s.get_char(i);
        if ch == c {
            proof {
                assert(tail =~= seq![Seq::<char>::empty()] + tail2);
                assert(views_of(parts@.push(cur)) =~= views_of(parts@) + seq![cur@]);
                assert(tail[0] =~= Seq::<char>::empty());
                assert(cur@ + tail[0] =~= cur@);
                assert(tail.drop_first() =~= tail2);
            }
            parts.push(cur);
            cur = String::new();
            proof {
                assert(split_seq(s@, c) =~= views_of(parts@) + seq![cur@ + tail2[0]]
                    + tail2.drop_first());
            }
        } else {
            proof {
                assert(tail =~= seq![seq![s@[i as int]] + tail2[0]] + tail2.drop_first());
                assert(tail[0] =~= seq![s@[i as int]] + tail2[0]);
                assert(cur@.push(ch) + tail2[0] =~= cur@ + tail[0]);
                assert(tail.drop_first() =~= tail2.drop_first());
            }
            push_char(&mut cur, ch);
            proof {
                assert(split_seq(s@, c) =~= views_of(parts@) + seq![cur@ + tail2[0]]
                    + tail2.drop_first());
            }
        }
        i = i + 1;
    }
    proof {
        assert(s@.skip(n as int) =~= Seq::<char>::empty());
        assert(split_seq(s@.skip(n as int), c) =~= seq![Seq::<char>::empty()]);
        assert(cur@ + Seq::<char>::empty() =~= cur@);
        assert(split_seq(s@.skip(n as int), c).drop_first() =~= Seq::<Seq<char>>::empty());
        assert(views_of(parts@.push(cur)) =~= views_of(parts@) + seq![cur@]);
    }
    parts.push(cur);
    proof {
        assert(views_of(parts@) =~= split_seq(s@, c));
    }
    parts
}

/// The pieces joined with the separator between them.
pub open spec fn join_with(parts: Seq<Seq<char>>, sep: Seq<char>) -> Seq<char>
    decreases parts.len(),
{
    if parts.len() == 0 {
        Seq::empty()
    } else if parts.len() == 1 {
        parts[0]
    } else {
        parts[0] + sep + join_with(parts.drop_first(), sep)
    }
}

/// Joins the strings with the separator between them.
pub fn join_strings(v: &Vec<String>, sep: &str) -> (r: String)
    ensures
        r@ == join_with(views_of(v@), sep@),
{
    let ghost vv = views_of(v@);
    let mut s = String::new();
    let mut i: usize = 0;
    proof {
        assert(vv.take(0) =~= Seq::<Seq<char>>::empty());
    }
    while i < v.len()
        invariant
            0 <= i <= v@.len(),
            vv == views_of(v@),
            vv.len() == v@.len(),
            s@ == join_with(vv.take(i as int), sep@),
        decreases v@.len() - i,
    {
        proof {
            assert(vv[i as int] == v@[i as int]@);
            lemma_join_push(vv.take(i as int), sep@, vv[i as int]);
            assert(vv.take(i as int + 1) =~= vv.take(i as int).push(vv[i as int]));
        }
        if i > 0 {
            s.append(sep);
        }
        s.append(v[i].as_str());
        proof {
            if i == 0 {
                assert(s@ =~= join_with(vv.take(1), sep@));
            } else {
                assert(s@ =~= join_with(vv.take(i as int + 1), sep@));
            }
        }
        i = i + 1;
    }
    proof {
        assert(vv.take(vv.len() as int) =~= vv);
    }
    s
}

pub proof fn lemma_join_push(parts: Seq<Seq<char>>, sep: Seq<char>, x: Seq<char>)
    ensures
        join_with(parts.push(x), sep) == if parts.len() == 0 {
            x
        } else {
            join_with(parts, sep) + sep + x
        },
    decreases parts.len(),
{
    if parts.len() == 0 {
        assert(parts.push(x) =~= seq![x]);
        assert(join_with(seq![x], sep) == x);
    } else if parts.len() == 1 {
        assert(parts.push(x).drop_first() =~= seq![x]);
        assert(parts.push(x)[0] == parts[0]);
        assert(join_with(seq![x], sep) == x);
        assert(join_with(parts.push(x), sep) == parts[0] + sep + x);
    } else {
        assert(parts.push(x).drop_first() =~= parts.drop_first().push(x));
        lemma_join_push(parts.drop_first(), sep, x);
        assert(join_with(parts.push(x), sep) == parts[0] + sep + join_with(
            parts.drop_first().push(x),
            sep,
        ));
        assert(parts[0] + sep + (join_with(parts.drop_first(), sep) + sep + x) =~= (parts[0] + sep
            + join_with(parts.drop_first(), sep)) + sep + x);
    }
}

} // verus!
