use vstd::prelude::*;

use crate::text::{chars_of, string_of};

verus! {

/// The character of a digit below 16: `0`-`9`, then `A`-`F`.
pub open spec fn digit_char(d: nat) -> char {
    if d < 10 {
        (d + 48) as char
    } else {
        (d + 55) as char
    }
}

/// The digits of `n` in base `b`, most significant first, without leading zeros.
pub open spec fn digits(n: nat, b: nat) -> Seq<char>
    recommends
        2 <= b <= 16,
    decreases n,
{
    if b < 2 || n < b {
        seq![digit_char(n)]
    } else {
        proof {
            vstd::arithmetic::div_mod::lemma_div_decreases(n as int, b as int);
        }
        digits(n / b, b).push(digit_char(n % b))
    }
}

/// `x` written in decimal, with a leading `-` when it is negative.
pub open spec fn decimal(x: int) -> Seq<char> {
    if x < 0 {
        seq!['-'] + digits((-x) as nat, 10)
    } else {
        digits(x as nat, 10)
    }
}

/// The character of a digit below 16.
fn digit_of(d: u64) -> (c: char)
    requires
        d < 16,
    ensures
        c == digit_char(d as nat),
{
    if d < 10 {
        ((d as u8) + 48) as char
    } else {
        ((d as u8) + 55) as char
    }
}

/// Appends the digits of `n` in base `b`.
fn push_digits(n: u64, b: u64, out: &mut Vec<char>)
    requires
        2 <= b <= 16,
    ensures
        final(out)@ == old(out)@ + digits(n as nat, b as nat),
    decreases n,
{
    if n >= b {
        proof {
            vstd::arithmetic::div_mod::lemma_div_decreases(n as int, b as int);
        }
        push_digits(n / b, b, out);
    } else {
        proof {
            vstd::arithmetic::div_mod::lemma_small_mod(n as nat, b as nat);
        }
    }
    out.push(digit_of(n % b));
}

/// `n` in decimal.
pub fn u64_to_decimal(n: u64) -> (s: String)
    ensures
        s@ == digits(n as nat, 10),
{
    let mut out: Vec<char> = Vec::new();
    push_digits(n, 10, &mut out);
    string_of(&out)
}

/// `x` in decimal, with a `-` before a negative number.
pub fn i32_to_decimal(x: i32) -> (s: String)
    ensures
        s@ == decimal(x as int),
{
    let mut out: Vec<char> = Vec::new();
    if x < 0 {
        out.push('-');
        let m: u64 = (0i64 - (x as i64)) as u64;
        push_digits(m, 10, &mut out);
    } else {
        push_digits(x as u64, 10, &mut out);
    }
    string_of(&out)
}

/// `n` in hexadecimal, upper-case digits, without leading zeros.
pub fn u64_to_upper_hex(n: u64) -> (s: String)
    ensures
        s@ == digits(n as nat, 16),
{
    let mut out: Vec<char> = Vec::new();
    push_digits(n, 16, &mut out);
    string_of(&out)
}

/// Whether `c` is one of the ASCII decimal digits.
pub open spec fn is_digit(c: char) -> bool {
    '0' <= c <= '9'
}

/// The number that the decimal digits `s` write.
pub open spec fn digits_value(s: Seq<char>) -> nat
    decreases s.len(),
{
    if s.len() == 0 {
        0
    } else {
        digits_value(s.drop_last()) * 10 + ((s.last() as int - 48) as nat)
    }
}

/// `s` without one leading `+`, where it has one.
pub open spec fn sign_stripped(s: Seq<char>) -> Seq<char> {
    if s.len() > 0 && s[0] == '+' {
        s.skip(1)
    } else {
        s
    }
}

/// Whether every character of `d` is a decimal digit.
pub open spec fn all_digits(d: Seq<char>) -> bool {
    forall|i: int| 0 <= i < d.len() ==> is_digit(#[trigger] d[i])
}

/// What reading `s` as an unsigned number no larger than `max` gives, as std reads one:
/// an optional `+`, then one or more decimal digits whose value does not exceed `max`.
pub open spec fn parse_unsigned(s: Seq<char>, max: nat) -> Option<nat> {
    let d = sign_stripped(s);
    if d.len() > 0 && all_digits(d) && digits_value(d) <= max {
        Some(digits_value(d))
    } else {
        None
    }
}

proof fn lemma_digits_value_monotone(s: Seq<char>, t: Seq<char>)
    requires
        s.len() <= t.len(),
        s == t.take(s.len() as int),
        forall|i: int| 0 <= i < t.len() ==> is_digit(#[trigger] t[i]),
    ensures
        digits_value(s) <= digits_value(t),
    decreases t.len(),
{
    if s.len() < t.len() {
        assert(t.drop_last().take(s.len() as int) == s);
        lemma_digits_value_monotone(s, t.drop_last());
    } else {
        assert(s == t);
    }
}

/// Reads the characters of `chars` from `start` on as decimal digits whose value does not
/// exceed `max`.
fn parse_digits_from(chars: &Vec<char>, start: usize, max: u64) -> (r: Option<u64>)
    requires
        start <= chars.len(),
        max >= 9,
    ensures
        ({
            let d = chars@.skip(start as int);
            match r {
                Some(v) => d.len() > 0 && all_digits(d) && digits_value(d) <= max && v == digits_value(d),
                None => !(d.len() > 0 && all_digits(d) && digits_value(d) <= max),
            }
        }),
{
    let ghost d = chars@.skip(start as int);
    if start >= chars.len() {
        return None;
    }
    let mut value: u64 = 0;
    let mut i: usize = start;
    while i < chars.len()
        invariant
            start <= i <= chars.len(),
            d == chars@.skip(start as int),
            value as nat == digits_value(d.take(i - start)),
            value <= max,
            max >= 9,
            forall|k: int| 0 <= k < i - start ==> is_digit(#[trigger] d[k]),
        decreases chars.len() - i,
    {
        let c = chars[i];
        assert(d[i - start] == c);
        if !('0' <= c && c <= '9') {
            assert(!is_digit(d[i - start]));
            return None;
        }
        let digit: u64 = ((c as u32) - 48) as u64;
        assert(d.take(i + 1 - start).drop_last() == d.take(i - start));
        assert(digits_value(d.take(i + 1 - start)) == digits_value(d.take(i - start)) * 10 + digit);
        if value > (max - digit) / 10 {
            proof {
                assert(value * 10 + digit > max) by (nonlinear_arith)
                    requires
                        value > (max - digit) / 10,
                        digit <= max || digit > max,
                        digit <= 9,
                ;
                if all_digits(d) {
                    lemma_digits_value_monotone(d.take(i + 1 - start), d);
                }
            }
            return None;
        }
        assert(value * 10 + digit <= max) by (nonlinear_arith)
            requires
                value <= (max - digit) / 10,
                digit <= 9,
                max >= digit,
        ;
        value = value * 10 + digit;
        i = i + 1;
    }
    assert(d.take(d.len() as int) == d);
    Some(value)
}

/// Reads `s` as an unsigned number no larger than `max`.
fn parse_bounded(s: &str, max: u64) -> (r: Option<u64>)
    requires
        max >= 9,
    ensures
        match r {
            Some(v) => parse_unsigned(s@, max as nat) == Some(v as nat),
            None => parse_unsigned(s@, max as nat) is None,
        },
{
    let chars = chars_of(s);
    let start: usize = if chars.len() > 0 && chars[0] == '+' { 1 } else { 0 };
    assert(sign_stripped(s@) =~= chars@.skip(start as int));
    parse_digits_from(&chars, start, max)
}

/// What reading `s` as an `i32` gives, as std reads one: a `-` and one or more decimal
/// digits whose value is at most 2^31, or an unsigned number no larger than `i32::MAX`.
pub open spec fn parse_i32_spec(s: Seq<char>) -> Option<int> {
    if s.len() > 0 && s[0] == '-' {
        let d = s.skip(1);
        if d.len() > 0 && all_digits(d) && digits_value(d) <= 0x8000_0000 {
            Some(-digits_value(d))
        } else {
            None
        }
    } else {
        match parse_unsigned(s, 0x7fff_ffff) {
            Some(v) => Some(v as int),
            None => None,
        }
    }
}

/// Reads `s` as an `i32` in decimal, as std's `str::parse` does.
pub fn parse_i32(s: &str) -> (r: Option<i32>)
    ensures
        match r {
            Some(v) => parse_i32_spec(s@) == Some(v as int),
            None => parse_i32_spec(s@) is None,
        },
{
    let chars = chars_of(s);
    if chars.len() > 0 && chars[0] == '-' {
        match parse_digits_from(&chars, 1, 0x8000_0000) {
            Some(v) => Some((0i64 - (v as i64)) as i32),
            None => None,
        }
    } else {
        match parse_bounded(s, 0x7fff_ffff) {
            Some(v) => Some(v as i32),
            None => None,
        }
    }
}

/// The decimal digits of `n` are digits, there is at least one, and they read back as `n`.
pub proof fn lemma_decimal_digits(n: nat)
    ensures
        all_digits(digits(n, 10)),
        digits_value(digits(n, 10)) == n,
        digits(n, 10).len() > 0,
    decreases n,
{
    let d = digits(n, 10);
    if n < 10 {
        assert(d == seq![digit_char(n)]);
        assert(d.drop_last() =~= Seq::<char>::empty());
        assert(digit_char(n) as int == n + 48);
        assert(digits_value(d.drop_last()) == 0);
        assert(d.last() == digit_char(n));
        assert(digits_value(d) == digits_value(d.drop_last()) * 10 + ((d.last() as int - 48) as nat));
    } else {
        vstd::arithmetic::div_mod::lemma_div_decreases(n as int, 10);
        lemma_decimal_digits(n / 10);
        let p = digits(n / 10, 10);
        let c = digit_char(n % 10);
        assert(d == p.push(c));
        assert(c as int == n % 10 + 48);
        assert(d.drop_last() =~= p);
        assert(n == (n / 10) * 10 + n % 10);
        assert(d.last() == c);
        assert(digits_value(d) == digits_value(p) * 10 + ((c as int - 48) as nat));
        assert forall|i: int| 0 <= i < d.len() implies is_digit(#[trigger] d[i]) by {
            if i < p.len() {
                assert(d[i] == p[i]);
            }
        }
    }
}

/// An `i32` written in decimal reads back as itself.
pub proof fn lemma_i32_decimal_round_trip(x: i32)
    ensures
        parse_i32_spec(decimal(x as int)) == Some(x as int),
{
    let s = decimal(x as int);
    if x < 0 {
        let n = (-x) as nat;
        lemma_decimal_digits(n);
        assert(s.skip(1) =~= digits(n, 10));
    } else {
        let d = digits(x as nat, 10);
        lemma_decimal_digits(x as nat);
        assert(is_digit(d[0]));
        assert(sign_stripped(d) == d);
    }
}

/// Reads `s` as a `u32` in decimal, as std's `str::parse` does.
pub fn parse_u32(s: &str) -> (r: Option<u32>)
    ensures
        match r {
            Some(v) => parse_unsigned(s@, u32::MAX as nat) == Some(v as nat),
            None => parse_unsigned(s@, u32::MAX as nat) is None,
        },
{
    match parse_bounded(s, u32::MAX as u64) {
        Some(v) => Some(v as u32),
        None => None,
    }
}

/// Reads `s` as a `usize` in decimal, as std's `str::parse` does.
pub fn parse_usize(s: &str) -> (r: Option<usize>)
    ensures
        match r {
            Some(v) => parse_unsigned(s@, usize::MAX as nat) == Some(v as nat),
            None => parse_unsigned(s@, usize::MAX as nat) is None,
        },
{
    match parse_bounded(s, usize::MAX as u64) {
        Some(v) => Some(v as usize),
        None => None,
    }
}


/// A character with ASCII capitals made small.
pub open spec fn ascii_lower(c: char) -> char {
    if 'A' <= c <= 'Z' {
        ((c as u32) + 32) as char
    } else {
        c
    }
}

/// `s` without one leading `+` or `-`, where it has one.
pub open spec fn sign_dropped(s: Seq<char>) -> Seq<char> {
    if s.len() > 0 && (s[0] == '+' || s[0] == '-') {
        s.skip(1)
    } else {
        s
    }
}

/// Whether `b` spells `inf`, `infinity` or `nan`, in any mix of cases.
pub open spec fn is_special_float(b: Seq<char>) -> bool {
    let l = b.map_values(|c: char| ascii_lower(c));
    l == seq!['i', 'n', 'f'] || l == seq!['i', 'n', 'f', 'i', 'n', 'i', 't', 'y'] || l == seq!['n', 'a', 'n']
}

/// Whether `c` marks an exponent.
pub open spec fn is_exponent_mark(c: char) -> bool {
    c == 'e' || c == 'E'
}

/// Whether `m` is decimal digits with at most one `.` among them, and at least one digit.
pub open spec fn is_mantissa(m: Seq<char>) -> bool {
    &&& forall|i: int| 0 <= i < m.len() ==> is_digit(#[trigger] m[i]) || m[i] == '.'
    &&& forall|i: int, j: int| #![trigger m[i], m[j]] 0 <= i < j < m.len() && m[i] == '.' ==> m[j] != '.'
    &&& exists|i: int| 0 <= i < m.len() && is_digit(#[trigger] m[i])
}

/// Whether `x` is empty, or an `e` or `E`, an optional sign and one or more digits.
pub open spec fn is_exponent(x: Seq<char>) -> bool {
    x.len() == 0 || (is_exponent_mark(x[0]) && {
        let d = sign_dropped(x.skip(1));
        d.len() > 0 && all_digits(d)
    })
}

/// Whether `s` is text that std reads as an `f64`: an optional sign, then `inf`,
/// `infinity` or `nan` in any case, or a mantissa with an optional exponent.
pub open spec fn is_float_text(s: Seq<char>) -> bool {
    let b = sign_dropped(s);
    is_special_float(b) || exists|k: int| 0 <= k <= b.len() && is_mantissa(#[trigger] b.take(k)) && is_exponent(b.skip(k))
}

/// Whether the characters of `v` from `lo` to `hi` are one or more decimal digits.
fn digits_only(v: &Vec<char>, lo: usize, hi: usize) -> (b: bool)
    requires
        lo <= hi <= v.len(),
    ensures
        b == (hi > lo && all_digits(v@.subrange(lo as int, hi as int))),
{
    if hi <= lo {
        return false;
    }
    let mut i: usize = lo;
    while i < hi
        invariant
            lo <= i <= hi <= v.len(),
            forall|k: int| lo <= k < i ==> is_digit(#[trigger] v@[k]),
        decreases hi - i,
    {
        if !('0' <= v[i] && v[i] <= '9') {
            assert(!is_digit(v@.subrange(lo as int, hi as int)[i - lo]));
            return false;
        }
        i = i + 1;
    }
    assert forall|k: int| 0 <= k < hi - lo implies is_digit(#[trigger] v@.subrange(lo as int, hi as int)[k]) by {
        assert(v@.subrange(lo as int, hi as int)[k] == v@[lo + k]);
    }
    true
}

/// The ASCII lower-case form of a character.
fn lower_ascii(c: char) -> (r: char)
    ensures
        r == ascii_lower(c),
{
    if 'A' <= c && c <= 'Z' {
        ((c as u8) + 32) as char
    } else {
        c
    }
}

/// Whether the characters of `v` from `lo` on spell `word` in any case.
fn spells(v: &Vec<char>, lo: usize, word: &Vec<char>) -> (b: bool)
    requires
        lo <= v.len(),
    ensures
        b == (v@.skip(lo as int).map_values(|c: char| ascii_lower(c)) == word@),
{
    let ghost l = v@.skip(lo as int).map_values(|c: char| ascii_lower(c));
    if v.len() - lo != word.len() {
        assert(l.len() != word@.len());
        return false;
    }
    let mut i: usize = 0;
    while i < word.len()
        invariant
            lo + word.len() == v.len(),
            i <= word.len(),
            l == v@.skip(lo as int).map_values(|c: char| ascii_lower(c)),
            forall|k: int| 0 <= k < i ==> l[k] == word@[k],
        decreases word.len() - i,
    {
        assert(l[i as int] == ascii_lower(v@[lo + i]));
        if lower_ascii(v[lo + i]) != word[i] {
            return false;
        }
        i = i + 1;
    }
    assert(l =~= word@);
    true
}

/// Whether `s` is text that std reads as an `f64`, as `str::parse::<f64>` decides.
#[verifier::rlimit(60)]
#[verifier::spinoff_prover]
pub fn is_float_literal(s: &str) -> (b: bool)
    ensures
        b == is_float_text(s@),
{
    let v = chars_of(s);
    let start: usize = if v.len() > 0 && (v[0] == '+' || v[0] == '-') { 1 } else { 0 };
    let ghost b = sign_dropped(s@);
    assert(b =~= v@.skip(start as int));
    let inf = vec!['i', 'n', 'f'];
    let infinity = vec!['i', 'n', 'f', 'i', 'n', 'i', 't', 'y'];
    let nan = vec!['n', 'a', 'n'];
    if spells(&v, start, &inf) || spells(&v, start, &infinity) || spells(&v, start, &nan) {
        return true;
    }
    assert(!is_special_float(b));
    // the mantissa runs to the first exponent mark
    let mut k: usize = start;
    let mut dots: usize = 0;
    let mut digits_seen: bool = false;
    let mut ok: bool = true;
    while k < v.len() && !(v[k] == 'e' || v[k] == 'E')
        invariant
            start <= k <= v.len(),
            b == v@.skip(start as int),
            forall|i: int| start <= i < k ==> !is_exponent_mark(#[trigger] v@[i]),
            ok == is_mantissa_chars(v@.subrange(start as int, k as int)),
            ok ==> dots <= 1,
            ok ==> (dots == 0 <==> forall|i: int| start <= i < k ==> #[trigger] v@[i] != '.'),
            ok ==> (digits_seen <==> exists|i: int| start <= i < k && is_digit(#[trigger] v@[i])),
        decreases v.len() - k,
    {
        let c = v[k];
        let ghost m = v@.subrange(start as int, k as int);
        let ghost m2 = v@.subrange(start as int, k + 1);
        assert(m2.drop_last() =~= m);
        if ok {
            if '0' <= c && c <= '9' {
                digits_seen = true;
                assert(is_mantissa_chars(m2)) by {
                    assert forall|i: int, j: int| #![trigger m2[i], m2[j]] 0 <= i < j < m2.len() && m2[i] == '.' implies m2[j] != '.' by {
                        if j < m.len() {
                            assert(m[i] == m2[i] && m[j] == m2[j]);
                        }
                    }
                    assert forall|i: int| 0 <= i < m2.len() implies is_digit(#[trigger] m2[i]) || m2[i] == '.' by {
                        if i < m.len() {
                            assert(m[i] == m2[i]);
                        }
                    }
                }
            } else if c == '.' && dots == 0 {
                dots = 1;
                assert(is_mantissa_chars(m2)) by {
                    assert forall|i: int, j: int| #![trigger m2[i], m2[j]] 0 <= i < j < m2.len() && m2[i] == '.' implies m2[j] != '.' by {
                        if j < m.len() {
                            assert(m[i] == m2[i] && m[j] == m2[j]);
                        } else {
                            assert(m2[i] == v@[start + i]);
                        }
                    }
                    assert forall|i: int| 0 <= i < m2.len() implies is_digit(#[trigger] m2[i]) || m2[i] == '.' by {
                        if i < m.len() {
                            assert(m[i] == m2[i]);
                        }
                    }
                }
            } else {
                ok = false;
                assert(!is_mantissa_chars(m2)) by {
                    if c == '.' {
                        let w = choose|i: int| start <= i < k && #[trigger] v@[i] == '.';
                        assert(m2[w - start] == '.' && m2[k - start] == '.');
                    } else {
                        assert(!(is_digit(m2[k - start]) || m2[k - start] == '.'));
                    }
                }
            }
        } else {
            assert(!is_mantissa_chars(m2)) by {
                assert forall|i: int, j: int| #![trigger m[i], m[j]] 0 <= i < j < m.len() && m[i] == '.' && is_mantissa_chars(m2) implies m[j] != '.' by {
                    assert(m[i] == m2[i] && m[j] == m2[j]);
                }
                if is_mantissa_chars(m2) {
                    assert forall|i: int| 0 <= i < m.len() implies is_digit(#[trigger] m[i]) || m[i] == '.' by {
                        assert(m[i] == m2[i]);
                    }
                }
            }
        }
        k = k + 1;
    }
    let ghost kk = k - start;
    let ghost m = b.take(kk);
    assert(m =~= v@.subrange(start as int, k as int));
    let mantissa_ok = ok && digits_seen;
    proof {
        if ok && digits_seen {
            let w = choose|i: int| start <= i < k && is_digit(#[trigger] v@[i]);
            assert(m[w - start] == v@[w]);
        }
        if ok && !digits_seen {
            assert(!is_mantissa(m)) by {
                if is_mantissa(m) {
                    let w = choose|i: int| 0 <= i < m.len() && is_digit(#[trigger] m[i]);
                    assert(m[w] == v@[start + w]);
                }
            }
        }
        assert(mantissa_ok == is_mantissa(m));
    }
    // then an optional exponent
    let exponent_ok = if k == v.len() {
        true
    } else {
        let e = k + 1;
        let d = if e < v.len() && (v[e] == '+' || v[e] == '-') { e + 1 } else { e };
        proof {
            let x = b.skip(kk);
            assert(x.skip(1) =~= v@.skip(e as int));
            assert(sign_dropped(x.skip(1)) =~= v@.subrange(d as int, v.len() as int));
        }
        digits_only(&v, d, v.len())
    };
    proof {
        assert(exponent_ok == is_exponent(b.skip(kk))) by {
            if k < v.len() {
                assert(b.skip(kk)[0] == v@[k as int]);
            }
        }
        if !(mantissa_ok && exponent_ok) {
            assert forall|j: int| 0 <= j <= b.len() implies !(is_mantissa(#[trigger] b.take(j)) && is_exponent(b.skip(j))) by {
                if is_mantissa(b.take(j)) && is_exponent(b.skip(j)) {
                    if j < kk {
                        assert(b.skip(j)[0] == v@[start + j]);
                    } else if j > kk {
                        assert(b.take(j)[kk] == v@[k as int]);
                        assert(is_exponent_mark(v@[k as int]));
                    }
                    assert(j == kk);
                }
            }
        }
    }
    mantissa_ok && exponent_ok
}

/// Whether every character of `m` is a digit or a `.`, with at most one `.`.
pub open spec fn is_mantissa_chars(m: Seq<char>) -> bool {
    &&& forall|i: int| 0 <= i < m.len() ==> is_digit(#[trigger] m[i]) || m[i] == '.'
    &&& forall|i: int, j: int| #![trigger m[i], m[j]] 0 <= i < j < m.len() && m[i] == '.' ==> m[j] != '.'
}

} // verus!
