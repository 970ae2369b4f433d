//! Text the portal builds: decimal and hexadecimal numerals, UTF-8 decoding.
use vstd::prelude::*;
use vstd::utf8::{valid_utf8, decode_utf8};
use vstd::string::StrSliceExecFns;

verus! {

/// `String::push`: appends one character.
#[verifier::external_body]
pub(crate) fn push_char(s: &mut String, c: char)
    ensures
        final(s)@ == old(s)@.push(c),
{
    s.push(c);
}

/// `std::str::from_utf8`: the text the bytes encode, when they are valid UTF-8.
#[verifier::external_body]
pub(crate) fn str_from_utf8(v: &[u8]) -> (r: Option<&str>)
    ensures
        r is Some <==> valid_utf8(v@),
        r matches Some(s) ==> s@ == decode_utf8(v@),
{
    std::str::from_utf8(v).ok()
}

/// Whether two strings hold the same characters.
pub(crate) fn str_equal(a: &str, b: &str) -> (r: bool)
    ensures
        r == (a@ == b@),
{
    let n = a.unicode_len();
    if n != b.unicode_len() {
        return false;
    }
    let mut i: usize = 0;
    while i < n
        invariant
            n == a@.len(),
            n == b@.len(),
            i <= n,
            forall|j: int| 0 <= j < i ==> a@[j] == b@[j],
        decreases n - i,
    {
        if a.get_char(i) != b.get_char(i) {
            return false;
        }
        i = i + 1;
    }
    assert(a@ =~= b@);
    true
}

/// The character of a digit below sixteen, lower case.
pub open spec fn digit_char_spec(d: nat) -> char {
    if d == 0 { '0' } else if d == 1 { '1' } else if d == 2 { '2' } else if d == 3 { '3' }
    else if d == 4 { '4' } else if d == 5 { '5' } else if d == 6 { '6' } else if d == 7 { '7' }
    else if d == 8 { '8' } else if d == 9 { '9' } else if d == 10 { 'a' } else if d == 11 { 'b' }
    else if d == 12 { 'c' } else if d == 13 { 'd' } else if d == 14 { 'e' } else { 'f' }
}

/// The numeral of `n` in base `base`, most significant digit first, without leading zeros.
pub open spec fn numeral(n: nat, base: nat) -> Seq<char>
    decreases n,
{
    if base < 2 || n < base {
        seq![digit_char_spec(n)]
    } else {
        proof {
            assert(n / base < n) by (nonlinear_arith)
                requires
                    base >= 2,
                    n >= base,
            ;
        }
        numeral(n / base, base).push(digit_char_spec(n % base))
    }
}

/// The decimal numeral of a signed integer: a minus sign before negative values.
pub open spec fn signed_decimal(i: int) -> Seq<char> {
    if i < 0 { seq!['-'] + numeral((-i) as nat, 10) } else { numeral(i as nat, 10) }
}

fn digit_char(d: u8) -> (c: char)
    requires
        d < 16,
    ensures
        c == digit_char_spec(d as nat),
{
    match d {
        0 => '0', 1 => '1', 2 => '2', 3 => '3', 4 => '4', 5 => '5', 6 => '6', 7 => '7',
        8 => '8', 9 => '9', 10 => 'a', 11 => 'b', 12 => 'c', 13 => 'd', 14 => 'e', _ => 'f',
    }
}

/// Appends the numeral of `n` in base `base` (ten or sixteen).
pub fn push_numeral(s: &mut String, n: u128, base: u128)
    requires
        base == 10 || base == 16,
    ensures
        final(s)@ == old(s)@ + numeral(n as nat, base as nat),
    decreases n,
{
    if n >= base {
        push_numeral(s, n / base, base);
    }
    push_char(s, digit_char((n % base) as u8));
    assert(n >= base ==> numeral(n as nat, base as nat) == numeral((n / base) as nat, base as nat).push(digit_char_spec((n % base) as nat)));
}

/// The decimal numeral of `n`.
pub fn decimal(n: u128) -> (r: String)
    ensures
        r@ == numeral(n as nat, 10),
{
    let mut s = String::new();
    push_numeral(&mut s, n, 10);
    assert(s@ =~= numeral(n as nat, 10));
    s
}

/// The lower-case hexadecimal numeral of `n`.
pub fn hexadecimal(n: u128) -> (r: String)
    ensures
        r@ == numeral(n as nat, 16),
{
    let mut s = String::new();
    push_numeral(&mut s, n, 16);
    assert(s@ =~= numeral(n as nat, 16));
    s
}

/// The decimal numeral of a signed byte.
pub fn signed_byte_decimal(i: i8) -> (r: String)
    ensures
        r@ == signed_decimal(i as int),
{
    let mut s = String::new();
    if i < 0 {
        push_char(&mut s, '-');
        let m: u128 = (0i16 - i as i16) as u128;
        push_numeral(&mut s, m, 10);
    } else {
        push_numeral(&mut s, i as u128, 10);
    }
    assert(s@ =~= signed_decimal(i as int));
    s
}

/// An ASCII decimal digit.
pub open spec fn is_digit(c: char) -> bool {
    '0' <= c && c <= '9'
}

/// Every character of `s` is a decimal digit.
pub open spec fn all_digits(s: Seq<char>) -> bool {
    forall|i: int| 0 <= i < s.len() ==> is_digit(#[trigger] s[i])
}

/// The value of a string of decimal digits, most significant first.
pub open spec fn digits_value(s: Seq<char>) -> int
    decreases s.len(),
{
    if s.len() == 0 { 0 } else { digits_value(s.drop_last()) * 10 + (s.last() as int - '0' as int) }
}

/// What `str::parse` gives for an unsigned integer type whose largest value
/// is `max`: the text is an optional `+` and then one or more decimal
/// digits, whose value is at most `max`; anything else is an error.
pub open spec fn unsigned_parse(s: Seq<char>, max: int) -> Option<int> {
    let d = if s.len() > 0 && s[0] == '+' { s.drop_first() } else { s };
    if d.len() > 0 && all_digits(d) && digits_value(d) <= max {
        Some(digits_value(d))
    } else {
        None
    }
}

/// The code of `c` with ASCII capitals taken as small letters.
pub open spec fn ascii_lower(c: char) -> int {
    if 'A' <= c && c <= 'Z' { c as int + 32 } else { c as int }
}

/// `str::eq_ignore_ascii_case`: the same characters, but for the case of ASCII letters.
pub open spec fn eq_ignore_ascii_case(a: Seq<char>, b: Seq<char>) -> bool {
    a.len() == b.len() && forall|i: int| 0 <= i < a.len() ==> ascii_lower(#[trigger] a[i]) == ascii_lower(b[i])
}

proof fn lemma_digits_value_nonneg(s: Seq<char>)
    requires
        all_digits(s),
    ensures
        digits_value(s) >= 0,
    decreases s.len(),
{
    if s.len() > 0 {
        assert(all_digits(s.drop_last()));
        lemma_digits_value_nonneg(s.drop_last());
        assert(is_digit(s[s.len() - 1]));
    }
}

proof fn lemma_digits_value_prefix(s: Seq<char>, j: int)
    requires
        all_digits(s),
        0 <= j <= s.len(),
    ensures
        digits_value(s.subrange(0, j)) <= digits_value(s),
    decreases s.len(),
{
    if j < s.len() {
        let p = s.drop_last();
        assert(all_digits(p));
        assert(p.subrange(0, j) =~= s.subrange(0, j));
        lemma_digits_value_prefix(p, j);
        lemma_digits_value_nonneg(p);
        assert(is_digit(s[s.len() - 1]));
    } else {
        assert(s.subrange(0, j) =~= s);
    }
}

/// The unsigned number the text spells, as `str::parse` reads it, if it is
/// at most `max`.
pub fn parse_unsigned(s: &str, max: u64) -> (r: Option<u64>)
    ensures
        unsigned_parse(s@, max as int) == (match r { Some(v) => Some(v as int), None => None::<int> }),
{
    let n = s.unicode_len();
    let start: usize = if n > 0 && s.get_char(0) == '+' { 1 } else { 0 };
    let ghost d = if s@.len() > 0 && s@[0] == '+' { s@.drop_first() } else { s@ };
    assert(d =~= s@.subrange(start as int, n as int));
    if start >= n {
        return None;
    }
    let mut v: u64 = 0;
    let mut k: usize = start;
    while k < n
        invariant
            start <= k <= n,
            n == s@.len(),
            start < n,
            d == s@.subrange(start as int, n as int),
            d == (if s@.len() > 0 && s@[0] == '+' { s@.drop_first() } else { s@ }),
            all_digits(s@.subrange(start as int, k as int)),
            v as int == digits_value(s@.subrange(start as int, k as int)),
            v <= max,
        decreases n - k,
    {
        let c = s.get_char(k);
        if !('0' <= c && c <= '9') {
            assert(d[k - start] == c);
            assert(!all_digits(d));
            return None;
        }
        let digit: u64 = (c as u32 - 48) as u64;
        let w: u128 = v as u128 * 10 + digit as u128;
        let ghost p = s@.subrange(start as int, k + 1);
        assert(p.drop_last() =~= s@.subrange(start as int, k as int));
        assert(w == digits_value(p));
        assert(all_digits(p));
        if w > max as u128 {
            proof {
                if all_digits(d) {
                    assert(d.subrange(0, k + 1 - start) =~= p);
                    lemma_digits_value_prefix(d, k + 1 - start);
                }
            }
            return None;
        }
        v = w as u64;
        k = k + 1;
    }
    assert(s@.subrange(start as int, k as int) =~= d);
    Some(v)
}

/// Whether the text is "true", whatever the case of its letters.
pub fn is_true_text(s: &str) -> (r: bool)
    ensures
        r == eq_ignore_ascii_case(s@, "true"@),
{
    proof {
        reveal_strlit("true");
    }
    let n = s.unicode_len();
    if n != 4 {
        return false;
    }
    let a = s.get_char(0);
    let b = s.get_char(1);
    let c = s.get_char(2);
    let e = s.get_char(3);
    let r = (a == 't' || a == 'T') && (b == 'r' || b == 'R') && (c == 'u' || c == 'U') && (e == 'e' || e == 'E');
    assert(r ==> eq_ignore_ascii_case(s@, "true"@));
    assert(eq_ignore_ascii_case(s@, "true"@) ==> r) by {
        if eq_ignore_ascii_case(s@, "true"@) {
            assert(ascii_lower(s@[0]) == ascii_lower('t'));
            assert(ascii_lower(s@[1]) == ascii_lower('r'));
            assert(ascii_lower(s@[2]) == ascii_lower('u'));
            assert(ascii_lower(s@[3]) == ascii_lower('e'));
        }
    }
    r
}

/// `str::eq_ignore_ascii_case`: whether two strings hold the same
/// characters but for the case of ASCII letters.
pub fn ascii_case_equal(a: &str, b: &str) -> (r: bool)
    ensures
        r == eq_ignore_ascii_case(a@, b@),
{
    let n = a.unicode_len();
    if n != b.unicode_len() {
        return false;
    }
    let mut i: usize = 0;
    while i < n
        invariant
            n == a@.len(),
            n == b@.len(),
            i <= n,
            forall|j: int| 0 <= j < i ==> ascii_lower(#[trigger] a@[j]) == ascii_lower(b@[j]),
        decreases n - i,
    {
        let x = a.get_char(i);
        let y = b.get_char(i);
        let lx: u32 = if 'A' <= x && x <= 'Z' { (x as u32) + 32 } else { x as u32 };
        let ly: u32 = if 'A' <= y && y <= 'Z' { (y as u32) + 32 } else { y as u32 };
        if lx != ly {
            assert(ascii_lower(a@[i as int]) != ascii_lower(b@[i as int]));
            return false;
        }
        i = i + 1;
    }
    true
}

} // verus!
