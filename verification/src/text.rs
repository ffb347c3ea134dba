//! Decimal text: formatting unsigned integers and parsing `u16` values.

use vstd::prelude::*;
use vstd::string::*;

verus! {

/// The ASCII digit for `d` (`d < 10`).
pub open spec fn digit_char(d: nat) -> char {
    if d == 0 {
        '0'
    } else if d == 1 {
        '1'
    } else if d == 2 {
        '2'
    } else if d == 3 {
        '3'
    } else if d == 4 {
        '4'
    } else if d == 5 {
        '5'
    } else if d == 6 {
        '6'
    } else if d == 7 {
        '7'
    } else if d == 8 {
        '8'
    } else {
        '9'
    }
}

/// Whether `c` is one of the ASCII digits `0`..`9`.
pub open spec fn is_ascii_digit(c: char) -> bool {
    '0' <= c && c <= '9'
}

/// The value of an ASCII digit.
pub open spec fn digit_value(c: char) -> nat {
    (c as int - '0' as int) as nat
}

/// Whether every character of `s` is an ASCII digit.
pub open spec fn all_ascii_digits(s: Seq<char>) -> bool {
    forall|i: int| 0 <= i < s.len() ==> #[trigger] is_ascii_digit(s[i])
}

/// The number that a run of ASCII digits denotes in base ten.
pub open spec fn decimal_value(s: Seq<char>) -> nat
    decreases s.len(),
{
    if s.len() == 0 {
        0
    } else {
        decimal_value(s.drop_last()) * 10 + digit_value(s.last())
    }
}

/// The shortest base-ten text of `n`, without sign or leading zeros.
pub open spec fn decimal_text(n: nat) -> Seq<char>
    decreases n,
{
    if n < 10 {
        seq![digit_char(n)]
    } else {
        decimal_text(n / 10).push(digit_char(n % 10))
    }
}

/// `decimal_text(n)` padded on the left with `'0'` up to `width` characters.
pub open spec fn zero_padded(n: nat, width: nat) -> Seq<char> {
    let t = decimal_text(n);
    if t.len() >= width {
        t
    } else {
        Seq::new((width - t.len()) as nat, |i: int| '0') + t
    }
}

/// What `u16::from_str` gives: an optional `+`, then one or more ASCII
/// digits whose value is at most 65535.
pub open spec fn spec_parse_u16(s: Seq<char>) -> Option<u16> {
    let digits = if s.len() > 0 && s[0] == '+' {
        s.drop_first()
    } else {
        s
    };
    if digits.len() > 0 && all_ascii_digits(digits) && decimal_value(digits) <= 65535 {
        Some(decimal_value(digits) as u16)
    } else {
        None
    }
}

/// The text of one decimal digit.
fn digit_str(d: u64) -> (r: &'static str)
    requires
        d < 10,
    ensures
        r@ == seq![digit_char(d as nat)],
{
    proof {
        reveal_strlit("0");
        reveal_strlit("1");
        reveal_strlit("2");
        reveal_strlit("3");
        reveal_strlit("4");
        reveal_strlit("5");
        reveal_strlit("6");
        reveal_strlit("7");
        reveal_strlit("8");
        reveal_strlit("9");
    }
    if d == 0 {
        "0"
    } else if d == 1 {
        "1"
    } else if d == 2 {
        "2"
    } else if d == 3 {
        "3"
    } else if d == 4 {
        "4"
    } else if d == 5 {
        "5"
    } else if d == 6 {
        "6"
    } else if d == 7 {
        "7"
    } else if d == 8 {
        "8"
    } else {
        "9"
    }
}

/// Formats `n` in base ten, as `format!("{}", n)` does.
pub fn decimal_string(n: u64) -> (s: String)
    ensures
        s@ == decimal_text(n as nat),
    decreases n,
{
    if n < 10 {
        String::from_str(digit_str(n))
    } else {
        let mut s = decimal_string(n / 10);
        s.append(digit_str(n % 10));
        s
    }
}

/// Formats `n` in base ten with at least `width` characters, padding with
/// zeros on the left, as `format!("{:0width$}", n)` does.
pub fn zero_padded_string(n: u64, width: usize) -> (s: String)
    ensures
        s@ == zero_padded(n as nat, width as nat),
{
    let digits = decimal_string(n);
    let len = digits.as_str().unicode_len();
    let mut s = String::new();
    let mut count: usize = 0;
    if len < width {
        while count < width - len
            invariant
                len < width,
                count <= width - len,
                s@ == Seq::new(count as nat, |i: int| '0'),
            decreases width - len - count,
        {
            proof {
                reveal_strlit("0");
            }
            s.append("0");
            count = count + 1;
            assert(s@ =~= Seq::new(count as nat, |i: int| '0'));
        }
    }
    s.append(digits.as_str());
    assert(s@ =~= zero_padded(n as nat, width as nat));
    s
}

proof fn lemma_decimal_value_push(s: Seq<char>, c: char)
    ensures
        decimal_value(s.push(c)) == decimal_value(s) * 10 + digit_value(c),
{
    assert(s.push(c).drop_last() =~= s);
}

/// A prefix of a run of digits never denotes more than the whole run.
proof fn lemma_decimal_value_prefix(s: Seq<char>, k: int)
    requires
        0 <= k <= s.len(),
        all_ascii_digits(s),
    ensures
        decimal_value(s.take(k)) <= decimal_value(s),
    decreases s.len() - k,
{
    if k < s.len() {
        lemma_decimal_value_prefix(s, k + 1);
        assert(s.take(k + 1) =~= s.take(k).push(s[k]));
        lemma_decimal_value_push(s.take(k), s[k]);
        assert(is_ascii_digit(s[k]));
    } else {
        assert(s.take(k) =~= s);
    }
}

/// Why a text is not a `u16` in base ten, as `u16::from_str` reports it.
#[derive(Debug, Clone, Copy, PartialEq, Eq, Structural)]
pub enum NumberTextError {
    /// The text is empty.
    Empty,
    /// A character that is not an ASCII digit (a lone `+` included).
    InvalidDigit,
    /// The value exceeds 65535.
    TooLarge,
}

/// The message of each error, as `ParseIntError`'s `Display` gives it.
pub open spec fn number_text_error_message(e: NumberTextError) -> Seq<char> {
    match e {
        NumberTextError::Empty => "cannot parse integer from empty string"@,
        NumberTextError::InvalidDigit => "invalid digit found in string"@,
        NumberTextError::TooLarge => "number too large to fit in target type"@,
    }
}

impl NumberTextError {
    /// The error's message.
    pub fn message(&self) -> (s: String)
        ensures
            s@ == number_text_error_message(*self),
    {
        match self {
            NumberTextError::Empty => String::from_str("cannot parse integer from empty string"),
            NumberTextError::InvalidDigit => String::from_str("invalid digit found in string"),
            NumberTextError::TooLarge => String::from_str("number too large to fit in target type"),
        }
    }
}

/// The first fault met when the digits `d` are read from position `i` on,
/// `v` being the value read so far: a character that is not a digit, or a
/// digit that takes the value past 65535.
pub open spec fn digit_fault(d: Seq<char>, i: nat, v: nat) -> NumberTextError
    decreases d.len() - i,
{
    if i >= d.len() {
        NumberTextError::InvalidDigit
    } else if !is_ascii_digit(d[i as int]) {
        NumberTextError::InvalidDigit
    } else if v * 10 + digit_value(d[i as int]) > 65535 {
        NumberTextError::TooLarge
    } else {
        digit_fault(d, i + 1, v * 10 + digit_value(d[i as int]))
    }
}

/// The error `u16::from_str` gives for `s` where it fails: an empty text is
/// `Empty`; otherwise, after an optional `+`, the first fault decides (a
/// lone `+` is an invalid digit).
pub open spec fn u16_text_error(s: Seq<char>) -> NumberTextError {
    if s.len() == 0 {
        NumberTextError::Empty
    } else {
        let digits = if s[0] == '+' {
            s.drop_first()
        } else {
            s
        };
        if digits.len() == 0 {
            NumberTextError::InvalidDigit
        } else {
            digit_fault(digits, 0, 0)
        }
    }
}

/// Parses `s` as `s.parse::<u16>()` does, with the same error.
pub fn parse_u16(s: &str) -> (r: Result<u16, NumberTextError>)
    ensures
        r is Ok <==> spec_parse_u16(s@) is Some,
        r matches Ok(v) ==> spec_parse_u16(s@) == Some(v),
        r matches Err(e) ==> e == u16_text_error(s@),
{
    let n = s.unicode_len();
    if n == 0 {
        return Err(NumberTextError::Empty);
    }
    let start: usize = if s.get_char(0) == '+' {
        1
    } else {
        0
    };
    let ghost digits = if s@[0] == '+' {
        s@.drop_first()
    } else {
        s@
    };
    assert(digits =~= s@.subrange(start as int, n as int));
    if start == n {
        return Err(NumberTextError::InvalidDigit);
    }
    let mut value: u32 = 0;
    let mut i: usize = start;
    while i < n
        invariant
            start <= i <= n,
            n == s@.len(),
            start < n,
            digits == (if s@[0] == '+' {
                s@.drop_first()
            } else {
                s@
            }),
            digits =~= s@.subrange(start as int, n as int),
            all_ascii_digits(digits.take(i - start)),
            value == decimal_value(digits.take(i - start)),
            value <= 65535,
            u16_text_error(s@) == digit_fault(digits, (i - start) as nat, value as nat),
        decreases n - i,
    {
        let c = s.get_char(i);
        if c < '0' || c > '9' {
            assert(digits[i - start] == c);
            assert(!is_ascii_digit(digits[i - start]));
            return Err(NumberTextError::InvalidDigit);
        }
        let d: u32 = (c as u32) - ('0' as u32);
        proof {
            assert(digits[i - start] == c);
            assert(digits.take(i - start + 1) =~= digits.take(i - start).push(c));
            lemma_decimal_value_push(digits.take(i - start), c);
        }
        let next = value * 10 + d;
        if next > 65535 {
            proof {
                if all_ascii_digits(digits) {
                    lemma_decimal_value_prefix(digits, i - start + 1);
                    assert(decimal_value(digits) > 65535);
                }
            }
            return Err(NumberTextError::TooLarge);
        }
        value = next;
        i = i + 1;
    }
    assert(digits.take(n - start) =~= digits);
    Ok(value as u16)
}

proof fn lemma_decimal_text_digits(n: nat)
    ensures
        decimal_text(n).len() > 0,
        all_ascii_digits(decimal_text(n)),
        decimal_value(decimal_text(n)) == n,
    decreases n,
{
    let d = n % 10;
    assert(is_ascii_digit(digit_char(d)) && digit_value(digit_char(d)) == d);
    if n >= 10 {
        lemma_decimal_text_digits(n / 10);
        let t = decimal_text(n / 10);
        lemma_decimal_value_push(t, digit_char(d));
        assert(n == (n / 10) * 10 + d);
        assert forall|i: int| 0 <= i < t.push(digit_char(d)).len() implies #[trigger] is_ascii_digit(
            t.push(digit_char(d))[i],
        ) by {
            if i < t.len() {
                assert(t.push(digit_char(d))[i] == t[i]);
            }
        }
    } else {
        assert(seq![digit_char(n)].drop_last() =~= Seq::<char>::empty());
        assert(d == n);
        assert(decimal_value(seq![digit_char(n)]) == decimal_value(Seq::<char>::empty()) * 10 + digit_value(digit_char(n)));
    }
}

/// Parsing the decimal text of a port gives the port back: the port the
/// sidecar is asked to use, as written on its command line or in its URL,
/// reads back unchanged.
pub proof fn lemma_port_text_roundtrip(port: u16)
    ensures
        spec_parse_u16(decimal_text(port as nat)) == Some(port),
{
    lemma_decimal_text_digits(port as nat);
    let t = decimal_text(port as nat);
    assert(is_ascii_digit(t[0]));
}

/// `10` to the power `w`.
pub open spec fn pow10(w: nat) -> nat
    decreases w,
{
    if w == 0 {
        1
    } else {
        10 * pow10((w - 1) as nat)
    }
}

/// The last `w` decimal digits of `n`, most significant first.
pub open spec fn fixed_digits(n: nat, w: nat) -> Seq<char>
    decreases w,
{
    if w == 0 {
        Seq::empty()
    } else {
        fixed_digits(n / 10, (w - 1) as nat).push(digit_char(n % 10))
    }
}

/// `a` sorts before `b` character by character: at the first position
/// where they differ, `a` has the smaller character.
pub open spec fn text_before(a: Seq<char>, b: Seq<char>) -> bool {
    exists|k: int|
        #![trigger a.take(k), b.take(k)]
        0 <= k < a.len() && k < b.len() && a.take(k) == b.take(k) && a[k] < b[k]
}

proof fn lemma_digit_char_order(d: nat, e: nat)
    requires
        d < e < 10,
    ensures
        digit_char(d) < digit_char(e),
{
}

proof fn lemma_fixed_digits_len(n: nat, w: nat)
    ensures
        fixed_digits(n, w).len() == w,
    decreases w,
{
    if w > 0 {
        lemma_fixed_digits_len(n / 10, (w - 1) as nat);
    }
}

/// Two digit texts of one width have the same length.
pub proof fn lemma_fixed_digits_len_of(n: nat, m: nat, w: nat)
    requires
        n < pow10(w),
        m < pow10(w),
        w >= 1,
    ensures
        zero_padded(n, w).len() == w,
        zero_padded(m, w).len() == w,
{
    lemma_zero_padded_fixed(n, w);
    lemma_zero_padded_fixed(m, w);
    lemma_fixed_digits_len(n, w);
    lemma_fixed_digits_len(m, w);
}

proof fn lemma_fixed_digits_zero(w: nat)
    ensures
        fixed_digits(0, w) =~= Seq::new(w, |i: int| '0'),
    decreases w,
{
    if w > 0 {
        lemma_fixed_digits_zero((w - 1) as nat);
    }
}

proof fn lemma_decimal_text_len(n: nat, w: nat)
    requires
        w >= 1,
        n < pow10(w),
    ensures
        decimal_text(n).len() <= w,
    decreases n,
{
    if n >= 10 {
        assert(w >= 2) by {
            if w == 1 {
                assert(pow10(1) == 10 * pow10(0));
            }
        }
        assert(pow10(w) == 10 * pow10((w - 1) as nat));
        lemma_decimal_text_len(n / 10, (w - 1) as nat);
    }
}

/// A number below `10^w`, padded to `w` digits, is its last `w` digits.
pub proof fn lemma_zero_padded_fixed(n: nat, w: nat)
    requires
        w >= 1,
        n < pow10(w),
    ensures
        zero_padded(n, w) == fixed_digits(n, w),
    decreases w,
{
    assert(pow10(w) == 10 * pow10((w - 1) as nat));
    if n < 10 {
        assert(decimal_text(n) == seq![digit_char(n)]);
        lemma_fixed_digits_zero((w - 1) as nat);
        assert(n / 10 == 0 && n % 10 == n);
        assert(zero_padded(n, w) =~= fixed_digits(n, w));
    } else {
        assert(w >= 2) by {
            if w == 1 {
                assert(pow10(1) == 10 * pow10(0));
            }
        }
        let m = n / 10;
        lemma_zero_padded_fixed(m, (w - 1) as nat);
        lemma_decimal_text_len(m, (w - 1) as nat);
        assert(decimal_text(n) == decimal_text(m).push(digit_char(n % 10)));
        assert(zero_padded(n, w) =~= zero_padded(m, (w - 1) as nat).push(digit_char(n % 10)));
    }
}

/// Fixed-width digit texts sort as their numbers do.
pub proof fn lemma_fixed_digits_order(n: nat, m: nat, w: nat)
    requires
        n < m < pow10(w),
    ensures
        text_before(fixed_digits(n, w), fixed_digits(m, w)),
    decreases w,
{
    if w == 0 {
        assert(false);
    } else {
        let v = (w - 1) as nat;
        let a = fixed_digits(n, w);
        let b = fixed_digits(m, w);
        let pa = fixed_digits(n / 10, v);
        let pb = fixed_digits(m / 10, v);
        lemma_fixed_digits_len(n / 10, v);
        lemma_fixed_digits_len(m / 10, v);
        assert(a == pa.push(digit_char(n % 10)));
        assert(b == pb.push(digit_char(m % 10)));
        if n / 10 == m / 10 {
            lemma_digit_char_order(n % 10, m % 10);
            let k = v as int;
            assert(a.take(k) =~= pa);
            assert(b.take(k) =~= pb);
            assert(a.take(k) == b.take(k) && a[k] < b[k]);
        } else {
            assert(pow10(w) == 10 * pow10(v));
            lemma_fixed_digits_order(n / 10, m / 10, v);
            let k = choose|k: int|
                #![trigger pa.take(k), pb.take(k)]
                0 <= k < pa.len() && k < pb.len() && pa.take(k) == pb.take(k) && pa[k] < pb[k];
            assert(a.take(k) =~= pa.take(k));
            assert(b.take(k) =~= pb.take(k));
            assert(a[k] == pa[k] && b[k] == pb[k]);
            assert(a.take(k) == b.take(k) && a[k] < b[k]);
        }
    }
}

/// Text that sorts before another differs from it.
pub proof fn lemma_text_before_differs(a: Seq<char>, b: Seq<char>)
    requires
        text_before(a, b),
    ensures
        a != b,
{
    let k = choose|k: int|
        #![trigger a.take(k), b.take(k)]
        0 <= k < a.len() && k < b.len() && a.take(k) == b.take(k) && a[k] < b[k];
    assert(a[k] != b[k]);
}

/// Order decided within equally long heads survives whatever follows.
pub proof fn lemma_text_before_append(a: Seq<char>, b: Seq<char>, c: Seq<char>, d: Seq<char>)
    requires
        text_before(a, b),
        a.len() == b.len(),
    ensures
        text_before(a + c, b + d),
{
    let k = choose|k: int|
        #![trigger a.take(k), b.take(k)]
        0 <= k < a.len() && k < b.len() && a.take(k) == b.take(k) && a[k] < b[k];
    assert((a + c).take(k) =~= a.take(k));
    assert((b + d).take(k) =~= b.take(k));
    assert((a + c)[k] == a[k] && (b + d)[k] == b[k]);
}

/// A common head keeps the order of what follows it.
pub proof fn lemma_text_before_prefix(p: Seq<char>, c: Seq<char>, d: Seq<char>)
    requires
        text_before(c, d),
    ensures
        text_before(p + c, p + d),
{
    let k = choose|k: int|
        #![trigger c.take(k), d.take(k)]
        0 <= k < c.len() && k < d.len() && c.take(k) == d.take(k) && c[k] < d[k];
    let j = p.len() + k;
    assert((p + c).take(j) =~= p + c.take(k));
    assert((p + d).take(j) =~= p + d.take(k));
    assert((p + c)[j] == c[k] && (p + d)[j] == d[k]);
}

} // verus!
