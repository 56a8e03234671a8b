//! Decimal numbers and small string helpers.
use vstd::prelude::*;

verus! {

/// The character of the decimal digit `d`.
pub open spec fn digit_char(d: nat) -> char {
    (d + 48) as char
}

/// The decimal notation of `n`, without leading zeros.
pub open spec fn decimal(n: nat) -> Seq<char>
    decreases n,
{
    if n < 10 {
        seq![digit_char(n)]
    } else {
        decimal(n / 10).push(digit_char(n % 10))
    }
}

/// The decimal notation of `n` with a minus sign in front of a negative number.
pub open spec fn signed_decimal(n: int) -> Seq<char> {
    if n < 0 {
        "-"@ + decimal((-n) as nat)
    } else {
        decimal(n as nat)
    }
}

fn digit_str(d: u64) -> (r: &'static str)
    requires
        d < 10,
    ensures
        r@ == seq![digit_char(d as nat)],
{
    proof {
        reveal_strlit("0");
        reveal_strlit("1");
        reveal_strlit("2");
        reveal_strlit("3");
        reveal_strlit("4");
        reveal_strlit("5");
        reveal_strlit("6");
        reveal_strlit("7");
        reveal_strlit("8");
        reveal_strlit("9");
    }
    match d {
        0 => "0",
        1 => "1",
        2 => "2",
        3 => "3",
        4 => "4",
        5 => "5",
        6 => "6",
        7 => "7",
        8 => "8",
        _ => "9",
    }
}

/// Appends the decimal notation of `n` to `out`.
pub fn push_decimal(out: &mut String, n: u64)
    ensures
        final(out)@ == old(out)@ + decimal(n as nat),
    decreases n,
{
    if n >= 10 {
        push_decimal(out, n / 10);
    }
    out.append(digit_str(n % 10));
    proof {
        assert(out@ == old(out)@ + decimal(n as nat));
    }
}

/// Appends the decimal notation of `n`, with its sign, to `out`.
pub fn push_signed_decimal(out: &mut String, n: i32)
    ensures
        final(out)@ == old(out)@ + signed_decimal(n as int),
{
    if n < 0 {
        out.append("-");
        push_decimal(out, (-(n as i64)) as u64);
        proof {
            assert(out@ == old(out)@ + signed_decimal(n as int));
        }
    } else {
        push_decimal(out, n as u64);
    }
}

/// Whether `c` is one of the characters `0` to `9`.
pub open spec fn is_digit(c: char) -> bool {
    '0' <= c <= '9'
}

/// Whether `s` is a non-empty run of digits.
pub open spec fn is_digits(s: Seq<char>) -> bool {
    s.len() > 0 && forall|i: int| 0 <= i < s.len() ==> is_digit(#[trigger] s[i])
}

/// The number that a run of digits denotes in decimal notation.
pub open spec fn digits_value(s: Seq<char>) -> nat
    decreases s.len(),
{
    if s.len() == 0 {
        0
    } else {
        digits_value(s.drop_last()) * 10 + (s.last() as nat - 48) as nat
    }
}

/// `s` without the one sign character `sign` that it may start with.
pub open spec fn without_sign(s: Seq<char>, sign: char) -> Seq<char> {
    if s.len() > 0 && s[0] == sign {
        s.drop_first()
    } else {
        s
    }
}

/// The number that `s` denotes: digits after an optional plus sign.
pub open spec fn unsigned_number(s: Seq<char>) -> Option<nat> {
    let digits = without_sign(s, '+');
    if is_digits(digits) {
        Some(digits_value(digits))
    } else {
        None
    }
}

/// The number that `s` denotes: digits after an optional plus or minus sign.
pub open spec fn signed_number(s: Seq<char>) -> Option<int> {
    if s.len() > 0 && s[0] == '-' {
        if is_digits(s.drop_first()) {
            Some(-(digits_value(s.drop_first()) as int))
        } else {
            None
        }
    } else {
        match unsigned_number(s) {
            Some(n) => Some(n as int),
            None => None,
        }
    }
}

/// What `s` reads as where a `u64` is wanted.
pub open spec fn u64_of(s: Seq<char>) -> Option<u64> {
    match unsigned_number(s) {
        Some(n) => if n <= u64::MAX {
            Some(n as u64)
        } else {
            None
        },
        None => None,
    }
}

/// What `s` reads as where an `i32` is wanted.
pub open spec fn i32_of(s: Seq<char>) -> Option<i32> {
    match signed_number(s) {
        Some(n) => if i32::MIN <= n <= i32::MAX {
            Some(n as i32)
        } else {
            None
        },
        None => None,
    }
}

/// A longer run of digits never denotes a smaller number.
proof fn lemma_digits_value_grows(s: Seq<char>, k: int)
    requires
        0 <= k <= s.len(),
    ensures
        digits_value(s.take(k)) <= digits_value(s),
    decreases s.len(),
{
    if k < s.len() {
        lemma_digits_value_grows(s.drop_last(), k);
        assert(s.drop_last().take(k) =~= s.take(k));
    } else {
        assert(s.take(k) =~= s);
    }
}

fn parse_digits(s: &str) -> (r: Option<u64>)
    ensures
        r == (if is_digits(s@) && digits_value(s@) <= u64::MAX {
            Some(digits_value(s@) as u64)
        } else {
            None
        }),
{
    let len: usize = s.unicode_len();
    if len == 0 {
        return None;
    }
    let mut value: u64 = 0;
    let mut i: usize = 0;
    while i < len
        invariant
            len == s@.len(),
            0 <= i <= len,
            forall|j: int| 0 <= j < i ==> is_digit(#[trigger] s@[j]),
            value == digits_value(s@.take(i as int)),
        decreases len - i,
    {
        let c: char = s.get_char(i);
        if !('0' <= c && c <= '9') {
            assert(!is_digit(s@[i as int]));
            return None;
        }
        let digit: u64 = (c as u32 - 48) as u64;
        proof {
            assert(s@.take(i + 1).drop_last() =~= s@.take(i as int));
            assert(s@.take(i + 1).last() == c);
            assert(digits_value(s@.take(i + 1)) == value * 10 + digit);
            lemma_digits_value_grows(s@, i + 1);
        }
        let wide: u128 = value as u128 * 10 + digit as u128;
        if wide > u64::MAX as u128 {
            return None;
        }
        value = wide as u64;
        i = i + 1;
    }
    proof {
        assert(s@.take(len as int) =~= s@);
    }
    Some(value)
}

/// Reads `s` as a `u64`: digits, with an optional plus sign in front.
pub fn parse_u64(s: &str) -> (r: Option<u64>)
    ensures
        r == u64_of(s@),
{
    let len: usize = s.unicode_len();
    if len > 0 && s.get_char(0) == '+' {
        let digits: &str = s.substring_char(1, len);
        assert(digits@ =~= s@.drop_first());
        parse_digits(digits)
    } else {
        parse_digits(s)
    }
}

/// Reads `s` as an `i32`: digits, with an optional plus or minus sign in front.
pub fn parse_i32(s: &str) -> (r: Option<i32>)
    ensures
        r == i32_of(s@),
{
    let len: usize = s.unicode_len();
    if len > 0 && s.get_char(0) == '-' {
        let digits: &str = s.substring_char(1, len);
        assert(digits@ =~= s@.drop_first());
        match parse_digits(digits) {
            Some(n) => if n <= 0x8000_0000 {
                Some((-(n as i64)) as i32)
            } else {
                None
            },
            None => None,
        }
    } else {
        match parse_u64(s) {
            Some(n) => if n <= 0x7fff_ffff {
                Some(n as i32)
            } else {
                None
            },
            None => None,
        }
    }
}

/// `s` without the run of `c` at its end.
pub open spec fn trimmed_end(s: Seq<char>, c: char) -> Seq<char>
    decreases s.len(),
{
    if s.len() > 0 && s.last() == c {
        trimmed_end(s.drop_last(), c)
    } else {
        s
    }
}

/// `s` without the run of `c` at its end.
pub fn trim_end(s: &str, c: char) -> (r: String)
    ensures
        r@ == trimmed_end(s@, c),
{
    let len: usize = s.unicode_len();
    let mut end: usize = len;
    assert(s@.take(len as int) =~= s@);
    while end > 0 && s.get_char(end - 1) == c
        invariant
            len == s@.len(),
            end <= len,
            trimmed_end(s@, c) == trimmed_end(s@.take(end as int), c),
        decreases end,
    {
        assert(s@.take(end as int).drop_last() =~= s@.take(end - 1));
        end = end - 1;
    }
    s.substring_char(0, end).to_string()
}

/// Whether `c` is an upper case ASCII letter.
pub open spec fn is_ascii_upper(c: char) -> bool {
    'A' <= c <= 'Z'
}

/// The code point of `c`, or of its lower case letter where `c` is an upper case ASCII letter.
pub open spec fn folded(c: char) -> nat {
    if is_ascii_upper(c) {
        c as nat + 32
    } else {
        c as nat
    }
}

/// Whether `a` and `b` differ at most in the case of ASCII letters.
pub open spec fn same_ignoring_ascii_case(a: Seq<char>, b: Seq<char>) -> bool {
    a.len() == b.len() && forall|i: int| 0 <= i < a.len() ==> folded(#[trigger] a[i]) == folded(b[i])
}

fn fold(c: char) -> (r: u32)
    ensures
        r == folded(c),
{
    if 'A' <= c && c <= 'Z' {
        c as u32 + 32
    } else {
        c as u32
    }
}

/// Whether `a` and `b` differ at most in the case of ASCII letters.
pub fn eq_ignore_ascii_case(a: &str, b: &str) -> (r: bool)
    ensures
        r == same_ignoring_ascii_case(a@, b@),
{
    let len: usize = a.unicode_len();
    if b.unicode_len() != len {
        return false;
    }
    let mut i: usize = 0;
    while i < len
        invariant
            len == a@.len(),
            len == b@.len(),
            i <= len,
            forall|j: int| 0 <= j < i ==> folded(#[trigger] a@[j]) == folded(b@[j]),
        decreases len - i,
    {
        if fold(a.get_char(i)) != fold(b.get_char(i)) {
            return false;
        }
        i = i + 1;
    }
    true
}

/// Whether `a` and `b` are the same text.
pub fn same_text(a: &str, b: &str) -> (r: bool)
    ensures
        r == (a@ == b@),
{
    a.to_string() == b.to_string()
}

/// A run of digits denotes a number by place value: a digit that is added at the end multiplies
/// what stands before it by ten and is added to it.
pub proof fn digits_have_place_value(s: Seq<char>, c: char)
    requires
        '0' <= c <= '9',
    ensures
        digits_value(Seq::empty()) == 0,
        digits_value(s.push(c)) == 10 * digits_value(s) + (c as int - '0' as int),
{
    assert(s.push(c).drop_last() =~= s);
}

/// Decimal notation is made of digits, has no needless zero in front, and denotes the number.
pub proof fn decimal_denotes_the_number(n: nat)
    ensures
        decimal(n).len() > 0,
        forall|i: int| 0 <= i < decimal(n).len() ==> '0' <= #[trigger] decimal(n)[i] <= '9',
        decimal(n).len() > 1 ==> decimal(n)[0] != '0',
        digits_value(decimal(n)) == n,
    decreases n,
{
    if n >= 10 {
        let tens = decimal(n / 10);
        decimal_denotes_the_number(n / 10);
        digits_have_place_value(tens, digit_char(n % 10));
        assert(decimal(n)[0] == tens[0]);
        assert(tens.len() == 1 ==> tens.drop_last() =~= Seq::empty());
        if tens.len() == 1 && tens[0] == '0' {
            digits_have_place_value(Seq::empty(), '0');
            assert(tens =~= Seq::<char>::empty().push('0'));
        }
    } else {
        digits_have_place_value(Seq::empty(), digit_char(n));
        assert(decimal(n) =~= Seq::<char>::empty().push(digit_char(n)));
    }
}

/// A negative number is written as a minus sign and the number without it, any other as it is.
pub proof fn only_negative_numbers_have_a_sign(n: int)
    ensures
        n >= 0 ==> signed_decimal(n) == decimal(n as nat),
        n < 0 ==> signed_decimal(n) == seq!['-'] + decimal((-n) as nat),
{
    reveal_strlit("-");
    assert("-"@ =~= seq!['-']);
}

/// A run of digits is read as the number that it denotes where that fits, with or without a plus
/// sign; with a minus sign it is read as the negative number, where one may be.
pub proof fn digits_are_read_as_their_number(digits: Seq<char>)
    requires
        digits.len() > 0,
        forall|i: int| 0 <= i < digits.len() ==> '0' <= #[trigger] digits[i] <= '9',
    ensures
        u64_of(seq!['+'] + digits) == u64_of(digits),
        i32_of(seq!['+'] + digits) == i32_of(digits),
        u64_of(seq!['-'] + digits) is None,
        digits_value(digits) <= u64::MAX ==> u64_of(digits) == Some(digits_value(digits) as u64),
        digits_value(digits) > u64::MAX ==> u64_of(digits) is None,
        digits_value(digits) <= i32::MAX ==> i32_of(digits) == Some(digits_value(digits) as i32),
        digits_value(digits) > i32::MAX ==> i32_of(digits) is None,
        digits_value(digits) <= 0x8000_0000 ==> i32_of(seq!['-'] + digits) == Some(
            (-digits_value(digits)) as i32,
        ),
        digits_value(digits) > 0x8000_0000 ==> i32_of(seq!['-'] + digits) is None,
{
    assert('0' <= digits[0] <= '9');
    assert(is_digits(digits));
    assert((seq!['+'] + digits).drop_first() =~= digits);
    assert((seq!['-'] + digits).drop_first() =~= digits);
    assert(!is_digit((seq!['-'] + digits)[0]));
}

/// Whether `s`, from its character number `start` on, is a run of digits that is not empty.
pub open spec fn digits_from(s: Seq<char>, start: int) -> bool {
    start < s.len() && forall|i: int| start <= i < s.len() ==> '0' <= #[trigger] s[i] <= '9'
}

/// Nothing but digits, after one sign at most, is read as a number.
pub proof fn only_digits_are_read(s: Seq<char>)
    ensures
        u64_of(s) is Some ==> digits_from(s, 0) || (s[0] == '+' && digits_from(s, 1)),
        i32_of(s) is Some ==> digits_from(s, 0) || ((s[0] == '+' || s[0] == '-') && digits_from(
            s,
            1,
        )),
{
    if is_digits(s) {
        assert(forall|i: int| 0 <= i < s.len() ==> is_digit(#[trigger] s[i]));
    }
    if s.len() > 0 && is_digits(s.drop_first()) {
        assert forall|i: int| 1 <= i < s.len() implies '0' <= #[trigger] s[i] <= '9' by {
            assert(is_digit(s.drop_first()[i - 1]));
        }
    }
}

/// What is written in decimal notation is read back as the same number.
pub proof fn numbers_read_back(n: u64, signed: i32)
    ensures
        u64_of(decimal(n as nat)) == Some(n),
        i32_of(signed_decimal(signed as int)) == Some(signed),
{
    decimal_denotes_the_number(n as nat);
    digits_are_read_as_their_number(decimal(n as nat));
    let size = if signed < 0 {
        -signed
    } else {
        signed as int
    } as nat;
    decimal_denotes_the_number(size);
    digits_are_read_as_their_number(decimal(size));
    only_negative_numbers_have_a_sign(signed as int);
}

/// Trimming takes away nothing but the run at the end, and all of it.
pub proof fn only_the_run_at_the_end_is_trimmed(s: Seq<char>, c: char)
    ensures
        trimmed_end(s, c).len() <= s.len(),
        trimmed_end(s, c) == s.take(trimmed_end(s, c).len() as int),
        forall|i: int| trimmed_end(s, c).len() <= i < s.len() ==> #[trigger] s[i] == c,
        trimmed_end(s, c).len() > 0 ==> trimmed_end(s, c).last() != c,
    decreases s.len(),
{
    if s.len() > 0 && s.last() == c {
        let shorter = s.drop_last();
        only_the_run_at_the_end_is_trimmed(shorter, c);
        let kept = trimmed_end(s, c).len() as int;
        assert(shorter.take(kept) =~= s.take(kept));
        assert forall|i: int| kept <= i < s.len() implies #[trigger] s[i] == c by {
            if i < s.len() - 1 {
                assert(shorter[i] == s[i]);
            }
        }
    } else {
        assert(s.take(s.len() as int) =~= s);
    }
}

/// Whether two characters are the same, or one is the capital of the other's ASCII letter.
pub open spec fn same_letter(x: char, y: char) -> bool {
    ||| x == y
    ||| 'A' <= x <= 'Z' && y as int == x as int + 32
    ||| 'A' <= y <= 'Z' && x as int == y as int + 32
}

proof fn lemma_folding_keeps_the_letter(x: char, y: char)
    ensures
        folded(x) == folded(y) <==> same_letter(x, y),
{
}

/// Two texts are the same but for case exactly where they are of the same length and have, at each
/// place, the same letter.
pub proof fn only_the_case_of_ascii_letters_is_ignored(a: Seq<char>, b: Seq<char>)
    ensures
        same_ignoring_ascii_case(a, b) <==> a.len() == b.len() && forall|i: int|
            0 <= i < a.len() ==> same_letter(#[trigger] a[i], b[i]),
{
    if a.len() == b.len() {
        assert forall|i: int| 0 <= i < a.len() implies (folded(#[trigger] a[i]) == folded(b[i])
            <==> same_letter(a[i], b[i])) by {
            lemma_folding_keeps_the_letter(a[i], b[i]);
        }
    }
}

} // verus!
