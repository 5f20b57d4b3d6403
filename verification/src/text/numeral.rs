//! Writing and reading numbers.
use crate::text::basic::{chars_of, is_digit};
use vstd::prelude::*;

verus! {

/// The character of a decimal digit.
pub open spec fn digit_char(d: int) -> char {
    (('0' as u32) + d) as char
}

/// The decimal notation of `n`, without leading zeros.
pub open spec fn decimal(n: nat) -> Seq<char>
    decreases n,
{
    if n < 10 {
        seq![digit_char(n as int)]
    } else {
        decimal(n / 10).push(digit_char((n % 10) as int))
    }
}

/// The decimal notation of an integer, with a leading `-` where it is negative.
pub open spec fn decimal_int(i: int) -> Seq<char> {
    if i < 0 {
        seq!['-'] + decimal((-i) as nat)
    } else {
        decimal(i as nat)
    }
}

/// Appends the decimal notation of `n`.
pub fn push_number(out: &mut String, n: u64)
    ensures
        final(out)@ == old(out)@ + decimal(n as nat),
    decreases n,
{
    if n >= 10 {
        push_number(out, n / 10);
    }
    out.push(((n % 10) as u8 + 48) as char);
}

/// Appends the decimal notation of `i`.
pub fn push_integer(out: &mut String, i: i64)
    ensures
        final(out)@ == old(out)@ + decimal_int(i as int),
{
    if i < 0 {
        out.push('-');
        let m: u64 = (-(i + 1)) as u64 + 1;
        push_number(out, m);
        assert(final(out)@ == old(out)@ + (seq!['-'] + decimal(m as nat)));
    } else {
        push_number(out, i as u64);
    }
}

/// The decimal notation of `n`.
pub fn number_text(n: u64) -> (r: String)
    ensures
        r@ == decimal(n as nat),
{
    let mut s = String::new();
    push_number(&mut s, n);
    s
}

/// The decimal notation of `i`.
pub fn integer_text(i: i64) -> (r: String)
    ensures
        r@ == decimal_int(i as int),
{
    let mut s = String::new();
    push_integer(&mut s, i);
    s
}

/// What a character stands for as a digit of the given radix.
pub open spec fn digit_value(c: char, radix: nat) -> Option<nat> {
    let v: int = if is_digit(c) {
        c as int - '0' as int
    } else if 'a' <= c <= 'f' {
        10 + (c as int - 'a' as int)
    } else if 'A' <= c <= 'F' {
        10 + (c as int - 'A' as int)
    } else {
        -1
    };
    if 0 <= v < radix {
        Some(v as nat)
    } else {
        None
    }
}

/// The number that digits stand for, the most significant one first.
pub open spec fn digits_value(s: Seq<char>, radix: nat) -> nat
    decreases s.len(),
{
    if s.len() == 0 {
        0
    } else {
        digits_value(s.drop_last(), radix) * radix + digit_value(s.last(), radix).unwrap_or(0)
    }
}

/// The number that `s` stands for: one or more digits and nothing else.
pub open spec fn numeral(s: Seq<char>, radix: nat) -> Option<nat> {
    if s.len() > 0 && (forall|i: int|
        0 <= i < s.len() ==> (#[trigger] digit_value(s[i], radix)) is Some) {
        Some(digits_value(s, radix))
    } else {
        None
    }
}

/// The number, where it is at most `max`.
pub open spec fn at_most(n: Option<nat>, max: nat) -> Option<nat> {
    match n {
        Some(v) => if v <= max {
            Some(v)
        } else {
            None
        },
        None => None,
    }
}

/// An optional machine number as a mathematical one.
pub open spec fn opt_nat(n: Option<u64>) -> Option<nat> {
    match n {
        Some(v) => Some(v as nat),
        None => None,
    }
}

/// The number that `s` stands for as an unsigned 64-bit number; one leading `+` is allowed.
pub open spec fn unsigned(s: Seq<char>) -> Option<nat> {
    if s.len() > 1 && s[0] == '+' {
        at_most(numeral(s.skip(1), 10), u64::MAX as nat)
    } else {
        at_most(numeral(s, 10), u64::MAX as nat)
    }
}

/// The integer that `s` stands for as a signed 64-bit number; one leading `-` is allowed.
pub open spec fn signed(s: Seq<char>) -> Option<int> {
    if s.len() > 0 && s[0] == '-' {
        match at_most(numeral(s.skip(1), 10), 0x8000_0000_0000_0000) {
            Some(v) => Some(-(v as int)),
            None => None,
        }
    } else {
        match at_most(numeral(s, 10), i64::MAX as nat) {
            Some(v) => Some(v as int),
            None => None,
        }
    }
}

fn digit_of(c: char, radix: u32) -> (r: Option<u32>)
    requires
        radix <= 16,
    ensures
        match r {
            Some(v) => digit_value(c, radix as nat) == Some(v as nat) && v < radix,
            None => digit_value(c, radix as nat) is None,
        },
{
    let v: u32 = if '0' <= c && c <= '9' {
        c as u32 - 48
    } else if 'a' <= c && c <= 'f' {
        c as u32 - 97 + 10
    } else if 'A' <= c && c <= 'F' {
        c as u32 - 65 + 10
    } else {
        return None;
    };
    if v < radix {
        Some(v)
    } else {
        None
    }
}

proof fn lemma_prefix_is_smaller(s: Seq<char>, i: int, radix: nat)
    requires
        0 <= i <= s.len(),
        radix >= 1,
    ensures
        digits_value(s.take(i), radix) <= digits_value(s, radix),
    decreases s.len(),
{
    if i == s.len() {
        assert(s.take(i) == s);
    } else {
        lemma_prefix_is_smaller(s.drop_last(), i, radix);
        assert(s.drop_last().take(i) == s.take(i));
        let a = digits_value(s.drop_last(), radix);
        assert(a * radix >= a) by (nonlinear_arith)
            requires
                radix >= 1,
        ;
    }
}

/// Reads the characters `cs[from..to]` as a number of at most `max`.
pub fn read_number(cs: &Vec<char>, from: usize, to: usize, radix: u32, max: u64) -> (r: Option<u64>)
    requires
        from <= to <= cs@.len(),
        1 <= radix <= 16,
    ensures
        opt_nat(r) == at_most(
            numeral(cs@.subrange(from as int, to as int), radix as nat),
            max as nat,
        ),
{
    let ghost s = cs@.subrange(from as int, to as int);
    if from == to {
        return None;
    }
    let mut acc: u64 = 0;
    let mut i: usize = from;
    while i < to
        invariant
            from <= i <= to <= cs@.len(),
            1 <= radix <= 16,
            acc <= max,
            s == cs@.subrange(from as int, to as int),
            acc == digits_value(s.take(i - from), radix as nat),
            forall|j: int|
                0 <= j < i - from ==> (#[trigger] digit_value(s[j], radix as nat)) is Some,
        decreases to - i,
    {
        let ghost k: int = i - from;
        assert(s[k] == cs@[i as int]);
        match digit_of(cs[i], radix) {
            Some(d) => {
                assert(s.take(k + 1).drop_last() == s.take(k));
                assert(acc as u128 * radix as u128 <= 0xffff_ffff_ffff_ffff * 16) by (nonlinear_arith)
                    requires
                        acc <= 0xffff_ffff_ffff_ffff,
                        radix <= 16,
                ;
                let next: u128 = acc as u128 * radix as u128 + d as u128;
                assert(next == digits_value(s.take(k + 1), radix as nat));
                if next > max as u128 {
                    proof {
                        lemma_prefix_is_smaller(s, k + 1, radix as nat);
                    }
                    return None;
                }
                acc = next as u64;
            },
            None => {
                assert(digit_value(s[k], radix as nat) is None);
                return None;
            },
        }
        i += 1;
    }
    assert(s.take(s.len() as int) == s);
    Some(acc)
}

/// Reads `s` as an unsigned number.
pub fn read_unsigned(s: &str) -> (r: Option<u64>)
    ensures
        opt_nat(r) == unsigned(s@),
{
    let cs = chars_of(s);
    let n = cs.len();
    if n > 1 && cs[0] == '+' {
        assert(cs@.subrange(1, n as int) == s@.skip(1));
        read_number(&cs, 1, n, 10, u64::MAX)
    } else {
        assert(cs@.subrange(0, n as int) == s@);
        read_number(&cs, 0, n, 10, u64::MAX)
    }
}

/// Reads `s` as a signed integer.
pub fn read_signed(s: &str) -> (r: Option<i64>)
    ensures
        match r {
            Some(v) => signed(s@) == Some(v as int),
            None => signed(s@) is None,
        },
{
    let cs = chars_of(s);
    let n = cs.len();
    if n > 0 && cs[0] == '-' {
        assert(cs@.subrange(1, n as int) == s@.skip(1));
        match read_number(&cs, 1, n, 10, 0x8000_0000_0000_0000) {
            Some(m) => if m == 0 {
                Some(0)
            } else {
                Some(-((m - 1) as i64) - 1)
            },
            None => None,
        }
    } else {
        assert(cs@.subrange(0, n as int) == s@);
        match read_number(&cs, 0, n, 10, i64::MAX as u64) {
            Some(m) => Some(m as i64),
            None => None,
        }
    }
}

/// Reading the decimal notation of a number gives the number back.
pub proof fn law_decimal_reads_back(n: nat)
    ensures
        numeral(decimal(n), 10) == Some(n),
    decreases n,
{
    if n >= 10 {
        law_decimal_reads_back(n / 10);
        let s = decimal(n);
        assert(s.drop_last() == decimal(n / 10));
        assert(digits_value(s, 10) == digits_value(s.drop_last(), 10) * 10 + n % 10);
        assert forall|i: int| 0 <= i < s.len() implies (#[trigger] digit_value(s[i], 10)) is Some by {
            if i < s.len() - 1 {
                assert(s[i] == decimal(n / 10)[i]);
                assert(digit_value(decimal(n / 10)[i], 10) is Some);
            }
        }
    } else {
        let s = decimal(n);
        assert(s.drop_last() == Seq::<char>::empty());
        assert(digits_value(s.drop_last(), 10) == 0);
        assert(digits_value(s, 10) == n);
        assert(digit_value(s[0], 10) is Some);
    }
}

/// Reading the decimal notation of a signed 64-bit integer gives the integer back.
pub proof fn law_integer_reads_back(i: i64)
    ensures
        signed(decimal_int(i as int)) == Some(i as int),
{
    if i < 0 {
        law_decimal_reads_back((-i) as nat);
        assert(decimal_int(i as int).skip(1) == decimal((-i) as nat));
    } else {
        law_decimal_reads_back(i as nat);
        lemma_decimal_is_digits(i as nat);
    }
}

/// A decimal notation is made of digits and is not empty.
pub proof fn lemma_decimal_is_digits(n: nat)
    ensures
        decimal(n).len() > 0,
        forall|i: int| 0 <= i < decimal(n).len() ==> is_digit(#[trigger] decimal(n)[i]),
    decreases n,
{
    if n >= 10 {
        lemma_decimal_is_digits(n / 10);
        assert forall|i: int| 0 <= i < decimal(n).len() implies is_digit(#[trigger] decimal(n)[i]) by {
            if i < decimal(n).len() - 1 {
                assert(decimal(n)[i] == decimal(n / 10)[i]);
            }
        }
    }
}

/// A number is written digit by digit, the last one for its units.
pub proof fn law_decimal_digits(n: nat, d: nat, c: char)
    requires
        d < 10,
        c as int == 48 + d,
    ensures
        decimal(d) == seq![c],
        n > 0 ==> decimal(10 * n + d) == decimal(n).push(c),
        decimal_int(n as int) == decimal(n),
        n > 0 ==> decimal_int(-(n as int)) == seq!['-'] + decimal(n),
{
    assert(digit_char(d as int) == c);
    if n > 0 {
        assert((10 * n + d) / 10 == n && (10 * n + d) % 10 == d);
    }
}

/// Digits are read one by one, each ten times less than the one before it; nothing else is a
/// number.
pub proof fn law_numeral_digits(s: Seq<char>, c: char)
    ensures
        numeral(Seq::empty(), 10) is None,
        48 <= c as int <= 57 ==> numeral(seq![c], 10) == Some((c as int - 48) as nat),
        48 <= c as int <= 57 ==> (numeral(s, 10) matches Some(n) ==> numeral(s.push(c), 10) == Some(
            (10 * n + (c as int - 48)) as nat,
        )),
        (exists|i: int| 0 <= i < s.len() && !(48 <= #[trigger] s[i] as int <= 57)) ==> numeral(
            s,
            10,
        ) is None,
{
    let one = seq![c];
    assert(one.drop_last() =~= Seq::<char>::empty());
    assert(digits_value(one.drop_last(), 10) == 0);
    if 48 <= c as int <= 57 {
        assert(digit_value(c, 10) == Some((c as int - 48) as nat));
        assert forall|i: int| 0 <= i < one.len() implies (#[trigger] digit_value(one[i], 10)) is Some by {}
        assert(digits_value(one, 10) == (c as int - 48) as nat);
        if numeral(s, 10) is Some {
            let t = s.push(c);
            assert(t.drop_last() =~= s);
            assert forall|i: int| 0 <= i < t.len() implies (#[trigger] digit_value(t[i], 10)) is Some by {
                if i < s.len() {
                    assert(digit_value(s[i], 10) is Some);
                }
            }
            assert(digits_value(t, 10) == digits_value(s, 10) * 10 + (c as int - 48));
        }
    }
    if exists|i: int| 0 <= i < s.len() && !(48 <= #[trigger] s[i] as int <= 57) {
        let i = choose|i: int| 0 <= i < s.len() && !(48 <= #[trigger] s[i] as int <= 57);
        assert(digit_value(s[i], 10) is None);
    }
}

/// A signed number is its digits, with a minus before them where it is negative; what does not fit
/// 64 bits is none.
pub proof fn law_signed(s: Seq<char>, n: nat)
    requires
        numeral(s, 10) == Some(n),
    ensures
        signed(s) == (if n <= 9223372036854775807 {
            Some(n as int)
        } else {
            None
        }),
        signed(seq!['-'] + s) == (if n <= 9223372036854775808 {
            Some(-(n as int))
        } else {
            None
        }),
        unsigned(s) == (if n <= 18446744073709551615 {
            Some(n)
        } else {
            None
        }),
{
    assert((seq!['-'] + s).skip(1) =~= s);
    assert(digit_value(s[0], 10) is Some);
}

/// A plus before an unsigned number changes nothing, a minus makes it none, and so does anything
/// that is no digit.
pub proof fn law_unsigned(s: Seq<char>)
    requires
        s.len() > 0,
    ensures
        48 <= s[0] as int <= 57 ==> unsigned(seq!['+'] + s) == unsigned(s),
        unsigned(seq!['-'] + s) is None,
        (exists|i: int| 0 < i < s.len() && !(48 <= #[trigger] s[i] as int <= 57)) ==> unsigned(s)
            is None,
{
    let p = seq!['+'] + s;
    let m = seq!['-'] + s;
    assert(p.skip(1) =~= s);
    assert(m[0] == '-');
    assert(digit_value(m[0], 10) is None);
    if exists|i: int| 0 < i < s.len() && !(48 <= #[trigger] s[i] as int <= 57) {
        let i = choose|i: int| 0 < i < s.len() && !(48 <= #[trigger] s[i] as int <= 57);
        assert(digit_value(s[i], 10) is None);
        let t = s.skip(1);
        assert(t[i - 1] == s[i]);
        assert(digit_value(t[i - 1], 10) is None);
    }
}

/// Hexadecimal digits are read in either case, each sixteen times less than the one before it.
pub proof fn law_hexadecimal_digits(s: Seq<char>, c: char)
    ensures
        48 <= c as int <= 57 ==> numeral(seq![c], 16) == Some((c as int - 48) as nat),
        97 <= c as int <= 102 ==> numeral(seq![c], 16) == Some((c as int - 87) as nat),
        65 <= c as int <= 70 ==> numeral(seq![c], 16) == Some((c as int - 55) as nat),
        numeral(s, 16) is Some && numeral(seq![c], 16) is Some ==> numeral(s.push(c), 16) == Some(
            (16 * numeral(s, 16)->0 + numeral(seq![c], 16)->0) as nat,
        ),
        !(48 <= c as int <= 57) && !(97 <= c as int <= 102) && !(65 <= c as int <= 70) ==> numeral(
            seq![c],
            16,
        ) is None,
{
    let one = seq![c];
    assert(one.drop_last() =~= Seq::<char>::empty());
    assert(digits_value(one.drop_last(), 16) == 0);
    assert(one[0] == c);
    if digit_value(c, 16) is Some {
        assert forall|i: int| 0 <= i < one.len() implies (#[trigger] digit_value(
            one[i],
            16,
        )) is Some by {}
        assert(digits_value(one, 16) == digit_value(c, 16)->0);
        if numeral(s, 16) is Some {
            let t = s.push(c);
            assert(t.drop_last() =~= s);
            assert forall|i: int| 0 <= i < t.len() implies (#[trigger] digit_value(
                t[i],
                16,
            )) is Some by {
                if i < s.len() {
                    assert(digit_value(s[i], 16) is Some);
                }
            }
            assert(digits_value(t, 16) == digits_value(s, 16) * 16 + digit_value(c, 16)->0);
        }
    } else {
        assert(digit_value(one[0], 16) is None);
    }
}

} // verus!
