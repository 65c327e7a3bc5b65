//! Fixed-width decimal rendering and parsing of numbers, the primitive the
//! session-state codec is built from.
use vstd::prelude::*;
use vstd::string::StrSliceExecFns;
use vstd::string::StringExecFns;

verus! {

pub open spec fn pow10(w: nat) -> int
    decreases w,
{
    if w == 0 {
        1
    } else {
        10 * pow10((w - 1) as nat)
    }
}

pub open spec fn digit_char(d: int) -> char {
    if d == 0 {
        '0'
    } else if d == 1 {
        '1'
    } else if d == 2 {
        '2'
    } else if d == 3 {
        '3'
    } else if d == 4 {
        '4'
    } else if d == 5 {
        '5'
    } else if d == 6 {
        '6'
    } else if d == 7 {
        '7'
    } else if d == 8 {
        '8'
    } else {
        '9'
    }
}

pub open spec fn is_digit(c: char) -> bool {
    c == '0' || c == '1' || c == '2' || c == '3' || c == '4' || c == '5' || c == '6' || c == '7'
        || c == '8' || c == '9'
}

pub open spec fn digit_val(c: char) -> int {
    if c == '0' {
        0
    } else if c == '1' {
        1
    } else if c == '2' {
        2
    } else if c == '3' {
        3
    } else if c == '4' {
        4
    } else if c == '5' {
        5
    } else if c == '6' {
        6
    } else if c == '7' {
        7
    } else if c == '8' {
        8
    } else {
        9
    }
}

/// `n` written in decimal, zero-padded to exactly `w` characters
/// (only the `w` least significant digits are kept).
pub open spec fn padded_dec(n: int, w: nat) -> Seq<char>
    decreases w,
{
    if w == 0 {
        Seq::<char>::empty()
    } else {
        padded_dec(n / 10, (w - 1) as nat).push(digit_char(n % 10))
    }
}

/// The number a sequence of digit characters denotes; `None` if any
/// character is not a decimal digit.
pub open spec fn parse_padded(s: Seq<char>) -> Option<int>
    decreases s.len(),
{
    if s.len() == 0 {
        Some(0int)
    } else {
        match parse_padded(s.drop_last()) {
            Some(v) => if is_digit(s.last()) {
                Some(v * 10 + digit_val(s.last()))
            } else {
                None
            },
            None => None,
        }
    }
}

pub proof fn lemma_parse_padded_nonneg(s: Seq<char>)
    ensures
        parse_padded(s) matches Some(v) ==> v >= 0,
    decreases s.len(),
{
    if s.len() > 0 {
        lemma_parse_padded_nonneg(s.drop_last());
    }
}

/// Width-`w` decimal rendering is parsed back to the number itself.
pub proof fn lemma_parse_padded_of_padded(n: int, w: nat)
    requires
        0 <= n < pow10(w),
    ensures
        parse_padded(padded_dec(n, w)) == Some(n),
    decreases w,
{
    if w == 0 {
        assert(padded_dec(n, 0) =~= Seq::<char>::empty());
    } else {
        let p = padded_dec(n / 10, (w - 1) as nat);
        let d = digit_char(n % 10);
        assert(padded_dec(n, w) == p.push(d));
        assert(p.push(d).drop_last() =~= p);
        assert(p.push(d).last() == d);
        assert(0 <= n / 10 < pow10((w - 1) as nat)) by (nonlinear_arith)
            requires
                0 <= n < pow10(w),
                pow10(w) == 10 * pow10((w - 1) as nat),
        ;
        lemma_parse_padded_of_padded(n / 10, (w - 1) as nat);
        assert(is_digit(d));
        assert(digit_val(d) == n % 10);
        assert((n / 10) * 10 + n % 10 == n) by (nonlinear_arith);
    }
}

pub broadcast proof fn lemma_padded_dec_len(n: int, w: nat)
    ensures
        (#[trigger] padded_dec(n, w)).len() == w,
    decreases w,
{
    if w > 0 {
        lemma_padded_dec_len(n / 10, (w - 1) as nat);
    }
}

/// Every `u64` fits in twenty decimal digits.
pub proof fn lemma_u64_fits_twenty_digits()
    ensures
        0xFFFF_FFFF_FFFF_FFFFu64 < pow10(20),
{
    reveal_with_fuel(pow10, 21);
}

fn digit_str(d: u64) -> (r: &'static str)
    requires
        d < 10,
    ensures
        r@.len() == 1,
        r@[0] == digit_char(d as int),
{
    proof {
        reveal_strlit("0");
        reveal_strlit("1");
        reveal_strlit("2");
        reveal_strlit("3");
        reveal_strlit("4");
        reveal_strlit("5");
        reveal_strlit("6");
        reveal_strlit("7");
        reveal_strlit("8");
        reveal_strlit("9");
    }
    if d == 0 {
        "0"
    } else if d == 1 {
        "1"
    } else if d == 2 {
        "2"
    } else if d == 3 {
        "3"
    } else if d == 4 {
        "4"
    } else if d == 5 {
        "5"
    } else if d == 6 {
        "6"
    } else if d == 7 {
        "7"
    } else if d == 8 {
        "8"
    } else {
        "9"
    }
}

/// Appends the width-`w` decimal rendering of `n` to `out`.
pub fn push_padded(out: &mut String, n: u64, w: usize)
    ensures
        final(out)@ == old(out)@ + padded_dec(n as int, w as nat),
    decreases w,
{
    if w == 0 {
        proof {
            assert(old(out)@ + padded_dec(n as int, 0) =~= old(out)@);
        }
    } else {
        push_padded(out, n / 10, w - 1);
        let ds = digit_str(n % 10);
        out.append(ds);
        proof {
            assert(old(out)@ + (padded_dec((n / 10) as int, (w - 1) as nat) + ds@) =~= old(
                out,
            )@ + padded_dec(n as int, w as nat));
        }
    }
}

fn char_digit(c: char) -> (r: Option<u64>)
    ensures
        r matches Some(d) ==> is_digit(c) && d < 10 && d == digit_val(c),
        r is None ==> !is_digit(c),
{
    if c == '0' {
        Some(0)
    } else if c == '1' {
        Some(1)
    } else if c == '2' {
        Some(2)
    } else if c == '3' {
        Some(3)
    } else if c == '4' {
        Some(4)
    } else if c == '5' {
        Some(5)
    } else if c == '6' {
        Some(6)
    } else if c == '7' {
        Some(7)
    } else if c == '8' {
        Some(8)
    } else if c == '9' {
        Some(9)
    } else {
        None
    }
}

/// Parses the `w` characters of `s` starting at `from` as a decimal number.
pub fn parse_pad(s: &str, from: usize, w: usize) -> (r: Option<u64>)
    requires
        from + w <= s@.len(),
        from + w <= usize::MAX,
    ensures
        parse_padded(s@.subrange(from as int, from as int + w)) is None ==> r is None,
        parse_padded(s@.subrange(from as int, from as int + w)) matches Some(v) ==> {
            &&& v > u64::MAX ==> r is None
            &&& v <= u64::MAX ==> r == Some(v as u64)
        },
    decreases w,
{
    let ghost sub = s@.subrange(from as int, from as int + w);
    if w == 0 {
        proof {
            assert(sub =~= Seq::<char>::empty());
        }
        Some(0)
    } else {
        proof {
            assert(sub.drop_last() =~= s@.subrange(from as int, from as int + (w - 1)));
            assert(sub.last() == s@[from as int + w - 1]);
            lemma_parse_padded_nonneg(sub.drop_last());
        }
        match parse_pad(s, from, w - 1) {
            None => {
                proof {
                    match parse_padded(sub.drop_last()) {
                        Some(v0) => {
                            assert(v0 > u64::MAX);
                            if is_digit(sub.last()) {
                                assert(v0 * 10 + digit_val(sub.last()) > u64::MAX)
                                    by (nonlinear_arith)
                                    requires
                                        v0 > u64::MAX,
                                        0 <= digit_val(sub.last()),
                                ;
                            }
                        },
                        None => {},
                    }
                }
                None
            },
            Some(prev) => {
                let c = s.get_char(from + (w - 1));
                match char_digit(c) {
                    None => None,
                    Some(d) => {
                        let acc: u128 = prev as u128 * 10 + d as u128;
                        if acc > u64::MAX as u128 {
                            None
                        } else {
                            Some(acc as u64)
                        }
                    },
                }
            },
        }
    }
}


/// `n` written in decimal with no leading zeros (a single zero for zero).
pub open spec fn dec_of(n: int) -> Seq<char>
    decreases n,
{
    if n < 10 {
        seq![digit_char(n)]
    } else {
        dec_of(n / 10).push(digit_char(n % 10))
    }
}

/// Appends the decimal rendering of `n` to `out`.
pub fn push_dec(out: &mut String, n: u64)
    ensures
        final(out)@ == old(out)@ + dec_of(n as int),
    decreases n,
{
    if n < 10 {
        let ds = digit_str(n);
        out.append(ds);
        proof {
            assert(old(out)@ + seq![digit_char(n as int)] =~= final(out)@);
        }
    } else {
        push_dec(out, n / 10);
        let ds = digit_str(n % 10);
        out.append(ds);
        proof {
            assert(old(out)@ + (dec_of((n / 10) as int) + ds@) =~= old(out)@ + dec_of(n as int));
        }
    }
}

} // verus!

