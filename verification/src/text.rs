//! Verified text utilities: decimal parsing and rendering over character
//! sequences, conversion between `String` and `Vec<char>`, and the
//! fixed-point beat-length grammar used by script arguments.

use vstd::prelude::*;

verus! {

/// Decimal digit predicate over a character.
pub open spec fn is_dec_digit(c: char) -> bool {
    48 <= c as u32 <= 57
}

/// Every character of the sequence is a decimal digit.
pub open spec fn all_digits(s: Seq<char>) -> bool {
    forall|i: int| 0 <= i < s.len() ==> is_dec_digit(#[trigger] s[i])
}

/// The value of a digit sequence read as a base-ten numeral (zero when
/// empty).
pub open spec fn dec_val(s: Seq<char>) -> int
    decreases s.len(),
{
    if s.len() == 0 {
        0
    } else {
        dec_val(s.drop_last()) * 10 + (s.last() as u32 - 48)
    }
}

/// The character of one decimal digit value.
pub open spec fn digit_char(d: int) -> char {
    if d == 0 { '0' }
    else if d == 1 { '1' }
    else if d == 2 { '2' }
    else if d == 3 { '3' }
    else if d == 4 { '4' }
    else if d == 5 { '5' }
    else if d == 6 { '6' }
    else if d == 7 { '7' }
    else if d == 8 { '8' }
    else { '9' }
}

/// The canonical decimal numeral of a non-negative integer, without leading
/// zeros (a single zero digit for zero).
pub open spec fn dec_chars_of(n: int) -> Seq<char>
    decreases n,
{
    if n <= 0 {
        seq![digit_char(0)]
    } else if n < 10 {
        seq![digit_char(n)]
    } else {
        dec_chars_of(n / 10).push(digit_char(n % 10))
    }
}

/// Law: the canonical numeral of `n` is all digits and reads back as `n`.
pub proof fn lemma_dec_chars_roundtrip(n: int)
    requires
        n >= 0,
    ensures
        all_digits(dec_chars_of(n)),
        dec_val(dec_chars_of(n)) == n,
        dec_chars_of(n).len() >= 1,
    decreases n,
{
    if n < 10 {
        let s = dec_chars_of(n);
        assert(s =~= seq![digit_char(n)]);
        assert(s.last() == digit_char(n));
        assert(s.drop_last().len() == 0);
        assert(dec_val(s.drop_last()) == 0);
        assert(digit_char(n) as u32 - 48 == n);
        assert(dec_val(s) == dec_val(s.drop_last()) * 10 + (s.last() as u32 - 48));
        assert(is_dec_digit(s[0]));
    } else {
        lemma_dec_chars_roundtrip(n / 10);
        let s0 = dec_chars_of(n / 10);
        let s = s0.push(digit_char(n % 10));
        assert(s.drop_last() =~= s0);
        assert(s.last() == digit_char(n % 10));
        assert(0 <= n % 10 < 10);
        assert(is_dec_digit(digit_char(n % 10)));
        assert((digit_char(n % 10) as u32 - 48) == n % 10);
        assert(dec_val(s) == dec_val(s0) * 10 + n % 10);
        assert(n / 10 * 10 + n % 10 == n) by {
            vstd::arithmetic::div_mod::lemma_fundamental_div_mod(n, 10);
        }
        assert(all_digits(s)) by {
            assert(forall|i: int| 0 <= i < s0.len() ==> s[i] == s0[i]);
        }
    }
}

/// One digit value as a character.
pub fn digit_to_char(d: u8) -> (c: char)
    requires
        d < 10,
    ensures
        c == digit_char(d as int),
        is_dec_digit(c),
        c as u32 - 48 == d,
{
    match d {
        0 => '0',
        1 => '1',
        2 => '2',
        3 => '3',
        4 => '4',
        5 => '5',
        6 => '6',
        7 => '7',
        8 => '8',
        _ => '9',
    }
}

/// Render a number as its canonical decimal numeral.
pub fn dec_chars(n: u64) -> (v: Vec<char>)
    ensures
        v@ == dec_chars_of(n as int),
    decreases n,
{
    if n < 10 {
        let mut v: Vec<char> = Vec::new();
        v.push(digit_to_char(n as u8));
        assert(v@ =~= dec_chars_of(n as int));
        v
    } else {
        let mut v = dec_chars(n / 10);
        v.push(digit_to_char((n % 10) as u8));
        assert(v@ =~= dec_chars_of(n as int));
        v
    }
}

/// Read a span of digit characters as a number. Returns the value exactly
/// when the span is all digits and the value fits; otherwise nothing.
pub fn parse_dec(v: &Vec<char>, from: usize, to: usize) -> (r: Option<u64>)
    requires
        from <= to <= v@.len(),
    ensures
        match r {
            Some(x) => all_digits(v@.subrange(from as int, to as int))
                && dec_val(v@.subrange(from as int, to as int)) == x,
            None => !all_digits(v@.subrange(from as int, to as int))
                || dec_val(v@.subrange(from as int, to as int)) > u64::MAX,
        },
{
    let ghost whole = v@.subrange(from as int, to as int);
    let mut acc: u128 = 0;
    let mut i: usize = from;
    while i < to
        invariant
            from <= i <= to <= v@.len(),
            whole == v@.subrange(from as int, to as int),
            all_digits(v@.subrange(from as int, i as int)),
            dec_val(v@.subrange(from as int, i as int)) <= u64::MAX
                ==> acc == dec_val(v@.subrange(from as int, i as int)),
            dec_val(v@.subrange(from as int, i as int)) > u64::MAX
                ==> acc > u64::MAX,
            acc <= 0xFF_FFFF_FFFF_FFFF_FFFF,
        decreases to - i,
    {
        let ghost pre = v@.subrange(from as int, i as int);
        let c = v[i];
        let u = c as u32;
        if u < 48 || u > 57 {
            proof {
                assert(whole[i - from] == c);
                assert(!is_dec_digit(c));
                assert(!all_digits(whole));
            }
            return None;
        }
        let d = (u - 48) as u128;
        proof {
            assert(v@.subrange(from as int, i + 1) =~= pre.push(c));
            assert(pre.push(c).drop_last() =~= pre);
            assert(dec_val(pre.push(c)) == dec_val(pre) * 10 + d);
            if dec_val(pre) > u64::MAX {
                assert(dec_val(pre) * 10 + d > u64::MAX) by (nonlinear_arith)
                    requires dec_val(pre) > u64::MAX, d >= 0;
            }
        }
        if acc > u64::MAX as u128 {
            // Leave the accumulator saturated above the representable range.
        } else {
            acc = acc * 10 + d;
        }
        i = i + 1;
    }
    proof {
        assert(v@.subrange(from as int, i as int) =~= whole);
    }
    if acc > u64::MAX as u128 {
        None
    } else {
        Some(acc as u64)
    }
}

/// Index of the first dot character of the sequence, when one exists.
pub open spec fn first_dot(s: Seq<char>) -> Option<int>
    decreases s.len(),
{
    if s.len() == 0 {
        None
    } else if s[0] == '.' {
        Some(0int)
    } else {
        match first_dot(s.drop_first()) {
            None => None,
            Some(j) => Some(j + 1),
        }
    }
}

proof fn lemma_first_dot_found(s: Seq<char>, i: int)
    requires
        0 <= i < s.len(),
        s[i] == '.',
        forall|j: int| 0 <= j < i ==> s[j] != '.',
    ensures
        first_dot(s) == Some(i),
    decreases i,
{
    if i == 0 {
    } else {
        assert(s[0] != '.');
        let t = s.drop_first();
        assert(t[i - 1] == s[i]);
        assert(forall|j: int| 0 <= j < i - 1 ==> t[j] == s[j + 1] && t[j] != '.');
        lemma_first_dot_found(t, i - 1);
    }
}

proof fn lemma_first_dot_none(s: Seq<char>)
    requires
        forall|j: int| 0 <= j < s.len() ==> s[j] != '.',
    ensures
        first_dot(s) == None::<int>,
    decreases s.len(),
{
    if s.len() > 0 {
        let t = s.drop_first();
        assert(forall|j: int| 0 <= j < t.len() ==> t[j] == s[j + 1] && t[j] != '.');
        lemma_first_dot_none(t);
    }
}

/// Find the first dot of the character vector.
pub fn find_dot(v: &Vec<char>) -> (r: Option<usize>)
    ensures
        match r {
            Some(i) => i < v@.len() && first_dot(v@) == Some(i as int),
            None => first_dot(v@) == None::<int>,
        },
{
    let mut i: usize = 0;
    while i < v.len()
        invariant
            i <= v@.len(),
            forall|j: int| 0 <= j < i ==> v@[j] != '.',
        decreases v@.len() - i,
    {
        if v[i] == '.' {
            proof {
                lemma_first_dot_found(v@, i as int);
            }
            return Some(i);
        }
        i = i + 1;
    }
    proof {
        lemma_first_dot_none(v@);
    }
    None
}

/// Ten to the given power.
pub open spec fn pow10(e: int) -> int
    decreases e,
{
    if e <= 0 {
        1
    } else {
        10 * pow10(e - 1)
    }
}

/// Ten to the given small power.
pub fn pow10_exec(e: u32) -> (r: u64)
    requires
        e <= 6,
    ensures
        r == pow10(e as int),
{
    proof {
        reveal_with_fuel(pow10, 8);
    }
    match e {
        0 => 1,
        1 => 10,
        2 => 100,
        3 => 1_000,
        4 => 10_000,
        5 => 100_000,
        _ => 1_000_000,
    }
}

/// The beat-length grammar of script arguments: a whole number of beats, or
/// a dotted decimal with at most six fractional digits, read as a
/// fixed-point count of microbeats.
pub open spec fn spec_parse_beats(s: Seq<char>) -> Option<int> {
    match first_dot(s) {
        None => if s.len() >= 1 && all_digits(s) {
            Some(dec_val(s) * 1_000_000)
        } else {
            None
        },
        Some(i) => {
            let ip = s.subrange(0, i);
            let fp = s.subrange(i + 1, s.len() as int);
            if ip.len() >= 1 && 1 <= fp.len() <= 6 && all_digits(ip) && all_digits(fp) {
                Some(dec_val(ip) * 1_000_000 + dec_val(fp) * pow10(6 - fp.len()))
            } else {
                None
            }
        },
    }
}

/// Parse a beat length in the script-argument grammar into microbeats.
/// Returns the exact fixed-point value when the text is well formed and the
/// value fits; otherwise nothing.
pub fn parse_beats(v: &Vec<char>) -> (r: Option<u64>)
    ensures
        match spec_parse_beats(v@) {
            Some(x) => if x <= u64::MAX {
                r == Some(x as u64)
            } else {
                r == None::<u64>
            },
            None => r == None::<u64>,
        },
{
    match find_dot(v) {
        None => {
            if v.len() == 0 {
                return None;
            }
            match parse_dec(v, 0, v.len()) {
                None => {
                    proof {
                        assert(v@.subrange(0, v@.len() as int) =~= v@);
                        if all_digits(v@) {
                            assert(dec_val(v@) > u64::MAX);
                            assert(dec_val(v@) * 1_000_000 > u64::MAX) by (nonlinear_arith)
                                requires dec_val(v@) > u64::MAX;
                        }
                    }
                    None
                },
                Some(x) => {
                    proof {
                        assert(v@.subrange(0, v@.len() as int) =~= v@);
                        assert((x as int) * 1_000_000 <= 0xFFFF_FFFF_FFFF_FFFFu64 * 1_000_000)
                            by (nonlinear_arith)
                            requires x <= 0xFFFF_FFFF_FFFF_FFFFu64;
                    }
                    let wide = (x as u128) * 1_000_000;
                    if wide > u64::MAX as u128 {
                        None
                    } else {
                        Some(wide as u64)
                    }
                },
            }
        },
        Some(i) => {
            let n = v.len();
            if i == 0 || i + 1 >= n || n - (i + 1) > 6 {
                return None;
            }
            let ghost ip = v@.subrange(0, i as int);
            let ghost fp = v@.subrange(i + 1, n as int);
            let r_ip = parse_dec(v, 0, i);
            let r_fp = parse_dec(v, i + 1, n);
            match (r_ip, r_fp) {
                (Some(xi), Some(xf)) => {
                    proof {
                        // The fractional part has at most six digits, so its
                        // value is below ten to the sixth.
                        lemma_dec_val_bound(fp);
                        lemma_pow10_mono(fp.len() as int, 6);
                    }
                    proof {
                        reveal_with_fuel(pow10, 8);
                        lemma_pow10_mono(6 - (n - (i + 1)), 6);
                        assert(pow10(6) == 1_000_000);
                    }
                    let scale = pow10_exec((6 - (n - (i + 1))) as u32);
                    proof {
                        assert((xi as int) * 1_000_000 <= 0xFFFF_FFFF_FFFF_FFFFu64 * 1_000_000)
                            by (nonlinear_arith)
                            requires xi <= 0xFFFF_FFFF_FFFF_FFFFu64;
                        assert((xf as int) * (scale as int) <= 0xFFFF_FFFF_FFFF_FFFFu64 * 1_000_000)
                            by (nonlinear_arith)
                            requires xf <= 0xFFFF_FFFF_FFFF_FFFFu64, scale <= 1_000_000;
                    }
                    let wide = (xi as u128) * 1_000_000 + (xf as u128) * (scale as u128);
                    if wide > u64::MAX as u128 {
                        None
                    } else {
                        Some(wide as u64)
                    }
                },
                _ => {
                    proof {
                        if all_digits(ip) && all_digits(fp) {
                            if dec_val(ip) > u64::MAX {
                                lemma_dec_val_nonneg(fp);
                                lemma_pow10_pos(6 - fp.len() as int);
                                assert(dec_val(ip) * 1_000_000 + dec_val(fp) * pow10(6 - fp.len())
                                    > u64::MAX) by (nonlinear_arith)
                                    requires
                                        dec_val(ip) > u64::MAX,
                                        dec_val(fp) >= 0,
                                        pow10(6 - fp.len()) >= 1;
                            } else {
                                // The fractional numeral of at most six digits
                                // always fits, so only the whole part can have
                                // been rejected.
                                reveal_with_fuel(pow10, 8);
                                lemma_dec_val_bound(fp);
                                lemma_pow10_mono(fp.len() as int, 6);
                                assert(pow10(6) == 1_000_000);
                            }
                        }
                    }
                    None
                },
            }
        },
    }
}

/// A well-formed beat length is non-negative.
pub proof fn lemma_parse_beats_nonneg(s: Seq<char>)
    ensures
        match spec_parse_beats(s) {
            Some(x) => x >= 0,
            None => true,
        },
{
    match first_dot(s) {
        None => {
            if s.len() >= 1 && all_digits(s) {
                lemma_dec_val_nonneg(s);
                assert(dec_val(s) * 1_000_000 >= 0) by (nonlinear_arith)
                    requires dec_val(s) >= 0;
            }
        },
        Some(i) => {
            let ip = s.subrange(0, i);
            let fp = s.subrange(i + 1, s.len() as int);
            if ip.len() >= 1 && 1 <= fp.len() <= 6 && all_digits(ip) && all_digits(fp) {
                lemma_dec_val_nonneg(ip);
                lemma_dec_val_nonneg(fp);
                lemma_pow10_pos(6 - fp.len() as int);
                assert(dec_val(ip) * 1_000_000 + dec_val(fp) * pow10(6 - fp.len()) >= 0)
                    by (nonlinear_arith)
                    requires
                        dec_val(ip) >= 0,
                        dec_val(fp) >= 0,
                        pow10(6 - fp.len()) >= 1;
            }
        },
    }
}

/// A digit numeral is non-negative.
pub proof fn lemma_dec_val_nonneg(s: Seq<char>)
    requires
        all_digits(s),
    ensures
        dec_val(s) >= 0,
    decreases s.len(),
{
    if s.len() > 0 {
        assert(all_digits(s.drop_last())) by {
            assert(forall|i: int| 0 <= i < s.len() - 1 ==> s.drop_last()[i] == s[i]);
        }
        lemma_dec_val_nonneg(s.drop_last());
        assert(is_dec_digit(s.last()));
    }
}

/// Ten to any power is positive.
pub proof fn lemma_pow10_pos(e: int)
    ensures
        pow10(e) >= 1,
    decreases e,
{
    if e > 0 {
        lemma_pow10_pos(e - 1);
    }
}

/// Ten to a power is monotone in the exponent.
pub proof fn lemma_pow10_mono(a: int, b: int)
    requires
        a <= b,
    ensures
        pow10(a) <= pow10(b),
    decreases b - a,
{
    if a < b {
        lemma_pow10_mono(a, b - 1);
        lemma_pow10_pos(b - 1);
    }
}

/// A numeral's value is below ten to its length.
pub proof fn lemma_dec_val_bound(s: Seq<char>)
    requires
        all_digits(s),
    ensures
        0 <= dec_val(s) < pow10(s.len() as int),
    decreases s.len(),
{
    if s.len() == 0 {
    } else {
        assert(all_digits(s.drop_last())) by {
            assert(forall|i: int| 0 <= i < s.len() - 1 ==> s.drop_last()[i] == s[i]);
        }
        lemma_dec_val_bound(s.drop_last());
        assert(is_dec_digit(s.last()));
        assert(dec_val(s.drop_last()) * 10 + (s.last() as u32 - 48) < pow10(s.len() as int))
            by (nonlinear_arith)
            requires
                0 <= dec_val(s.drop_last()) < pow10(s.len() - 1),
                s.last() as u32 - 48 <= 9,
                pow10(s.len() as int) == 10 * pow10(s.len() - 1);
    }
}

/// Copy the characters of a string slice into a vector.
pub fn str_to_chars(s: &str) -> (v: Vec<char>)
    ensures
        v@ == s@,
{
    let n = s.unicode_len();
    let mut v: Vec<char> = Vec::new();
    let mut i: usize = 0;
    while i < n
        invariant
            i <= n,
            n == s@.len(),
            v@ =~= s@.subrange(0, i as int),
        decreases n - i,
    {
        v.push(s.get_char(i));
        assert(v@ =~= s@.subrange(0, i + 1));
        i = i + 1;
    }
    assert(v@ =~= s@);
    v
}

/// Relies on `String::push`: appends one character to the end of the string.
#[verifier::external_body]
pub fn push_char(s: &mut String, c: char)
    ensures
        final(s)@ == old(s)@.push(c),
{
    s.push(c)
}

/// Build a string from a vector of characters.
pub fn chars_to_string(v: &Vec<char>) -> (s: String)
    ensures
        s@ == v@,
{
    let mut s = String::new();
    let mut i: usize = 0;
    while i < v.len()
        invariant
            i <= v@.len(),
            s@ =~= v@.subrange(0, i as int),
        decreases v@.len() - i,
    {
        push_char(&mut s, v[i]);
        assert(s@ =~= v@.subrange(0, i + 1));
        i = i + 1;
    }
    assert(s@ =~= v@);
    s
}

} // verus!
