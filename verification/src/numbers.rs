//! Decimal text: parsing digit strings into integers and rendering integers
//! back as text, with exact contracts over sequence models.

use vstd::prelude::*;
use vstd::string::StringExecFns;

verus! {

/// An ASCII decimal digit.
pub open spec fn is_digit(c: char) -> bool {
    c == '0' || c == '1' || c == '2' || c == '3' || c == '4' || c == '5' || c == '6' || c == '7'
        || c == '8' || c == '9'
}

/// Numeric value of a digit; zero on any other character, which no caller
/// relies on.
pub open spec fn digit_val(c: char) -> int {
    if c == '1' {
        1
    } else if c == '2' {
        2
    } else if c == '3' {
        3
    } else if c == '4' {
        4
    } else if c == '5' {
        5
    } else if c == '6' {
        6
    } else if c == '7' {
        7
    } else if c == '8' {
        8
    } else if c == '9' {
        9
    } else {
        0
    }
}

/// The digit character for a value in 0..=9.
pub open spec fn digit_char(d: int) -> char {
    if d == 1 {
        '1'
    } else if d == 2 {
        '2'
    } else if d == 3 {
        '3'
    } else if d == 4 {
        '4'
    } else if d == 5 {
        '5'
    } else if d == 6 {
        '6'
    } else if d == 7 {
        '7'
    } else if d == 8 {
        '8'
    } else if d == 9 {
        '9'
    } else {
        '0'
    }
}

pub open spec fn all_digits(s: Seq<char>) -> bool {
    forall|i: int| 0 <= i < s.len() ==> is_digit(#[trigger] s[i])
}

/// Value of a digit string, most significant digit first.
pub open spec fn digits_val(s: Seq<char>) -> int
    decreases s.len(),
{
    if s.len() == 0 {
        0
    } else {
        digits_val(s.drop_last()) * 10 + digit_val(s.last())
    }
}

/// A plain non-negative integer literal: non-empty, digits only.
pub open spec fn is_uint_text(s: Seq<char>) -> bool {
    s.len() > 0 && all_digits(s)
}

/// A plain non-negative integer literal whose value fits in a `u64`.
pub open spec fn parses_to_u64(s: Seq<char>) -> bool {
    is_uint_text(s) && digits_val(s) <= u64::MAX
}

pub proof fn lemma_digits_val_nonneg(s: Seq<char>)
    ensures
        digits_val(s) >= 0,
    decreases s.len(),
{
    if s.len() > 0 {
        lemma_digits_val_nonneg(s.drop_last());
    }
}

/// Extending a digit string to the right cannot shrink its value.
pub proof fn lemma_digits_val_prefix_le(s: Seq<char>, i: int, j: int)
    requires
        0 <= i <= j <= s.len(),
    ensures
        digits_val(s.take(i)) <= digits_val(s.take(j)),
    decreases j - i,
{
    if i < j {
        lemma_digits_val_prefix_le(s, i, j - 1);
        let t = s.take(j);
        assert(t.drop_last() =~= s.take(j - 1));
        lemma_digits_val_nonneg(s.take(j - 1));
    }
}

/// Parses a whole string as a plain non-negative decimal integer.
/// Returns `None` on an empty string, a non-digit character, or overflow.
pub fn parse_u64(s: &str) -> (r: Option<u64>)
    ensures
        match r {
            Some(v) => parses_to_u64(s@) && v == digits_val(s@),
            None => !parses_to_u64(s@),
        },
{
    let n = s.unicode_len();
    if n == 0 {
        return None;
    }
    let mut acc: u64 = 0;
    let mut i: usize = 0;
    while i < n
        invariant
            i <= n,
            n == s@.len(),
            all_digits(s@.take(i as int)),
            acc == digits_val(s@.take(i as int)),
        decreases n - i,
    {
        let c = s.get_char(i);
        let d: u64 = match c {
            '0' => 0,
            '1' => 1,
            '2' => 2,
            '3' => 3,
            '4' => 4,
            '5' => 5,
            '6' => 6,
            '7' => 7,
            '8' => 8,
            '9' => 9,
            _ => {
                assert(!is_digit(s@[i as int]));
                return None;
            },
        };
        assert(is_digit(s@[i as int]) && d == digit_val(s@[i as int]));
        proof {
            assert(s@.take(i + 1).drop_last() =~= s@.take(i as int));
            assert(s@.take(i + 1).last() == s@[i as int]);
        }
        if acc > (u64::MAX - d) / 10 {
            proof {
                assert(acc * 10 + d > u64::MAX) by (nonlinear_arith)
                    requires
                        acc > (u64::MAX - d) / 10,
                        0 <= d <= 9,
                        acc >= 0,
                {}
                if all_digits(s@) {
                    lemma_digits_val_prefix_le(s@, i + 1, s@.len() as int);
                    assert(s@.take(s@.len() as int) =~= s@);
                }
            }
            return None;
        }
        assert(acc * 10 + d <= u64::MAX) by (nonlinear_arith)
            requires
                acc <= (u64::MAX - d) / 10,
                0 <= d <= 9,
                acc >= 0,
        {}
        acc = acc * 10 + d;
        i += 1;
    }
    proof {
        assert(s@.take(n as int) =~= s@);
    }
    Some(acc)
}

/// Decimal text of a non-negative value, no padding, no sign.
pub open spec fn dec_text(n: int) -> Seq<char>
    decreases n,
{
    if n <= 0 {
        seq!['0']
    } else if n < 10 {
        seq![digit_char(n)]
    } else {
        dec_text(n / 10).push(digit_char(n % 10))
    }
}

/// Renders a `u64` in decimal.
pub fn u64_text(n: u64) -> (s: String)
    ensures
        s@ == dec_text(n as int),
{
    let mut digits: Vec<char> = Vec::new();
    let mut m: u64 = n;
    while m >= 10
        invariant
            dec_text(n as int) =~= dec_text(m as int) + digits@.reverse(),
        decreases m,
    {
        let d = digit_of(m % 10);
        proof {
            let prev = digits@;
            assert(dec_text(m as int) == dec_text(m as int / 10).push(digit_char(m as int % 10)));
            assert(prev.push(digit_char(m as int % 10)).reverse() =~= seq![
                digit_char(m as int % 10),
            ] + prev.reverse());
            assert(dec_text(m as int / 10) + (seq![digit_char(m as int % 10)] + prev.reverse())
                =~= dec_text(m as int / 10).push(digit_char(m as int % 10)) + prev.reverse());
        }
        digits.push(d);
        m = m / 10;
    }
    let d0 = digit_of(m);
    proof {
        let prev = digits@;
        assert(dec_text(m as int) =~= seq![digit_char(m as int)]);
        assert(prev.push(digit_char(m as int)).reverse() =~= seq![digit_char(m as int)]
            + prev.reverse());
    }
    digits.push(d0);
    chars_reversed(&digits)
}

/// The digit character for `d`, which must be below ten.
fn digit_of(d: u64) -> (c: char)
    requires
        d < 10,
    ensures
        c == digit_char(d as int),
{
    match d {
        0 => '0',
        1 => '1',
        2 => '2',
        3 => '3',
        4 => '4',
        5 => '5',
        6 => '6',
        7 => '7',
        8 => '8',
        _ => '9',
    }
}

/// `s` left-padded with zeros up to width `w`; unchanged when already wider.
pub open spec fn spec_zero_pad(s: Seq<char>, w: int) -> Seq<char> {
    if s.len() >= w {
        s
    } else {
        Seq::new((w - s.len()) as nat, |i: int| '0') + s
    }
}

/// `s` right-padded with spaces up to width `w`; unchanged when already wider.
pub open spec fn spec_pad_right(s: Seq<char>, w: int) -> Seq<char> {
    if s.len() >= w {
        s
    } else {
        s + Seq::new((w - s.len()) as nat, |i: int| ' ')
    }
}

/// Renders a `u64` in decimal, zero-padded to `width`.
pub fn u64_text_padded(n: u64, width: usize) -> (s: String)
    ensures
        s@ == spec_zero_pad(dec_text(n as int), width as int),
{
    let t = u64_text(n);
    let len = t.unicode_len();
    let mut s = String::new();
    if len < width {
        let pad = width - len;
        let mut k: usize = 0;
        while k < pad
            invariant
                k <= pad,
                s@ =~= Seq::new(k as nat, |i: int| '0'),
            decreases pad - k,
        {
            crate::text::push_char(&mut s, '0');
            proof {
                assert(s@ =~= Seq::new((k + 1) as nat, |i: int| '0'));
            }
            k += 1;
        }
    }
    s.append(t.as_str());
    proof {
        assert(s@ =~= spec_zero_pad(dec_text(n as int), width as int));
    }
    s
}

/// Appends `s` to `out`, then spaces up to column width `w`.
pub fn append_padded(out: &mut String, s: &str, w: usize)
    ensures
        final(out)@ == old(out)@ + spec_pad_right(s@, w as int),
{
    let len = s.unicode_len();
    out.append(s);
    if len < w {
        let pad = w - len;
        let mut k: usize = 0;
        while k < pad
            invariant
                k <= pad,
                out@ =~= old(out)@ + s@ + Seq::new(k as nat, |i: int| ' '),
            decreases pad - k,
        {
            crate::text::push_char(out, ' ');
            proof {
                assert(out@ =~= old(out)@ + s@ + Seq::new((k + 1) as nat, |i: int| ' '));
            }
            k += 1;
        }
    }
    proof {
        assert(out@ =~= old(out)@ + spec_pad_right(s@, w as int));
    }
}

/// Builds a string from the characters of `v`, last character first.
fn chars_reversed(v: &Vec<char>) -> (s: String)
    ensures
        s@ == v@.reverse(),
{
    let mut s = String::new();
    let n = v.len();
    let mut k: usize = 0;
    while k < n
        invariant
            k <= n,
            n == v@.len(),
            s@ =~= v@.reverse().take(k as int),
        decreases n - k,
    {
        crate::text::push_char(&mut s, v[n - 1 - k]);
        proof {
            assert(v@.reverse().take(k + 1) =~= v@.reverse().take(k as int).push(
                v@[n - 1 - k as int],
            ));
        }
        k += 1;
    }
    proof {
        assert(v@.reverse().take(n as int) =~= v@.reverse());
    }
    s
}

} // verus!
