use vstd::prelude::*;

verus! {

/// `1024` to the power `i`.
pub open spec fn pow1024(i: nat) -> nat
    decreases i,
{
    if i == 0 {
        1
    } else {
        1024 * pow1024((i - 1) as nat)
    }
}

/// How many times `n` can be divided by 1024 before it drops below 1024.
pub open spec fn scale(n: nat) -> nat
    decreases n,
{
    if n >= 1024 {
        1 + scale(n / 1024)
    } else {
        0
    }
}

/// The index of the binary unit in which `bytes` is shown: as many steps of
/// 1024 as fit, capped at the largest unit.
pub open spec fn unit_index(bytes: nat) -> nat {
    if scale(bytes) < 8 {
        scale(bytes)
    } else {
        8
    }
}

/// The name of binary unit `i`.
pub open spec fn unit_name(i: nat) -> Seq<char> {
    if i == 0 {
        seq!['B']
    } else if i == 1 {
        seq!['K', 'i', 'B']
    } else if i == 2 {
        seq!['M', 'i', 'B']
    } else if i == 3 {
        seq!['G', 'i', 'B']
    } else if i == 4 {
        seq!['T', 'i', 'B']
    } else if i == 5 {
        seq!['P', 'i', 'B']
    } else if i == 6 {
        seq!['E', 'i', 'B']
    } else if i == 7 {
        seq!['Z', 'i', 'B']
    } else {
        seq!['Y', 'i', 'B']
    }
}

/// `n / d` rounded to the nearest integer, ties to the even one.
pub open spec fn round_half_even(n: nat, d: nat) -> nat
    recommends
        d > 0,
{
    let q = n / d;
    let r = n % d;
    if 2 * r > d || (2 * r == d && q % 2 == 1) {
        q + 1
    } else {
        q
    }
}

/// The spacing of 64-bit floating-point numbers around `n`: 1 below 2^53,
/// doubling with each further binary digit.
pub open spec fn float_spacing(n: nat) -> nat
    decreases n,
{
    if n < 0x20_0000_0000_0000 {
        1
    } else {
        2 * float_spacing(n / 2)
    }
}

/// The 64-bit floating-point number nearest to `n` (ties to even), as an
/// integer: what `n as f64` holds.
pub open spec fn as_float(n: nat) -> nat {
    round_half_even(n, float_spacing(n)) * float_spacing(n)
}

/// The character of decimal digit `d`.
pub open spec fn digit_char(d: nat) -> char {
    (48 + d) as char
}

/// The decimal digits of `n`, most significant first, without leading zeros.
pub open spec fn decimal(n: nat) -> Seq<char>
    decreases n,
{
    if n < 10 {
        seq![digit_char(n)]
    } else {
        decimal(n / 10).push(digit_char(n % 10))
    }
}

/// Tenths of the unit in which `bytes` is shown: the float `bytes as f64`
/// divided by the unit's size, rounded to one decimal place, ties to even.
pub open spec fn tenths(bytes: nat) -> nat {
    round_half_even(10 * as_float(bytes), pow1024(unit_index(bytes)))
}

/// `bytes` in a binary unit with one decimal place, e.g. `1.5 KiB`.
pub open spec fn format_bytes_spec(bytes: nat) -> Seq<char> {
    decimal(tenths(bytes) / 10) + seq!['.'] + decimal(tenths(bytes) % 10) + seq![' '] + unit_name(
        unit_index(bytes),
    )
}

/// The one-character string of decimal digit `d`.
pub fn digit_str(d: u8) -> (s: &'static str)
    requires
        d < 10,
    ensures
        s@ == seq![digit_char(d as nat)],
{
    proof {
        reveal_strlit("0");
        reveal_strlit("1");
        reveal_strlit("2");
        reveal_strlit("3");
        reveal_strlit("4");
        reveal_strlit("5");
        reveal_strlit("6");
        reveal_strlit("7");
        reveal_strlit("8");
        reveal_strlit("9");
    }
    if d == 0 {
        "0"
    } else if d == 1 {
        "1"
    } else if d == 2 {
        "2"
    } else if d == 3 {
        "3"
    } else if d == 4 {
        "4"
    } else if d == 5 {
        "5"
    } else if d == 6 {
        "6"
    } else if d == 7 {
        "7"
    } else if d == 8 {
        "8"
    } else {
        "9"
    }
}

/// Appends the decimal digits of `n` to `s`.
pub fn push_decimal(s: &mut String, n: u128)
    ensures
        final(s)@ == old(s)@ + decimal(n as nat),
    decreases n,
{
    if n >= 10 {
        push_decimal(s, n / 10);
    }
    let d = (n % 10) as u8;
    s.append(digit_str(d));
    proof {
        assert(final(s)@ =~= old(s)@ + decimal(n as nat));
    }
}

/// The name of binary unit `i`.
pub fn unit_str(i: usize) -> (s: &'static str)
    ensures
        s@ == unit_name(i as nat),
{
    proof {
        reveal_strlit("B");
        reveal_strlit("KiB");
        reveal_strlit("MiB");
        reveal_strlit("GiB");
        reveal_strlit("TiB");
        reveal_strlit("PiB");
        reveal_strlit("EiB");
        reveal_strlit("ZiB");
        reveal_strlit("YiB");
    }
    if i == 0 {
        "B"
    } else if i == 1 {
        "KiB"
    } else if i == 2 {
        "MiB"
    } else if i == 3 {
        "GiB"
    } else if i == 4 {
        "TiB"
    } else if i == 5 {
        "PiB"
    } else if i == 6 {
        "EiB"
    } else if i == 7 {
        "ZiB"
    } else {
        "YiB"
    }
}

/// `n / d` rounded to the nearest integer, ties to even.
pub fn round_div(n: u128, d: u128) -> (q: u128)
    requires
        0 < d <= 0x1_0000_0000_0000_0000_0000_0000u128,
    ensures
        q == round_half_even(n as nat, d as nat),
{
    let q = n / d;
    let r = n % d;
    if 2 * r > d || (2 * r == d && q % 2 == 1) {
        proof {
            assert(d >= 2);
            assert(q <= n / 2) by {
                vstd::arithmetic::div_mod::lemma_div_is_ordered_by_denominator(n as int, 2, d as int);
            }
        }
        q + 1
    } else {
        q
    }
}

/// The number of binary units that `bytes` climbs, capped at the largest.
pub fn unit_index_of(bytes: u64) -> (i: usize)
    ensures
        i == unit_index(bytes as nat),
        i <= 8,
{
    let mut size = bytes;
    let mut index: usize = 0;
    while size >= 1024 && index < 8
        invariant
            index <= 8,
            index + scale(size as nat) == scale(bytes as nat),
        decreases size,
    {
        size = size / 1024;
        index += 1;
    }
    index
}

/// `bytes as f64`, as an integer.
pub fn as_float_of(bytes: u64) -> (m: u128)
    ensures
        m == as_float(bytes as nat),
        m <= 0x2_0000_0000_0000_0000u128,
{
    let mut c: u64 = bytes;
    let mut u: u128 = 1;
    while c >= 0x20_0000_0000_0000u64
        invariant
            u > 0,
            u > 1 ==> c >= 0x10_0000_0000_0000u64,
            c == bytes as nat / u as nat,
            c * u <= bytes,
            float_spacing(bytes as nat) == u * float_spacing(c as nat),
        decreases c,
    {
        proof {
            vstd::arithmetic::div_mod::lemma_div_denominator(bytes as int, u as int, 2);
            assert(u <= bytes) by (nonlinear_arith)
                requires
                    c * u <= bytes,
                    c >= 1,
            ;
            assert((c / 2) * (2 * u) <= c * u) by (nonlinear_arith)
                requires
                    c >= 0,
                    u >= 0,
            ;
            assert(float_spacing(bytes as nat) == (2 * u) * float_spacing((c / 2) as nat)) by (
            nonlinear_arith)
                requires
                    float_spacing(bytes as nat) == u * float_spacing(c as nat),
                    float_spacing(c as nat) == 2 * float_spacing((c / 2) as nat),
            ;
        }
        c = c / 2;
        u = u * 2;
    }
    proof {
        assert(float_spacing(c as nat) == 1);
        assert(float_spacing(bytes as nat) == u) by (nonlinear_arith)
            requires
                float_spacing(bytes as nat) == u * float_spacing(c as nat),
                float_spacing(c as nat) == 1,
        ;
        assert(u <= bytes || u == 1) by (nonlinear_arith)
            requires
                c * u <= bytes,
                u > 1 ==> c >= 1,
                u > 0,
        ;
    }
    let q = round_div(bytes as u128, u);
    proof {
        assert(q <= bytes as nat / u as nat + 1);
        vstd::arithmetic::div_mod::lemma_fundamental_div_mod(bytes as int, u as int);
        assert(q * u <= 0x2_0000_0000_0000_0000u128) by (nonlinear_arith)
            requires
                q <= bytes as nat / u as nat + 1,
                u * (bytes as nat / u as nat) <= bytes,
                u > 0,
                u <= bytes || u == 1,
                bytes < 0x1_0000_0000_0000_0000u128,
        ;
    }
    q * u
}

/// The size of binary unit `i` in bytes.
fn unit_size(i: usize) -> (s: u128)
    requires
        i <= 8,
    ensures
        s == pow1024(i as nat),
        0 < s <= 0x1_0000_0000_0000_0000_0000u128,
{
    proof {
        reveal_with_fuel(pow1024, 9);
    }
    if i == 0 {
        1
    } else if i == 1 {
        0x400
    } else if i == 2 {
        0x10_0000
    } else if i == 3 {
        0x4000_0000
    } else if i == 4 {
        0x100_0000_0000
    } else if i == 5 {
        0x4_0000_0000_0000
    } else if i == 6 {
        0x1000_0000_0000_0000
    } else if i == 7 {
        0x40_0000_0000_0000_0000
    } else {
        0x1_0000_0000_0000_0000_0000
    }
}

/// Shows a byte count in binary units with one decimal place, such as
/// `1.5 KiB` or `0.0 B`: the unit is the largest of B, KiB, ... YiB that
/// the count reaches, and the figure is `bytes as f64` over the unit's size,
/// rounded to the nearest tenth, ties to even.
pub fn format_bytes(bytes: u64) -> (s: String)
    ensures
        s@ == format_bytes_spec(bytes as nat),
{
    let index = unit_index_of(bytes);
    let m = as_float_of(bytes);
    let t = round_div(10 * m, unit_size(index));
    let mut s = String::new();
    push_decimal(&mut s, t / 10);
    s.append(".");
    push_decimal(&mut s, t % 10);
    s.append(" ");
    s.append(unit_str(index));
    proof {
        reveal_strlit(".");
        reveal_strlit(" ");
        assert(s@ =~= format_bytes_spec(bytes as nat));
    }
    s
}

/// `n` spaces.
pub open spec fn spaces(n: nat) -> Seq<char> {
    Seq::new(n, |i: int| ' ')
}

/// `s` right-aligned in a field of `width` characters: spaces in front up
/// to the width, nothing cut from a longer `s`.
pub open spec fn pad_left_spec(s: Seq<char>, width: nat) -> Seq<char> {
    if s.len() < width {
        spaces((width - s.len()) as nat) + s
    } else {
        s
    }
}

/// `s` right-aligned in a field of `width` characters (see `pad_left_spec`).
pub fn pad_left(s: &str, width: usize) -> (r: String)
    ensures
        r@ == pad_left_spec(s@, width as nat),
{
    let len = s.unicode_len();
    let mut r = String::new();
    let mut k: usize = len;
    while k < width
        invariant
            len == s@.len(),
            len <= k <= width || (k == len && len >= width),
            r@ == spaces((k - len) as nat),
        decreases width - k,
    {
        r.append(" ");
        proof {
            reveal_strlit(" ");
        }
        k += 1;
        proof {
            assert(r@ =~= spaces((k - len) as nat));
        }
    }
    r.append(s);
    proof {
        assert(r@ =~= pad_left_spec(s@, width as nat));
    }
    r
}

/// The size column of a job's row: the size in binary units, right-aligned
/// in ten characters.
pub fn size_cell(size: u64) -> (r: String)
    ensures
        r@ == pad_left_spec(format_bytes_spec(size as nat), 10),
{
    let s = format_bytes(size);
    pad_left(s.as_str(), 10)
}

/// `c` is a decimal digit.
pub open spec fn is_digit(c: char) -> bool {
    48 <= (c as int) <= 57
}

/// The number that the decimal digits `s` spell, most significant first.
pub open spec fn read_decimal(s: Seq<char>) -> int
    decreases s.len(),
{
    if s.len() == 0 {
        0
    } else {
        10 * read_decimal(s.drop_last()) + ((s.last() as int) - 48)
    }
}

proof fn lemma_digit_char(d: nat)
    requires
        d < 10,
    ensures
        digit_char(d) as int == 48 + d,
{
}

/// The digits of `n` are decimal digits, at least one, and read back as `n`.
pub proof fn law_decimal_reads_back(n: nat)
    ensures
        decimal(n).len() > 0,
        forall|i: int| 0 <= i < decimal(n).len() ==> is_digit(#[trigger] decimal(n)[i]),
        read_decimal(decimal(n)) == n,
    decreases n,
{
    lemma_digit_char(n % 10);
    let s = decimal(n);
    if n < 10 {
        assert(s.drop_last() =~= Seq::<char>::empty());
        assert(s.last() == digit_char(n));
        assert(read_decimal(s) == 10 * read_decimal(s.drop_last()) + ((s.last() as int) - 48));
    } else {
        law_decimal_reads_back(n / 10);
        assert(s.drop_last() =~= decimal(n / 10));
        assert(s.last() == digit_char(n % 10));
        assert(read_decimal(s) == 10 * read_decimal(s.drop_last()) + ((s.last() as int) - 48));
        assert(10 * (n / 10) + n % 10 == n);
    }
}

} // verus!
