//! Numbers written out as text.
use vstd::prelude::*;

verus! {

pub open spec fn digit_char(d: nat) -> char {
    if d == 0 {
        '0'
    } else if d == 1 {
        '1'
    } else if d == 2 {
        '2'
    } else if d == 3 {
        '3'
    } else if d == 4 {
        '4'
    } else if d == 5 {
        '5'
    } else if d == 6 {
        '6'
    } else if d == 7 {
        '7'
    } else if d == 8 {
        '8'
    } else {
        '9'
    }
}

/// The decimal digits of `n`, most significant first, without leading zeros.
pub open spec fn decimal(n: nat) -> Seq<char>
    decreases n,
{
    if n < 10 {
        seq![digit_char(n)]
    } else {
        decimal(n / 10).push(digit_char(n % 10))
    }
}

/// Relies on `ToString for usize` (through its `Display`): the decimal digits, with no sign,
/// padding or separators.
#[verifier::external_body]
pub(crate) fn usize_text(n: usize) -> (r: String)
    ensures
        r@ == decimal(n as nat),
{
    n.to_string()
}


/// Whether rounding `q` plus a remainder `r` out of `p` goes up: above half, or exactly
/// half with `q` odd (ties go to even).
pub open spec fn rounds_up(q: nat, r: nat, p: nat) -> bool {
    2 * r > p || (2 * r == p && q % 2 == 1)
}

/// The spacing of double-precision numbers near `n`: the least power of two `p` (from the
/// one given, doubling at most `steps` times) with `n / p` below 2^53.
pub open spec fn double_spacing(n: nat, p: nat, steps: nat) -> nat
    decreases steps,
{
    if steps == 0 || n / p < 0x20_0000_0000_0000 {
        p
    } else {
        double_spacing(n, 2 * p, (steps - 1) as nat)
    }
}

/// The value of `n as f64`: `n` rounded to the nearest double, ties to even.
pub open spec fn as_double(n: nat) -> nat {
    let p = double_spacing(n, 1, 64);
    let q = n / p;
    (q + if rounds_up(q, n % p, p) { 1nat } else { 0nat }) * p
}

/// `x / d` in hundredths, rounded to nearest with ties to even.
pub open spec fn hundredths(x: nat, d: nat) -> nat {
    let h = x * 100 / d;
    h + if rounds_up(h, x * 100 % d, d) { 1nat } else { 0nat }
}

/// The unit of a byte count and its size in bytes: the largest of B, KB, MB, GB, TB, PB
/// (powers of 1024) that is not above it.
pub open spec fn size_unit(size: nat) -> (Seq<char>, nat) {
    if size < 0x400 {
        ("B"@, 1)
    } else if size < 0x10_0000 {
        ("KB"@, 0x400)
    } else if size < 0x4000_0000 {
        ("MB"@, 0x10_0000)
    } else if size < 0x100_0000_0000 {
        ("GB"@, 0x4000_0000)
    } else if size < 0x4_0000_0000_0000 {
        ("TB"@, 0x100_0000_0000)
    } else {
        ("PB"@, 0x4_0000_0000_0000)
    }
}

/// A byte count as text: in its unit with two decimals, as `{:.2}` writes the
/// double-precision quotient, then a space and the unit.
pub open spec fn size_text(size: nat) -> Seq<char> {
    let (unit, d) = size_unit(size);
    let h = hundredths(as_double(size), d);
    decimal(h / 100) + seq!['.', digit_char(h % 100 / 10), digit_char(h % 10), ' '] + unit
}

fn digit_str(d: u128) -> (r: &'static str)
    requires
        d < 10,
    ensures
        r@ == seq![digit_char(d as nat)],
{
    proof {
        reveal_strlit("0");
        reveal_strlit("1");
        reveal_strlit("2");
        reveal_strlit("3");
        reveal_strlit("4");
        reveal_strlit("5");
        reveal_strlit("6");
        reveal_strlit("7");
        reveal_strlit("8");
        reveal_strlit("9");
    }
    if d == 0 {
        "0"
    } else if d == 1 {
        "1"
    } else if d == 2 {
        "2"
    } else if d == 3 {
        "3"
    } else if d == 4 {
        "4"
    } else if d == 5 {
        "5"
    } else if d == 6 {
        "6"
    } else if d == 7 {
        "7"
    } else if d == 8 {
        "8"
    } else {
        "9"
    }
}

/// The value of `n as f64`, computed exactly.
fn double_value(n: u128) -> (f: u128)
    requires
        n < 0x1_0000_0000_0000_0000,
    ensures
        f as nat == as_double(n as nat),
        f <= n + 0x1000,
{
    let mut p: u128 = 1;
    let mut steps: u128 = 64;
    while steps > 0 && n / p >= 0x20_0000_0000_0000
        invariant
            n < 0x1_0000_0000_0000_0000,
            1 <= p <= 0x1000,
            double_spacing(n as nat, 1, 64) == double_spacing(n as nat, p as nat, steps as nat),
        decreases steps,
    {
        proof {
            assert(p * 0x20_0000_0000_0000 <= n) by (nonlinear_arith)
                requires
                    n / p >= 0x20_0000_0000_0000,
                    p >= 1,
            ;
            assert(p < 0x800) by (nonlinear_arith)
                requires
                    p * 0x20_0000_0000_0000 <= n,
                    n < 0x1_0000_0000_0000_0000,
            ;
        }
        p = p * 2;
        steps = steps - 1;
    }
    let q = n / p;
    let rem = n % p;
    let up = 2 * rem > p || (2 * rem == p && q % 2 == 1);
    let qq = if up { q + 1 } else { q };
    proof {
        assert(q * p <= n) by (nonlinear_arith)
            requires
                q == n / p,
                p >= 1,
        ;
        assert(qq * p <= n + p) by (nonlinear_arith)
            requires
                q * p <= n,
                qq <= q + 1,
        ;
    }
    qq * p
}

/// `f / d` in hundredths, rounded to nearest with ties to even.
fn rounded_hundredths(f: u128, d: u128) -> (h: u128)
    requires
        1 <= d <= 0x4_0000_0000_0000,
        f < 0x8000 * d,
        f <= 0x1_0000_0000_0000_2000,
    ensures
        h as nat == hundredths(f as nat, d as nat),
        h <= 0x8000 * 100,
{
    let h = f * 100 / d;
    let rr = f * 100 % d;
    assert(rr < d);
    proof {
        assert(h < 0x8000 * 100) by (nonlinear_arith)
            requires
                h as int == (f as int * 100) / d as int,
                f < 0x8000 * d,
                d >= 1,
        ;
    }
    if 2 * rr > d || (2 * rr == d && h % 2 == 1) {
        h + 1
    } else {
        h
    }
}

/// A byte count as text for people: e.g. 1536 is `1.50 KB`.
pub fn human_readable_size(size: usize) -> (r: String)
    ensures
        r@ == size_text(size as nat),
{
    let n = size as u128;
    let (unit, d): (&str, u128) = if n < 0x400 {
        ("B", 1)
    } else if n < 0x10_0000 {
        ("KB", 0x400)
    } else if n < 0x4000_0000 {
        ("MB", 0x10_0000)
    } else if n < 0x100_0000_0000 {
        ("GB", 0x4000_0000)
    } else if n < 0x4_0000_0000_0000 {
        ("TB", 0x100_0000_0000)
    } else {
        ("PB", 0x4_0000_0000_0000)
    };
    assert(unit@ == size_unit(size as nat).0 && d as nat == size_unit(size as nat).1);
    assert(n < 0x400 * d || (d == 0x4_0000_0000_0000 && n < 0x1_0000_0000_0000_0000));
    let f = double_value(n);
    proof {
        assert(f < 0x8000 * d) by (nonlinear_arith)
            requires
                f <= n + 0x1000,
                d >= 1,
                n < 0x400 * d || (d == 0x4_0000_0000_0000 && n < 0x1_0000_0000_0000_0000),
        ;
    }
    let hh = rounded_hundredths(f, d);
    let text = usize_text((hh / 100) as usize);
    let tens = digit_str(hh % 100 / 10);
    let ones = digit_str(hh % 10);
    proof {
        reveal_strlit(".");
        reveal_strlit(" ");
    }
    let r = text.concat(".").concat(tens).concat(ones).concat(" ").concat(unit);
    proof {
        assert(r@ =~= size_text(size as nat));
    }
    r
}

} // verus!
