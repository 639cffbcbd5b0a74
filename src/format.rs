//! Decimal text for numbers: plain, zero-padded, and grouped with commas.
use vstd::prelude::*;
use crate::text::{push_str, string_of};

verus! {

pub open spec fn digit_char(d: nat) -> char {
    seq!['0', '1', '2', '3', '4', '5', '6', '7', '8', '9'][d as int]
}

/// The decimal digits of `n`, most significant first, without leading zeros.
pub open spec fn decimal(n: nat) -> Seq<char>
    decreases n,
{
    if n < 10 {
        seq![digit_char(n)]
    } else {
        decimal(n / 10).push(digit_char(n % 10))
    }
}

/// The decimal digits of `n`, with zeros in front up to `width` characters.
pub open spec fn zero_padded(n: nat, width: nat) -> Seq<char> {
    let d = decimal(n);
    if d.len() < width {
        Seq::new((width - d.len()) as nat, |i: int| '0') + d
    } else {
        d
    }
}

/// `s` with a comma before every group of three characters, counted from the end.
pub open spec fn group_commas(s: Seq<char>) -> Seq<char>
    decreases s.len(),
{
    if s.len() <= 3 {
        s
    } else {
        group_commas(s.subrange(0, s.len() - 3)) + seq![','] + s.subrange(
            s.len() - 3,
            s.len() as int,
        )
    }
}

pub open spec fn with_commas(n: nat) -> Seq<char> {
    group_commas(decimal(n))
}

/// `s` right-aligned in a field of `width` characters.
pub open spec fn right_aligned(s: Seq<char>, width: nat) -> Seq<char> {
    if s.len() < width {
        Seq::new((width - s.len()) as nat, |i: int| ' ') + s
    } else {
        s
    }
}

fn digit_of(d: u64) -> (c: char)
    requires
        d < 10,
    ensures
        c == digit_char(d as nat),
{
    let digits: [char; 10] = ['0', '1', '2', '3', '4', '5', '6', '7', '8', '9'];
    assert(digits@ =~= seq!['0', '1', '2', '3', '4', '5', '6', '7', '8', '9']);
    digits[d as usize]
}

/// Appends the decimal digits of `n`.
pub fn push_decimal(n: u64, out: &mut Vec<char>)
    ensures
        final(out)@ == old(out)@ + decimal(n as nat),
    decreases n,
{
    if n >= 10 {
        push_decimal(n / 10, out);
    }
    let c = digit_of(n % 10);
    out.push(c);
    proof {
        if n < 10 {
            assert(final(out)@ =~= old(out)@ + decimal(n as nat));
        } else {
            assert(final(out)@ =~= old(out)@ + decimal(n as nat));
        }
    }
}

/// Appends the decimal digits of `n`, zero-padded to `width` characters.
pub fn push_zero_padded(n: u64, width: usize, out: &mut Vec<char>)
    ensures
        final(out)@ == old(out)@ + zero_padded(n as nat, width as nat),
{
    let mut d: Vec<char> = Vec::new();
    push_decimal(n, &mut d);
    assert(d@ =~= decimal(n as nat));
    let ghost base = out@;
    if d.len() < width {
        let mut k: usize = d.len();
        while k < width
            invariant
                d.len() <= k <= width,
                out@ =~= base + Seq::new((k - d@.len()) as nat, |i: int| '0'),
            decreases width - k,
        {
            out.push('0');
            k = k + 1;
        }
    }
    let ghost mid = out@;
    let mut j: usize = 0;
    while j < d.len()
        invariant
            0 <= j <= d@.len(),
            out@ =~= mid + d@.subrange(0, j as int),
        decreases d@.len() - j,
    {
        out.push(d[j]);
        j = j + 1;
    }
    assert(d@.subrange(0, d@.len() as int) =~= d@);
}

fn push_grouped(d: &Vec<char>, hi: usize, out: &mut Vec<char>)
    requires
        hi <= d@.len(),
    ensures
        final(out)@ == old(out)@ + group_commas(d@.subrange(0, hi as int)),
    decreases hi,
{
    let ghost s = d@.subrange(0, hi as int);
    let lo: usize = if hi <= 3 {
        0
    } else {
        push_grouped(d, hi - 3, out);
        out.push(',');
        hi - 3
    };
    let ghost mid = out@;
    let mut j: usize = lo;
    while j < hi
        invariant
            lo <= j <= hi <= d@.len(),
            out@ =~= mid + d@.subrange(lo as int, j as int),
        decreases hi - j,
    {
        out.push(d[j]);
        j = j + 1;
    }
    proof {
        if hi > 3 {
            assert(s.subrange(0, s.len() - 3) =~= d@.subrange(0, hi - 3));
            assert(s.subrange(s.len() - 3, s.len() as int) =~= d@.subrange(lo as int, hi as int));
        } else {
            assert(d@.subrange(0, hi as int) =~= s);
        }
    }
}

/// The characters of `n` grouped with commas.
pub fn commas_chars(n: u64) -> (r: Vec<char>)
    ensures
        r@ == with_commas(n as nat),
{
    let mut d: Vec<char> = Vec::new();
    push_decimal(n, &mut d);
    assert(d@ =~= decimal(n as nat));
    let mut out: Vec<char> = Vec::new();
    push_grouped(&d, d.len(), &mut out);
    assert(d@.subrange(0, d@.len() as int) =~= d@);
    assert(out@ =~= with_commas(n as nat));
    out
}

/// Appends `s` right-aligned in a field of `width` characters.
pub fn push_right_aligned(s: &Vec<char>, width: usize, out: &mut Vec<char>)
    ensures
        final(out)@ == old(out)@ + right_aligned(s@, width as nat),
{
    let ghost base = out@;
    if s.len() < width {
        let mut k: usize = s.len();
        while k < width
            invariant
                s.len() <= k <= width,
                out@ =~= base + Seq::new((k - s@.len()) as nat, |i: int| ' '),
            decreases width - k,
        {
            out.push(' ');
            k = k + 1;
        }
    }
    let ghost mid = out@;
    let mut j: usize = 0;
    while j < s.len()
        invariant
            0 <= j <= s@.len(),
            out@ =~= mid + s@.subrange(0, j as int),
        decreases s@.len() - j,
    {
        out.push(s[j]);
        j = j + 1;
    }
    assert(s@.subrange(0, s@.len() as int) =~= s@);
}

/// Formats `n` with a comma between each group of three digits, counted from the
/// least significant end (`12345` gives `12,345`).
pub fn format_with_commas(n: u64) -> (r: String)
    ensures
        r@ == with_commas(n as nat),
{
    string_of(&commas_chars(n))
}

/// The last line of a report: the sum of all scores.
pub open spec fn total_text(total: u64) -> Seq<char> {
    "TOTAL="@ + with_commas(total as nat)
}

/// The last line of a report, `TOTAL=` and the comma-grouped sum.
pub fn total_line(total: u64) -> (r: String)
    ensures
        r@ == total_text(total),
{
    let mut out: Vec<char> = Vec::new();
    push_str(&mut out, "TOTAL=");
    let c = commas_chars(total);
    let ghost before = out@;
    let mut i: usize = 0;
    while i < c.len()
        invariant
            0 <= i <= c@.len(),
            out@ =~= before + c@.subrange(0, i as int),
        decreases c@.len() - i,
    {
        out.push(c[i]);
        i = i + 1;
    }
    assert(c@.subrange(0, c@.len() as int) =~= c@);
    string_of(&out)
}

} // verus!
