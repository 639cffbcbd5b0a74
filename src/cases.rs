//! Resolving a case selector such as `0 1 3-5` into the case indices it names.
use vstd::prelude::*;
use crate::text::{chars_of, parse_u64, parse_unsigned};

verus! {

pub open spec fn has_no_dash(t: Seq<char>) -> bool {
    forall|i: int| 0 <= i < t.len() ==> t[i] != '-'
}

/// Where the first `-` of a token stands (meaningful when it has one).
pub open spec fn first_dash(t: Seq<char>) -> int {
    choose|k: int| 0 <= k < t.len() && t[k] == '-' && has_no_dash(t.subrange(0, k))
}

/// The cases `a..=b`, ascending; none when `a > b`.
pub open spec fn range_cases(a: nat, b: nat) -> Seq<u32> {
    Seq::new(if a <= b { (b - a + 1) as nat } else { 0 }, |i: int| (a + i) as u32)
}

/// The cases one selector token names: a number, a range `a-b`, or nothing at all
/// when the token is malformed.
#[verifier::opaque]
pub open spec fn token_cases(t: Seq<char>) -> Seq<u32> {
    if has_no_dash(t) {
        match parse_unsigned(t, u32::MAX as nat) {
            Some(n) => seq![n as u32],
            None => Seq::empty(),
        }
    } else {
        let k = first_dash(t);
        let rest = t.subrange(k + 1, t.len() as int);
        if has_no_dash(rest) {
            match (parse_unsigned(t.subrange(0, k), u32::MAX as nat), parse_unsigned(rest, u32::MAX as nat)) {
                (Some(a), Some(b)) => range_cases(a, b),
                _ => Seq::empty(),
            }
        } else {
            Seq::empty()
        }
    }
}

/// The cases of all tokens, token after token.
pub open spec fn tokens_cases(ts: Seq<Seq<char>>) -> Seq<u32>
    decreases ts.len(),
{
    if ts.len() == 0 {
        Seq::empty()
    } else {
        tokens_cases(ts.drop_last()) + token_cases(ts.last())
    }
}

/// The resolved sequence of a selector: `0..=4` when it has no token.
pub open spec fn selected_cases(ts: Seq<Seq<char>>) -> Seq<u32> {
    if ts.len() == 0 {
        seq![0u32, 1u32, 2u32, 3u32, 4u32]
    } else {
        tokens_cases(ts)
    }
}

pub open spec fn string_views(args: Seq<String>) -> Seq<Seq<char>> {
    args.map_values(|s: String| s@)
}

/// Parses `t[lo..hi]` as a case index.
fn parse_index(t: &Vec<char>, lo: usize, hi: usize) -> (r: Option<u32>)
    requires
        lo <= hi <= t@.len(),
    ensures
        match r {
            Some(v) => parse_unsigned(t@.subrange(lo as int, hi as int), u32::MAX as nat) == Some(
                v as nat,
            ),
            None => parse_unsigned(t@.subrange(lo as int, hi as int), u32::MAX as nat) is None,
        },
{
    match parse_u64(t, lo, hi) {
        Some(v) => {
            if v <= u32::MAX as u64 {
                Some(v as u32)
            } else {
                None
            }
        },
        None => None,
    }
}

/// Appends the cases that one token names.
fn push_token_cases(token: &str, ret: &mut Vec<u32>)
    ensures
        final(ret)@ == old(ret)@ + token_cases(token@),
{
    reveal(token_cases);
    let t = chars_of(token);
    let n = t.len();
    let mut k: usize = 0;
    while k < n && t[k] != '-'
        invariant
            0 <= k <= n,
            n == t@.len(),
            has_no_dash(t@.subrange(0, k as int)),
        decreases n - k,
    {
        assert(t@.subrange(0, k + 1) =~= t@.subrange(0, k as int).push(t@[k as int]));
        k = k + 1;
    }
    if k == n {
        assert(t@.subrange(0, n as int) =~= t@);
        match parse_index(&t, 0, n) {
            Some(v) => {
                ret.push(v);
            },
            None => {},
        }
        proof {
            assert(token_cases(token@) =~= match parse_unsigned(t@, u32::MAX as nat) {
                Some(v) => seq![v as u32],
                None => Seq::empty(),
            });
        }
        return;
    }
    proof {
        let w = first_dash(t@);
        assert(0 <= k < t@.len() && t@[k as int] == '-' && has_no_dash(t@.subrange(0, k as int)));
        if w != k {
            if w < k {
                assert(t@.subrange(0, k as int)[w] == '-');
            } else {
                assert(t@.subrange(0, w)[k as int] == '-');
            }
        }
        assert(!has_no_dash(t@));
    }
    let mut j: usize = k + 1;
    while j < n && t[j] != '-'
        invariant
            k < j <= n,
            n == t@.len(),
            has_no_dash(t@.subrange(k + 1, j as int)),
        decreases n - j,
    {
        assert(t@.subrange(k + 1, j + 1) =~= t@.subrange(k + 1, j as int).push(t@[j as int]));
        j = j + 1;
    }
    if j < n {
        assert(t@.subrange(k + 1, n as int)[j - k - 1] == '-');
        return;
    }
    match (parse_index(&t, 0, k), parse_index(&t, k + 1, n)) {
        (Some(a), Some(b)) => {
            let ghost base = ret@;
            let mut x: u64 = a as u64;
            while x <= b as u64
                invariant
                    a as u64 <= x,
                    x <= b as u64 + 1 || (a > b && x == a as u64),
                    ret@ =~= base + Seq::new(
                        (x - a) as nat,
                        |i: int| (a + i) as u32,
                    ),
                decreases b as u64 + 1 - x,
            {
                ret.push(x as u32);
                x = x + 1;
            }
            assert(range_cases(a as nat, b as nat) =~= Seq::new(
                (x - a) as nat,
                |i: int| (a + i) as u32,
            ));
        },
        _ => {
            assert(old(ret)@ + token_cases(token@) =~= old(ret)@);
        },
    }
}

/// Resolves selector tokens into case indices, in token order and without
/// removing repeats; malformed tokens are skipped.
pub fn parse_cases(args: &[String]) -> (r: Vec<u32>)
    ensures
        r@ == selected_cases(string_views(args@)),
{
    let mut ret: Vec<u32> = Vec::new();
    if args.len() == 0 {
        ret.push(0);
        ret.push(1);
        ret.push(2);
        ret.push(3);
        ret.push(4);
        assert(ret@ =~= seq![0u32, 1u32, 2u32, 3u32, 4u32]);
        return ret;
    }
    let mut i: usize = 0;
    while i < args.len()
        invariant
            0 <= i <= args@.len(),
            ret@ == tokens_cases(string_views(args@).subrange(0, i as int)),
        decreases args@.len() - i,
    {
        proof {
            let ts = string_views(args@).subrange(0, i + 1);
            assert(ts.drop_last() =~= string_views(args@).subrange(0, i as int));
            assert(ts.last() == args@[i as int]@);
        }
        push_token_cases(args[i].as_str(), &mut ret);
        i = i + 1;
    }
    assert(string_views(args@).subrange(0, i as int) =~= string_views(args@));
    ret
}

} // verus!
