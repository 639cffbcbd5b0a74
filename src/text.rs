//! Character-level helpers: decimal numbers and line splitting.
use vstd::prelude::*;

verus! {

/// Relies on str::chars: the characters of a string, in order.
#[verifier::external_body]
pub(crate) fn chars_of(s: &str) -> (r: Vec<char>)
    ensures
        r@ == s@,
{
    s.chars().collect()
}

/// Relies on FromIterator<char> for String: the string made of the given characters.
#[verifier::external_body]
pub(crate) fn string_of(v: &Vec<char>) -> (r: String)
    ensures
        r@ == v@,
{
    v.iter().collect()
}

/// Appends the characters of `s`.
pub fn push_str(out: &mut Vec<char>, s: &str)
    ensures
        final(out)@ == old(out)@ + s@,
{
    let c = chars_of(s);
    let ghost base = out@;
    let mut i: usize = 0;
    while i < c.len()
        invariant
            0 <= i <= c@.len(),
            c@ == s@,
            out@ =~= base + c@.subrange(0, i as int),
        decreases c@.len() - i,
    {
        out.push(c[i]);
        i = i + 1;
    }
    assert(c@.subrange(0, c@.len() as int) =~= c@);
}

pub open spec fn is_digit(c: char) -> bool {
    '0' <= c && c <= '9'
}

pub open spec fn digit_value(c: char) -> nat {
    ((c as u32) - ('0' as u32)) as nat
}

pub open spec fn all_digits(s: Seq<char>) -> bool {
    forall|i: int| 0 <= i < s.len() ==> is_digit(#[trigger] s[i])
}

/// The number written by a sequence of decimal digits, most significant first.
pub open spec fn digits_value(s: Seq<char>) -> nat
    decreases s.len(),
{
    if s.len() == 0 {
        0
    } else {
        digits_value(s.drop_last()) * 10 + digit_value(s.last())
    }
}

/// The digits of an unsigned number, after an optional leading `+`.
pub open spec fn unsigned_digits(s: Seq<char>) -> Seq<char> {
    if s.len() > 0 && s[0] == '+' {
        s.drop_first()
    } else {
        s
    }
}

/// What `str::parse` gives for an unsigned integer type whose largest value is `max`.
pub open spec fn parse_unsigned(s: Seq<char>, max: nat) -> Option<nat> {
    let d = unsigned_digits(s);
    if d.len() > 0 && all_digits(d) && digits_value(d) <= max {
        Some(digits_value(d))
    } else {
        None
    }
}

proof fn lemma_prefix_value_le(s: Seq<char>, k: int)
    requires
        0 <= k <= s.len(),
        all_digits(s),
    ensures
        digits_value(s.subrange(0, k)) <= digits_value(s),
    decreases s.len() - k,
{
    if k < s.len() {
        lemma_prefix_value_le(s, k + 1);
        assert(s.subrange(0, k + 1).drop_last() =~= s.subrange(0, k));
    } else {
        assert(s.subrange(0, k) =~= s);
    }
}

/// Parses `s[lo..hi]` as a `u64`, as `str::parse::<u64>` does.
pub fn parse_u64(s: &Vec<char>, lo: usize, hi: usize) -> (r: Option<u64>)
    requires
        lo <= hi <= s@.len(),
    ensures
        match r {
            Some(v) => parse_unsigned(s@.subrange(lo as int, hi as int), u64::MAX as nat) == Some(
                v as nat,
            ),
            None => parse_unsigned(s@.subrange(lo as int, hi as int), u64::MAX as nat) is None,
        },
{
    let ghost t = s@.subrange(lo as int, hi as int);
    let mut start: usize = lo;
    if lo < hi && s[lo] == '+' {
        start = lo + 1;
    }
    let ghost d = s@.subrange(start as int, hi as int);
    assert(d =~= unsigned_digits(t));
    if start == hi {
        return None;
    }
    let mut value: u64 = 0;
    let mut i: usize = start;
    while i < hi
        invariant
            lo <= start <= i <= hi <= s@.len(),
            d == s@.subrange(start as int, hi as int),
            t == s@.subrange(lo as int, hi as int),
            d == unsigned_digits(t),
            d.len() > 0,
            all_digits(d.subrange(0, i - start)),
            value as nat == digits_value(d.subrange(0, i - start)),
        decreases hi - i,
    {
        let c = s[i];
        let k: Ghost<int> = Ghost(i - start);
        assert(d.len() == hi - start);
        assert(d.subrange(0, k@ + 1).drop_last() =~= d.subrange(0, k@));
        if c < '0' || c > '9' {
            assert(d[k@] == c);
            assert(!is_digit(d[k@]));
            assert(!all_digits(d));
            return None;
        }
        let dv: u64 = ((c as u32) - ('0' as u32)) as u64;
        assert(all_digits(d.subrange(0, k@ + 1)));
        match value.checked_mul(10) {
            Some(m) => match m.checked_add(dv) {
                Some(n) => {
                    value = n;
                },
                None => {
                    proof {
                        lemma_value_too_big(d, k@ + 1);
                    }
                    return None;
                },
            },
            None => {
                proof {
                    lemma_value_too_big(d, k@ + 1);
                }
                return None;
            },
        }
        i = i + 1;
    }
    assert(d.subrange(0, i - start) =~= d);
    Some(value)
}

proof fn lemma_value_too_big(d: Seq<char>, k: int)
    requires
        0 < k <= d.len(),
        all_digits(d.subrange(0, k)),
        digits_value(d.subrange(0, k)) > u64::MAX as nat,
    ensures
        !(all_digits(d) && digits_value(d) <= u64::MAX as nat),
{
    if all_digits(d) {
        lemma_prefix_value_le(d, k);
    }
}

/// The pieces of `s` between line feeds (one more piece than there are line feeds).
pub open spec fn split_at_newlines(s: Seq<char>) -> Seq<Seq<char>>
    decreases s.len(),
{
    if s.len() == 0 {
        seq![Seq::empty()]
    } else {
        let init = split_at_newlines(s.drop_last());
        if s.last() == '\n' {
            init.push(Seq::empty())
        } else {
            init.update(init.len() - 1, init.last().push(s.last()))
        }
    }
}

/// A line without the carriage return that ends it, if any.
pub open spec fn strip_cr(l: Seq<char>) -> Seq<char> {
    if l.len() > 0 && l.last() == '\r' {
        l.drop_last()
    } else {
        l
    }
}

/// The lines of a text as `str::lines` gives them: split at line feeds, a trailing
/// carriage return taken off each, and no empty line after a final line feed.
pub open spec fn lines_of(s: Seq<char>) -> Seq<Seq<char>> {
    let segs = split_at_newlines(s);
    let segs = if segs.last().len() == 0 {
        segs.drop_last()
    } else {
        segs
    };
    segs.map_values(|l: Seq<char>| strip_cr(l))
}

pub open spec fn views(v: Seq<Vec<char>>) -> Seq<Seq<char>> {
    v.map_values(|l: Vec<char>| l@)
}

proof fn lemma_split_nonempty(s: Seq<char>)
    ensures
        split_at_newlines(s).len() >= 1,
    decreases s.len(),
{
    if s.len() > 0 {
        lemma_split_nonempty(s.drop_last());
    }
}

/// Splits a text into its lines.
pub fn split_lines(t: &Vec<char>) -> (r: Vec<Vec<char>>)
    ensures
        views(r@) == lines_of(t@),
{
    let mut raw: Vec<Vec<char>> = Vec::new();
    let mut cur: Vec<char> = Vec::new();
    let mut i: usize = 0;
    assert(t@.subrange(0, 0) =~= Seq::<char>::empty());
    assert(views(raw@).push(cur@) =~= seq![Seq::<char>::empty()]);
    while i < t.len()
        invariant
            0 <= i <= t@.len(),
            split_at_newlines(t@.subrange(0, i as int)) == views(raw@).push(cur@),
        decreases t@.len() - i,
    {
        let c = t[i];
        proof {
            assert(t@.subrange(0, i + 1).drop_last() =~= t@.subrange(0, i as int));
        }
        if c == '\n' {
            let ghost old_raw = raw@;
            raw.push(cur);
            cur = Vec::new();
            assert(views(raw@) =~= views(old_raw).push(views(raw@).last()));
            assert(views(raw@).push(cur@) =~= views(old_raw).push(views(raw@).last()).push(
                Seq::empty(),
            ));
        } else {
            let ghost old_cur = cur@;
            cur.push(c);
            assert(views(raw@).push(cur@) =~= views(raw@).push(old_cur).update(
                views(raw@).len() as int,
                old_cur.push(c),
            ));
        }
        i = i + 1;
    }
    assert(t@.subrange(0, t@.len() as int) =~= t@);
    let ghost segs = views(raw@).push(cur@);
    let ghost kept = if cur@.len() == 0 {
        views(raw@)
    } else {
        segs
    };
    if cur.len() > 0 {
        raw.push(cur);
    }
    assert(views(raw@) =~= kept);
    let mut out: Vec<Vec<char>> = Vec::new();
    let mut j: usize = 0;
    while j < raw.len()
        invariant
            0 <= j <= raw@.len(),
            views(raw@) == kept,
            views(out@) =~= kept.subrange(0, j as int).map_values(|l: Seq<char>| strip_cr(l)),
        decreases raw@.len() - j,
    {
        let line = &raw[j];
        let n = line.len();
        let mut stripped: Vec<char> = Vec::new();
        let mut m: usize = 0;
        let keep = if n > 0 && line[n - 1] == '\r' {
            n - 1
        } else {
            n
        };
        assert(line@ == kept[j as int]);
        while m < keep
            invariant
                0 <= m <= keep <= n,
                n == line@.len(),
                stripped@ =~= line@.subrange(0, m as int),
            decreases keep - m,
        {
            stripped.push(line[m]);
            m = m + 1;
        }
        assert(stripped@ =~= strip_cr(kept[j as int]));
        let ghost before = views(out@);
        out.push(stripped);
        assert(views(out@) =~= before.push(strip_cr(kept[j as int])));
        j = j + 1;
    }
    out
}

} // verus!
