//! Scoring a run: the score from the visualizer's output, the comment trail from
//! the solution's standard error, both found with regular expressions.
use vstd::prelude::*;
use vstd::string::StringExecFns;
use crate::format::{
    commas_chars, decimal, push_decimal, push_right_aligned, push_zero_padded, right_aligned,
    with_commas, zero_padded,
};
use crate::text::{
    chars_of, lines_of, parse_u64, parse_unsigned, push_str, split_lines, string_of, views,
};

verus! {

#[verifier::external_type_specification]
#[verifier::external_body]
pub struct ExRegex(regex::Regex);

#[verifier::external_type_specification]
#[verifier::external_body]
pub struct ExRegexError(regex::Error);

/// Whether a pattern is accepted by the regular-expression compiler.
pub uninterp spec fn is_valid_pattern(pattern: Seq<char>) -> bool;

/// The text of the first capture group of the leftmost match of `pattern` in `line`,
/// when the pattern matches and that group takes part in the match.
pub uninterp spec fn first_group(pattern: Seq<char>, line: Seq<char>) -> Option<Seq<char>>;

/// Relies on regex::Regex::new: it compiles exactly the valid patterns.
#[verifier::external_body]
fn compile_regex(pattern: &str) -> (r: Result<regex::Regex, regex::Error>)
    ensures
        r is Ok <==> is_valid_pattern(pattern@),
{
    regex::Regex::new(pattern)
}

/// Relies on Clone for regex::Regex: the copy is compiled from the same pattern.
#[verifier::external_body]
fn clone_regex(re: &regex::Regex) -> (r: regex::Regex) {
    re.clone()
}

/// A compiled regular expression together with the pattern it was compiled from.
pub struct Pattern {
    source: String,
    compiled: regex::Regex,
}

impl View for Pattern {
    type V = Seq<char>;

    closed spec fn view(&self) -> Seq<char> {
        self.source@
    }
}

/// Relies on regex::Regex::captures and regex::Captures::get: the first capture
/// group of the leftmost match in `line`. The pattern's regex was compiled from its
/// source, the only way a `Pattern` is made.
#[verifier::external_body]
fn capture_first_group(p: &Pattern, line: &str) -> (r: Option<String>)
    ensures
        match r {
            Some(g) => first_group(p@, line@) == Some(g@),
            None => first_group(p@, line@) is None,
        },
{
    p.compiled.captures(line).and_then(|c| c.get(1)).map(|m| m.as_str().to_string())
}

impl Pattern {
    /// Compiles a pattern; `None` when it is not a valid regular expression.
    pub fn compile(source: &str) -> (r: Option<Pattern>)
        ensures
            r is Some <==> is_valid_pattern(source@),
            r matches Some(p) ==> p@ == source@,
    {
        match compile_regex(source) {
            Ok(compiled) => Some(Pattern { source: source.to_owned(), compiled }),
            Err(_) => None,
        }
    }

    /// The pattern's source text.
    pub fn as_str(&self) -> (r: &str)
        ensures
            r@ == self@,
    {
        self.source.as_str()
    }

    /// A second handle on the same pattern.
    pub fn duplicate(&self) -> (r: Pattern)
        ensures
            r@ == self@,
    {
        Pattern { source: self.source.clone(), compiled: clone_regex(&self.compiled) }
    }
}

/// The score of the first line whose first capture group parses as a `u64`; `0`
/// when there is none.
pub open spec fn score_in_lines(pattern: Seq<char>, lines: Seq<Seq<char>>) -> u64
    decreases lines.len(),
{
    if lines.len() == 0 {
        0
    } else {
        match first_group(pattern, lines[0]) {
            Some(g) => match parse_unsigned(g, u64::MAX as nat) {
                Some(v) => v as u64,
                None => score_in_lines(pattern, lines.drop_first()),
            },
            None => score_in_lines(pattern, lines.drop_first()),
        }
    }
}

pub open spec fn score_of(pattern: Seq<char>, text: Seq<char>) -> u64 {
    score_in_lines(pattern, lines_of(text))
}

/// The captures of all lines in which the pattern's first group is found, in line
/// order.
pub open spec fn captures_in_lines(pattern: Seq<char>, lines: Seq<Seq<char>>) -> Seq<Seq<char>>
    decreases lines.len(),
{
    if lines.len() == 0 {
        Seq::empty()
    } else {
        let prev = captures_in_lines(pattern, lines.drop_last());
        match first_group(pattern, lines.last()) {
            Some(g) => prev.push(g),
            None => prev,
        }
    }
}

/// Pieces joined with `/` between each two of them.
pub open spec fn join_slash(pieces: Seq<Seq<char>>) -> Seq<char>
    decreases pieces.len(),
{
    if pieces.len() == 0 {
        Seq::empty()
    } else if pieces.len() == 1 {
        pieces[0]
    } else {
        join_slash(pieces.drop_last()) + seq!['/'] + pieces.last()
    }
}

/// The comment trail of some lines: their captures joined with `/`.
pub open spec fn comments_in_lines(pattern: Seq<char>, lines: Seq<Seq<char>>) -> Seq<char> {
    join_slash(captures_in_lines(pattern, lines))
}

pub open spec fn comments_of(pattern: Seq<char>, text: Seq<char>) -> Seq<char> {
    comments_in_lines(pattern, lines_of(text))
}

/// An elapsed time in milliseconds as seconds with two decimals, rounded half up.
pub open spec fn seconds_text(ms: nat) -> Seq<char> {
    let c = (ms + 5) / 10;
    decimal(c / 100) + seq!['.'] + zero_padded(c % 100, 2)
}

/// The report line of one case: its index, score, time and comment trail.
pub open spec fn report_text(case: u32, score: u64, elapsed_ms: u64, cmts: Seq<char>) -> Seq<
    char,
> {
    zero_padded(case as nat, 4) + " SCORE["@ + right_aligned(with_commas(score as nat), 11)
        + "] ELAPSED["@ + seconds_text(elapsed_ms as nat) + "s] CMTS["@ + cmts + "]"@
}

/// The outcome of one case: where its files are, what the solution wrote to
/// standard error, what the visualizer printed, how long the run took, and its score.
pub struct CaseResult {
    pub case: u32,
    pub inf: String,
    pub outf: String,
    pub visout: String,
    pub stderr: String,
    pub elapsed_ms: u64,
    pub score: u64,
    pub comment_regex: Pattern,
}

impl CaseResult {
    /// The comment pattern this result was made with.
    pub open spec fn comment_pattern(&self) -> Seq<char> {
        self.comment_regex@
    }

    /// A result whose score is read from `visout` with `score_regex`.
    pub fn new(
        case: u32,
        inf: String,
        outf: String,
        visout: String,
        stderr: String,
        elapsed_ms: u64,
        score_regex: &Pattern,
        comment_regex: &Pattern,
    ) -> (r: Self)
        ensures
            r.case == case,
            r.inf == inf,
            r.outf == outf,
            r.visout == visout,
            r.stderr == stderr,
            r.elapsed_ms == elapsed_ms,
            r.score == score_of(score_regex@, visout@),
            r.comment_pattern() == comment_regex@,
    {
        let score = Self::parse_score(visout.as_str(), score_regex);
        CaseResult {
            case,
            inf,
            outf,
            visout,
            stderr,
            elapsed_ms,
            score,
            comment_regex: comment_regex.duplicate(),
        }
    }

    /// Reads a score: the capture of the first line where the pattern's first group is
    /// found, as a `u64` (`0` if it is not one); `0` when no line has it.
    pub fn parse_score(visout: &str, score_regex: &Pattern) -> (r: u64)
        ensures
            r == score_of(score_regex@, visout@),
    {
        let text = chars_of(visout);
        let lines = split_lines(&text);
        let ghost ls = views(lines@);
        let mut i: usize = 0;
        assert(ls.subrange(0, ls.len() as int) =~= ls);
        while i < lines.len()
            invariant
                0 <= i <= lines@.len(),
                ls == views(lines@),
                ls == lines_of(visout@),
                score_in_lines(score_regex@, ls) == score_in_lines(
                    score_regex@,
                    ls.subrange(i as int, ls.len() as int),
                ),
            decreases lines@.len() - i,
        {
            let line = string_of(&lines[i]);
            let ghost rest = ls.subrange(i as int, ls.len() as int);
            assert(rest[0] == line@);
            assert(rest.drop_first() =~= ls.subrange(i + 1, ls.len() as int));
            match capture_first_group(score_regex, line.as_str()) {
                Some(g) => {
                    let gs = chars_of(g.as_str());
                    let n = gs.len();
                    assert(gs@.subrange(0, n as int) =~= gs@);
                    match parse_u64(&gs, 0, n) {
                        Some(v) => {
                            return v;
                        },
                        None => {},
                    }
                },
                None => {},
            }
            i = i + 1;
        }
        0
    }

    /// Collects the comment trail: the captures of all lines where the pattern's first
    /// group is found, joined with `/`.
    pub fn lookup_comments_from(stderr: &str, comment_regex: &Pattern) -> (r: String)
        ensures
            r@ == comments_of(comment_regex@, stderr@),
    {
        let text = chars_of(stderr);
        let lines = split_lines(&text);
        let ghost ls = views(lines@);
        let mut cmts = String::new();
        let mut found = false;
        let mut i: usize = 0;
        while i < lines.len()
            invariant
                0 <= i <= lines@.len(),
                ls == views(lines@),
                ls == lines_of(stderr@),
                cmts@ == comments_in_lines(comment_regex@, ls.subrange(0, i as int)),
                found == (captures_in_lines(comment_regex@, ls.subrange(0, i as int)).len() > 0),
            decreases lines@.len() - i,
        {
            let line = string_of(&lines[i]);
            let ghost upto = ls.subrange(0, i + 1);
            assert(upto.drop_last() =~= ls.subrange(0, i as int));
            assert(upto.last() == line@);
            match capture_first_group(comment_regex, line.as_str()) {
                Some(g) => {
                    let ghost prev = captures_in_lines(comment_regex@, ls.subrange(0, i as int));
                    if found {
                        proof {
                            reveal_strlit("/");
                        }
                        cmts.append("/");
                    }
                    cmts.append(g.as_str());
                    found = true;
                    proof {
                        let now = prev.push(g@);
                        assert(now.drop_last() =~= prev);
                        if prev.len() == 0 {
                            assert(cmts@ =~= join_slash(now));
                        }
                    }
                },
                None => {},
            }
            i = i + 1;
        }
        assert(ls.subrange(0, i as int) =~= ls);
        cmts
    }

    /// The line that reports this result.
    pub fn report_line(&self) -> (r: String)
        ensures
            r@ == report_text(
                self.case,
                self.score,
                self.elapsed_ms,
                comments_of(self.comment_pattern(), self.stderr@),
            ),
    {
        let mut out: Vec<char> = Vec::new();
        push_zero_padded(self.case as u64, 4, &mut out);
        push_str(&mut out, " SCORE[");
        let c = commas_chars(self.score);
        push_right_aligned(&c, 11, &mut out);
        push_str(&mut out, "] ELAPSED[");
        let ms = self.elapsed_ms;
        let centis: u64 = ms / 10 + if ms % 10 >= 5 {
            1
        } else {
            0
        };
        assert(centis as nat == (ms as nat + 5) / 10) by (nonlinear_arith)
            requires
                centis == ms / 10 + if ms % 10 >= 5 {
                    1u64
                } else {
                    0u64
                },
        ;
        push_decimal(centis / 100, &mut out);
        proof {
            reveal_strlit(".");
        }
        push_str(&mut out, ".");
        push_zero_padded(centis % 100, 2, &mut out);
        push_str(&mut out, "s] CMTS[");
        let cm = self.lookup_comments();
        push_str(&mut out, cm.as_str());
        push_str(&mut out, "]");
        let r = string_of(&out);
        assert(r@ =~= report_text(
            self.case,
            self.score,
            self.elapsed_ms,
            comments_of(self.comment_pattern(), self.stderr@),
        ));
        r
    }

    /// The comment trail of this result's standard error.
    pub fn lookup_comments(&self) -> (r: String)
        ensures
            r@ == comments_of(self.comment_pattern(), self.stderr@),
    {
        Self::lookup_comments_from(self.stderr.as_str(), &self.comment_regex)
    }
}

} // verus!
