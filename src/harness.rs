//! The harness: the cases of a run, the files of each case, and the commands that
//! build, run and score the solution.
use vstd::prelude::*;
use crate::cases::{parse_cases, selected_cases, string_views};
use crate::config::Config;
use crate::format::{push_zero_padded, zero_padded};
use crate::score::{is_valid_pattern, CaseResult, Pattern};
use crate::text::{chars_of, push_str, string_of};

verus! {

/// The words of a command line under shell quoting rules; `None` when its quoting
/// is malformed.
pub uninterp spec fn shell_words(cmd: Seq<char>) -> Option<Seq<Seq<char>>>;

/// Whether a character has the Unicode White_Space property.
pub uninterp spec fn white_space(c: char) -> bool;

/// The words finished so far and the word being read, after reading `s`.
pub open spec fn word_scan(s: Seq<char>) -> (Seq<Seq<char>>, Seq<char>)
    decreases s.len(),
{
    if s.len() == 0 {
        (Seq::empty(), Seq::empty())
    } else {
        let (ws, cur) = word_scan(s.drop_last());
        if white_space(s.last()) {
            if cur.len() > 0 {
                (ws.push(cur), Seq::empty())
            } else {
                (ws, cur)
            }
        } else {
            (ws, cur.push(s.last()))
        }
    }
}

/// The words of a text: its maximal runs of characters that are not white space.
pub open spec fn whitespace_words(s: Seq<char>) -> Seq<Seq<char>> {
    let (ws, cur) = word_scan(s);
    if cur.len() > 0 {
        ws.push(cur)
    } else {
        ws
    }
}

/// Relies on char::is_whitespace: whether `c` has the White_Space property, which
/// space, tab, line feed and carriage return have.
#[verifier::external_body]
fn is_white_space(c: char) -> (r: bool)
    ensures
        r == white_space(c),
        c == ' ' || c == '\t' || c == '\n' || c == '\r' ==> r,
{
    c.is_whitespace()
}

/// Relies on shlex::split: the words of a command line, `None` when the input is
/// erroneous (an unclosed quote or a trailing backslash).
#[verifier::external_body]
fn split_shell_words(cmd: &str) -> (r: Option<Vec<String>>)
    ensures
        match r {
            Some(v) => shell_words(cmd@) == Some(string_views(v@)),
            None => shell_words(cmd@) is None,
        },
{
    shlex::split(cmd)
}

/// Splits a text into its words.
fn split_words(s: &str) -> (r: Vec<String>)
    ensures
        string_views(r@) == whitespace_words(s@),
{
    let chars = chars_of(s);
    let mut words: Vec<String> = Vec::new();
    let mut cur: Vec<char> = Vec::new();
    let mut i: usize = 0;
    assert(chars@.subrange(0, 0) =~= Seq::<char>::empty());
    assert(string_views(words@) =~= Seq::<Seq<char>>::empty());
    while i < chars.len()
        invariant
            0 <= i <= chars@.len(),
            chars@ == s@,
            word_scan(chars@.subrange(0, i as int)) == (string_views(words@), cur@),
        decreases chars@.len() - i,
    {
        let c = chars[i];
        proof {
            assert(chars@.subrange(0, i + 1).drop_last() =~= chars@.subrange(0, i as int));
        }
        let ghost before = string_views(words@);
        if is_white_space(c) {
            if cur.len() > 0 {
                let ghost w = cur@;
                words.push(string_of(&cur));
                cur = Vec::new();
                assert(string_views(words@) =~= before.push(w));
            }
        } else {
            cur.push(c);
        }
        i = i + 1;
    }
    assert(chars@.subrange(0, i as int) =~= s@);
    let ghost before = string_views(words@);
    if cur.len() > 0 {
        words.push(string_of(&cur));
        assert(string_views(words@) =~= before.push(cur@));
    }
    words
}

proof fn lemma_blank_scan(s: Seq<char>)
    requires
        forall|i: int| 0 <= i < s.len() ==> white_space(#[trigger] s[i]),
    ensures
        word_scan(s) == (Seq::<Seq<char>>::empty(), Seq::<char>::empty()),
    decreases s.len(),
{
    if s.len() > 0 {
        lemma_blank_scan(s.drop_last());
        assert(white_space(s[s.len() - 1]));
    }
}

/// A selector text made only of white space selects the default cases `0..=4`.
pub proof fn lemma_blank_selector_selects_default(s: Seq<char>)
    requires
        forall|i: int| 0 <= i < s.len() ==> white_space(#[trigger] s[i]),
    ensures
        selected_cases(whitespace_words(s)) == seq![0u32, 1u32, 2u32, 3u32, 4u32],
{
    lemma_blank_scan(s);
}

/// Why a command line could not be used.
pub enum CommandError {
    /// Its quoting is malformed.
    Invalid(String),
    /// It has no words.
    Empty,
}

impl CommandError {
    /// The error as text.
    pub fn message(&self) -> (r: String)
        ensures
            r@ == match self {
                CommandError::Invalid(cmd) => "invalid command: "@ + cmd@,
                CommandError::Empty => "empty command"@,
            },
    {
        match self {
            CommandError::Invalid(cmd) => {
                let mut out: Vec<char> = Vec::new();
                push_str(&mut out, "invalid command: ");
                push_str(&mut out, cmd.as_str());
                string_of(&out)
            },
            CommandError::Empty => "empty command".to_owned(),
        }
    }
}

/// A command split into a program and its arguments.
pub struct CommandLine {
    pub program: String,
    pub args: Vec<String>,
}

impl CommandLine {
    /// The program followed by its arguments.
    pub open spec fn words(&self) -> Seq<Seq<char>> {
        seq![self.program@] + string_views(self.args@)
    }
}

/// Whether a command line splits into at least one word.
pub open spec fn parses(cmd: Seq<char>) -> bool {
    shell_words(cmd) matches Some(w) && w.len() > 0
}

/// The words of a command line that `parses`.
pub open spec fn words_of(cmd: Seq<char>) -> Seq<Seq<char>> {
    shell_words(cmd)->Some_0
}

/// The error that a command line which does not parse gives.
pub open spec fn error_for(cmd: Seq<char>, e: CommandError) -> bool {
    match shell_words(cmd) {
        None => e matches CommandError::Invalid(c) && c@ == cmd,
        Some(w) => w.len() == 0 && e is Empty,
    }
}

/// Splits a command line into words.
pub fn parse_command_parts(cmd: &str) -> (r: Result<Vec<String>, CommandError>)
    ensures
        parses(cmd@) ==> (r matches Ok(v) && string_views(v@) == words_of(cmd@)),
        !parses(cmd@) ==> (r matches Err(e) && error_for(cmd@, e)),
{
    match split_shell_words(cmd) {
        Some(parts) => {
            if parts.len() == 0 {
                Err(CommandError::Empty)
            } else {
                Ok(parts)
            }
        },
        None => Err(CommandError::Invalid(cmd.to_owned())),
    }
}

/// Splits a command line into its program and arguments.
pub fn command_from_str(cmd: &str) -> (r: Result<CommandLine, CommandError>)
    ensures
        parses(cmd@) ==> (r matches Ok(c) && c.words() == words_of(cmd@)),
        !parses(cmd@) ==> (r matches Err(e) && error_for(cmd@, e)),
{
    match parse_command_parts(cmd) {
        Ok(parts) => {
            let mut args = parts;
            let program = args.remove(0);
            let c = CommandLine { program, args };
            assert(c.words() =~= words_of(cmd@));
            Ok(c)
        },
        Err(e) => Err(e),
    }
}

/// The path of a case's file in `dir`: the index zero-padded to four digits.
pub open spec fn case_path(dir: Seq<char>, case: u32) -> Seq<char> {
    dir + "/"@ + zero_padded(case as nat, 4) + ".txt"@
}

fn case_file(dir: &str, case: u32) -> (r: String)
    ensures
        r@ == case_path(dir@, case),
{
    let mut out: Vec<char> = Vec::new();
    push_str(&mut out, dir);
    push_str(&mut out, "/");
    push_zero_padded(case as u64, 4, &mut out);
    push_str(&mut out, ".txt");
    let r = string_of(&out);
    assert(r@ =~= case_path(dir@, case));
    r
}

/// How one case's solution is run.
pub struct CaseRun {
    pub case: u32,
    /// The input file, which the program reads and whose path it is given.
    pub input: String,
    /// The file that takes the program's standard output.
    pub output: String,
    pub command: CommandLine,
    /// Whether the input is written to the program through a pipe; otherwise the
    /// file itself is its standard input.
    pub pipe_input: bool,
}

/// A configuration's score or comment pattern that does not compile.
pub enum ConfigError {
    InvalidScorePattern(String),
    InvalidCommentPattern(String),
}

impl ConfigError {
    /// The error as text, naming the setting and its pattern.
    pub fn message(&self) -> (r: String)
        ensures
            r@ == match self {
                ConfigError::InvalidScorePattern(p) => "Invalid test.score_regex '"@ + p@ + "'"@,
                ConfigError::InvalidCommentPattern(p) => "Invalid test.comment_regex '"@ + p@
                    + "'"@,
            },
    {
        let mut out: Vec<char> = Vec::new();
        match self {
            ConfigError::InvalidScorePattern(p) => {
                push_str(&mut out, "Invalid test.score_regex '");
                push_str(&mut out, p.as_str());
            },
            ConfigError::InvalidCommentPattern(p) => {
                push_str(&mut out, "Invalid test.comment_regex '");
                push_str(&mut out, p.as_str());
            },
        }
        push_str(&mut out, "'");
        let r = string_of(&out);
        proof {
            match self {
                ConfigError::InvalidScorePattern(p) => {
                    assert(r@ =~= "Invalid test.score_regex '"@ + p@ + "'"@);
                },
                ConfigError::InvalidCommentPattern(p) => {
                    assert(r@ =~= "Invalid test.comment_regex '"@ + p@ + "'"@);
                },
            }
        }
        r
    }
}

/// Where a run stands: before it starts, building, running the cases, or ended.
#[derive(Clone, Copy, PartialEq, Eq, Structural)]
pub enum Stage {
    Idle,
    Building,
    /// Running the cases one by one, without scoring.
    RunOnly,
    /// Running and scoring the cases in parallel.
    Evaluating,
    Completed,
    Failed,
}

/// The stage that runs the cases.
pub open spec fn case_stage(no_evaluate: bool) -> Stage {
    if no_evaluate {
        Stage::RunOnly
    } else {
        Stage::Evaluating
    }
}

/// The stage after `s`, whose work ended well when `ok`: a failure ends the run, the
/// build (when enabled) comes first, then the cases, then the end.
pub open spec fn stage_after(s: Stage, ok: bool, build: bool, no_evaluate: bool) -> Stage {
    match s {
        Stage::Completed => Stage::Completed,
        Stage::Failed => Stage::Failed,
        _ => if !ok {
            Stage::Failed
        } else {
            match s {
                Stage::Idle => if build {
                    Stage::Building
                } else {
                    case_stage(no_evaluate)
                },
                Stage::Building => case_stage(no_evaluate),
                _ => Stage::Completed,
            }
        },
    }
}

/// The test harness for one configuration: its resolved cases and compiled patterns.
pub struct Heu {
    config: Config,
    cases: Vec<u32>,
    score_regex: Pattern,
    comment_regex: Pattern,
}

impl Heu {
    pub closed spec fn config(&self) -> Config {
        self.config
    }

    pub closed spec fn case_list(&self) -> Seq<u32> {
        self.cases@
    }

    pub closed spec fn score_pattern(&self) -> Seq<char> {
        self.score_regex@
    }

    pub closed spec fn comment_pattern(&self) -> Seq<char> {
        self.comment_regex@
    }

    /// The harness for a configuration whose two patterns compile.
    pub fn new(config: Config) -> (r: Heu)
        requires
            is_valid_pattern(config.test.score_regex@),
            is_valid_pattern(config.test.comment_regex@),
        ensures
            r.config() == config,
            r.case_list() == selected_cases(whitespace_words(config.test.cases@)),
            r.score_pattern() == config.test.score_regex@,
            r.comment_pattern() == config.test.comment_regex@,
    {
        let tokens = split_words(config.test.cases.as_str());
        let cases = parse_cases(tokens.as_slice());
        let score_regex = Pattern::compile(config.test.score_regex.as_str()).unwrap();
        let comment_regex = Pattern::compile(config.test.comment_regex.as_str()).unwrap();
        Heu { config, cases, score_regex, comment_regex }
    }

    /// The harness for a configuration, or the first of its patterns that does not
    /// compile; no case runs before this succeeds.
    pub fn try_new(config: Config) -> (r: Result<Heu, ConfigError>)
        ensures
            !is_valid_pattern(config.test.score_regex@) ==> (r matches Err(
                ConfigError::InvalidScorePattern(p),
            ) && p@ == config.test.score_regex@),
            is_valid_pattern(config.test.score_regex@) && !is_valid_pattern(
                config.test.comment_regex@,
            ) ==> (r matches Err(ConfigError::InvalidCommentPattern(p)) && p@
                == config.test.comment_regex@),
            is_valid_pattern(config.test.score_regex@) && is_valid_pattern(
                config.test.comment_regex@,
            ) ==> (r matches Ok(h) && h.config() == config && h.case_list() == selected_cases(
                whitespace_words(config.test.cases@),
            ) && h.score_pattern() == config.test.score_regex@ && h.comment_pattern()
                == config.test.comment_regex@),
    {
        if Pattern::compile(config.test.score_regex.as_str()).is_none() {
            return Err(ConfigError::InvalidScorePattern(config.test.score_regex.clone()));
        }
        if Pattern::compile(config.test.comment_regex.as_str()).is_none() {
            return Err(ConfigError::InvalidCommentPattern(config.test.comment_regex.clone()));
        }
        Ok(Heu::new(config))
    }

    /// The resolved cases, in order.
    pub fn cases(&self) -> (r: &Vec<u32>)
        ensures
            r@ == self.case_list(),
    {
        &self.cases
    }

    /// The number of workers that run cases.
    pub fn threads(&self) -> (r: usize)
        ensures
            r == self.config().test.threads,
    {
        self.config.test.threads
    }

    /// Whether cases only run, one after another, without scoring.
    pub fn no_evaluate(&self) -> (r: bool)
        ensures
            r == self.config().test.no_evaluate,
    {
        self.config.test.no_evaluate
    }

    /// The stage that follows `stage` when its work ended well (`ok`) or failed.
    pub fn next_stage(&self, stage: Stage, ok: bool) -> (r: Stage)
        ensures
            r == stage_after(
                stage,
                ok,
                self.config().build.enable,
                self.config().test.no_evaluate,
            ),
    {
        let work = if self.config.test.no_evaluate {
            Stage::RunOnly
        } else {
            Stage::Evaluating
        };
        match stage {
            Stage::Completed => Stage::Completed,
            Stage::Failed => Stage::Failed,
            _ => {
                if !ok {
                    Stage::Failed
                } else {
                    match stage {
                        Stage::Idle => if self.config.build.enable {
                            Stage::Building
                        } else {
                            work
                        },
                        Stage::Building => work,
                        _ => Stage::Completed,
                    }
                }
            },
        }
    }

    /// The input file of a case.
    pub fn input_file(&self, case: u32) -> (r: String)
        ensures
            r@ == case_path(self.config().test.in_dir@, case),
    {
        case_file(self.config.test.in_dir.as_str(), case)
    }

    /// The output file of a case.
    pub fn output_file(&self, case: u32) -> (r: String)
        ensures
            r@ == case_path(self.config().test.out_dir@, case),
    {
        case_file(self.config.test.out_dir.as_str(), case)
    }

    /// The build command; `None` when building is turned off.
    pub fn build_command(&self) -> (r: Result<Option<CommandLine>, CommandError>)
        ensures
            !self.config().build.enable ==> r matches Ok(None),
            self.config().build.enable && parses(self.config().build.command@) ==> (r matches Ok(
                Some(c),
            ) && c.words() == words_of(self.config().build.command@)),
            self.config().build.enable && !parses(self.config().build.command@) ==> (r matches Err(
                e,
            ) && error_for(self.config().build.command@, e)),
    {
        if !self.config.build.enable {
            return Ok(None);
        }
        match command_from_str(self.config.build.command.as_str()) {
            Ok(c) => Ok(Some(c)),
            Err(e) => Err(e),
        }
    }

    /// The solution's command, run as it is.
    pub fn solution_command(&self) -> (r: Result<CommandLine, CommandError>)
        ensures
            parses(self.config().test.bin@) ==> (r matches Ok(c) && c.words() == words_of(
                self.config().test.bin@,
            )),
            !parses(self.config().test.bin@) ==> (r matches Err(e) && error_for(
                self.config().test.bin@,
                e,
            )),
    {
        command_from_str(self.config.test.bin.as_str())
    }

    /// How a case's solution runs: on its own, with the input piped in, or under the
    /// tester, with the solution's words appended to the tester's and the input file
    /// as standard input.
    pub fn case_run(&self, case: u32) -> (r: Result<CaseRun, CommandError>)
        ensures
            ({
                let t = self.config().test;
                &&& !t.use_tester && !parses(t.bin@) ==> (r matches Err(e) && error_for(t.bin@, e))
                &&& t.use_tester && !parses(t.tester@) ==> (r matches Err(e) && error_for(
                    t.tester@,
                    e,
                ))
                &&& t.use_tester && parses(t.tester@) && !parses(t.bin@) ==> (r matches Err(e)
                    && error_for(t.bin@, e))
                &&& (if t.use_tester {
                    parses(t.tester@) && parses(t.bin@)
                } else {
                    parses(t.bin@)
                }) ==> (r matches Ok(run) && run.case == case && run.input@ == case_path(
                    t.in_dir@,
                    case,
                ) && run.output@ == case_path(t.out_dir@, case) && run.pipe_input == !t.use_tester
                    && run.command.words() == if t.use_tester {
                    words_of(t.tester@) + words_of(t.bin@)
                } else {
                    words_of(t.bin@)
                })
            }),
    {
        let input = self.input_file(case);
        let output = self.output_file(case);
        if self.config.test.use_tester {
            let tester = match command_from_str(self.config.test.tester.as_str()) {
                Ok(c) => c,
                Err(e) => {
                    return Err(e);
                },
            };
            let mut bin_parts = match parse_command_parts(self.config.test.bin.as_str()) {
                Ok(p) => p,
                Err(e) => {
                    return Err(e);
                },
            };
            let ghost tw = tester.words();
            let ghost bw = string_views(bin_parts@);
            let mut args = tester.args;
            let ghost a0 = args@;
            args.append(&mut bin_parts);
            let command = CommandLine { program: tester.program, args };
            assert(string_views(args@) =~= string_views(a0) + bw);
            assert(command.words() =~= tw + bw);
            Ok(CaseRun { case, input, output, command, pipe_input: false })
        } else {
            match command_from_str(self.config.test.bin.as_str()) {
                Ok(command) => Ok(CaseRun { case, input, output, command, pipe_input: true }),
                Err(e) => Err(e),
            }
        }
    }

    /// The visualizer's command for a case: the configured words, then the input
    /// and output files.
    pub fn vis_command(&self, inf: &str, outf: &str) -> (r: Result<CommandLine, CommandError>)
        ensures
            parses(self.config().test.vis@) ==> (r matches Ok(c) && c.words() == words_of(
                self.config().test.vis@,
            ) + seq![inf@, outf@]),
            !parses(self.config().test.vis@) ==> (r matches Err(e) && error_for(
                self.config().test.vis@,
                e,
            )),
    {
        match command_from_str(self.config.test.vis.as_str()) {
            Ok(c) => {
                let ghost w = c.words();
                let mut args = c.args;
                let ghost a0 = args@;
                args.push(inf.to_owned());
                args.push(outf.to_owned());
                let command = CommandLine { program: c.program, args };
                assert(string_views(args@) =~= string_views(a0) + seq![inf@, outf@]);
                assert(command.words() =~= w + seq![inf@, outf@]);
                Ok(command)
            },
            Err(e) => Err(e),
        }
    }

    /// The result of a finished case, scored with this harness's patterns.
    pub fn finish_case(
        &self,
        case: u32,
        inf: String,
        outf: String,
        visout: String,
        stderr: String,
        elapsed_ms: u64,
    ) -> (r: CaseResult)
        ensures
            r.case == case,
            r.inf == inf,
            r.outf == outf,
            r.visout == visout,
            r.stderr == stderr,
            r.elapsed_ms == elapsed_ms,
            r.score == crate::score::score_of(self.score_pattern(), visout@),
            r.comment_pattern() == self.comment_pattern(),
    {
        CaseResult::new(
            case,
            inf,
            outf,
            visout,
            stderr,
            elapsed_ms,
            &self.score_regex,
            &self.comment_regex,
        )
    }
}

} // verus!
