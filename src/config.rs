//! The harness's configuration: how to build the solution and how to run the cases.
use vstd::prelude::*;
use crate::format::{decimal, push_decimal};
use crate::cases::string_views;
use crate::text::{push_str, string_of};

verus! {

/// How the solution is built before the cases run.
pub struct BuildConfig {
    pub enable: bool,
    pub command: String,
}

/// How the cases are run and scored.
pub struct TestConfig {
    pub bin: String,
    pub cases: String,
    pub threads: usize,
    pub no_evaluate: bool,
    pub use_tester: bool,
    pub in_dir: String,
    pub out_dir: String,
    pub vis: String,
    pub tester: String,
    pub score_regex: String,
    pub comment_regex: String,
}

pub struct Config {
    pub build: BuildConfig,
    pub test: TestConfig,
}

/// Relies on num_cpus::get: the number of logical CPUs available to this process,
/// which is at least one.
#[verifier::external_body]
fn available_cpus() -> (r: usize)
    ensures
        r >= 1,
{
    num_cpus::get()
}

pub open spec fn bool_text(b: bool) -> Seq<char> {
    if b {
        "true"@
    } else {
        "false"@
    }
}

fn push_bool(out: &mut Vec<char>, b: bool)
    ensures
        final(out)@ == old(out)@ + bool_text(b),
{
    if b {
        push_str(out, "true");
    } else {
        push_str(out, "false");
    }
}

/// The configuration file text for `c`, with a comment above each setting.
pub open spec fn config_toml(c: Config) -> Seq<char> {
    "[build]\n# ビルドを実行するか\nenable = "@
        + bool_text(c.build.enable)
        + "\n# ビルドコマンド\ncommand = \""@
        + c.build.command@
        + "\"\n\n[test]\n# 実行バイナリのパス\nbin = \""@
        + c.test.bin@
        + "\"\n# テストケース範囲 (例: \"0-9\", \"0 1 3-5\")\ncases = \""@
        + c.test.cases@
        + "\"\n# 並列スレッド数\nthreads = "@
        + decimal(c.test.threads as nat)
        + "\n# 評価なしで実行する (ビジュアライザによるスコア計算をスキップ)\nno_evaluate = "@
        + bool_text(c.test.no_evaluate)
        + "\n# tester.exe を使用してインタラクティブ問題を実行する\nuse_tester = "@
        + bool_text(c.test.use_tester)
        + "\n# テスト入力ファイルのディレクトリパス\nin_dir = \""@
        + c.test.in_dir@
        + "\"\n# テスト出力ファイルのディレクトリパス\nout_dir = \""@
        + c.test.out_dir@
        + "\"\n# ビジュアライザ実行コマンド (引数として入力ファイルと出力ファイルが追加される)\nvis = \""@
        + c.test.vis@
        + "\"\n# テスター実行コマンド (use_tester=true の場合に使用)\ntester = \""@
        + c.test.tester@
        + "\"\n# ビジュアライザ出力からスコアを抽出する正規表現（第1キャプチャを数値として使用）\nscore_regex = \""@
        + c.test.score_regex@
        + "\"\n# stderr の各行からコメントを抽出する正規表現（第1キャプチャをコメント本文として使用）\ncomment_regex = \""@
        + c.test.comment_regex@
        + "\"\n"@
}

/// The settings used when no configuration file exists, with `cpus` workers.
pub open spec fn is_default_config(r: Config, cpus: usize) -> bool {
    &&& r.build.enable
    &&& r.build.command@ == "cargo build --release --bin a --target-dir target -q"@
    &&& r.test.bin@ == "./target/release/a"@
    &&& r.test.cases@ == "0-9"@
    &&& r.test.threads == cpus
    &&& !r.test.no_evaluate
    &&& !r.test.use_tester
    &&& r.test.in_dir@ == "./tools/in"@
    &&& r.test.out_dir@ == "./tools/out"@
    &&& r.test.vis@
        == "cargo run --manifest-path tools/Cargo.toml --bin vis --target-dir=tools/target -r"@
    &&& r.test.tester@
        == "cargo run --manifest-path tools/Cargo.toml --bin tester --target-dir=tools/target -r"@
    &&& r.test.score_regex@ == "Score = (\\d+)"@
    &&& r.test.comment_regex@ == "^# (.*)$"@
}

impl Config {
    /// The settings used when no configuration file exists: one worker per
    /// available CPU.
    pub fn default_config() -> (r: Config)
        ensures
            r.test.threads >= 1,
            is_default_config(r, r.test.threads),
    {
        Config::default_config_for(available_cpus())
    }

    /// The default settings with `cpus` workers.
    pub fn default_config_for(cpus: usize) -> (r: Config)
        ensures
            is_default_config(r, cpus),
    {
        Config {
            build: BuildConfig {
                enable: true,
                command: "cargo build --release --bin a --target-dir target -q".to_owned(),
            },
            test: TestConfig {
                bin: "./target/release/a".to_owned(),
                cases: "0-9".to_owned(),
                threads: cpus,
                no_evaluate: false,
                use_tester: false,
                in_dir: "./tools/in".to_owned(),
                out_dir: "./tools/out".to_owned(),
                vis: "cargo run --manifest-path tools/Cargo.toml --bin vis --target-dir=tools/target -r".to_owned(),
                tester: "cargo run --manifest-path tools/Cargo.toml --bin tester --target-dir=tools/target -r".to_owned(),
                score_regex: "Score = (\\d+)".to_owned(),
                comment_regex: "^# (.*)$".to_owned(),
            },
        }
    }

    /// The configuration file text for this configuration, each setting under a
    /// comment that explains it.
    pub fn generate_toml_with_comments(&self) -> (r: String)
        ensures
            r@ == config_toml(*self),
    {
        let mut out: Vec<char> = Vec::new();
        push_str(&mut out, "[build]\n# ビルドを実行するか\nenable = ");
        push_bool(&mut out, self.build.enable);
        push_str(&mut out, "\n# ビルドコマンド\ncommand = \"");
        push_str(&mut out, self.build.command.as_str());
        push_str(&mut out, "\"\n\n[test]\n# 実行バイナリのパス\nbin = \"");
        push_str(&mut out, self.test.bin.as_str());
        push_str(&mut out, "\"\n# テストケース範囲 (例: \"0-9\", \"0 1 3-5\")\ncases = \"");
        push_str(&mut out, self.test.cases.as_str());
        push_str(&mut out, "\"\n# 並列スレッド数\nthreads = ");
        push_decimal(self.test.threads as u64, &mut out);
        push_str(&mut out, "\n# 評価なしで実行する (ビジュアライザによるスコア計算をスキップ)\nno_evaluate = ");
        push_bool(&mut out, self.test.no_evaluate);
        push_str(&mut out, "\n# tester.exe を使用してインタラクティブ問題を実行する\nuse_tester = ");
        push_bool(&mut out, self.test.use_tester);
        push_str(&mut out, "\n# テスト入力ファイルのディレクトリパス\nin_dir = \"");
        push_str(&mut out, self.test.in_dir.as_str());
        push_str(&mut out, "\"\n# テスト出力ファイルのディレクトリパス\nout_dir = \"");
        push_str(&mut out, self.test.out_dir.as_str());
        push_str(&mut out, "\"\n# ビジュアライザ実行コマンド (引数として入力ファイルと出力ファイルが追加される)\nvis = \"");
        push_str(&mut out, self.test.vis.as_str());
        push_str(&mut out, "\"\n# テスター実行コマンド (use_tester=true の場合に使用)\ntester = \"");
        push_str(&mut out, self.test.tester.as_str());
        push_str(&mut out, "\"\n# ビジュアライザ出力からスコアを抽出する正規表現（第1キャプチャを数値として使用）\nscore_regex = \"");
        push_str(&mut out, self.test.score_regex.as_str());
        push_str(&mut out, "\"\n# stderr の各行からコメントを抽出する正規表現（第1キャプチャをコメント本文として使用）\ncomment_regex = \"");
        push_str(&mut out, self.test.comment_regex.as_str());
        push_str(&mut out, "\"\n");
        let r = string_of(&out);
        assert(r@ =~= config_toml(*self));
        r
    }
}

/// Words joined with single spaces.
pub open spec fn join_words(ws: Seq<Seq<char>>) -> Seq<char>
    decreases ws.len(),
{
    if ws.len() == 0 {
        Seq::empty()
    } else if ws.len() == 1 {
        ws[0]
    } else {
        join_words(ws.drop_last()) + seq![' '] + ws.last()
    }
}

/// The command-line arguments: case tokens, a configuration file, and settings that
/// take the place of the file's.
pub struct Args {
    pub cases: Vec<String>,
    pub config: Option<String>,
    pub threads: Option<usize>,
    pub no_evaluate: bool,
    pub use_tester: bool,
}

impl Args {
    /// Lets the arguments that were given take the place of the configuration's
    /// settings: the case tokens (joined with spaces), the number of workers, and
    /// the two switches, which can only turn a setting on.
    pub fn apply(&self, config: &mut Config)
        ensures
            final(config).build == old(config).build,
            final(config).test.cases@ == if self.cases@.len() == 0 {
                old(config).test.cases@
            } else {
                join_words(string_views(self.cases@))
            },
            final(config).test.threads == match self.threads {
                Some(t) => t,
                None => old(config).test.threads,
            },
            final(config).test.no_evaluate == (old(config).test.no_evaluate || self.no_evaluate),
            final(config).test.use_tester == (old(config).test.use_tester || self.use_tester),
            final(config).test.bin == old(config).test.bin,
            final(config).test.in_dir == old(config).test.in_dir,
            final(config).test.out_dir == old(config).test.out_dir,
            final(config).test.vis == old(config).test.vis,
            final(config).test.tester == old(config).test.tester,
            final(config).test.score_regex == old(config).test.score_regex,
            final(config).test.comment_regex == old(config).test.comment_regex,
    {
        if self.cases.len() > 0 {
            let mut out: Vec<char> = Vec::new();
            let mut i: usize = 0;
            while i < self.cases.len()
                invariant
                    0 <= i <= self.cases@.len(),
                    out@ == join_words(string_views(self.cases@).subrange(0, i as int)),
                decreases self.cases@.len() - i,
            {
                let ghost ws = string_views(self.cases@).subrange(0, i + 1);
                assert(ws.drop_last() =~= string_views(self.cases@).subrange(0, i as int));
                if i > 0 {
                    out.push(' ');
                }
                push_str(&mut out, self.cases[i].as_str());
                proof {
                    if i == 0 {
                        assert(out@ =~= ws[0]);
                    }
                }
                i = i + 1;
            }
            assert(string_views(self.cases@).subrange(0, i as int) =~= string_views(self.cases@));
            config.test.cases = string_of(&out);
        }
        match self.threads {
            Some(t) => {
                config.test.threads = t;
            },
            None => {},
        }
        if self.no_evaluate {
            config.test.no_evaluate = true;
        }
        if self.use_tester {
            config.test.use_tester = true;
        }
    }
}

} // verus!
