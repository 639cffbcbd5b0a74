use cargo_heu::config::{Args, BuildConfig, Config, TestConfig};
use cargo_heu::harness::{command_from_str, CommandError, ConfigError, Heu, Stage};

fn test_config() -> Config {
    Config {
        build: BuildConfig { enable: false, command: String::new() },
        test: TestConfig {
            bin: "./target/release/a".to_string(),
            cases: "0-9".to_string(),
            threads: 1,
            no_evaluate: false,
            use_tester: false,
            in_dir: "./tools/in".to_string(),
            out_dir: "./tools/out".to_string(),
            vis: String::new(),
            tester: String::new(),
            score_regex: "Score = (\\d+)".to_string(),
            comment_regex: "^# (.*)$".to_string(),
        },
    }
}

#[test]
fn test_input_file() {
    let heu = Heu::new(test_config());
    assert_eq!(heu.input_file(3), "./tools/in/0003.txt");
}

#[test]
fn test_output_file() {
    let heu = Heu::new(test_config());
    assert_eq!(heu.output_file(3), "./tools/out/0003.txt");
}

#[test]
fn invalid_score_pattern_is_a_config_error() {
    let mut cfg = test_config();
    cfg.test.score_regex = "(".to_string();
    match Heu::try_new(cfg) {
        Err(ConfigError::InvalidScorePattern(p)) => assert_eq!(p, "("),
        _ => panic!("expected an invalid score pattern"),
    }
}

#[test]
fn invalid_comment_pattern_is_a_config_error() {
    let mut cfg = test_config();
    cfg.test.comment_regex = "(".to_string();
    let e = Heu::try_new(cfg).err().unwrap();
    assert!(matches!(e, ConfigError::InvalidCommentPattern(_)));
    assert_eq!(e.message(), "Invalid test.comment_regex '('");
}

#[test]
fn cases_come_from_the_config() {
    let mut cfg = test_config();
    cfg.test.cases = " 0 1\t3-5 ".to_string();
    let heu = Heu::try_new(cfg).ok().unwrap();
    assert_eq!(heu.cases(), &vec![0, 1, 3, 4, 5]);
    let heu = Heu::new(test_config());
    assert_eq!(heu.cases(), &(0..10).collect::<Vec<u32>>());
    let mut cfg = test_config();
    cfg.test.cases = String::new();
    assert_eq!(Heu::new(cfg).cases(), &vec![0, 1, 2, 3, 4]);
}

#[test]
fn command_lines_split_with_quotes() {
    let c = command_from_str("prog 'a b' \"c\" d").ok().unwrap();
    assert_eq!(c.program, "prog");
    assert_eq!(c.args, vec!["a b".to_string(), "c".to_string(), "d".to_string()]);
    assert!(matches!(command_from_str("   "), Err(CommandError::Empty)));
    let e = command_from_str("prog 'open").err().unwrap();
    assert_eq!(e.message(), "invalid command: prog 'open");
}

#[test]
fn solution_runs_piped_without_tester() {
    let heu = Heu::new(test_config());
    let run = heu.case_run(12).ok().unwrap();
    assert_eq!(run.input, "./tools/in/0012.txt");
    assert_eq!(run.output, "./tools/out/0012.txt");
    assert!(run.pipe_input);
    assert_eq!(run.command.program, "./target/release/a");
    assert!(run.command.args.is_empty());
}

#[test]
fn tester_runs_the_solution() {
    let mut cfg = test_config();
    cfg.test.use_tester = true;
    cfg.test.tester = "tester --quiet".to_string();
    cfg.test.bin = "./a --fast".to_string();
    let heu = Heu::new(cfg);
    let run = heu.case_run(1).ok().unwrap();
    assert!(!run.pipe_input);
    assert_eq!(run.command.program, "tester");
    assert_eq!(run.command.args, vec!["--quiet", "./a", "--fast"]);
}

#[test]
fn empty_tester_is_an_error() {
    let mut cfg = test_config();
    cfg.test.use_tester = true;
    let heu = Heu::new(cfg);
    assert!(matches!(heu.case_run(1), Err(CommandError::Empty)));
}

#[test]
fn visualizer_gets_both_files() {
    let mut cfg = test_config();
    cfg.test.vis = "vis -v".to_string();
    let heu = Heu::new(cfg);
    let c = heu.vis_command("in/0001.txt", "out/0001.txt").ok().unwrap();
    assert_eq!(c.program, "vis");
    assert_eq!(c.args, vec!["-v", "in/0001.txt", "out/0001.txt"]);
    let heu = Heu::new(test_config());
    assert!(matches!(heu.vis_command("a", "b"), Err(CommandError::Empty)));
}

#[test]
fn build_is_skipped_when_disabled() {
    let heu = Heu::new(test_config());
    assert!(matches!(heu.build_command(), Ok(None)));
    let mut cfg = test_config();
    cfg.build.enable = true;
    cfg.build.command = "cargo build -q".to_string();
    let c = Heu::new(cfg).build_command().ok().unwrap().unwrap();
    assert_eq!(c.program, "cargo");
    assert_eq!(c.args, vec!["build", "-q"]);
}

#[test]
fn default_config_values() {
    let c = Config::default_config();
    assert!(c.build.enable);
    assert_eq!(c.test.cases, "0-9");
    assert!(c.test.threads >= 1);
    assert_eq!(c.test.score_regex, "Score = (\\d+)");
    let text = c.generate_toml_with_comments();
    assert!(text.starts_with("[build]\n"));
    assert!(text.contains("\nenable = true\n"));
    assert!(text.contains(&format!("\nthreads = {}\n", c.test.threads)));
    assert!(text.contains("\nscore_regex = \"Score = (\\d+)\"\n"));
    assert!(text.ends_with("comment_regex = \"^# (.*)$\"\n"));
}

#[test]
fn arguments_override_the_config() {
    let mut cfg = test_config();
    let args = Args {
        cases: vec!["1".to_string(), "4-6".to_string()],
        config: None,
        threads: Some(8),
        no_evaluate: true,
        use_tester: false,
    };
    args.apply(&mut cfg);
    assert_eq!(cfg.test.cases, "1 4-6");
    assert_eq!(cfg.test.threads, 8);
    assert!(cfg.test.no_evaluate);
    assert!(!cfg.test.use_tester);
    let none = Args { cases: vec![], config: None, threads: None, no_evaluate: false, use_tester: false };
    none.apply(&mut cfg);
    assert_eq!(cfg.test.cases, "1 4-6");
    assert_eq!(cfg.test.threads, 8);
    assert!(cfg.test.no_evaluate);
}

#[test]
fn stages_follow_the_config() {
    let heu = Heu::new(test_config());
    assert!(heu.next_stage(Stage::Idle, true) == Stage::Evaluating);
    assert!(heu.next_stage(Stage::Evaluating, true) == Stage::Completed);
    assert!(heu.next_stage(Stage::Evaluating, false) == Stage::Failed);
    let mut cfg = test_config();
    cfg.build.enable = true;
    cfg.test.no_evaluate = true;
    let heu = Heu::new(cfg);
    assert!(heu.next_stage(Stage::Idle, true) == Stage::Building);
    assert!(heu.next_stage(Stage::Building, true) == Stage::RunOnly);
    assert!(heu.next_stage(Stage::Building, false) == Stage::Failed);
    assert!(heu.next_stage(Stage::Failed, true) == Stage::Failed);
    assert!(heu.next_stage(Stage::Completed, false) == Stage::Completed);
}

#[test]
fn default_config_for_uses_the_given_workers() {
    let c = Config::default_config_for(3);
    assert_eq!(c.test.threads, 3);
    assert_eq!(c.test.in_dir, "./tools/in");
}

#[test]
fn error_messages() {
    assert_eq!(CommandError::Empty.message(), "empty command");
    assert_eq!(
        ConfigError::InvalidScorePattern("(".to_string()).message(),
        "Invalid test.score_regex '('"
    );
}

#[test]
fn blank_cases_select_the_default() {
    let mut cfg = test_config();
    cfg.test.cases = " \t\n ".to_string();
    assert_eq!(Heu::new(cfg).cases(), &vec![0, 1, 2, 3, 4]);
    let mut cfg = test_config();
    cfg.test.cases = "\u{3000}7\u{a0}8".to_string();
    assert_eq!(Heu::new(cfg).cases(), &vec![7, 8]);
}
