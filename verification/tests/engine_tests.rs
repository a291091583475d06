use findutils::builder::{build_top_level_matcher, Config};
use findutils::entry::{Output, PathInfo, PredKey};

/// Helper to build the entry value for a directory entry with the given
/// directory and file name.
fn get_dir_entry_for(directory: &str, filename: &str) -> PathInfo {
    PathInfo::new(format!("{}/{}", directory, filename))
}

#[test]
fn plain_conjunction_scenario() {
    // True AND False: no match, and with no side-effecting leaf reached,
    // nothing is printed despite the injected default print.
    let abbbc = get_dir_entry_for("test_data/simple", "abbbc");
    let mut output = Output::new();
    let mut config = Config::new();

    let matcher = build_top_level_matcher(&["-true", "-false"], &mut config).unwrap();
    assert!(!matcher.matches(&abbbc, &mut output));
    assert_eq!(output.as_string(), "");
}

#[test]
fn or_binds_looser_than_implicit_and() {
    // True OR (False AND False) = true
    let abbbc = get_dir_entry_for("test_data/simple", "abbbc");
    let mut output = Output::new();
    let mut config = Config::new();

    let matcher =
        build_top_level_matcher(&["-true", "-o", "-false", "-false"], &mut config).unwrap();
    assert!(matcher.matches(&abbbc, &mut output));
    assert_eq!(output.as_string(), "test_data/simple/abbbc\n");
}

#[test]
fn negation_scenario() {
    // NOT False = true
    let abbbc = get_dir_entry_for("test_data/simple", "abbbc");
    let mut output = Output::new();
    let mut config = Config::new();

    let matcher = build_top_level_matcher(&["-not", "-false"], &mut config).unwrap();
    assert!(matcher.matches(&abbbc, &mut output));
}

#[test]
fn negation_is_a_flag_not_a_stack() {
    // A second -not before the same leaf only sets the already-set pending
    // flag again: the leaf is negated once.
    let abbbc = get_dir_entry_for("test_data/simple", "abbbc");
    let mut output = Output::new();
    let mut config = Config::new();

    let matcher = build_top_level_matcher(&["-not", "-not", "-false"], &mut config).unwrap();
    assert!(matcher.matches(&abbbc, &mut output));
}

#[test]
fn and_short_circuit_skips_print() {
    // the print leaf stands after a failing conjunct: it must not fire
    let abbbc = get_dir_entry_for("test_data/simple", "abbbc");
    let mut output = Output::new();
    let mut config = Config::new();

    let matcher = build_top_level_matcher(&["-false", "-print"], &mut config).unwrap();
    assert!(!matcher.matches(&abbbc, &mut output));
    assert_eq!(output.as_string(), "");
}

#[test]
fn or_short_circuit_skips_second_branch() {
    // the first branch prints and matches; the second branch must not run
    let abbbc = get_dir_entry_for("test_data/simple", "abbbc");
    let mut output = Output::new();
    let mut config = Config::new();

    let matcher = build_top_level_matcher(&["-print", "-o", "-print"], &mut config).unwrap();
    assert!(matcher.matches(&abbbc, &mut output));
    assert_eq!(output.as_string(), "test_data/simple/abbbc\n");
}

#[test]
fn no_injection_when_tree_prints_itself() {
    // a tree with its own print leaf is used unmodified: one line, not two
    let abbbc = get_dir_entry_for("test_data/simple", "abbbc");
    let mut output = Output::new();
    let mut config = Config::new();

    let matcher = build_top_level_matcher(&["-print"], &mut config).unwrap();
    assert!(matcher.matches(&abbbc, &mut output));
    assert_eq!(output.as_string(), "test_data/simple/abbbc\n");
}

#[test]
fn empty_expression_matches_and_prints() {
    // no tokens at all: the empty conjunction is true, and the default
    // print is injected
    let abbbc = get_dir_entry_for("test_data/simple", "abbbc");
    let mut output = Output::new();
    let mut config = Config::new();

    let args: [&str; 0] = [];
    let matcher = build_top_level_matcher(&args, &mut config).unwrap();
    assert!(matcher.matches(&abbbc, &mut output));
    assert_eq!(output.as_string(), "test_data/simple/abbbc\n");
}

#[test]
fn depth_flag_sets_config() {
    for arg in &["-d", "-depth"] {
        let mut config = Config::new();
        assert!(!config.depth_first);
        build_top_level_matcher(&[arg, "-true"], &mut config).unwrap();
        assert!(config.depth_first);
    }

    let mut config = Config::new();
    build_top_level_matcher(&["-true"], &mut config).unwrap();
    assert!(!config.depth_first);
}

#[test]
fn unrecognized_flag_is_an_error() {
    let mut config = Config::new();
    if let Err(e) = build_top_level_matcher(&["-foo"], &mut config) {
        assert_eq!(e.description(), "Unrecognized flag: '-foo'");
    } else {
        panic!("an unknown flag should fail the build");
    }
}

#[test]
fn error_messages_are_exact() {
    let mut config = Config::new();

    let e = build_top_level_matcher(&["-name"], &mut config).unwrap_err();
    assert_eq!(e.description(), "missing argument to -name");

    let e = build_top_level_matcher(&["-true", "-o"], &mut config).unwrap_err();
    assert_eq!(e.description(), "expected an expression after -o");

    let e = build_top_level_matcher(&["-o", "-true"], &mut config).unwrap_err();
    assert_eq!(
        e.description(),
        "invalid expression; you have used a binary operator '-o' with nothing before it."
    );

    let e = build_top_level_matcher(&[",", "-true"], &mut config).unwrap_err();
    assert_eq!(
        e.description(),
        "invalid expression; you have used a binary operator ',' with nothing before it."
    );

    let e = build_top_level_matcher(&["-true", "(", ")", ")"], &mut config).unwrap_err();
    assert_eq!(e.description(), "you have too many ')'");

    let e = build_top_level_matcher(&["-true", "("], &mut config).unwrap_err();
    assert_eq!(
        e.description(),
        "invalid expression; I was expecting to find a ')' somewhere but did not see one."
    );
}

#[test]
fn external_predicate_verdict_comes_from_the_entry() {
    // the entry carries which external predicates hold of it; the tree only
    // consults those verdicts
    let mut marked = get_dir_entry_for("test_data/simple", "abbbc");
    marked.mark_satisfied(PredKey::new("-type".to_string(), "f".to_string()));
    let unmarked = get_dir_entry_for("test_data/simple", "abbbc");
    let mut output = Output::new();
    let mut config = Config::new();

    let matcher = build_top_level_matcher(&["-type", "f"], &mut config).unwrap();
    assert!(matcher.matches(&marked, &mut output));
    assert!(!matcher.matches(&unmarked, &mut output));
    assert_eq!(output.as_string(), "test_data/simple/abbbc\n");
}

#[test]
fn pred_key_exposes_flag_and_argument() {
    let key = PredKey::new("-name".to_string(), "a*c".to_string());
    assert_eq!(key.flag().as_str(), "-name");
    assert_eq!(key.arg().as_str(), "a*c");
}

#[test]
fn path_info_exposes_its_path() {
    let abbbc = get_dir_entry_for("test_data/simple", "abbbc");
    assert_eq!(abbbc.path().as_str(), "test_data/simple/abbbc");
}

#[test]
fn statement_list_evaluates_every_statement() {
    // both statements print even though the first already decided nothing:
    // print, then print again, result taken from the last statement only
    let abbbc = get_dir_entry_for("test_data/simple", "abbbc");
    let mut output = Output::new();
    let mut config = Config::new();

    let matcher =
        build_top_level_matcher(&["-print", "-false", ",", "-print", "-true"], &mut config)
            .unwrap();
    assert!(matcher.matches(&abbbc, &mut output));
    assert_eq!(
        output.as_string(),
        "test_data/simple/abbbc\ntest_data/simple/abbbc\n"
    );
}

#[test]
fn empty_parens_match_everything() {
    // a group with nothing in it is an empty conjunction, which is true
    let abbbc = get_dir_entry_for("test_data/simple", "abbbc");
    let mut output = Output::new();
    let mut config = Config::new();

    let matcher = build_top_level_matcher(&["(", ")"], &mut config).unwrap();
    assert!(matcher.matches(&abbbc, &mut output));
    assert_eq!(output.as_string(), "test_data/simple/abbbc\n");
}

#[test]
fn nested_parens_work() {
    let abbbc = get_dir_entry_for("test_data/simple", "abbbc");
    let mut output = Output::new();
    let mut config = Config::new();

    let matcher =
        build_top_level_matcher(&["(", "(", "-true", ")", ")", "-false"], &mut config).unwrap();
    assert!(!matcher.matches(&abbbc, &mut output));
    assert_eq!(output.as_string(), "");
}

#[test]
fn depth_flag_inside_parens_sets_config() {
    let mut config = Config::new();
    build_top_level_matcher(&["(", "-d", "-true", ")"], &mut config).unwrap();
    assert!(config.depth_first);
}
