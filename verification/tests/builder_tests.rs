use findutils::builder::{build_top_level_matcher, Config};
use findutils::entry::{Output, PathInfo, PredKey};

/// Helper to build the entry value for a directory entry with the given
/// directory and file name.
fn get_dir_entry_for(directory: &str, filename: &str) -> PathInfo {
    PathInfo::new(format!("{}/{}", directory, filename))
}

#[test]
fn build_top_level_matcher_name() {
    let mut abbbc_lower = get_dir_entry_for("./test_data/simple", "abbbc");
    // the name predicate is external: its verdicts arrive with the entry
    abbbc_lower.mark_satisfied(PredKey::new("-name".to_string(), "a*c".to_string()));
    let abbbc_upper = get_dir_entry_for("./test_data/simple/subdir", "ABBBC");
    let mut output = Output::new();
    let mut config = Config::new();

    let matcher = build_top_level_matcher(&["-name", "a*c"], &mut config).unwrap();

    assert!(matcher.matches(&abbbc_lower, &mut output));
    assert!(!matcher.matches(&abbbc_upper, &mut output));
    assert_eq!(output.as_string(), "./test_data/simple/abbbc\n");
}

#[test]
fn build_top_level_matcher_iname() {
    let mut abbbc_lower = get_dir_entry_for("./test_data/simple", "abbbc");
    let mut abbbc_upper = get_dir_entry_for("./test_data/simple/subdir", "ABBBC");
    // the caseless name predicate holds of both entries
    abbbc_lower.mark_satisfied(PredKey::new("-iname".to_string(), "a*c".to_string()));
    abbbc_upper.mark_satisfied(PredKey::new("-iname".to_string(), "a*c".to_string()));
    let mut output = Output::new();
    let mut config = Config::new();

    let matcher = build_top_level_matcher(&["-iname", "a*c"], &mut config).unwrap();

    assert!(matcher.matches(&abbbc_lower, &mut output));
    assert!(matcher.matches(&abbbc_upper, &mut output));
    assert_eq!(
        output.as_string(),
        "./test_data/simple/abbbc\n./test_data/simple/subdir/ABBBC\n"
    );
}

#[test]
fn build_top_level_matcher_not() {
    for arg in &["-not", "!"] {
        let abbbc_lower = get_dir_entry_for("./test_data/simple", "abbbc");
        let mut output = Output::new();
        let mut config = Config::new();

        let matcher =
            build_top_level_matcher(&[arg, "-name", "doesntexist"], &mut config).unwrap();

        assert!(matcher.matches(&abbbc_lower, &mut output));
        assert_eq!(output.as_string(), "./test_data/simple/abbbc\n");
    }
}

#[test]
fn build_top_level_matcher_not_needs_expression() {
    for arg in &["-not", "!"] {
        let mut config = Config::new();

        if let Err(e) = build_top_level_matcher(&[arg], &mut config) {
            assert!(e.description().contains("expected an expression"));
        } else {
            panic!("parsing arugment lists that end in -not should fail");
        }
    }
}

#[test]
fn build_top_level_matcher_missing_args() {
    for arg in &["-iname", "-name", "-type"] {
        let mut config = Config::new();

        if let Err(e) = build_top_level_matcher(&[arg], &mut config) {
            assert!(e.description().contains("missing argument to"));
            assert!(e.description().contains(arg));
        } else {
            panic!("parsing arugment lists that end in -not should fail");
        }
    }
}

#[test]
fn build_top_level_matcher_or_without_expr1() {
    for arg in &["-or", "-o"] {
        let mut config = Config::new();

        if let Err(e) = build_top_level_matcher(&[arg, "-true"], &mut config) {
            assert!(e.description().contains("you have used a binary operator"));
        } else {
            panic!("parsing arugment list that begins with -or should fail");
        }
    }
}

#[test]
fn build_top_level_matcher_or_without_expr2() {
    for arg in &["-or", "-o"] {
        let mut config = Config::new();

        if let Err(e) = build_top_level_matcher(&["-true", arg], &mut config) {
            assert!(e.description().contains("expected an expression"));
        } else {
            panic!("parsing arugment list that ends with -or should fail");
        }
    }
}

#[test]
fn build_top_level_matcher_or_works() {
    let abbbc = get_dir_entry_for("./test_data/simple", "abbbc");
    for args in &[
        ["-true", "-o", "-false"],
        ["-false", "-o", "-true"],
        ["-true", "-o", "-true"],
    ] {
        let mut output = Output::new();
        let mut config = Config::new();

        let matcher = build_top_level_matcher(args, &mut config).unwrap();

        assert!(matcher.matches(&abbbc, &mut output));
        assert_eq!(output.as_string(), "./test_data/simple/abbbc\n");
    }

    let mut output = Output::new();
    let mut config = Config::new();

    let matcher = build_top_level_matcher(&["-false", "-o", "-false"], &mut config).unwrap();

    assert!(!matcher.matches(&abbbc, &mut output));
    assert_eq!(output.as_string(), "");
}

#[test]
fn build_top_level_matcher_and_works() {
    let abbbc = get_dir_entry_for("./test_data/simple", "abbbc");
    for args in &[["-true", "-false"], ["-false", "-true"], ["-false", "-false"]] {
        let mut output = Output::new();
        let mut config = Config::new();

        let matcher = build_top_level_matcher(args, &mut config).unwrap();

        assert!(!matcher.matches(&abbbc, &mut output));
        assert_eq!(output.as_string(), "");
    }

    let mut output = Output::new();
    let mut config = Config::new();

    let matcher = build_top_level_matcher(&["-true", "-true"], &mut config).unwrap();

    assert!(matcher.matches(&abbbc, &mut output));
    assert_eq!(output.as_string(), "./test_data/simple/abbbc\n");
}

#[test]
fn build_top_level_matcher_list_works() {
    let abbbc = get_dir_entry_for("./test_data/simple", "abbbc");
    let args = ["-true", "-print", "-false", ",", "-print", "-false"];
    let mut output = Output::new();
    let mut config = Config::new();

    let matcher = build_top_level_matcher(&args, &mut config).unwrap();

    // final matcher returns false, so list matcher should too
    assert!(!matcher.matches(&abbbc, &mut output));
    // two print matchers means doubled output
    assert_eq!(
        output.as_string(),
        "./test_data/simple/abbbc\n./test_data/simple/abbbc\n"
    );
}

#[test]
fn build_top_level_matcher_list_without_expr1() {
    let mut config = Config::new();

    if let Err(e) = build_top_level_matcher(&[",", "-true"], &mut config) {
        assert!(e.description().contains("you have used a binary operator"));
    } else {
        panic!("parsing arugment list that begins with , should fail");
    }

    if let Err(e) = build_top_level_matcher(&["-true", "-o", ",", "-true"], &mut config) {
        assert!(e.description().contains("you have used a binary operator"));
    } else {
        panic!("parsing arugment list that contains '-o  ,' should fail");
    }
}

#[test]
fn build_top_level_matcher_list_without_expr2() {
    let mut config = Config::new();

    if let Err(e) = build_top_level_matcher(&["-true", ","], &mut config) {
        assert!(e.description().contains("expected an expression"));
    } else {
        panic!("parsing arugment list that ends with , should fail");
    }
}

#[test]
fn build_top_level_matcher_not_enough_brackets() {
    let mut config = Config::new();

    if let Err(e) = build_top_level_matcher(&["-true", "("], &mut config) {
        assert!(e.description().contains("I was expecting to find a ')'"));
    } else {
        panic!("parsing arugment list with not enough closing brackets should fail");
    }
}

#[test]
fn build_top_level_matcher_too_many_brackets() {
    let mut config = Config::new();

    if let Err(e) = build_top_level_matcher(&["-true", "(", ")", ")"], &mut config) {
        assert!(e.description().contains("too many ')'"));
    } else {
        panic!("parsing arugment list with too many closing brackets should fail");
    }
}

#[test]
fn build_top_level_matcher_can_use_bracket_as_arg() {
    let mut config = Config::new();
    // make sure that if we use a bracket as an argument (e.g. to -name)
    // then it isn't viewed as a bracket
    build_top_level_matcher(&["-name", "("], &mut config).unwrap();
    build_top_level_matcher(&["-name", ")"], &mut config).unwrap();
}

#[test]
fn build_top_level_matcher_brackets_work() {
    let abbbc = get_dir_entry_for("./test_data/simple", "abbbc");
    // same as true | ( false & false) = true
    let args_without = ["-true", "-o", "-false", "-false"];
    // same as (true | false) & false = false
    let args_with = ["(", "-true", "-o", "-false", ")", "-false"];
    let mut output = Output::new();
    let mut config = Config::new();

    {
        let matcher = build_top_level_matcher(&args_without, &mut config).unwrap();
        assert!(matcher.matches(&abbbc, &mut output));
    }
    {
        let matcher = build_top_level_matcher(&args_with, &mut config).unwrap();
        assert!(!matcher.matches(&abbbc, &mut output));
    }
}

#[test]
fn build_top_level_matcher_not_and_brackets_work() {
    let abbbc = get_dir_entry_for("./test_data/simple", "abbbc");
    // same as (true & !(false)) | true = true
    let args_without = ["-true", "-not", "-false", "-o", "-true"];
    // same as true & !(false | true) = false
    let args_with = ["-true", "-not", "(", "-false", "-o", "-true", ")"];
    let mut output = Output::new();
    let mut config = Config::new();

    {
        let matcher = build_top_level_matcher(&args_without, &mut config).unwrap();
        assert!(matcher.matches(&abbbc, &mut output));
    }
    {
        let matcher = build_top_level_matcher(&args_with, &mut config).unwrap();
        assert!(!matcher.matches(&abbbc, &mut output));
    }
}
