use findutils::entry::{Output, PathInfo};
use findutils::matchers::{
    AndMatcher, FalseMatcher, ListMatcher, Matcher, NotMatcher, OrMatcher, TrueMatcher,
};
use findutils::printer::Printer;

/// Helper to build the entry value for a directory entry with the given
/// directory and file name.
fn get_dir_entry_for(directory: &str, filename: &str) -> PathInfo {
    PathInfo::new(format!("{}/{}", directory, filename))
}

/// A matcher that reports side effects: the print action does.
fn side_effect_matcher() -> Box<Matcher> {
    Box::new(Matcher::Print(Printer::new()))
}

#[test]
fn and_matches_works() {
    let abbbc = get_dir_entry_for("test_data/simple", "abbbc");
    let mut matcher = AndMatcher::new();
    let everything = Box::new(Matcher::True(TrueMatcher {}));
    let nothing = Box::new(Matcher::False(FalseMatcher {}));
    let mut out = Output::new();

    // start with one matcher returning true
    matcher.new_and_condition(everything);
    assert!(matcher.matches(&abbbc, &mut out));
    matcher.new_and_condition(nothing);
    assert!(!matcher.matches(&abbbc, &mut out));
}

#[test]
fn or_matches_works() {
    let abbbc = get_dir_entry_for("test_data/simple", "abbbc");
    let mut matcher = OrMatcher::new();
    let matches_everything = Box::new(Matcher::True(TrueMatcher {}));
    let matches_nothing = Box::new(Matcher::False(FalseMatcher {}));
    let mut out = Output::new();

    // start with one matcher returning false
    matcher.new_and_condition(matches_nothing);
    assert!(!matcher.matches(&abbbc, &mut out));
    matcher.new_or_condition("-o").unwrap();
    matcher.new_and_condition(matches_everything);
    assert!(matcher.matches(&abbbc, &mut out));
}

#[test]
fn list_matches_works() {
    let abbbc = get_dir_entry_for("test_data/simple", "abbbc");
    let mut matcher = ListMatcher::new();
    let matches_everything = Box::new(Matcher::True(TrueMatcher {}));
    let matches_nothing = Box::new(Matcher::False(FalseMatcher {}));
    let matches_nothing2 = Box::new(Matcher::False(FalseMatcher {}));
    let mut out = Output::new();

    // result should always match that of the last pushed submatcher
    matcher.new_and_condition(matches_nothing);
    assert!(!matcher.matches(&abbbc, &mut out));
    matcher.new_list_condition().unwrap();
    matcher.new_and_condition(matches_everything);
    assert!(matcher.matches(&abbbc, &mut out));
    matcher.new_list_condition().unwrap();
    matcher.new_and_condition(matches_nothing2);
    assert!(!matcher.matches(&abbbc, &mut out));
}

#[test]
fn true_matches_works() {
    let abbbc = get_dir_entry_for("test_data/simple", "abbbc");
    let matcher = TrueMatcher {};
    let mut out = Output::new();

    assert!(matcher.matches(&abbbc, &mut out));
}

#[test]
fn false_matches_works() {
    let abbbc = get_dir_entry_for("test_data/simple", "abbbc");
    let matcher = FalseMatcher {};
    let mut out = Output::new();

    assert!(!matcher.matches(&abbbc, &mut out));
}

#[test]
fn and_has_side_effects_works() {
    let mut matcher = AndMatcher::new();
    let no_side_effects = Box::new(Matcher::True(TrueMatcher {}));
    let side_effects = side_effect_matcher();

    // start with one matcher without side effects
    matcher.new_and_condition(no_side_effects);
    assert!(!matcher.has_side_effects());
    matcher.new_and_condition(side_effects);
    assert!(matcher.has_side_effects());
}

#[test]
fn or_has_side_effects_works() {
    let mut matcher = OrMatcher::new();
    let no_side_effects = Box::new(Matcher::True(TrueMatcher {}));
    let side_effects = side_effect_matcher();

    // start with one matcher without side effects
    matcher.new_and_condition(no_side_effects);
    assert!(!matcher.has_side_effects());
    matcher.new_or_condition("-o").unwrap();
    matcher.new_and_condition(side_effects);
    assert!(matcher.has_side_effects());
}

#[test]
fn list_has_side_effects_works() {
    let mut matcher = ListMatcher::new();
    let no_side_effects = Box::new(Matcher::True(TrueMatcher {}));
    let side_effects = side_effect_matcher();

    // start with one matcher without side effects
    matcher.new_and_condition(no_side_effects);
    assert!(!matcher.has_side_effects());
    matcher.new_list_condition().unwrap();
    matcher.new_and_condition(side_effects);
    assert!(matcher.has_side_effects());
}

#[test]
fn true_has_side_effects_works() {
    let matcher = TrueMatcher {};
    assert!(!matcher.has_side_effects());
}

#[test]
fn false_has_side_effects_works() {
    let matcher = FalseMatcher {};
    assert!(!matcher.has_side_effects());
}

#[test]
fn not_matches_works() {
    let abbbc = get_dir_entry_for("test_data/simple", "abbbc");
    let not_true = NotMatcher::new(Box::new(Matcher::True(TrueMatcher {})));
    let not_false = NotMatcher::new(Box::new(Matcher::False(FalseMatcher {})));
    let mut out = Output::new();
    assert!(!not_true.matches(&abbbc, &mut out));
    assert!(not_false.matches(&abbbc, &mut out));
}

#[test]
fn not_has_side_effects_works() {
    let has_fx = NotMatcher::new(side_effect_matcher());
    let hasnt_fx = NotMatcher::new(Box::new(Matcher::False(FalseMatcher {})));
    assert!(has_fx.has_side_effects());
    assert!(!hasnt_fx.has_side_effects());
}
