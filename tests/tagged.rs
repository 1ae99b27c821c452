use tagged_filter::pattern::op_match;
use tagged_filter::{
    Event, Filter, GlobPattern, Matcher, Op, Pattern, PatternError, RegexPattern, RuntimeError,
    Tag, TaggedFilterer,
};

fn exact(text: &str) -> Pattern {
    Pattern::Exact(text.to_string())
}

fn filter(on: Matcher, op: Op, pat: Pattern, negate: bool) -> Filter {
    Filter { in_path: None, on, op, pat, negate }
}

fn registry(filters: Vec<Filter>) -> TaggedFilterer {
    TaggedFilterer::new("/project".to_string(), "/project".to_string(), filters)
}

fn source_event(s: &str) -> Event {
    Event { tags: vec![Tag::Source(s.to_string())] }
}

fn strings(items: &[&str]) -> Pattern {
    Pattern::Strings(items.iter().map(|s| s.to_string()).collect())
}

#[test]
fn empty_registry_accepts_any_event() {
    let r = registry(vec![]);
    let events = vec![
        Event { tags: vec![] },
        source_event("filesystem"),
        Event { tags: vec![Tag::Signal("SIGTERM".to_string()), Tag::Path("/a".to_string())] },
        Event { tags: vec![Tag::ProcessCompletion(Some(1)), Tag::Process(7)] },
    ];
    for e in &events {
        assert_eq!(r.check_event(e), Ok(true));
    }
}

#[test]
fn tag_without_filters_is_unconstrained() {
    let r = registry(vec![filter(Matcher::Source, Op::Equal, exact("keyboard"), false)]);
    let e = Event { tags: vec![Tag::Process(42), Tag::FileEventKind("Create(File)".to_string())] };
    assert_eq!(r.check_event(&e), Ok(true));
    let e = Event { tags: vec![Tag::Signal("SIGINT".to_string())] };
    assert_eq!(r.check_event(&e), Ok(true));
}

#[test]
fn equal_and_not_equal_on_exact() {
    let eq = filter(Matcher::Source, Op::Equal, exact("abc"), false);
    let ne = filter(Matcher::Source, Op::NotEqual, exact("abc"), false);
    assert_eq!(eq.matches("abc"), Ok(true));
    assert_eq!(eq.matches("abcd"), Ok(false));
    assert_eq!(eq.matches(""), Ok(false));
    assert_eq!(ne.matches("abc"), Ok(false));
    assert_eq!(ne.matches("ab"), Ok(true));
}

#[test]
fn regex_matches_anywhere_and_not_regex_is_complement() {
    let re = RegexPattern::new("b+c").unwrap();
    assert_eq!(re.as_str(), "b+c");
    let f = filter(Matcher::Source, Op::Regex, Pattern::Regex(re.clone()), false);
    let nf = filter(Matcher::Source, Op::NotRegex, Pattern::Regex(re), false);
    assert_eq!(f.matches("abbbcd"), Ok(true));
    assert_eq!(f.matches("b+c"), Ok(false));
    assert_eq!(nf.matches("abbbcd"), Ok(false));
    assert_eq!(nf.matches("b+c"), Ok(true));
}

#[test]
fn glob_and_not_glob() {
    let g = GlobPattern::new("*.rs").unwrap();
    assert_eq!(g.glob(), "*.rs");
    let f = filter(Matcher::Source, Op::Glob, Pattern::Glob(g.clone()), false);
    let nf = filter(Matcher::Source, Op::NotGlob, Pattern::Glob(g), false);
    assert_eq!(f.matches("main.rs"), Ok(true));
    assert_eq!(f.matches("*.rs"), Ok(true));
    assert_eq!(f.matches("main.py"), Ok(false));
    assert_eq!(nf.matches("main.rs"), Ok(false));
    assert_eq!(nf.matches("main.py"), Ok(true));
}

#[test]
fn invalid_patterns_are_rejected() {
    assert_eq!(RegexPattern::new("(").err(), Some(PatternError::InvalidRegex));
    assert_eq!(GlobPattern::new("[a").err(), Some(PatternError::InvalidGlob));
}

#[test]
fn set_membership_and_exact_shorthand() {
    let set = strings(&["a", "b", "c"]);
    assert!(op_match(Op::InSet, &set, "b"));
    assert!(!op_match(Op::InSet, &set, "d"));
    assert!(!op_match(Op::NotInSet, &set, "b"));
    assert!(op_match(Op::NotInSet, &set, "d"));
    let empty = strings(&[]);
    assert!(!op_match(Op::InSet, &empty, ""));
    assert!(op_match(Op::NotInSet, &empty, ""));
    for subject in ["x", "y", ""] {
        assert_eq!(
            op_match(Op::InSet, &exact("x"), subject),
            op_match(Op::Equal, &exact("x"), subject)
        );
        assert_eq!(
            op_match(Op::NotInSet, &exact("x"), subject),
            op_match(Op::NotEqual, &exact("x"), subject)
        );
    }
}

#[test]
fn pattern_equality_is_on_source_text() {
    let a = Pattern::Regex(RegexPattern::new("^a.*z$").unwrap());
    let b = Pattern::Regex(RegexPattern::new("^a.*z$").unwrap());
    let c = Pattern::Regex(RegexPattern::new("^a.+z$").unwrap());
    assert_eq!(a, b);
    assert_ne!(a, c);
    let g1 = Pattern::Glob(GlobPattern::new("src/**").unwrap());
    let g2 = Pattern::Glob(GlobPattern::new("src/**").unwrap());
    let g3 = Pattern::Glob(GlobPattern::new("src/*").unwrap());
    assert_eq!(g1, g2);
    assert_ne!(g1, g3);
    assert_eq!(strings(&["x", "y"]), strings(&["y", "x", "x"]));
    assert_ne!(strings(&["x", "y"]), strings(&["x"]));
    assert_eq!(exact("q"), exact("q"));
    assert_ne!(exact("q"), strings(&["q"]));
    assert_ne!(a, exact("^a.*z$"));
}

#[test]
fn mismatched_pairs_are_false() {
    let re = Pattern::Regex(RegexPattern::new(".*").unwrap());
    let glob = Pattern::Glob(GlobPattern::new("*").unwrap());
    assert!(!op_match(Op::Auto, &exact("x"), "x"));
    assert!(!op_match(Op::Equal, &re, "x"));
    assert!(!op_match(Op::Regex, &exact("x"), "x"));
    assert!(!op_match(Op::Glob, &re, "x"));
    assert!(!op_match(Op::NotGlob, &exact("x"), "x"));
    assert!(!op_match(Op::InSet, &glob, "x"));
    assert!(!op_match(Op::NotEqual, &strings(&["y"]), "x"));
    let f = filter(Matcher::Source, Op::Regex, exact("x"), false);
    assert_eq!(f.matches("x"), Ok(false));
}

#[test]
fn override_scenario_and_order_sensitivity() {
    let f1 = filter(Matcher::Source, Op::Equal, exact("a"), false);
    let f2 = filter(Matcher::Source, Op::Equal, exact("b"), true);
    let r = registry(vec![f1.clone(), f2.clone()]);
    assert_eq!(r.check_event(&source_event("c")), Ok(false));
    assert_eq!(r.check_event(&source_event("b")), Ok(true));
    assert_eq!(r.check_event(&source_event("a")), Ok(true));
    let swapped = registry(vec![f2, f1]);
    assert_eq!(swapped.check_event(&source_event("b")), Ok(false));
    assert_eq!(swapped.check_event(&source_event("c")), Ok(false));
    assert_eq!(swapped.check_event(&source_event("a")), Ok(true));
}

#[test]
fn one_rejecting_tag_rejects_the_event() {
    let r = registry(vec![
        filter(Matcher::Source, Op::Equal, exact("keyboard"), false),
        filter(Matcher::Process, Op::Equal, exact("1234"), false),
    ]);
    let good = Event { tags: vec![Tag::Source("keyboard".to_string()), Tag::Process(1234)] };
    assert_eq!(r.check_event(&good), Ok(true));
    let bad_second = Event { tags: vec![Tag::Source("keyboard".to_string()), Tag::Process(99)] };
    assert_eq!(r.check_event(&bad_second), Ok(false));
    let bad_first = Event { tags: vec![Tag::Process(99), Tag::Source("keyboard".to_string())] };
    assert_eq!(r.check_event(&bad_first), Ok(false));
}

#[test]
fn rejection_short_circuits_before_unsupported_tag() {
    let r = registry(vec![
        filter(Matcher::Source, Op::Equal, exact("keyboard"), false),
        filter(Matcher::Signal, Op::Equal, exact("SIGINT"), false),
    ]);
    let e = Event { tags: vec![Tag::Source("mouse".to_string()), Tag::Signal("SIGINT".to_string())] };
    assert_eq!(r.check_event(&e), Ok(false));
    let e = Event { tags: vec![Tag::Source("keyboard".to_string()), Tag::Signal("SIGINT".to_string())] };
    assert_eq!(r.check_event(&e), Err(RuntimeError::UnsupportedMatcher(Matcher::Signal)));
}

#[test]
fn unsupported_matchers_are_errors() {
    let r = registry(vec![
        filter(Matcher::Signal, Op::Equal, exact("SIGINT"), false),
        filter(Matcher::Path, Op::Glob, Pattern::Glob(GlobPattern::new("*").unwrap()), false),
        filter(Matcher::ProcessCompletion, Op::Equal, exact("0"), true),
    ]);
    let e = Event { tags: vec![Tag::Signal("SIGINT".to_string())] };
    assert_eq!(r.check_event(&e), Err(RuntimeError::UnsupportedMatcher(Matcher::Signal)));
    let e = Event { tags: vec![Tag::Path("/a/b".to_string())] };
    assert_eq!(r.check_event(&e), Err(RuntimeError::UnsupportedMatcher(Matcher::Path)));
    let e = Event { tags: vec![Tag::ProcessCompletion(None)] };
    assert_eq!(
        r.check_event(&e),
        Err(RuntimeError::UnsupportedMatcher(Matcher::ProcessCompletion))
    );
}

#[test]
fn process_tag_is_compared_by_decimal_id() {
    let r = registry(vec![filter(Matcher::Process, Op::Regex, Pattern::Regex(RegexPattern::new("^40[0-9]$").unwrap()), false)]);
    assert_eq!(r.check_event(&Event { tags: vec![Tag::Process(405)] }), Ok(true));
    assert_eq!(r.check_event(&Event { tags: vec![Tag::Process(4050)] }), Ok(false));
    assert_eq!(r.check_event(&Event { tags: vec![Tag::Process(0)] }), Ok(false));
    let r = registry(vec![filter(Matcher::Process, Op::Equal, exact("4294967295"), false)]);
    assert_eq!(r.check_event(&Event { tags: vec![Tag::Process(u32::MAX)] }), Ok(true));
}

#[test]
fn file_event_kind_and_source_use_their_text() {
    let r = registry(vec![
        filter(Matcher::FileEventKind, Op::InSet, strings(&["Create(File)", "Remove(File)"]), false),
        filter(Matcher::Source, Op::NotEqual, exact("internal"), false),
    ]);
    let e = Event { tags: vec![Tag::FileEventKind("Create(File)".to_string()), Tag::Source("filesystem".to_string())] };
    assert_eq!(r.check_event(&e), Ok(true));
    let e = Event { tags: vec![Tag::FileEventKind("Modify(Data)".to_string())] };
    assert_eq!(r.check_event(&e), Ok(false));
    let e = Event { tags: vec![Tag::Source("internal".to_string())] };
    assert_eq!(r.check_event(&e), Ok(false));
}

#[test]
fn negated_non_match_changes_nothing() {
    let r = registry(vec![
        filter(Matcher::Source, Op::Equal, exact("a"), false),
        filter(Matcher::Source, Op::Equal, exact("z"), true),
    ]);
    assert_eq!(r.check_event(&source_event("a")), Ok(true));
    assert_eq!(r.check_event(&source_event("q")), Ok(false));
}

#[test]
fn tag_filters_are_never_consulted() {
    let r = registry(vec![filter(Matcher::Tag, Op::Equal, exact("Nothing"), false)]);
    assert_eq!(r.check_event(&source_event("x")), Ok(true));
}

#[test]
fn kind_names_and_matchers() {
    let tags = vec![
        (Tag::Path("p".to_string()), "Path", Matcher::Path),
        (Tag::FileEventKind("k".to_string()), "FileEventKind", Matcher::FileEventKind),
        (Tag::Source("s".to_string()), "Source", Matcher::Source),
        (Tag::Process(1), "Process", Matcher::Process),
        (Tag::Signal("SIGHUP".to_string()), "Signal", Matcher::Signal),
        (Tag::ProcessCompletion(Some(0)), "ProcessCompletion", Matcher::ProcessCompletion),
    ];
    for (tag, name, matcher) in &tags {
        assert_eq!(tag.discriminant_name(), *name);
        assert_eq!(Matcher::from(tag), *matcher);
    }
}

#[test]
fn deeply_nested_glob_is_an_error_not_a_panic() {
    let deep = format!("{}a{}", "{".repeat(300), "}".repeat(300));
    assert_eq!(GlobPattern::new(&deep).err(), Some(PatternError::InvalidGlob));
    let very_deep = format!("{}a{}", "{".repeat(100_000), "}".repeat(100_000));
    assert_eq!(GlobPattern::new(&very_deep).err(), Some(PatternError::InvalidGlob));
    let flat = "{a,b}".repeat(251);
    assert_eq!(GlobPattern::new(&flat).err(), Some(PatternError::InvalidGlob));
    let flat_ok = "{a,b}".repeat(250);
    let g = GlobPattern::new(&flat_ok).unwrap();
    assert!(g.is_match(&"ab".repeat(125)));
    assert!(!g.is_match(&"c".repeat(250)));
    let at_bound = format!("{}a{}", "{".repeat(250), "}".repeat(250));
    assert_eq!(GlobPattern::new(&at_bound).err(), Some(PatternError::InvalidGlob));
    let shallow = format!("{}a{}", "{".repeat(3), "}".repeat(3));
    let g = GlobPattern::new(&shallow).unwrap();
    assert!(g.is_match("a"));
    assert!(!g.is_match("b"));
}

#[test]
fn buckets_keep_supplied_order_across_interleaving() {
    let r = registry(vec![
        filter(Matcher::Source, Op::Equal, exact("a"), false),
        filter(Matcher::Process, Op::Equal, exact("1"), false),
        filter(Matcher::Source, Op::Equal, exact("b"), true),
        filter(Matcher::Process, Op::Equal, exact("2"), true),
    ]);
    assert_eq!(r.check_event(&source_event("b")), Ok(true));
    assert_eq!(r.check_event(&source_event("c")), Ok(false));
    assert_eq!(r.check_event(&Event { tags: vec![Tag::Process(2)] }), Ok(true));
    assert_eq!(r.check_event(&Event { tags: vec![Tag::Process(3)] }), Ok(false));
}
