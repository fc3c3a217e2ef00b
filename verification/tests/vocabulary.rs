use scribe::model::{Rule, Vocabulary};

fn vocab(rules: &[(&str, &str)]) -> Vocabulary {
    Vocabulary::from_rules(rules.iter().map(|(h, w)| Rule::new(h, w)).collect())
}

#[test]
fn rewrites_a_misheard_name() {
    let v = vocab(&[("mina", "Mynah")]);
    assert_eq!(v.apply("I opened mina again"), "I opened Mynah again");
}

#[test]
fn matching_ignores_case_by_default() {
    let v = vocab(&[("kubernetes", "k8s")]);
    assert_eq!(v.apply("Kubernetes and KUBERNETES"), "k8s and k8s");
}

#[test]
fn case_sensitive_rules_leave_other_casings_alone() {
    let v = Vocabulary::from_rules(vec![Rule {
        heard: "IT".into(),
        write: "I.T.".into(),
        match_case: true,
    }]);
    assert_eq!(v.apply("IT says it works"), "I.T. says it works");
}

#[test]
fn longer_rules_win_over_the_prefixes_they_contain() {
    let v = vocab(&[("code", "Code"), ("code review", "CR")]);
    assert_eq!(v.apply("time for code review"), "time for CR");
}

#[test]
fn a_blank_rule_is_ignored_rather_than_looping() {
    let v = vocab(&[("", "x"), ("  ", "y")]);
    assert_eq!(v.apply("untouched"), "untouched");
    assert!(v.is_empty());
}

#[test]
fn replacement_containing_the_needle_does_not_recurse() {
    let v = vocab(&[("cat", "cat dog")]);
    assert_eq!(v.apply("one cat"), "one cat dog");
}

#[test]
fn multibyte_text_survives_a_rule_that_does_not_match_it() {
    let v = vocab(&[("cafe", "café")]);
    assert_eq!(v.apply("a café and a cafe"), "a café and a café");
}

#[test]
fn rules_of_equal_length_apply_in_the_order_given() {
    let v = vocab(&[("ab", "x"), ("bc", "y")]);
    assert_eq!(v.apply("abc"), "xc");
    let w = vocab(&[("bc", "y"), ("ab", "x")]);
    assert_eq!(w.apply("abc"), "ay");
}

#[test]
fn each_rule_sees_the_output_of_the_one_before() {
    let v = vocab(&[("alpha", "beta"), ("beta", "gamma")]);
    assert_eq!(v.apply("alpha"), "gamma");
}

#[test]
fn a_rule_whose_case_changes_byte_length_falls_back_to_exact_matching() {
    // Lowercasing "İ" lengthens it, so case is no longer ignored.
    let v = vocab(&[("cat", "dog")]);
    assert_eq!(v.apply("İ CAT cat"), "İ CAT dog");
}

#[test]
fn rules_can_be_read_and_replaced() {
    let mut v = vocab(&[("a", "b")]);
    assert_eq!(v.rules().len(), 1);
    v.set_rules(vec![Rule::new("x", "y"), Rule::new("z", "w")]);
    assert_eq!(v.rules()[1].heard, "z");
    assert!(!v.is_empty());
    assert!(Rule::new(" q ", "r").is_usable());
    assert!(!Rule::default().is_usable());
}
