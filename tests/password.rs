use smarttype::password::{assess, exit_code, Strength};

#[test]
fn strong_password_scores_high() {
    let assessment = assess("Tru5tworthy!!");
    assert_eq!(assessment.strength, Strength::Strong);
    assert_eq!(assessment.score, assessment.max_score);
    assert!(assessment.results.iter().all(|r| r.passed));
}

#[test]
fn medium_password_scores_medium() {
    let assessment = assess("Abcdef123");
    assert_eq!(assessment.strength, Strength::Medium);
    assert_eq!(assessment.score, 3);
}

#[test]
fn weak_password_scores_low() {
    let assessment = assess("password");
    assert_eq!(assessment.strength, Strength::Weak);
    assert!(assessment.score < assessment.max_score);
}

#[test]
fn exit_codes_match_spec() {
    assert_eq!(exit_code(Strength::Strong), 0);
    assert_eq!(exit_code(Strength::Medium), 1);
    assert_eq!(exit_code(Strength::Weak), 2);
}

#[test]
fn rules_are_reported_in_order() {
    let assessment = assess("a b");
    let names: Vec<&str> = assessment.results.iter().map(|r| r.description).collect();
    assert_eq!(names, vec!["has lowercase letter", "has uppercase letter", "has digit", "has symbol", "length >= 12"]);
    let passed: Vec<bool> = assessment.results.iter().map(|r| r.passed).collect();
    assert_eq!(passed, vec![true, false, false, false, false]);
    assert_eq!(assessment.password, "a b");
    assert_eq!(assess("").score, 0);
}
