use problems_filter::filter::CliProblemApp;
use problems_filter::problem::Problem;

fn app(required: Vec<&str>, excluded: Vec<&str>, ignore_case: bool) -> CliProblemApp {
    CliProblemApp {
        input: String::new(),
        required_terms: required.into_iter().map(|t| t.to_string()).collect(),
        excluded_terms: excluded.into_iter().map(|t| t.to_string()).collect(),
        ignore_case,
        count_only: false,
        json: false,
    }
}

fn problem(message: &str) -> Problem {
    Problem {
        resource: "test.java".to_string(),
        start_line_number: 10,
        message: message.to_string(),
    }
}

#[test]
fn test_filter_problem_include() {
    let cli = app(vec!["deprecated"], vec![], false);
    let problem = problem("The type ActionError is deprecated");
    assert!(cli.filter_problem(&problem));
}

#[test]
fn test_filter_problem_exclude() {
    let cli = app(vec![], vec!["warning"], false);
    let problem = problem("This is a warning message");
    assert!(!cli.filter_problem(&problem));
}

#[test]
fn test_filter_problem_case_insensitive() {
    let cli = app(vec!["DEPRECATED"], vec![], true);
    let problem = problem("The type ActionError is deprecated");
    assert!(cli.filter_problem(&problem));
}

#[test]
fn test_filter_problem_case_sensitive() {
    let cli = app(vec!["DEPRECATED"], vec![], false);
    let problem = problem("The type ActionError is deprecated");
    assert!(!cli.filter_problem(&problem));
}

#[test]
fn test_filter_problem_exclude_case_insensitive() {
    let cli = app(vec![], vec!["WARNING"], true);
    let problem = problem("This is a warning message");
    assert!(!cli.filter_problem(&problem));
}

#[test]
fn test_filter_problem_exclude_case_sensitive() {
    let cli = app(vec![], vec!["WARNING"], false);
    let problem = problem("This is a warning message");
    assert!(cli.filter_problem(&problem));
}

#[test]
fn test_filter_problem_empty_required_side_is_exclusion_only() {
    // With no required terms the predicate reduces to the exclusion
    // check, and with no excluded terms to the required check.
    let p = problem("alpha beta");
    assert!(app(vec![], vec![], false).filter_problem(&p));
    assert!(app(vec![], vec!["gamma"], false).filter_problem(&p));
    assert!(!app(vec![], vec!["beta"], false).filter_problem(&p));
    assert!(app(vec!["alpha"], vec![], false).filter_problem(&p));
    assert!(!app(vec!["gamma"], vec![], false).filter_problem(&p));
}

#[test]
fn test_filter_problem_excluded_term_overrides() {
    // Every required term present, but one excluded term as well: rejected.
    let p = problem("deprecated warning here");
    let cli = app(vec!["deprecated", "here"], vec!["warning"], false);
    assert!(!cli.filter_problem(&p));
}

#[test]
fn test_filter_problem_all_required_terms_needed() {
    let p = problem("only alpha is here");
    assert!(!app(vec!["alpha", "beta"], vec![], false).filter_problem(&p));
    assert!(app(vec!["alpha", "here"], vec![], false).filter_problem(&p));
}

#[test]
fn test_filter_problem_ignore_case_mixed_needle() {
    // Case folding applies to the needle and the haystack alike.
    let p = problem("is DePrEcAtEd");
    assert!(app(vec!["dEpReCaTeD"], vec![], true).filter_problem(&p));
    assert!(!app(vec!["dEpReCaTeD"], vec![], false).filter_problem(&p));
}
