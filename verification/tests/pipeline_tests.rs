use problems_filter::filter::CliProblemApp;
use problems_filter::pipeline::run_app;
use problems_filter::pipeline::AppError;

fn app(
    required: Vec<&str>,
    excluded: Vec<&str>,
    ignore_case: bool,
    count_only: bool,
    json: bool,
) -> CliProblemApp {
    CliProblemApp {
        input: "x.json".to_string(),
        required_terms: required.into_iter().map(|t| t.to_string()).collect(),
        excluded_terms: excluded.into_iter().map(|t| t.to_string()).collect(),
        ignore_case,
        count_only,
        json,
    }
}

#[test]
fn test_run_app_json_output() {
    let cli = CliProblemApp {
        input: "does_not_matter.json".to_string(),
        required_terms: vec!["deprecated".to_string()],
        excluded_terms: vec![],
        ignore_case: false,
        count_only: false,
        json: true,
    };

    let json = r#"[
            { "resource": "a/test.java", "startLineNumber": 1, "message": "This is deprecated" }
        ]"#;

    let s = run_app(&cli, json).expect("run_app failed");
    assert!(s.contains("This is deprecated"));
    assert!(s.trim_start().starts_with('['));
}

#[test]
fn test_run_app_count_only() {
    let cli = app(vec!["foo"], vec![], false, true, false);

    let json = r#"[
            { "resource": "a/test.java", "startLineNumber": 1, "message": "foo bar" },
            { "resource": "b/test.java", "startLineNumber": 2, "message": "no match" }
        ]"#;

    let s = run_app(&cli, json).expect("run_app failed");
    assert!(s.contains("Nombre total de problèmes: 2"));
    assert!(s.contains("Nombre de problèmes filtrés: 1"));
}

#[test]
fn test_run_app_validation_error() {
    let cli = app(vec![], vec![], false, false, false);

    let res = run_app(&cli, "[]");
    assert!(res.is_err());
    if let Err(e) = res {
        let msg = e.message();
        assert!(
            msg.contains("Au moins un terme d'inclusion ou d'exclusion doit être spécifié"),
            "unexpected error message: {msg}"
        );
    }
}

#[test]
fn test_run_app_table_output() {
    let cli = app(vec!["matchme"], vec![], false, false, false);

    let json = r#"[
            { "resource": "a/test.java", "startLineNumber": 3, "message": "matchme here" }
        ]"#;

    let s = run_app(&cli, json).expect("run_app failed");
    assert!(s.contains("Resource"));
    assert!(s.contains("Message"));
    assert!(s.contains("matchme here"));
}

#[test]
fn test_run_app_ignore_case_include() {
    let cli = app(vec!["DEPRECATED"], vec![], true, false, false);

    let json = r#"[
            { "resource": "a/test.java", "startLineNumber": 4, "message": "this is deprecated" }
        ]"#;

    let s = run_app(&cli, json).expect("run_app failed");
    assert!(s.contains("Nombre de problèmes filtrés: 1"));
}

#[test]
fn test_run_app_ignore_case_exclude() {
    let cli = app(vec![], vec!["WARNING"], true, false, false);

    let json = r#"[
            { "resource": "a/test.java", "startLineNumber": 4, "message": "this is a warning" }
        ]"#;

    let s = run_app(&cli, json).expect("run_app failed");
    assert!(s.contains("Nombre de problèmes filtrés: 0"));
}

#[test]
fn test_run_app_count_only_exact_output() {
    let cli = app(vec!["foo"], vec![], false, true, false);

    let json = r#"[
            { "resource": "a/test.java", "startLineNumber": 1, "message": "foo bar" },
            { "resource": "b/test.java", "startLineNumber": 2, "message": "no match" }
        ]"#;

    let s = run_app(&cli, json).expect("run_app failed");
    assert_eq!(
        s,
        "Nombre total de problèmes: 2\nTermes à inclure: foo\n\nNombre de problèmes filtrés: 1\n"
    );
}

#[test]
fn test_run_app_json_exact_output() {
    let cli = app(vec!["deprecated"], vec![], false, false, true);

    let json =
        r#"[{"resource":"a/test.java","startLineNumber":1,"message":"This is deprecated"}]"#;

    let s = run_app(&cli, json).expect("run_app failed");
    assert_eq!(
        s,
        "[\n  {\n    \"resource\": \"a/test.java\",\n    \"message\": \"This is deprecated\",\n    \"line\": 1\n  }\n]\n"
    );
}

#[test]
fn test_run_app_json_escapes_message() {
    let cli = app(vec!["b"], vec![], false, false, true);

    let json = "[{\"resource\":\"r\",\"startLineNumber\":1,\"message\":\"a\\\"b\\\\c\\nd\\u0001e\"}]";

    let s = run_app(&cli, json).expect("run_app failed");
    assert!(s.contains("a\\\"b\\\\c\\nd\\u0001e"));
}

#[test]
fn test_run_app_json_ignores_count_only() {
    // JSON mode returns before the count-only check: the body is printed.
    let cli = app(vec!["foo"], vec![], false, true, true);

    let json = r#"[ { "resource": "a/x.txt", "startLineNumber": 5, "message": "foo" } ]"#;

    let s = run_app(&cli, json).expect("run_app failed");
    assert!(s.trim_start().starts_with('['));
    assert!(s.contains("\"line\": 5"));
}

#[test]
fn test_run_app_json_empty_array_output() {
    let cli = app(vec!["nothing-matches-this"], vec![], false, false, true);

    let json = r#"[ { "resource": "a/x.txt", "startLineNumber": 5, "message": "foo" } ]"#;

    let s = run_app(&cli, json).expect("run_app failed");
    assert_eq!(s, "[]\n");
}

#[test]
fn test_run_app_no_match_notice() {
    let cli = app(vec!["absent"], vec![], false, false, false);

    let json = r#"[ { "resource": "a/x.txt", "startLineNumber": 5, "message": "foo" } ]"#;

    let s = run_app(&cli, json).expect("run_app failed");
    assert!(s.contains("Nombre de problèmes filtrés: 0"));
    assert!(s.contains("Aucun problème ne correspond aux critères de filtrage."));
}

#[test]
fn test_run_app_validation_before_decode() {
    // No terms at all: the validation error comes whatever the content.
    let cli = app(vec![], vec![], false, false, false);

    let res = run_app(&cli, "this is not json at all");
    assert!(matches!(res, Err(AppError::Validation)));
}

#[test]
fn test_run_app_malformed_json() {
    let cli = app(vec!["x"], vec![], false, false, false);

    let res = run_app(&cli, "this is not json at all");
    match res {
        Err(AppError::Decode { detail }) => {
            assert!(!detail.is_empty());
        },
        _ => panic!("expected a decode error"),
    }
    let msg = run_app(&cli, "this is not json at all").unwrap_err().message();
    assert!(msg.starts_with("Erreur lors du parsing du JSON: "));
}

#[test]
fn test_run_app_top_level_not_array() {
    let cli = app(vec!["x"], vec![], false, false, false);

    let res = run_app(&cli, r#"{ "resource": "a", "startLineNumber": 1, "message": "m" }"#);
    match res {
        Err(AppError::Decode { detail }) => {
            assert_eq!(detail, "le document n'est pas un tableau JSON");
        },
        _ => panic!("expected a decode error"),
    }
}

#[test]
fn test_run_app_missing_field() {
    let cli = app(vec!["x"], vec![], false, false, false);

    let res = run_app(&cli, r#"[ { "resource": "a", "message": "m" } ]"#);
    assert!(matches!(res, Err(AppError::Decode { .. })));
}

#[test]
fn test_run_app_wrong_field_type() {
    let cli = app(vec!["x"], vec![], false, false, false);

    let res = run_app(&cli, r#"[ { "resource": "a", "startLineNumber": "1", "message": "m" } ]"#);
    assert!(matches!(res, Err(AppError::Decode { .. })));
}

#[test]
fn test_run_app_line_number_too_large() {
    let cli = app(vec!["x"], vec![], false, false, false);

    let res =
        run_app(&cli, r#"[ { "resource": "a", "startLineNumber": 4294967296, "message": "m" } ]"#);
    assert!(matches!(res, Err(AppError::Decode { .. })));

    let ok = run_app(
        &cli,
        r#"[ { "resource": "a", "startLineNumber": 4294967295, "message": "x" } ]"#,
    );
    assert!(ok.is_ok());
}

#[test]
fn test_run_app_extra_fields_tolerated() {
    let cli = app(vec!["foo"], vec![], false, true, false);

    let json = r#"[ { "resource": "a/x.txt", "startLineNumber": 5, "message": "foo",
                     "severity": 2, "owner": { "nested": [1, 2] } } ]"#;

    let s = run_app(&cli, json).expect("run_app failed");
    assert!(s.contains("Nombre de problèmes filtrés: 1"));
}

#[test]
fn test_run_app_order_preserved() {
    let cli = app(vec!["keep"], vec![], false, false, true);

    let json = r#"[
            { "resource": "one", "startLineNumber": 1, "message": "keep first" },
            { "resource": "two", "startLineNumber": 2, "message": "drop me" },
            { "resource": "three", "startLineNumber": 3, "message": "keep last" }
        ]"#;

    let s = run_app(&cli, json).expect("run_app failed");
    let first = s.find("keep first").expect("first survivor missing");
    let last = s.find("keep last").expect("last survivor missing");
    assert!(first < last);
    assert!(!s.contains("drop me"));
}

#[test]
fn test_run_app_excluded_terms_line() {
    let cli = app(vec![], vec!["alpha", "beta"], false, true, false);

    let json = r#"[ { "resource": "r", "startLineNumber": 1, "message": "gamma" } ]"#;

    let s = run_app(&cli, json).expect("run_app failed");
    assert!(s.contains("Termes à exclure: alpha, beta"));
    assert!(s.contains("Nombre de problèmes filtrés: 1"));
}

#[test]
fn test_run_app_ignore_case_notice() {
    let cli = app(vec!["x"], vec![], true, true, false);

    let json = r#"[ { "resource": "r", "startLineNumber": 1, "message": "x" } ]"#;

    let s = run_app(&cli, json).expect("run_app failed");
    assert!(s.contains("Mode insensible à la casse activé"));
}
