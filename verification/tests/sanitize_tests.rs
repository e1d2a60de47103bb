use cover::sanitize::{is_profraw, select_profraw, stale_report_file};

#[test]
fn stale_report_is_the_prior_interchange_file() {
    assert_eq!(stale_report_file(), "output/lcov.info");
}

#[test]
fn profraw_extension_is_recognised() {
    assert!(is_profraw("cargo-test-123-456.profraw"));
    assert!(is_profraw("a.b.profraw"));
    assert!(!is_profraw("foo.txt"));
    assert!(!is_profraw("profraw"));
    assert!(!is_profraw(".profraw"));
    assert!(!is_profraw("a.profraw.bak"));
    assert!(!is_profraw("x.PROFRAW"));
    assert!(!is_profraw(""));
}

#[test]
fn selection_keeps_exactly_the_matching_names() {
    let names = vec![
        "cargo-test-1-2.profraw".to_string(),
        "lcov.info".to_string(),
        "cargo-test-3-4.profraw".to_string(),
        "output".to_string(),
        "notes.profraw.old".to_string(),
    ];
    let picked = select_profraw(&names);
    assert_eq!(
        picked,
        vec![
            "cargo-test-1-2.profraw".to_string(),
            "cargo-test-3-4.profraw".to_string(),
        ]
    );
}

#[test]
fn selection_of_clean_directory_is_empty() {
    let names = vec!["lcov.info".to_string(), "html".to_string()];
    assert_eq!(select_profraw(&names), Vec::<String>::new());
    assert_eq!(select_profraw(&Vec::new()), Vec::<String>::new());
}
