use cover::args::{
    forwarded_args, grcov_args, instrumentation_env, profile_file_template, ReportFormat,
};

#[test]
fn instrumentation_environment_is_complete() {
    let env = instrumentation_env();
    assert_eq!(
        env,
        vec![
            ("CARGO_INCREMENTAL".to_string(), "0".to_string()),
            ("RUSTFLAGS".to_string(), "-Cinstrument-coverage".to_string()),
            (
                "RUSTDOCFLAGS".to_string(),
                "-Cinstrument-coverage".to_string()
            ),
            (
                "LLVM_PROFILE_FILE".to_string(),
                "target/coverage/cargo-test-%p-%m.profraw".to_string()
            ),
        ]
    );
}

#[test]
fn leading_cover_token_is_stripped() {
    let args = vec!["cover".to_string(), "--".to_string(), "my_test".to_string()];
    assert_eq!(
        forwarded_args(args),
        vec!["--".to_string(), "my_test".to_string()]
    );
}

#[test]
fn plain_arguments_pass_through() {
    let args = vec!["my_test".to_string()];
    assert_eq!(forwarded_args(args), vec!["my_test".to_string()]);
    assert_eq!(forwarded_args(Vec::new()), Vec::<String>::new());
    let inner = vec!["x".to_string(), "cover".to_string()];
    assert_eq!(forwarded_args(inner.clone()), inner);
}

#[test]
fn lone_cover_token_leaves_nothing() {
    assert_eq!(forwarded_args(vec!["cover".to_string()]), Vec::<String>::new());
}

#[test]
fn template_names_process_and_module() {
    let t = profile_file_template();
    assert_eq!(t, "cargo-test-%p-%m.profraw");
    assert!(t.contains("%p"));
    assert!(t.contains("%m"));
}

#[test]
fn markdown_invocation_arguments() {
    let args = grcov_args("target/debug/deps", ReportFormat::Markdown, None);
    assert_eq!(
        args,
        vec![
            ".",
            "--binary-path",
            "target/debug/deps",
            "-s",
            ".",
            "--branch",
            "--ignore-not-existing",
            "--ignore",
            "../*",
            "--ignore",
            "/*",
            "--excl-start",
            "^mod test",
            "--excl-stop",
            "^}",
            "-t",
            "markdown",
        ]
        .into_iter()
        .map(String::from)
        .collect::<Vec<String>>()
    );
}

#[test]
fn lcov_invocation_names_its_output_file() {
    let args = grcov_args(
        "target/debug/deps",
        ReportFormat::Lcov,
        Some("target/coverage/output/lcov.info"),
    );
    assert_eq!(args.len(), 19);
    assert_eq!(args[15], "-t");
    assert_eq!(args[16], "lcov");
    assert_eq!(args[17], "-o");
    assert_eq!(args[18], "target/coverage/output/lcov.info");
}

#[test]
fn html_invocation_names_its_output_directory() {
    let args = grcov_args("d", ReportFormat::Html, Some("target/coverage/output"));
    assert_eq!(args[16], "html");
    assert_eq!(args[18], "target/coverage/output");
}
