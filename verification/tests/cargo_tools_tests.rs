use rustools_mcp::cargo_tools::{
    cargo_command_args, combine_cargo_output, convert_file_to_module, expand_args, expand_outcome, missing_tool_message,
};

#[test]
fn test_convert_paths() {
    assert_eq!(convert_file_to_module("src/lib.rs").unwrap(), "");
    assert_eq!(convert_file_to_module("src/main.rs").unwrap(), "");
    assert_eq!(convert_file_to_module("src/foo.rs").unwrap(), "foo");
    assert_eq!(convert_file_to_module("src/bar/mod.rs").unwrap(), "bar");
    assert_eq!(convert_file_to_module("src/bar/baz.rs").unwrap(), "bar::baz");
}

#[test]
fn convert_keeps_dot_components_out() {
    assert_eq!(convert_file_to_module("./src/a/../b.rs").unwrap(), "a::b");
    assert_eq!(convert_file_to_module("crate/src/x.rs").unwrap(), "crate::x");
}

#[test]
fn cargo_args_add_color_except_for_fmt() {
    let args = vec!["--lib".to_string()];
    assert_eq!(cargo_command_args("check", &args), vec!["check", "--lib", "--color", "never"]);
    assert_eq!(cargo_command_args("fmt", &args), vec!["fmt", "--lib"]);
}

#[test]
fn cargo_report_cases() {
    assert_eq!(combine_cargo_output(true, "", "  "), "Command executed successfully (no output).");
    assert_eq!(combine_cargo_output(true, " ", "warning"), "warning");
    assert_eq!(combine_cargo_output(true, "ok", "warning"), "ok\nwarning");
    assert_eq!(combine_cargo_output(false, "out", "err"), "Command failed:\nout\nerr");
}

#[test]
fn missing_tool_names_the_install_command() {
    assert_eq!(
        missing_tool_message("audit"),
        "cargo-audit is not installed. Please install it with `cargo install cargo-audit`."
    );
}

#[test]
fn expand_args_for_sources_examples_and_tests() {
    assert_eq!(expand_args("src/bar/baz.rs", &None), vec!["expand", "bar::baz", "--color", "never"]);
    assert_eq!(
        expand_args("src/lib.rs", &Some("Foo".to_string())),
        vec!["expand", "Foo", "--color", "never"]
    );
    assert_eq!(expand_args("src/lib.rs", &None), vec!["expand", "--color", "never"]);
    assert_eq!(
        expand_args("examples/demo.rs", &None),
        vec!["expand", "--example", "demo", "--color", "never"]
    );
    assert_eq!(
        expand_args("tests/it.rs", &Some("case".to_string())),
        vec!["expand", "--test", "it", "case", "--color", "never"]
    );
}

#[test]
fn expand_outcome_cases() {
    assert_eq!(expand_outcome(true, "code", "").unwrap(), "code");
    assert_eq!(
        expand_outcome(false, "", "error: no such command: `expand`").unwrap_err(),
        "`cargo expand` is not installed. Please install it via: `cargo install cargo-expand`"
    );
    assert_eq!(expand_outcome(false, "", "boom").unwrap_err(), "cargo expand failed: boom");
}
