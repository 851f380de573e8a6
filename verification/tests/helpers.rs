use cc::{
    CargoOutput, CompileCommand, ErrorKind, Object, Tool, WriteFileStatus,
    command_add_output_file, find_tool, is_any_input_newer_then_output, join_strings,
    objects_from_files, split_char, split_once_char, str_contains, str_ends_with, str_eq,
    str_starts_with, u32_to_decimal, warning_line, whitespace_tokens, write_file_if_changed,
};

#[test]
fn compile_intermediates() {
    let files = vec![
        "foo.c".to_string(),
        "x86_64.asm".to_string(),
        "x86_64.S".to_string(),
    ];
    let intermediates = objects_from_files(&files, "out").unwrap();

    assert_eq!(intermediates.len(), 3);

    assert!(intermediates[0].dst.contains("foo"));
    assert!(intermediates[1].dst.contains("x86_64"));
    assert!(intermediates[2].dst.contains("x86_64"));
}

#[test]
fn object_paths_replace_extensions_and_hash_directories() {
    let files = vec!["src/a/foo.c".to_string(), "src/b/foo.c".to_string()];
    let objs = objects_from_files(&files, "out").unwrap();
    assert_eq!(objs.len(), 2);
    assert!(objs[0].dst.starts_with("out/"));
    assert!(objs[0].dst.ends_with("-foo.o"));
    assert!(objs[1].dst.ends_with("-foo.o"));
    // One file name under two directories maps to two object files.
    assert_ne!(objs[0].dst, objs[1].dst);
    assert_eq!(objs[0].src, "src/a/foo.c");
}

#[test]
fn object_path_exact_form() {
    // The directory hash pins the object name down exactly.
    let objs = objects_from_files(&vec!["src/a/foo.c".to_string()], "out").unwrap();
    assert_eq!(objs[0].dst, "out/ec117478d7132b29-foo.o");
    let objs = objects_from_files(&vec!["bar.cpp".to_string()], "out").unwrap();
    assert_eq!(objs[0].dst, "out/cbf29ce484222325-bar.o");
}

#[test]
fn object_path_needs_a_file_name() {
    let files = vec!["src/".to_string()];
    let err = objects_from_files(&files, "out").unwrap_err();
    assert_eq!(err.kind, ErrorKind::InvalidArgument);
}

#[test]
fn output_file_argument_forms() {
    let mut cmd: Vec<String> = vec!["cl".to_string()];
    command_add_output_file(&mut cmd, "out/a.o", false, true, false, false, false, false);
    assert_eq!(cmd, vec!["cl".to_string(), "-Foout/a.o".to_string()]);

    let mut cmd: Vec<String> = vec!["cc".to_string()];
    command_add_output_file(&mut cmd, "out/a.o", false, false, false, true, false, false);
    assert_eq!(
        cmd,
        vec!["cc".to_string(), "-o".to_string(), "out/a.o".to_string()]
    );
}

#[test]
fn warnings_are_prefixed() {
    assert_eq!(warning_line("something is odd"), "cargo:warning=something is odd\n");
}

#[test]
fn cargo_output_defaults() {
    let out = CargoOutput::new();
    assert!(out.metadata);
    assert!(out.warnings);
}

#[test]
fn object_pairs_source_and_destination() {
    let o = Object::new("a.c".to_string(), "a.o".to_string());
    assert_eq!(o.src, "a.c");
    assert_eq!(o.dst, "a.o");
}

#[test]
fn stale_output_detection() {
    // An unreadable output is always stale.
    assert!(is_any_input_newer_then_output(None, &vec![Some(1)]));
    // An unreadable input makes the output stale.
    assert!(is_any_input_newer_then_output(Some(10), &vec![Some(1), None]));
    // An input at least as new as the output makes it stale.
    assert!(is_any_input_newer_then_output(Some(10), &vec![Some(10)]));
    assert!(is_any_input_newer_then_output(Some(10), &vec![Some(11)]));
    // Strictly older inputs leave the output fresh.
    assert!(!is_any_input_newer_then_output(Some(10), &vec![Some(9), Some(2)]));
    assert!(!is_any_input_newer_then_output(Some(10), &vec![]));
}

#[test]
fn rewrite_only_on_changed_contents() {
    assert_eq!(
        write_file_if_changed(Some("same"), "same"),
        WriteFileStatus::NoWrite
    );
    assert_eq!(
        write_file_if_changed(Some("old"), "new"),
        WriteFileStatus::NewContentsWriten
    );
    assert_eq!(
        write_file_if_changed(None, "new"),
        WriteFileStatus::NewContentsWriten
    );
}

#[test]
fn compile_command_accessors() {
    let entry = CompileCommand::new(
        "/usr/bin/cc".to_string(),
        vec!["-c".to_string(), "a.c".to_string()],
        "/work".to_string(),
        "a.c".to_string(),
        "a.o".to_string(),
    );
    assert_eq!(entry.directory(), "/work");
    assert_eq!(entry.file(), "a.c");
    assert_eq!(entry.output(), "a.o");
    assert_eq!(
        entry.arguments(),
        &vec!["/usr/bin/cc".to_string(), "-c".to_string(), "a.c".to_string()]
    );
}

#[test]
fn msvc_tools_are_not_found_here() {
    assert!(find_tool("x86_64-pc-windows-msvc", "cl.exe").is_none());
    assert!(find_tool("x86_64-unknown-linux-gnu", "cl.exe").is_none());
}

#[test]
fn tool_reports_clang_cl() {
    let t = Tool::new("clang-cl".to_string(), true);
    assert!(t.is_clang_cl());
    let t = Tool::new("cl".to_string(), false);
    assert!(!t.is_clang_cl());
    assert_eq!(t.tool, "cl");
}

#[test]
fn string_helper_behaviour() {
    assert!(str_eq("abc", "abc"));
    assert!(!str_eq("abc", "abd"));
    assert!(!str_eq("abc", "ab"));
    assert!(str_starts_with("abcdef", "abc"));
    assert!(!str_starts_with("ab", "abc"));
    assert!(str_ends_with("libfoo.a", ".a"));
    assert!(!str_ends_with("libfoo.so", ".a"));
    assert!(str_contains("x86_64-pc-windows-msvc", "msvc"));
    assert!(!str_contains("x86_64-unknown-linux-gnu", "msvc"));
    assert_eq!(u32_to_decimal(0), "0");
    assert_eq!(u32_to_decimal(42), "42");
    assert_eq!(u32_to_decimal(4294967295), "4294967295");
}

#[test]
fn split_and_join_behaviour() {
    let parts = split_char("a,b,,c", ',');
    assert_eq!(parts, vec!["a", "b", "", "c"]);
    assert_eq!(split_char("", ','), vec![""]);
    assert_eq!(join_strings(&parts, ","), "a,b,,c");
    assert_eq!(
        join_strings(&vec!["cc".to_string(), "-c".to_string()], " "),
        "cc -c"
    );
    assert_eq!(split_once_char("a=b=c", '='), ("a", Some("b=c")));
    assert_eq!(split_once_char("abc", '='), ("abc", None));
    assert_eq!(
        whitespace_tokens(" -O2\t -Wall  "),
        vec!["-O2".to_string(), "-Wall".to_string()]
    );
    assert_eq!(whitespace_tokens(""), Vec::<String>::new());
}
