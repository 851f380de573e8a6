use cc::RustcCodegenFlags;

fn check(env: &str, expected: &RustcCodegenFlags) {
    let actual = RustcCodegenFlags::parse(env).unwrap();
    assert_eq!(actual, *expected);
}

#[test]
fn codegen_type() {
    let expected = RustcCodegenFlags {
        code_model: Some("tiny".to_string()),
        ..RustcCodegenFlags::default()
    };
    check("-Ccode-model=tiny", &expected);
    check("-C\u{1f}code-model=tiny", &expected);
    check("--codegen\u{1f}code-model=tiny", &expected);
    check("--codegen=code-model=tiny", &expected);
}

#[test]
fn precedence() {
    check(
        "-ccode-model=tiny\u{1f}-Ccode-model=small",
        &RustcCodegenFlags {
            code_model: Some("small".to_string()),
            ..RustcCodegenFlags::default()
        },
    );
}

#[test]
fn two_valid_prefixes() {
    let expected = RustcCodegenFlags::default();
    check("-L\u{1f}-Clto", &expected);
}

#[test]
fn three_valid_prefixes() {
    let expected = RustcCodegenFlags {
        lto: Some("true".to_string()),
        ..RustcCodegenFlags::default()
    };
    check("-L\u{1f}-L\u{1f}-Clto", &expected);
}

#[test]
fn all_rustc_flags() {
    // Throw all possible flags at the parser to catch false positives
    let flags = [
        // Set all the flags we recognise first
        "-Ccode-model=tiny",
        "-Ccontrol-flow-guard=yes",
        "-Cembed-bitcode=no",
        "-Cforce-frame-pointers=yes",
        "-Clto=false",
        "-Clink-dead-code=yes",
        "-Cno-redzone=yes",
        "-Cno-vectorize-loops",
        "-Cno-vectorize-slp",
        "-Cprofile-generate=fooprofile",
        "-Cprofile-use=fooprofile",
        "-Crelocation-model=pic",
        "-Csoft-float=yes",
        "-Zbranch-protection=bti,pac-ret,leaf",
        // Set flags we don't recognise but rustc supports next
        // rustc flags
        "--cfg",
        "a",
        "--check-cfg 'cfg(verbose)",
        "-L",
        "/usr/lib/foo",
        "-l",
        "static:+whole-archive=mylib",
        "--crate-type=dylib",
        "--crate-name=foo",
        "--edition=2021",
        "--emit=asm",
        "--print=crate-name",
        "-g",
        "-O",
        "-o",
        "foooutput",
        "--out-dir",
        "foooutdir",
        "--target",
        "aarch64-unknown-linux-gnu",
        "-W",
        "missing-docs",
        "-D",
        "unused-variables",
        "--force-warn",
        "dead-code",
        "-A",
        "unused",
        "-F",
        "unused",
        "--cap-lints",
        "warn",
        "--version",
        "--verbose",
        "-v",
        "--extern",
        "foocrate",
        "--sysroot",
        "fooroot",
        "--error-format",
        "human",
        "--color",
        "auto",
        "--diagnostic-width",
        "80",
        "--remap-path-prefix",
        "foo=bar",
        "--json=artifact",
        // Codegen flags
        "-Car",
        "-Ccodegen-units=1",
        "-Ccollapse-macro-debuginfo=yes",
        "-Cdebug-assertions=yes",
        "-Cdebuginfo=1",
        "-Cdefault-linker-libraries=yes",
        "-Cdlltool=foo",
        "-Cextra-filename=foo",
        "-Cforce-unwind-tables=yes",
        "-Cincremental=foodir",
        "-Cinline-threshold=6",
        "-Cinstrument-coverage",
        "-Clink-arg=-foo",
        "-Clink-args=-foo",
        "-Clink-self-contained=yes",
        "-Clinker=lld",
        "-Clinker-flavor=ld.lld",
        "-Clinker-plugin-lto=yes",
        "-Cllvm-args=foo",
        "-Cmetadata=foo",
        "-Cno-prepopulate-passes",
        "-Cno-stack-check",
        "-Copt-level=3",
        "-Coverflow-checks=yes",
        "-Cpanic=abort",
        "-Cpasses=foopass",
        "-Cprefer-dynamic=yes",
        "-Crelro-level=partial",
        "-Cremark=all",
        "-Crpath=yes",
        "-Csave-temps=yes",
        "-Csplit-debuginfo=packed",
        "-Cstrip=symbols",
        "-Csymbol-mangling-version=v0",
        "-Ctarget-cpu=native",
        "-Ctarget-feature=+sve",
        // Unstable options
        "-Ztune-cpu=machine",
    ];
    check(
        &flags.join("\u{1f}"),
        &RustcCodegenFlags {
            code_model: Some("tiny".to_string()),
            control_flow_guard: Some("yes".to_string()),
            embed_bitcode: Some(false),
            force_frame_pointers: Some(true),
            link_dead_code: Some(true),
            lto: Some("false".to_string()),
            no_redzone: Some(true),
            no_vectorize_loops: true,
            no_vectorize_slp: true,
            profile_generate: Some("fooprofile".to_string()),
            profile_use: Some("fooprofile".to_string()),
            relocation_model: Some("pic".to_string()),
            soft_float: Some(true),
            branch_protection: Some("bti,pac-ret,leaf".to_string()),
        },
    );
}

#[test]
fn missing_value_is_rejected() {
    let err = RustcCodegenFlags::parse("-Ccode-model").unwrap_err();
    assert_eq!(err.kind, cc::ErrorKind::InvalidFlag);
    let err = RustcCodegenFlags::parse("-Cprofile-use").unwrap_err();
    assert_eq!(err.kind, cc::ErrorKind::InvalidFlag);
}

#[test]
fn empty_value_parses_to_nothing() {
    let flags = RustcCodegenFlags::parse("").unwrap();
    assert_eq!(flags, RustcCodegenFlags::default());
}
