use cc::{Config, ErrorKind, compile_library};

#[test]
fn builder_collects_settings() {
    let mut c = Config::new();
    c.file("src/foo.c");
    c.include_dir("src");
    c.define("FOO", Some("bar"));
    c.define("BAZ", None);
    c.flag("-Wall");
    c.object("extra.o");
    c.cpp(true);
    c.target("x86_64-unknown-linux-gnu");
    c.host("x86_64-unknown-linux-gnu");
    c.opt_level(2);
    c.debug(true);
    c.out_dir("out");
    c.compiler("clang");
    c.archiver("llvm-ar");
    c.cargo_metadata(false);
    c.__set_env("SDKROOT", "/sdk");

    assert_eq!(c.files, vec!["src/foo.c"]);
    assert_eq!(c.include_directories, vec!["src"]);
    assert_eq!(
        c.definitions,
        vec![
            ("FOO".to_string(), Some("bar".to_string())),
            ("BAZ".to_string(), None)
        ]
    );
    assert_eq!(c.flags, vec!["-Wall"]);
    assert_eq!(c.objects, vec!["extra.o"]);
    assert!(c.cpp);
    assert_eq!(c.target.as_deref(), Some("x86_64-unknown-linux-gnu"));
    assert_eq!(c.opt_level, Some(2));
    assert_eq!(c.debug, Some(true));
    assert_eq!(c.compiler.as_deref(), Some("clang"));
    assert_eq!(c.archiver.as_deref(), Some("llvm-ar"));
    assert!(!c.cargo_metadata);
    assert_eq!(c.env, vec![("SDKROOT".to_string(), "/sdk".to_string())]);
}

#[test]
fn cpp_set_stdlib_also_links_it() {
    let mut c = Config::new();
    c.cpp_set_stdlib(Some("c++"));
    assert_eq!(c.cpp_set_stdlib.as_deref(), Some("c++"));
    assert_eq!(c.cpp_link_stdlib, Some(Some("c++".to_string())));
}

#[test]
fn compile_library_collects_files() {
    let files = vec!["foo.c".to_string(), "bar.c".to_string()];
    let c = compile_library("libfoo.a", &files);
    assert_eq!(c.files, vec!["foo.c", "bar.c"]);
    assert!(c.target.is_none());
    assert!(c.cargo_metadata);
}

#[test]
fn default_cpp_link_stdlib_by_target() {
    let c = Config::new();
    assert_eq!(c.get_cpp_link_stdlib("x86_64-pc-windows-msvc"), None);
    assert_eq!(
        c.get_cpp_link_stdlib("aarch64-apple-darwin").as_deref(),
        Some("c++")
    );
    assert_eq!(
        c.get_cpp_link_stdlib("x86_64-unknown-linux-gnu").as_deref(),
        Some("stdc++")
    );
    let mut c = Config::new();
    c.cpp_link_stdlib(Some("c++experimental"));
    assert_eq!(
        c.get_cpp_link_stdlib("x86_64-pc-windows-msvc").as_deref(),
        Some("c++experimental")
    );
    let mut c = Config::new();
    c.cpp_link_stdlib(None);
    assert_eq!(c.get_cpp_link_stdlib("x86_64-unknown-linux-gnu"), None);
}

#[test]
fn archiver_resolution_order() {
    let mut c = Config::new();
    c.archiver("my-ar");
    assert_eq!(c.get_ar(Some("env-ar"), "x86_64-unknown-linux-gnu"), "my-ar");
    let c = Config::new();
    assert_eq!(c.get_ar(Some("env-ar"), "x86_64-unknown-linux-gnu"), "env-ar");
    assert_eq!(c.get_ar(None, "aarch64-linux-android"), "aarch64-linux-android-ar");
    assert_eq!(c.get_ar(None, "x86_64-unknown-linux-gnu"), "ar");
}

#[test]
fn tool_variable_names_in_order() {
    let names = Config::env_var_names("CC", "x86_64-unknown-linux-gnu", "x86_64-unknown-linux-gnu");
    assert_eq!(
        names,
        vec![
            "CC_x86_64-unknown-linux-gnu".to_string(),
            "CC_x86_64_unknown_linux_gnu".to_string(),
            "HOST_CC".to_string(),
            "CC".to_string(),
        ]
    );
    let names = Config::env_var_names("CXX", "i686-pc-windows-gnu", "x86_64-unknown-linux-gnu");
    assert_eq!(names[2], "TARGET_CXX");
}

#[test]
fn first_env_value_takes_the_first_hit() {
    assert_eq!(
        Config::first_env_value(vec![None, Some("a".to_string()), Some("b".to_string())]),
        Some("a".to_string())
    );
    assert_eq!(Config::first_env_value(vec![None, None]), None);
    assert_eq!(Config::first_env_value(vec![]), None);
}

#[test]
fn gnu_compile_command_shape() {
    let mut c = Config::new();
    c.include_dir("inc");
    c.flag("-Wall");
    c.define("FOO", Some("1"));
    c.define("BAR", None);
    let args = c
        .compile_cmd_args("x86_64-unknown-linux-gnu", 2, true, &vec![], "")
        .unwrap();
    assert_eq!(
        args,
        vec![
            "-O2", "-c", "-ffunction-sections", "-fdata-sections", "-g", "-m64", "-fPIC", "-I",
            "inc", "-Wall", "-DFOO=1", "-DBAR",
        ]
    );
}

#[test]
fn msvc_compile_command_shape() {
    let mut c = Config::new();
    c.include_dir("inc");
    let args = c
        .compile_cmd_args("x86_64-pc-windows-msvc", 2, true, &vec![], "")
        .unwrap();
    assert_eq!(args, vec!["/MD", "/O2", "/Z7", "/I", "inc"]);
    let args = c
        .compile_cmd_args("x86_64-pc-windows-msvc", 0, false, &vec![], "")
        .unwrap();
    assert_eq!(args, vec!["/MD", "/I", "inc"]);
}

#[test]
fn i686_keeps_position_dependent_code() {
    let c = Config::new();
    let args = c
        .compile_cmd_args("i686-unknown-linux-gnu", 0, false, &vec![], "")
        .unwrap();
    assert_eq!(args, vec!["-O0", "-c", "-ffunction-sections", "-fdata-sections", "-m32"]);
}

#[test]
fn envflags_sit_between_base_and_debug() {
    let c = Config::new();
    let args = c
        .compile_cmd_args(
            "x86_64-unknown-linux-gnu",
            1,
            true,
            &vec!["-fstack-protector".to_string()],
            "",
        )
        .unwrap();
    assert_eq!(
        args,
        vec![
            "-O1",
            "-c",
            "-ffunction-sections",
            "-fdata-sections",
            "-fstack-protector",
            "-g",
            "-m64",
            "-fPIC",
        ]
    );
}

#[test]
fn apple_mobile_targets_use_the_system_root() {
    let mut c = Config::new();
    c.cpp(true);
    c.cpp_set_stdlib(Some("c++"));
    let args = c
        .compile_cmd_args("aarch64-apple-ios", 0, false, &vec![], "/sdk/iPhoneOS.sdk")
        .unwrap();
    assert_eq!(
        args,
        vec![
            "-O0",
            "-c",
            "-ffunction-sections",
            "-fdata-sections",
            "-arch",
            "arm64",
            "-isysroot",
            "/sdk/iPhoneOS.sdk",
            "-stdlib=libc++",
        ]
    );
    let err = c
        .compile_cmd_args("mips-apple-ios", 0, false, &vec![], "/sdk")
        .unwrap_err();
    assert_eq!(err.kind, ErrorKind::InvalidTarget);
}

#[test]
fn apple_mobile_kits_by_architecture() {
    assert_eq!(Config::ios_sdk_name("aarch64-apple-ios").unwrap(), "iphoneos");
    assert_eq!(Config::ios_sdk_name("x86_64-apple-ios").unwrap(), "iphonesimulator");
    assert_eq!(
        Config::ios_sdk_name("mips-apple-ios").unwrap_err().kind,
        ErrorKind::InvalidTarget
    );
    assert_eq!(Config::ios_arch_args("i386-apple-ios").unwrap(), vec!["-m32"]);
    assert_eq!(
        Config::ios_arch_args("armv7s-apple-ios").unwrap(),
        vec!["-arch", "armv7s"]
    );
}

#[test]
fn archive_command_shapes() {
    let mut c = Config::new();
    c.object("extra.o");
    let objs = vec!["a.o".to_string(), "b.o".to_string()];
    assert_eq!(
        c.assemble_args(false, "out/libfoo.a", &objs),
        vec!["crus", "out/libfoo.a", "a.o", "b.o", "extra.o"]
    );
    assert_eq!(
        c.assemble_args(true, "out/foo.lib", &objs),
        vec!["/OUT:out/foo.lib", "/nologo", "a.o", "b.o", "extra.o"]
    );
}

#[test]
fn macro_assembler_arguments() {
    let mut c = Config::new();
    c.include_dir("inc");
    c.define("FOO", Some("1"));
    assert_eq!(c.msvc_macro_assembler_args(), vec!["/I", "inc", "/DFOO=1"]);
}
