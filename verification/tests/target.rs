use cc::TargetInfo;

// Test tier 1 targets
#[test]
fn tier1() {
    let targets = [
        "aarch64-unknown-linux-gnu",
        "aarch64-apple-darwin",
        "i686-pc-windows-gnu",
        "i686-pc-windows-msvc",
        "i686-unknown-linux-gnu",
        "x86_64-apple-darwin",
        "x86_64-pc-windows-gnu",
        "x86_64-pc-windows-msvc",
        "x86_64-unknown-linux-gnu",
    ];

    for target in targets {
        // Check that it parses
        let _ = TargetInfo::from_str(target).unwrap();
    }
}

// Various custom target triples not (or no longer) known by `rustc`
#[test]
fn cannot_parse_extra() {
    let targets = [
        "aarch64-unknown-none-gnu",
        "aarch64-uwp-windows-gnu",
        "arm-frc-linux-gnueabi",
        "arm-unknown-netbsd-eabi",
        "armv7neon-unknown-linux-gnueabihf",
        "armv7neon-unknown-linux-musleabihf",
        "thumbv7-unknown-linux-gnueabihf",
        "thumbv7-unknown-linux-musleabihf",
        "x86_64-rumprun-netbsd",
        "x86_64-unknown-linux",
    ];

    for target in targets {
        // Check that it does not parse
        let _ = TargetInfo::from_str(target).unwrap_err();
    }
}

#[test]
fn known_triple_fields() {
    let info = TargetInfo::from_str("x86_64-unknown-linux-gnu").unwrap();
    assert_eq!(info.full_arch, "x86_64");
    assert_eq!(info.arch, "x86_64");
    assert_eq!(info.vendor, "unknown");
    assert_eq!(info.os, "linux");
    assert_eq!(info.env, "gnu");
    assert_eq!(info.abi, "");
    assert_eq!(info.unversioned_llvm_target, "x86_64-unknown-linux-gnu");

    let apple = TargetInfo::from_str("aarch64-apple-darwin").unwrap();
    assert_eq!(apple.os, "macos");
    assert_eq!(apple.unversioned_llvm_target, "arm64-apple-macosx");
}

#[test]
fn unknown_triple_kind() {
    let err = TargetInfo::from_str("made-up-triple").unwrap_err();
    assert_eq!(err.kind, cc::ErrorKind::InvalidTarget);
}

#[test]
fn target_from_environment_values() {
    // All the values come from the environment.
    let info = TargetInfo::from_cargo_environment_variables(
        Some("x86_64-unknown-linux-gnu"),
        Some("x86_64"),
        Some("unknown"),
        Some("linux"),
        Some("gnu"),
        Some(""),
    )
    .unwrap();
    assert_eq!(info.arch, "x86_64");
    assert_eq!(info.full_arch, "x86_64");

    // The environment is silent: the table fills every field in.
    let info =
        TargetInfo::from_cargo_environment_variables(Some("i686-pc-windows-msvc"), None, None, None, None, None)
            .unwrap();
    assert_eq!(info.arch, "x86");
    assert_eq!(info.vendor, "pc");
    assert_eq!(info.os, "windows");
    assert_eq!(info.env, "msvc");

    // No triple at all.
    let err = TargetInfo::from_cargo_environment_variables(None, None, None, None, None, None).unwrap_err();
    assert_eq!(err.kind, cc::ErrorKind::EnvVarNotFound);

    // A triple without an architecture separator.
    let err = TargetInfo::from_cargo_environment_variables(Some("bare"), None, None, None, None, None)
        .unwrap_err();
    assert_eq!(err.kind, cc::ErrorKind::InvalidTarget);

    // An unknown triple with explicit values still works, and keeps the
    // triple as the LLVM target.
    let info = TargetInfo::from_cargo_environment_variables(
        Some("myarch-custom-os"),
        Some("myarch"),
        Some("custom"),
        Some("os"),
        Some(""),
        None,
    )
    .unwrap();
    assert_eq!(info.full_arch, "myarch");
    assert_eq!(info.abi, "");
    assert_eq!(info.unversioned_llvm_target, "myarch-custom-os");
}
