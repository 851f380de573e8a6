use cc::{Cfgs, PreLinkArgs, RustcTargetSpecs, TargetSpec};

#[test]
fn cfgs_parse_reads_the_printed_lines() {
    let lines = vec![
        "debug_assertions".to_string(),
        "panic=\"unwind\"".to_string(),
        "target_abi=\"\"".to_string(),
        "target_endian=\"little\"".to_string(),
        "target_family=\"unix\"".to_string(),
        "target_feature=\"fxsr\"".to_string(),
        "target_feature=\"sse\"".to_string(),
        "target_has_atomic=\"16\"".to_string(),
        "target_has_atomic=\"8\"".to_string(),
        "target_thread_local".to_string(),
        "unix".to_string(),
    ];
    let cfgs = Cfgs::parse(&lines);
    assert_eq!(cfgs.target_endian, "little");
    assert_eq!(cfgs.target_features, vec!["fxsr", "sse"]);
    assert_eq!(cfgs.target_families, vec!["unix"]);
    assert_eq!(cfgs.target_atomics, vec!["16", "8"]);
    assert!(cfgs.target_thread_local);
}

#[test]
fn cfgs_parse_trims_whitespace_and_quotes() {
    let lines = vec![
        " target_endian = \"big\" ".to_string(),
        "\ttarget_thread_local".to_string(),
    ];
    let cfgs = Cfgs::parse(&lines);
    assert_eq!(cfgs.target_endian, "big");
    assert!(cfgs.target_thread_local);
    assert!(cfgs.target_features.is_empty());
}

#[test]
fn later_endian_line_wins() {
    let lines = vec![
        "target_endian=\"little\"".to_string(),
        "target_endian=\"big\"".to_string(),
    ];
    let cfgs = Cfgs::parse(&lines);
    assert_eq!(cfgs.target_endian, "big");
}

#[test]
fn target_spec_records_hold_their_fields() {
    let spec = TargetSpec {
        arch: "x86_64".to_string(),
        llvm_target: "x86_64-unknown-linux-gnu".to_string(),
        link_env_remove: None,
        link_env: Some(vec!["ZERO_AR_DATE=1".to_string()]),
        os: Some("linux".to_string()),
        vendor: Some("unknown".to_string()),
        env: Some("gnu".to_string()),
        abi: None,
        target_pointer_width: "64".to_string(),
        pre_link_args: Some(PreLinkArgs(vec![(
            "gcc".to_string(),
            vec!["-m64".to_string()],
        )])),
        cfgs: Cfgs::parse(&vec!["target_endian=\"little\"".to_string()]),
    };
    let specs = RustcTargetSpecs(vec![("x86_64-unknown-linux-gnu".to_string(), spec)]);
    assert_eq!(specs.0.len(), 1);
    assert_eq!(specs.0[0].1.arch, "x86_64");
    assert_eq!(specs.0[0].1.cfgs.target_endian, "little");
}
