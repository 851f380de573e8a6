//! Records describing what the toolchain knows about a target: the
//! serialized target description, and the configuration values printed for
//! it. The embedding program obtains the raw text from the toolchain; the
//! configuration lines are interpreted here.

use vstd::prelude::*;
use vstd::string::StringExecFns;

use crate::strutil::{
    TrimKind, push_string, spec_split_once, spec_trim, split_once_char, str_eq, trim_quotes,
    trim_ws,
};

verus! {

/// Pre-link arguments, keyed by linker name.
#[derive(Debug, PartialEq, Eq)]
pub struct PreLinkArgs(pub Vec<(String, Vec<String>)>);

/// One target description, as the toolchain serializes it.
#[derive(Debug, PartialEq, Eq)]
pub struct TargetSpec {
    /// The overall architecture.
    pub arch: String,
    /// The LLVM triple the target maps to.
    pub llvm_target: String,
    /// Environment entries removed while linking.
    pub link_env_remove: Option<Vec<String>>,
    /// Environment entries set while linking.
    pub link_env: Option<Vec<String>>,
    /// The operating system.
    pub os: Option<String>,
    /// The vendor.
    pub vendor: Option<String>,
    /// The environment.
    pub env: Option<String>,
    /// The ABI.
    pub abi: Option<String>,
    /// The pointer width, in bits, as text.
    pub target_pointer_width: String,
    /// Pre-link arguments, if the target has any.
    pub pre_link_args: Option<PreLinkArgs>,
    /// The configuration values printed for the target.
    pub cfgs: Cfgs,
}

/// Every target the toolchain knows, keyed by triple.
#[derive(Debug, PartialEq, Eq)]
pub struct RustcTargetSpecs(pub Vec<(String, TargetSpec)>);

/// Configuration values printed for a target that the serialized
/// description does not expose directly.
#[derive(Debug, PartialEq, Eq)]
pub struct Cfgs {
    /// The target features.
    pub target_features: Vec<String>,
    /// The target families.
    pub target_families: Vec<String>,
    /// The endianness; every target prints one.
    pub target_endian: String,
    /// The widths atomic operations exist for.
    pub target_atomics: Vec<String>,
    /// Whether thread-local storage is available.
    pub target_thread_local: bool,
}

/// The accumulated configuration values, as specifications see them: the
/// endianness is optional until its line has been seen.
#[verifier::ext_equal]
pub struct CfgsView {
    /// See [`Cfgs::target_features`].
    pub target_features: Seq<Seq<char>>,
    /// See [`Cfgs::target_families`].
    pub target_families: Seq<Seq<char>>,
    /// See [`Cfgs::target_endian`].
    pub target_endian: Option<Seq<char>>,
    /// See [`Cfgs::target_atomics`].
    pub target_atomics: Seq<Seq<char>>,
    /// See [`Cfgs::target_thread_local`].
    pub target_thread_local: bool,
}

/// No configuration line seen yet.
pub open spec fn spec_cfgs_empty() -> CfgsView {
    CfgsView {
        target_features: Seq::empty(),
        target_families: Seq::empty(),
        target_endian: None,
        target_atomics: Seq::empty(),
        target_thread_local: false,
    }
}

/// One configuration line taken apart: the name, and the value with the
/// surrounding whitespace and quotes stripped, if the line carries one.
pub open spec fn spec_cfg_parts(line: Seq<char>) -> (Seq<char>, Option<Seq<char>>) {
    let so = spec_split_once(line, '=');
    match so.1 {
        Some(v) => (
            spec_trim(TrimKind::Whitespace, so.0),
            Some(spec_trim(TrimKind::Quotes, spec_trim(TrimKind::Whitespace, v))),
        ),
        None => (spec_trim(TrimKind::Whitespace, line), None),
    }
}

/// What one configuration line adds to the accumulated values; a line the
/// library does not recognize adds nothing.
pub open spec fn spec_cfg_apply(acc: CfgsView, line: Seq<char>) -> CfgsView {
    let parts = spec_cfg_parts(line);
    let name = parts.0;
    match parts.1 {
        Some(value) => {
            if name == "target_feature"@ {
                CfgsView { target_features: acc.target_features.push(value), ..acc }
            } else if name == "target_family"@ {
                CfgsView { target_families: acc.target_families.push(value), ..acc }
            } else if name == "target_endian"@ {
                CfgsView { target_endian: Some(value), ..acc }
            } else if name == "target_has_atomic"@ {
                CfgsView { target_atomics: acc.target_atomics.push(value), ..acc }
            } else {
                acc
            }
        },
        None => {
            if name == "target_thread_local"@ {
                CfgsView { target_thread_local: true, ..acc }
            } else {
                acc
            }
        },
    }
}

/// The first `n` configuration lines folded into accumulated values.
pub open spec fn spec_parse_cfgs(lines: Seq<Seq<char>>, n: int) -> CfgsView
    decreases n,
{
    if n <= 0 {
        spec_cfgs_empty()
    } else {
        spec_cfg_apply(spec_parse_cfgs(lines, n - 1), lines[n - 1])
    }
}

impl Cfgs {
    /// Interpret the configuration lines the toolchain printed, as
    /// [`spec_parse_cfgs`] describes. Every target prints its endianness,
    /// so the lines must carry a `target_endian` value.
    pub fn parse(cfgs: &Vec<String>) -> (r: Cfgs)
        requires
            spec_parse_cfgs(
                cfgs@.map_values(|l: String| l@),
                cfgs@.len() as int,
            ).target_endian is Some,
        ensures
            ({
                let m = spec_parse_cfgs(cfgs@.map_values(|l: String| l@), cfgs@.len() as int);
                &&& r.target_features@.map_values(|v: String| v@) == m.target_features
                &&& r.target_families@.map_values(|v: String| v@) == m.target_families
                &&& m.target_endian matches Some(e) && r.target_endian@ == e
                &&& r.target_atomics@.map_values(|v: String| v@) == m.target_atomics
                &&& r.target_thread_local == m.target_thread_local
            }),
    {
        let ghost lines = cfgs@.map_values(|l: String| l@);
        let mut target_features: Vec<String> = Vec::new();
        let mut target_families: Vec<String> = Vec::new();
        let mut target_endian: Option<String> = None;
        let mut target_atomics: Vec<String> = Vec::new();
        let mut target_thread_local = false;
        let mut i: usize = 0;
        while i < cfgs.len()
            invariant
                0 <= i <= cfgs@.len(),
                lines == cfgs@.map_values(|l: String| l@),
                lines.len() == cfgs@.len(),
                ({
                    let m = spec_parse_cfgs(lines, i as int);
                    &&& target_features@.map_values(|v: String| v@) == m.target_features
                    &&& target_families@.map_values(|v: String| v@) == m.target_families
                    &&& (match m.target_endian {
                        Some(e) => target_endian matches Some(x) && x@ == e,
                        None => target_endian is None,
                    })
                    &&& target_atomics@.map_values(|v: String| v@) == m.target_atomics
                    &&& target_thread_local == m.target_thread_local
                }),
            decreases cfgs@.len() - i,
        {
            let ghost before = spec_parse_cfgs(lines, i as int);
            let line = cfgs[i].as_str();
            let (head, rest) = split_once_char(line, '=');
            match rest {
                Some(v) => {
                    let name = trim_ws(head);
                    let value = trim_quotes(trim_ws(v));
                    if str_eq(name, "target_feature") {
                        push_string(&mut target_features, value.to_owned());
                    } else if str_eq(name, "target_family") {
                        push_string(&mut target_families, value.to_owned());
                    } else if str_eq(name, "target_endian") {
                        target_endian = Some(value.to_owned());
                    } else if str_eq(name, "target_has_atomic") {
                        push_string(&mut target_atomics, value.to_owned());
                    }
                },
                None => {
                    let name = trim_ws(line);
                    if str_eq(name, "target_thread_local") {
                        target_thread_local = true;
                    }
                },
            }
            proof {
                assert(lines[i as int] == line@);
                assert(spec_parse_cfgs(lines, i + 1) == spec_cfg_apply(before, lines[i as int]));
            }
            i = i + 1;
        }
        proof {
            assert(i as int == cfgs@.len() as int);
        }
        match target_endian {
            Some(endian) => Cfgs {
                target_features,
                target_families,
                target_endian: endian,
                target_atomics,
                target_thread_local,
            },
            None => vstd::pervasive::unreached(),
        }
    }
}

} // verus!
