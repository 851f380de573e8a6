//! Parsing of rustc codegen flags inherited through the encoded rustflags
//! environment value, so equivalent flags can be handed to the C compiler.
//!
//! The value is a list of flag segments separated by the unit separator
//! character. A segment may be a bare prefix (such as `-C`) whose argument
//! follows in the next segment, or a whole flag, possibly with `=value`.
//! Flags the library recognizes set one field each; every other flag is
//! ignored; a recognized flag that needs a value but has none is an error.

use vstd::prelude::*;
use vstd::string::StrSliceExecFns;
use vstd::string::StringExecFns;

use crate::error::{Error, ErrorKind};
use crate::strutil::{spec_split, spec_split_once, spec_starts_with, split_char, split_once_char, str_eq, str_starts_with};

verus! {

/// The rustc codegen flags the library recognizes, one field per flag.
#[derive(Debug, PartialEq, Eq)]
pub struct RustcCodegenFlags {
    /// `-Zbranch-protection` or `-Cbranch-protection`.
    pub branch_protection: Option<String>,
    /// `-Ccode-model`.
    pub code_model: Option<String>,
    /// `-Cno-vectorize-loops`.
    pub no_vectorize_loops: bool,
    /// `-Cno-vectorize-slp`.
    pub no_vectorize_slp: bool,
    /// `-Cprofile-generate`.
    pub profile_generate: Option<String>,
    /// `-Cprofile-use`.
    pub profile_use: Option<String>,
    /// `-Ccontrol-flow-guard`.
    pub control_flow_guard: Option<String>,
    /// `-Clto`.
    pub lto: Option<String>,
    /// `-Crelocation-model`.
    pub relocation_model: Option<String>,
    /// `-Cembed-bitcode`.
    pub embed_bitcode: Option<bool>,
    /// `-Cforce-frame-pointers`.
    pub force_frame_pointers: Option<bool>,
    /// `-Clink-dead-code`.
    pub link_dead_code: Option<bool>,
    /// `-Cno-redzone`.
    pub no_redzone: Option<bool>,
    /// `-Csoft-float`.
    pub soft_float: Option<bool>,
}

/// The flags as specifications see them: each string field by its
/// character sequence.
#[verifier::ext_equal]
pub struct FlagsView {
    /// See [`RustcCodegenFlags::branch_protection`].
    pub branch_protection: Option<Seq<char>>,
    /// See [`RustcCodegenFlags::code_model`].
    pub code_model: Option<Seq<char>>,
    /// See [`RustcCodegenFlags::no_vectorize_loops`].
    pub no_vectorize_loops: bool,
    /// See [`RustcCodegenFlags::no_vectorize_slp`].
    pub no_vectorize_slp: bool,
    /// See [`RustcCodegenFlags::profile_generate`].
    pub profile_generate: Option<Seq<char>>,
    /// See [`RustcCodegenFlags::profile_use`].
    pub profile_use: Option<Seq<char>>,
    /// See [`RustcCodegenFlags::control_flow_guard`].
    pub control_flow_guard: Option<Seq<char>>,
    /// See [`RustcCodegenFlags::lto`].
    pub lto: Option<Seq<char>>,
    /// See [`RustcCodegenFlags::relocation_model`].
    pub relocation_model: Option<Seq<char>>,
    /// See [`RustcCodegenFlags::embed_bitcode`].
    pub embed_bitcode: Option<bool>,
    /// See [`RustcCodegenFlags::force_frame_pointers`].
    pub force_frame_pointers: Option<bool>,
    /// See [`RustcCodegenFlags::link_dead_code`].
    pub link_dead_code: Option<bool>,
    /// See [`RustcCodegenFlags::no_redzone`].
    pub no_redzone: Option<bool>,
    /// See [`RustcCodegenFlags::soft_float`].
    pub soft_float: Option<bool>,
}

/// An optional string, by its character sequence.
pub open spec fn opt_view(o: Option<String>) -> Option<Seq<char>> {
    match o {
        Some(s) => Some(s@),
        None => None,
    }
}

impl View for RustcCodegenFlags {
    type V = FlagsView;

    open spec fn view(&self) -> FlagsView {
        FlagsView {
            branch_protection: opt_view(self.branch_protection),
            code_model: opt_view(self.code_model),
            no_vectorize_loops: self.no_vectorize_loops,
            no_vectorize_slp: self.no_vectorize_slp,
            profile_generate: opt_view(self.profile_generate),
            profile_use: opt_view(self.profile_use),
            control_flow_guard: opt_view(self.control_flow_guard),
            lto: opt_view(self.lto),
            relocation_model: opt_view(self.relocation_model),
            embed_bitcode: self.embed_bitcode,
            force_frame_pointers: self.force_frame_pointers,
            link_dead_code: self.link_dead_code,
            no_redzone: self.no_redzone,
            soft_float: self.soft_float,
        }
    }
}

/// No flag seen yet: every field unset.
pub open spec fn spec_default_flags() -> FlagsView {
    FlagsView {
        branch_protection: None,
        code_model: None,
        no_vectorize_loops: false,
        no_vectorize_slp: false,
        profile_generate: None,
        profile_use: None,
        control_flow_guard: None,
        lto: None,
        relocation_model: None,
        embed_bitcode: None,
        force_frame_pointers: None,
        link_dead_code: None,
        no_redzone: None,
        soft_float: None,
    }
}

impl Default for RustcCodegenFlags {
    /// The flags with every field unset.
    fn default() -> (r: RustcCodegenFlags)
        ensures
            r@ == spec_default_flags(),
    {
        RustcCodegenFlags {
            branch_protection: None,
            code_model: None,
            no_vectorize_loops: false,
            no_vectorize_slp: false,
            profile_generate: None,
            profile_use: None,
            control_flow_guard: None,
            lto: None,
            relocation_model: None,
            embed_bitcode: None,
            force_frame_pointers: None,
            link_dead_code: None,
            no_redzone: None,
            soft_float: None,
        }
    }
}

/// A bool-like rustc flag argument as a bool: the rustc spellings of yes
/// and no, and nothing else.
pub open spec fn spec_arg_to_bool(arg: Seq<char>) -> Option<bool> {
    if arg == "y"@ || arg == "yes"@ || arg == "on"@ || arg == "true"@ {
        Some(true)
    } else if arg == "n"@ || arg == "no"@ || arg == "off"@ || arg == "false"@ {
        Some(false)
    } else {
        None
    }
}

/// Bool-like flag argument, as [`spec_arg_to_bool`] describes.
fn arg_to_bool(arg: &str) -> (r: Option<bool>)
    ensures
        r == spec_arg_to_bool(arg@),
{
    if str_eq(arg, "y") || str_eq(arg, "yes") || str_eq(arg, "on") || str_eq(arg, "true") {
        Some(true)
    } else if str_eq(arg, "n") || str_eq(arg, "no") || str_eq(arg, "off") || str_eq(arg, "false") {
        Some(false)
    } else {
        None
    }
}

/// What one recognized flag does to the flags: the flag is split at its
/// first `=`, the prefix segment (if any) is glued back on, and the full
/// name selects the field. An unrecognized name changes nothing. The error
/// carries the message for a flag that needs a value but has none.
pub open spec fn spec_set_rustc_flag(m: FlagsView, prefix: Seq<char>, flag: Seq<char>) -> Result<
    FlagsView,
    Seq<char>,
> {
    let parts = spec_split_once(flag, '=');
    let name = parts.0;
    let value = parts.1;
    let full = prefix + name;
    if full == "-Ccode-model"@ {
        match value {
            Some(v) => Ok(FlagsView { code_model: Some(v), ..m }),
            None => Err("-Ccode-model must have a value"@),
        }
    } else if full == "-Cno-vectorize-loops"@ {
        Ok(FlagsView { no_vectorize_loops: true, ..m })
    } else if full == "-Cno-vectorize-slp"@ {
        Ok(FlagsView { no_vectorize_slp: true, ..m })
    } else if full == "-Cprofile-generate"@ {
        match value {
            Some(v) => Ok(FlagsView { profile_generate: Some(v), ..m }),
            None => Err("-Cprofile-generate must have a value"@),
        }
    } else if full == "-Cprofile-use"@ {
        match value {
            Some(v) => Ok(FlagsView { profile_use: Some(v), ..m }),
            None => Err("-Cprofile-use must have a value"@),
        }
    } else if full == "-Ccontrol-flow-guard"@ {
        Ok(
            FlagsView {
                control_flow_guard: match value {
                    Some(v) => Some(v),
                    None => Some("true"@),
                },
                ..m
            },
        )
    } else if full == "-Clto"@ {
        Ok(
            FlagsView {
                lto: match value {
                    Some(v) => Some(v),
                    None => Some("true"@),
                },
                ..m
            },
        )
    } else if full == "-Crelocation-model"@ {
        match value {
            Some(v) => Ok(FlagsView { relocation_model: Some(v), ..m }),
            None => Err("-Crelocation-model must have a value"@),
        }
    } else if full == "-Cembed-bitcode"@ {
        Ok(
            FlagsView {
                embed_bitcode: match value {
                    Some(v) => spec_arg_to_bool(v),
                    None => Some(true),
                },
                ..m
            },
        )
    } else if full == "-Cforce-frame-pointers"@ {
        Ok(
            FlagsView {
                force_frame_pointers: match value {
                    Some(v) => spec_arg_to_bool(v),
                    None => Some(true),
                },
                ..m
            },
        )
    } else if full == "-Clink-dead-code"@ {
        Ok(
            FlagsView {
                link_dead_code: match value {
                    Some(v) => spec_arg_to_bool(v),
                    None => Some(true),
                },
                ..m
            },
        )
    } else if full == "-Cno-redzone"@ {
        Ok(
            FlagsView {
                no_redzone: match value {
                    Some(v) => spec_arg_to_bool(v),
                    None => Some(true),
                },
                ..m
            },
        )
    } else if full == "-Csoft-float"@ {
        Ok(
            FlagsView {
                soft_float: match value {
                    Some(v) => spec_arg_to_bool(v),
                    None => Some(true),
                },
                ..m
            },
        )
    } else if full == "-Zbranch-protection"@ || full == "-Cbranch-protection"@ {
        match value {
            Some(v) => Ok(FlagsView { branch_protection: Some(v), ..m }),
            None => Err("-Zbranch-protection must have a value"@),
        }
    } else {
        Ok(m)
    }
}

/// Whether a segment is a bare flag prefix whose argument follows in the
/// next segment.
pub open spec fn spec_is_flag_prefix(s: Seq<char>) -> bool {
    ||| s == "-Z"@
    ||| s == "-C"@
    ||| s == "--codegen"@
    ||| s == "-L"@
    ||| s == "-l"@
    ||| s == "-o"@
    ||| s == "-W"@
    ||| s == "--warn"@
    ||| s == "-A"@
    ||| s == "--allow"@
    ||| s == "-D"@
    ||| s == "--deny"@
    ||| s == "-F"@
    ||| s == "--forbid"@
}

/// Bare-prefix test, as [`spec_is_flag_prefix`] describes.
fn is_flag_prefix(s: &str) -> (r: bool)
    ensures
        r == spec_is_flag_prefix(s@),
{
    str_eq(s, "-Z") || str_eq(s, "-C") || str_eq(s, "--codegen") || str_eq(s, "-L") || str_eq(
        s,
        "-l",
    ) || str_eq(s, "-o") || str_eq(s, "-W") || str_eq(s, "--warn") || str_eq(s, "-A") || str_eq(
        s,
        "--allow",
    ) || str_eq(s, "-D") || str_eq(s, "--deny") || str_eq(s, "-F") || str_eq(s, "--forbid")
}

/// How the previous segment's prefix combines with the current segment:
/// the canonical prefix to glue on, and the flag text itself. A spelled-out
/// `--codegen=...` segment is rewritten to the `-C` form.
pub open spec fn spec_handle_flag_prefix(prev: Seq<char>, curr: Seq<char>) -> (Seq<char>, Seq<
    char,
>) {
    if prev == "--codegen"@ || prev == "-C"@ {
        ("-C"@, curr)
    } else if spec_starts_with(curr, "--codegen="@) {
        ("-C"@, curr.skip(10))
    } else if prev == "-Z"@ {
        ("-Z"@, curr)
    } else if prev == "-L"@ || prev == "-l"@ || prev == "-o"@ {
        (prev, curr)
    } else if prev == "-W"@ || prev == "--warn"@ {
        ("-W"@, curr)
    } else if prev == "-A"@ || prev == "--allow"@ {
        ("-A"@, curr)
    } else if prev == "-D"@ || prev == "--deny"@ {
        ("-D"@, curr)
    } else if prev == "-F"@ || prev == "--forbid"@ {
        ("-F"@, curr)
    } else {
        (Seq::empty(), curr)
    }
}

/// Prefix handling, as [`spec_handle_flag_prefix`] describes.
fn handle_flag_prefix<'a>(prev: &'a str, curr: &'a str) -> (r: (&'a str, &'a str))
    ensures
        r.0@ == spec_handle_flag_prefix(prev@, curr@).0,
        r.1@ == spec_handle_flag_prefix(prev@, curr@).1,
{
    if str_eq(prev, "--codegen") || str_eq(prev, "-C") {
        ("-C", curr)
    } else if str_starts_with(curr, "--codegen=") {
        proof {
            reveal_strlit("--codegen=");
        }
        let rest = curr.substring_char(10, curr.unicode_len());
        proof {
            assert(rest@ =~= curr@.skip(10));
        }
        ("-C", rest)
    } else if str_eq(prev, "-Z") {
        ("-Z", curr)
    } else if str_eq(prev, "-L") || str_eq(prev, "-l") || str_eq(prev, "-o") {
        (prev, curr)
    } else if str_eq(prev, "-W") || str_eq(prev, "--warn") {
        ("-W", curr)
    } else if str_eq(prev, "-A") || str_eq(prev, "--allow") {
        ("-A", curr)
    } else if str_eq(prev, "-D") || str_eq(prev, "--deny") {
        ("-D", curr)
    } else if str_eq(prev, "-F") || str_eq(prev, "--forbid") {
        ("-F", curr)
    } else {
        let empty = "";
        proof {
            reveal_strlit("");
            assert(empty@ =~= Seq::<char>::empty());
        }
        (empty, curr)
    }
}

/// One parse step after another, from segment `i` on: a bare prefix is
/// remembered for the next segment, anything else is combined with the
/// remembered prefix and applied.
pub open spec fn spec_parse_fold(
    segs: Seq<Seq<char>>,
    i: int,
    m: FlagsView,
    prev: Option<Seq<char>>,
) -> Result<FlagsView, Seq<char>>
    decreases segs.len() - i,
{
    if i < 0 || i >= segs.len() {
        Ok(m)
    } else {
        let prev_s = match prev {
            Some(p) => p,
            None => Seq::empty(),
        };
        if prev_s.len() == 0 && spec_is_flag_prefix(segs[i]) {
            spec_parse_fold(segs, i + 1, m, Some(segs[i]))
        } else {
            let hp = spec_handle_flag_prefix(prev_s, segs[i]);
            match spec_set_rustc_flag(m, hp.0, hp.1) {
                Ok(m2) => spec_parse_fold(segs, i + 1, m2, None),
                Err(msg) => Err(msg),
            }
        }
    }
}

/// What parsing a whole encoded rustflags value yields: the segments
/// between unit separators, folded from an empty flag set.
pub open spec fn spec_parse_flags(s: Seq<char>) -> Result<FlagsView, Seq<char>> {
    spec_parse_fold(spec_split(s, '\u{1f}'), 0, spec_default_flags(), None)
}

impl RustcCodegenFlags {
    /// Apply one flag, glued together from `prefix` and `flag`, as
    /// [`spec_set_rustc_flag`] describes: a recognized flag sets its field
    /// (an error if it needs a value and has none), every other flag leaves
    /// the set unchanged.
    pub fn set_rustc_flag(&mut self, prefix: &str, flag: &str) -> (r: Result<(), Error>)
        ensures
            match spec_set_rustc_flag(old(self)@, prefix@, flag@) {
                Ok(m) => r is Ok && final(self)@ == m,
                Err(msg) => (r matches Err(e) && e.kind == ErrorKind::InvalidFlag && e.message@
                    == msg) && final(self)@ == old(self)@,
            },
    {
        let (name, value) = split_once_char(flag, '=');
        let mut full = String::new();
        full.append(prefix);
        full.append(name);
        if str_eq(full.as_str(), "-Ccode-model") {
            match value {
                Some(v) => {
                    self.code_model = Some(v.to_owned());
                    Ok(())
                },
                None => Err(
                    Error::new(ErrorKind::InvalidFlag, "-Ccode-model must have a value".to_owned()),
                ),
            }
        } else if str_eq(full.as_str(), "-Cno-vectorize-loops") {
            self.no_vectorize_loops = true;
            Ok(())
        } else if str_eq(full.as_str(), "-Cno-vectorize-slp") {
            self.no_vectorize_slp = true;
            Ok(())
        } else if str_eq(full.as_str(), "-Cprofile-generate") {
            match value {
                Some(v) => {
                    self.profile_generate = Some(v.to_owned());
                    Ok(())
                },
                None => Err(
                    Error::new(
                        ErrorKind::InvalidFlag,
                        "-Cprofile-generate must have a value".to_owned(),
                    ),
                ),
            }
        } else if str_eq(full.as_str(), "-Cprofile-use") {
            match value {
                Some(v) => {
                    self.profile_use = Some(v.to_owned());
                    Ok(())
                },
                None => Err(
                    Error::new(
                        ErrorKind::InvalidFlag,
                        "-Cprofile-use must have a value".to_owned(),
                    ),
                ),
            }
        } else if str_eq(full.as_str(), "-Ccontrol-flow-guard") {
            self.control_flow_guard = match value {
                Some(v) => Some(v.to_owned()),
                None => Some("true".to_owned()),
            };
            Ok(())
        } else if str_eq(full.as_str(), "-Clto") {
            self.lto = match value {
                Some(v) => Some(v.to_owned()),
                None => Some("true".to_owned()),
            };
            Ok(())
        } else if str_eq(full.as_str(), "-Crelocation-model") {
            match value {
                Some(v) => {
                    self.relocation_model = Some(v.to_owned());
                    Ok(())
                },
                None => Err(
                    Error::new(
                        ErrorKind::InvalidFlag,
                        "-Crelocation-model must have a value".to_owned(),
                    ),
                ),
            }
        } else if str_eq(full.as_str(), "-Cembed-bitcode") {
            self.embed_bitcode = match value {
                Some(v) => arg_to_bool(v),
                None => Some(true),
            };
            Ok(())
        } else if str_eq(full.as_str(), "-Cforce-frame-pointers") {
            self.force_frame_pointers = match value {
                Some(v) => arg_to_bool(v),
                None => Some(true),
            };
            Ok(())
        } else if str_eq(full.as_str(), "-Clink-dead-code") {
            self.link_dead_code = match value {
                Some(v) => arg_to_bool(v),
                None => Some(true),
            };
            Ok(())
        } else if str_eq(full.as_str(), "-Cno-redzone") {
            self.no_redzone = match value {
                Some(v) => arg_to_bool(v),
                None => Some(true),
            };
            Ok(())
        } else if str_eq(full.as_str(), "-Csoft-float") {
            self.soft_float = match value {
                Some(v) => arg_to_bool(v),
                None => Some(true),
            };
            Ok(())
        } else if str_eq(full.as_str(), "-Zbranch-protection") || str_eq(
            full.as_str(),
            "-Cbranch-protection",
        ) {
            match value {
                Some(v) => {
                    self.branch_protection = Some(v.to_owned());
                    Ok(())
                },
                None => Err(
                    Error::new(
                        ErrorKind::InvalidFlag,
                        "-Zbranch-protection must have a value".to_owned(),
                    ),
                ),
            }
        } else {
            Ok(())
        }
    }

    /// Parse an encoded rustflags value, as [`spec_parse_flags`] describes:
    /// segments between unit separators are folded left to right, bare
    /// prefixes joining with the segment that follows them.
    pub fn parse(rustflags_env: &str) -> (r: Result<RustcCodegenFlags, Error>)
        ensures
            match spec_parse_flags(rustflags_env@) {
                Ok(m) => (r matches Ok(f) && f@ == m),
                Err(msg) => (r matches Err(e) && e.kind == ErrorKind::InvalidFlag && e.message@
                    == msg),
            },
    {
        let segments = split_char(rustflags_env, '\u{1f}');
        let ghost segs = segments@.map_values(|p: String| p@);
        let mut codegen_flags = RustcCodegenFlags::default();
        let mut prev_idx: Option<usize> = None;
        let mut i: usize = 0;
        while i < segments.len()
            invariant
                0 <= i <= segments@.len(),
                segs == segments@.map_values(|p: String| p@),
                segs.len() == segments@.len(),
                segs == spec_split(rustflags_env@, '\u{1f}'),
                prev_idx matches Some(j) ==> j < i,
                spec_parse_flags(rustflags_env@) == spec_parse_fold(
                    segs,
                    i as int,
                    codegen_flags@,
                    match prev_idx {
                        Some(j) => Some(segs[j as int]),
                        None => None,
                    },
                ),
            decreases segments@.len() - i,
        {
            let ghost prev_view: Option<Seq<char>> = match prev_idx {
                Some(j) => Some(segs[j as int]),
                None => None,
            };
            let prev: &str = match prev_idx {
                Some(j) => segments[j].as_str(),
                None => "",
            };
            proof {
                reveal_strlit("");
                if prev_idx is None {
                    assert(prev@ =~= Seq::<char>::empty());
                }
            }
            let curr = segments[i].as_str();
            if prev.is_empty() && is_flag_prefix(curr) {
                prev_idx = Some(i);
            } else {
                proof {
                    if prev_idx is Some {
                        assert(prev@ == segs[prev_idx->Some_0 as int]);
                    }
                }
                let hp = handle_flag_prefix(prev, curr);
                match codegen_flags.set_rustc_flag(hp.0, hp.1) {
                    Ok(()) => {
                        prev_idx = None;
                    },
                    Err(e) => {
                        return Err(e);
                    },
                }
            }
            i = i + 1;
        }
        Ok(codegen_flags)
    }
}

} // verus!
