//! A table of `rustc` target triples and what each one means: the
//! architecture, vendor, operating system, environment and ABI that a
//! triple denotes, and the unversioned LLVM triple it maps to.
//!
//! The table covers the mainstream triples this library is used with; a
//! triple outside the table is rejected, and callers fall back to whatever
//! the build environment provides.

use vstd::prelude::*;
use vstd::string::StringExecFns;

use crate::error::{Error, ErrorKind};
use crate::strutil::{spec_split_once, split_once_char, str_eq};

verus! {

/// Information specific to one `rustc` target triple.
#[derive(Debug, PartialEq, Eq, Clone)]
pub struct TargetInfo {
    /// The full architecture, subarchitecture included.
    pub full_arch: String,
    /// The overall target architecture.
    pub arch: String,
    /// The target vendor.
    pub vendor: String,
    /// The operating system, or `none` on bare metal.
    pub os: String,
    /// The environment on top of the operating system.
    pub env: String,
    /// The ABI on top of the operating system.
    pub abi: String,
    /// The unversioned LLVM/Clang target triple.
    pub unversioned_llvm_target: String,
}

/// Target information as specifications see it: each field by its
/// character sequence.
#[verifier::ext_equal]
pub struct TargetInfoView {
    /// See [`TargetInfo::full_arch`].
    pub full_arch: Seq<char>,
    /// See [`TargetInfo::arch`].
    pub arch: Seq<char>,
    /// See [`TargetInfo::vendor`].
    pub vendor: Seq<char>,
    /// See [`TargetInfo::os`].
    pub os: Seq<char>,
    /// See [`TargetInfo::env`].
    pub env: Seq<char>,
    /// See [`TargetInfo::abi`].
    pub abi: Seq<char>,
    /// See [`TargetInfo::unversioned_llvm_target`].
    pub unversioned_llvm_target: Seq<char>,
}

impl View for TargetInfo {
    type V = TargetInfoView;

    open spec fn view(&self) -> TargetInfoView {
        TargetInfoView {
            full_arch: self.full_arch@,
            arch: self.arch@,
            vendor: self.vendor@,
            os: self.os@,
            env: self.env@,
            abi: self.abi@,
            unversioned_llvm_target: self.unversioned_llvm_target@,
        }
    }
}

/// The table itself: what a triple denotes, or nothing for a triple the
/// library does not know.
pub open spec fn spec_target_info(t: Seq<char>) -> Option<TargetInfoView> {
    if false {
        None    } else if t == "aarch64-apple-darwin"@ {
        Some(
            TargetInfoView {
                full_arch: "aarch64"@,
                arch: "aarch64"@,
                vendor: "apple"@,
                os: "macos"@,
                env: ""@,
                abi: ""@,
                unversioned_llvm_target: "arm64-apple-macosx"@,
            },
        )    } else if t == "aarch64-apple-ios"@ {
        Some(
            TargetInfoView {
                full_arch: "aarch64"@,
                arch: "aarch64"@,
                vendor: "apple"@,
                os: "ios"@,
                env: ""@,
                abi: ""@,
                unversioned_llvm_target: "arm64-apple-ios"@,
            },
        )    } else if t == "aarch64-apple-ios-sim"@ {
        Some(
            TargetInfoView {
                full_arch: "aarch64"@,
                arch: "aarch64"@,
                vendor: "apple"@,
                os: "ios"@,
                env: ""@,
                abi: "sim"@,
                unversioned_llvm_target: "arm64-apple-ios-simulator"@,
            },
        )    } else if t == "aarch64-linux-android"@ {
        Some(
            TargetInfoView {
                full_arch: "aarch64"@,
                arch: "aarch64"@,
                vendor: "unknown"@,
                os: "android"@,
                env: ""@,
                abi: ""@,
                unversioned_llvm_target: "aarch64-linux-android"@,
            },
        )    } else if t == "aarch64-pc-windows-msvc"@ {
        Some(
            TargetInfoView {
                full_arch: "aarch64"@,
                arch: "aarch64"@,
                vendor: "pc"@,
                os: "windows"@,
                env: "msvc"@,
                abi: ""@,
                unversioned_llvm_target: "aarch64-pc-windows-msvc"@,
            },
        )    } else if t == "aarch64-unknown-linux-gnu"@ {
        Some(
            TargetInfoView {
                full_arch: "aarch64"@,
                arch: "aarch64"@,
                vendor: "unknown"@,
                os: "linux"@,
                env: "gnu"@,
                abi: ""@,
                unversioned_llvm_target: "aarch64-unknown-linux-gnu"@,
            },
        )    } else if t == "aarch64-unknown-linux-musl"@ {
        Some(
            TargetInfoView {
                full_arch: "aarch64"@,
                arch: "aarch64"@,
                vendor: "unknown"@,
                os: "linux"@,
                env: "musl"@,
                abi: ""@,
                unversioned_llvm_target: "aarch64-unknown-linux-musl"@,
            },
        )    } else if t == "arm-linux-androideabi"@ {
        Some(
            TargetInfoView {
                full_arch: "arm"@,
                arch: "arm"@,
                vendor: "unknown"@,
                os: "android"@,
                env: ""@,
                abi: "eabi"@,
                unversioned_llvm_target: "arm-linux-androideabi"@,
            },
        )    } else if t == "arm-unknown-linux-gnueabi"@ {
        Some(
            TargetInfoView {
                full_arch: "arm"@,
                arch: "arm"@,
                vendor: "unknown"@,
                os: "linux"@,
                env: "gnu"@,
                abi: "eabi"@,
                unversioned_llvm_target: "arm-unknown-linux-gnueabi"@,
            },
        )    } else if t == "arm-unknown-linux-gnueabihf"@ {
        Some(
            TargetInfoView {
                full_arch: "arm"@,
                arch: "arm"@,
                vendor: "unknown"@,
                os: "linux"@,
                env: "gnu"@,
                abi: "eabihf"@,
                unversioned_llvm_target: "arm-unknown-linux-gnueabihf"@,
            },
        )    } else if t == "armv7-linux-androideabi"@ {
        Some(
            TargetInfoView {
                full_arch: "armv7"@,
                arch: "arm"@,
                vendor: "unknown"@,
                os: "android"@,
                env: ""@,
                abi: "eabi"@,
                unversioned_llvm_target: "armv7-none-linux-androideabi"@,
            },
        )    } else if t == "armv7-unknown-linux-gnueabihf"@ {
        Some(
            TargetInfoView {
                full_arch: "armv7"@,
                arch: "arm"@,
                vendor: "unknown"@,
                os: "linux"@,
                env: "gnu"@,
                abi: "eabihf"@,
                unversioned_llvm_target: "armv7-unknown-linux-gnueabihf"@,
            },
        )    } else if t == "i586-unknown-linux-gnu"@ {
        Some(
            TargetInfoView {
                full_arch: "i586"@,
                arch: "x86"@,
                vendor: "unknown"@,
                os: "linux"@,
                env: "gnu"@,
                abi: ""@,
                unversioned_llvm_target: "i586-unknown-linux-gnu"@,
            },
        )    } else if t == "i686-pc-windows-gnu"@ {
        Some(
            TargetInfoView {
                full_arch: "i686"@,
                arch: "x86"@,
                vendor: "pc"@,
                os: "windows"@,
                env: "gnu"@,
                abi: ""@,
                unversioned_llvm_target: "i686-pc-windows-gnu"@,
            },
        )    } else if t == "i686-pc-windows-msvc"@ {
        Some(
            TargetInfoView {
                full_arch: "i686"@,
                arch: "x86"@,
                vendor: "pc"@,
                os: "windows"@,
                env: "msvc"@,
                abi: ""@,
                unversioned_llvm_target: "i686-pc-windows-msvc"@,
            },
        )    } else if t == "i686-unknown-linux-gnu"@ {
        Some(
            TargetInfoView {
                full_arch: "i686"@,
                arch: "x86"@,
                vendor: "unknown"@,
                os: "linux"@,
                env: "gnu"@,
                abi: ""@,
                unversioned_llvm_target: "i686-unknown-linux-gnu"@,
            },
        )    } else if t == "powerpc64le-unknown-linux-gnu"@ {
        Some(
            TargetInfoView {
                full_arch: "powerpc64le"@,
                arch: "powerpc64"@,
                vendor: "unknown"@,
                os: "linux"@,
                env: "gnu"@,
                abi: ""@,
                unversioned_llvm_target: "powerpc64le-unknown-linux-gnu"@,
            },
        )    } else if t == "riscv64gc-unknown-linux-gnu"@ {
        Some(
            TargetInfoView {
                full_arch: "riscv64gc"@,
                arch: "riscv64"@,
                vendor: "unknown"@,
                os: "linux"@,
                env: "gnu"@,
                abi: ""@,
                unversioned_llvm_target: "riscv64-unknown-linux-gnu"@,
            },
        )    } else if t == "s390x-unknown-linux-gnu"@ {
        Some(
            TargetInfoView {
                full_arch: "s390x"@,
                arch: "s390x"@,
                vendor: "unknown"@,
                os: "linux"@,
                env: "gnu"@,
                abi: ""@,
                unversioned_llvm_target: "s390x-unknown-linux-gnu"@,
            },
        )    } else if t == "wasm32-unknown-unknown"@ {
        Some(
            TargetInfoView {
                full_arch: "wasm32"@,
                arch: "wasm32"@,
                vendor: "unknown"@,
                os: "unknown"@,
                env: ""@,
                abi: ""@,
                unversioned_llvm_target: "wasm32-unknown-unknown"@,
            },
        )    } else if t == "x86_64-apple-darwin"@ {
        Some(
            TargetInfoView {
                full_arch: "x86_64"@,
                arch: "x86_64"@,
                vendor: "apple"@,
                os: "macos"@,
                env: ""@,
                abi: ""@,
                unversioned_llvm_target: "x86_64-apple-macosx"@,
            },
        )    } else if t == "x86_64-apple-ios"@ {
        Some(
            TargetInfoView {
                full_arch: "x86_64"@,
                arch: "x86_64"@,
                vendor: "apple"@,
                os: "ios"@,
                env: ""@,
                abi: "sim"@,
                unversioned_llvm_target: "x86_64-apple-ios-simulator"@,
            },
        )    } else if t == "x86_64-pc-windows-gnu"@ {
        Some(
            TargetInfoView {
                full_arch: "x86_64"@,
                arch: "x86_64"@,
                vendor: "pc"@,
                os: "windows"@,
                env: "gnu"@,
                abi: ""@,
                unversioned_llvm_target: "x86_64-pc-windows-gnu"@,
            },
        )    } else if t == "x86_64-pc-windows-msvc"@ {
        Some(
            TargetInfoView {
                full_arch: "x86_64"@,
                arch: "x86_64"@,
                vendor: "pc"@,
                os: "windows"@,
                env: "msvc"@,
                abi: ""@,
                unversioned_llvm_target: "x86_64-pc-windows-msvc"@,
            },
        )    } else if t == "x86_64-unknown-freebsd"@ {
        Some(
            TargetInfoView {
                full_arch: "x86_64"@,
                arch: "x86_64"@,
                vendor: "unknown"@,
                os: "freebsd"@,
                env: ""@,
                abi: ""@,
                unversioned_llvm_target: "x86_64-unknown-freebsd"@,
            },
        )    } else if t == "x86_64-unknown-linux-gnu"@ {
        Some(
            TargetInfoView {
                full_arch: "x86_64"@,
                arch: "x86_64"@,
                vendor: "unknown"@,
                os: "linux"@,
                env: "gnu"@,
                abi: ""@,
                unversioned_llvm_target: "x86_64-unknown-linux-gnu"@,
            },
        )    } else if t == "x86_64-unknown-linux-musl"@ {
        Some(
            TargetInfoView {
                full_arch: "x86_64"@,
                arch: "x86_64"@,
                vendor: "unknown"@,
                os: "linux"@,
                env: "musl"@,
                abi: ""@,
                unversioned_llvm_target: "x86_64-unknown-linux-musl"@,
            },
        )
    } else {
        None
    }
}

/// Build target information from its parts.
fn mk(
    full_arch: &str,
    arch: &str,
    vendor: &str,
    os: &str,
    env: &str,
    abi: &str,
    unversioned_llvm_target: &str,
) -> (r: TargetInfo)
    ensures
        r@ == (TargetInfoView {
            full_arch: full_arch@,
            arch: arch@,
            vendor: vendor@,
            os: os@,
            env: env@,
            abi: abi@,
            unversioned_llvm_target: unversioned_llvm_target@,
        }),
{
    TargetInfo {
        full_arch: full_arch.to_owned(),
        arch: arch.to_owned(),
        vendor: vendor.to_owned(),
        os: os.to_owned(),
        env: env.to_owned(),
        abi: abi.to_owned(),
        unversioned_llvm_target: unversioned_llvm_target.to_owned(),
    }
}

impl TargetInfo {
    /// Look a target triple up in the table: its information exactly when
    /// the table knows the triple, and an `InvalidTarget` error otherwise.
    pub fn from_str(target_triple: &str) -> (r: Result<TargetInfo, Error>)
        ensures
            match spec_target_info(target_triple@) {
                Some(v) => (r matches Ok(info) && info@ == v),
                None => (r matches Err(e) && e.kind == ErrorKind::InvalidTarget),
            },
    {
        if false {
            Err(Error::new(ErrorKind::InvalidTarget, String::new()))        } else if str_eq(target_triple, "aarch64-apple-darwin") {
            Ok(mk("aarch64", "aarch64", "apple", "macos", "", "", "arm64-apple-macosx"))        } else if str_eq(target_triple, "aarch64-apple-ios") {
            Ok(mk("aarch64", "aarch64", "apple", "ios", "", "", "arm64-apple-ios"))        } else if str_eq(target_triple, "aarch64-apple-ios-sim") {
            Ok(mk("aarch64", "aarch64", "apple", "ios", "", "sim", "arm64-apple-ios-simulator"))        } else if str_eq(target_triple, "aarch64-linux-android") {
            Ok(mk("aarch64", "aarch64", "unknown", "android", "", "", "aarch64-linux-android"))        } else if str_eq(target_triple, "aarch64-pc-windows-msvc") {
            Ok(mk("aarch64", "aarch64", "pc", "windows", "msvc", "", "aarch64-pc-windows-msvc"))        } else if str_eq(target_triple, "aarch64-unknown-linux-gnu") {
            Ok(mk("aarch64", "aarch64", "unknown", "linux", "gnu", "", "aarch64-unknown-linux-gnu"))        } else if str_eq(target_triple, "aarch64-unknown-linux-musl") {
            Ok(mk("aarch64", "aarch64", "unknown", "linux", "musl", "", "aarch64-unknown-linux-musl"))        } else if str_eq(target_triple, "arm-linux-androideabi") {
            Ok(mk("arm", "arm", "unknown", "android", "", "eabi", "arm-linux-androideabi"))        } else if str_eq(target_triple, "arm-unknown-linux-gnueabi") {
            Ok(mk("arm", "arm", "unknown", "linux", "gnu", "eabi", "arm-unknown-linux-gnueabi"))        } else if str_eq(target_triple, "arm-unknown-linux-gnueabihf") {
            Ok(mk("arm", "arm", "unknown", "linux", "gnu", "eabihf", "arm-unknown-linux-gnueabihf"))        } else if str_eq(target_triple, "armv7-linux-androideabi") {
            Ok(mk("armv7", "arm", "unknown", "android", "", "eabi", "armv7-none-linux-androideabi"))        } else if str_eq(target_triple, "armv7-unknown-linux-gnueabihf") {
            Ok(mk("armv7", "arm", "unknown", "linux", "gnu", "eabihf", "armv7-unknown-linux-gnueabihf"))        } else if str_eq(target_triple, "i586-unknown-linux-gnu") {
            Ok(mk("i586", "x86", "unknown", "linux", "gnu", "", "i586-unknown-linux-gnu"))        } else if str_eq(target_triple, "i686-pc-windows-gnu") {
            Ok(mk("i686", "x86", "pc", "windows", "gnu", "", "i686-pc-windows-gnu"))        } else if str_eq(target_triple, "i686-pc-windows-msvc") {
            Ok(mk("i686", "x86", "pc", "windows", "msvc", "", "i686-pc-windows-msvc"))        } else if str_eq(target_triple, "i686-unknown-linux-gnu") {
            Ok(mk("i686", "x86", "unknown", "linux", "gnu", "", "i686-unknown-linux-gnu"))        } else if str_eq(target_triple, "powerpc64le-unknown-linux-gnu") {
            Ok(mk("powerpc64le", "powerpc64", "unknown", "linux", "gnu", "", "powerpc64le-unknown-linux-gnu"))        } else if str_eq(target_triple, "riscv64gc-unknown-linux-gnu") {
            Ok(mk("riscv64gc", "riscv64", "unknown", "linux", "gnu", "", "riscv64-unknown-linux-gnu"))        } else if str_eq(target_triple, "s390x-unknown-linux-gnu") {
            Ok(mk("s390x", "s390x", "unknown", "linux", "gnu", "", "s390x-unknown-linux-gnu"))        } else if str_eq(target_triple, "wasm32-unknown-unknown") {
            Ok(mk("wasm32", "wasm32", "unknown", "unknown", "", "", "wasm32-unknown-unknown"))        } else if str_eq(target_triple, "x86_64-apple-darwin") {
            Ok(mk("x86_64", "x86_64", "apple", "macos", "", "", "x86_64-apple-macosx"))        } else if str_eq(target_triple, "x86_64-apple-ios") {
            Ok(mk("x86_64", "x86_64", "apple", "ios", "", "sim", "x86_64-apple-ios-simulator"))        } else if str_eq(target_triple, "x86_64-pc-windows-gnu") {
            Ok(mk("x86_64", "x86_64", "pc", "windows", "gnu", "", "x86_64-pc-windows-gnu"))        } else if str_eq(target_triple, "x86_64-pc-windows-msvc") {
            Ok(mk("x86_64", "x86_64", "pc", "windows", "msvc", "", "x86_64-pc-windows-msvc"))        } else if str_eq(target_triple, "x86_64-unknown-freebsd") {
            Ok(mk("x86_64", "x86_64", "unknown", "freebsd", "", "", "x86_64-unknown-freebsd"))        } else if str_eq(target_triple, "x86_64-unknown-linux-gnu") {
            Ok(mk("x86_64", "x86_64", "unknown", "linux", "gnu", "", "x86_64-unknown-linux-gnu"))        } else if str_eq(target_triple, "x86_64-unknown-linux-musl") {
            Ok(mk("x86_64", "x86_64", "unknown", "linux", "musl", "", "x86_64-unknown-linux-musl"))
        } else {
            let mut message = String::new();
            message.append("unknown target `");
            message.append(target_triple);
            message.append("`");
            Err(Error::new(ErrorKind::InvalidTarget, message))
        }
    }
}


/// The view of an optional borrowed string.
pub open spec fn opt_str_view(o: Option<&str>) -> Option<Seq<char>> {
    match o {
        None => None,
        Some(s) => Some(s@),
    }
}

/// What the build environment determines a target to be. The triple itself
/// must be present; its full architecture is everything before the first
/// dash. Each remaining field prefers the build environment's own value and
/// falls back to the table; a field with neither is an error, except the
/// ABI, which falls back to empty. The LLVM triple comes from the table, or
/// is the triple itself for a triple the table does not know.
pub open spec fn spec_target_from_env(
    triple: Option<Seq<char>>,
    arch: Option<Seq<char>>,
    vendor: Option<Seq<char>>,
    os: Option<Seq<char>>,
    env: Option<Seq<char>>,
    abi: Option<Seq<char>>,
) -> Result<TargetInfoView, ErrorKind> {
    match triple {
        None => Err(ErrorKind::EnvVarNotFound),
        Some(t) => {
            if spec_split_once(t, '-').1 is None {
                Err(ErrorKind::InvalidTarget)
            } else {
                let full_arch = spec_split_once(t, '-').0;
                let fallback = spec_target_info(t);
                match (spec_env_field(arch, fallback_arch(fallback)), spec_env_field(vendor, fallback_vendor(fallback)), spec_env_field(os, fallback_os(fallback)), spec_env_field(env, fallback_env(fallback))) {
                    (Some(a), Some(v), Some(o), Some(e)) => Ok(
                        TargetInfoView {
                            full_arch: full_arch,
                            arch: a,
                            vendor: v,
                            os: o,
                            env: e,
                            abi: match spec_env_field(abi, fallback_abi(fallback)) {
                                Some(x) => x,
                                None => Seq::empty(),
                            },
                            unversioned_llvm_target: match fallback {
                                Some(f) => f.unversioned_llvm_target,
                                None => t,
                            },
                        },
                    ),
                    _ => Err(ErrorKind::EnvVarNotFound),
                }
            }
        },
    }
}

/// A field from the environment, or from the table when the environment
/// does not set it.
pub open spec fn spec_env_field(env_value: Option<Seq<char>>, fallback: Option<Seq<char>>) -> Option<
    Seq<char>,
> {
    match env_value {
        Some(v) => Some(v),
        None => fallback,
    }
}

/// The table's architecture for a triple it knows.
pub open spec fn fallback_arch(f: Option<TargetInfoView>) -> Option<Seq<char>> {
    match f {
        Some(v) => Some(v.arch),
        None => None,
    }
}

/// The table's vendor for a triple it knows.
pub open spec fn fallback_vendor(f: Option<TargetInfoView>) -> Option<Seq<char>> {
    match f {
        Some(v) => Some(v.vendor),
        None => None,
    }
}

/// The table's operating system for a triple it knows.
pub open spec fn fallback_os(f: Option<TargetInfoView>) -> Option<Seq<char>> {
    match f {
        Some(v) => Some(v.os),
        None => None,
    }
}

/// The table's environment for a triple it knows.
pub open spec fn fallback_env(f: Option<TargetInfoView>) -> Option<Seq<char>> {
    match f {
        Some(v) => Some(v.env),
        None => None,
    }
}

/// The table's ABI for a triple it knows.
pub open spec fn fallback_abi(f: Option<TargetInfoView>) -> Option<Seq<char>> {
    match f {
        Some(v) => Some(v.abi),
        None => None,
    }
}

impl TargetInfo {
    /// Determine the target from the values the build environment provides,
    /// as [`spec_target_from_env`] describes. The embedding program reads
    /// the variables; this decides what they mean, preferring the
    /// environment's own values over the table so custom target definitions
    /// keep working.
    pub fn from_cargo_environment_variables(
        triple: Option<&str>,
        arch: Option<&str>,
        vendor: Option<&str>,
        os: Option<&str>,
        env: Option<&str>,
        abi: Option<&str>,
    ) -> (r: Result<TargetInfo, Error>)
        ensures
            match spec_target_from_env(
                opt_str_view(triple),
                opt_str_view(arch),
                opt_str_view(vendor),
                opt_str_view(os),
                opt_str_view(env),
                opt_str_view(abi),
            ) {
                Ok(v) => (r matches Ok(info) && info@ == v),
                Err(kind) => (r matches Err(e) && e.kind == kind),
            },
    {
        let t = match triple {
            Some(t) => t,
            None => {
                return Err(
                    Error::new(ErrorKind::EnvVarNotFound, "the target triple is not set".to_owned()),
                );
            },
        };
        let (full_arch, rest) = split_once_char(t, '-');
        if rest.is_none() {
            return Err(
                Error::new(ErrorKind::InvalidTarget, "the target triple has no architecture".to_owned()),
            );
        }
        let fallback = match TargetInfo::from_str(t) {
            Ok(f) => Some(f),
            Err(u) => None,
        };
        let arch_v = match Self::pick_field(arch, &fallback, FallbackField::Arch) {
            Some(v) => v,
            None => {
                return Err(
                    Error::new(ErrorKind::EnvVarNotFound, "the target architecture is not set".to_owned()),
                );
            },
        };
        let vendor_v = match Self::pick_field(vendor, &fallback, FallbackField::Vendor) {
            Some(v) => v,
            None => {
                return Err(
                    Error::new(ErrorKind::EnvVarNotFound, "the target vendor is not set".to_owned()),
                );
            },
        };
        let os_v = match Self::pick_field(os, &fallback, FallbackField::Os) {
            Some(v) => v,
            None => {
                return Err(
                    Error::new(ErrorKind::EnvVarNotFound, "the target operating system is not set".to_owned()),
                );
            },
        };
        let env_v = match Self::pick_field(env, &fallback, FallbackField::Env) {
            Some(v) => v,
            None => {
                return Err(
                    Error::new(ErrorKind::EnvVarNotFound, "the target environment is not set".to_owned()),
                );
            },
        };
        let abi_v = match Self::pick_field(abi, &fallback, FallbackField::Abi) {
            Some(v) => v,
            None => String::new(),
        };
        let llvm = match &fallback {
            Some(f) => f.unversioned_llvm_target.clone(),
            None => t.to_owned(),
        };
        Ok(
            TargetInfo {
                full_arch: full_arch.to_owned(),
                arch: arch_v,
                vendor: vendor_v,
                os: os_v,
                env: env_v,
                abi: abi_v,
                unversioned_llvm_target: llvm,
            },
        )
    }

    /// One field: the environment's value, or the table's.
    fn pick_field(env_value: Option<&str>, fallback: &Option<TargetInfo>, which: FallbackField)
        -> (r: Option<String>)
        ensures
            match spec_env_field(
                opt_str_view(env_value),
                match which {
                    FallbackField::Arch => fallback_arch(spec_fallback_view(*fallback)),
                    FallbackField::Vendor => fallback_vendor(spec_fallback_view(*fallback)),
                    FallbackField::Os => fallback_os(spec_fallback_view(*fallback)),
                    FallbackField::Env => fallback_env(spec_fallback_view(*fallback)),
                    FallbackField::Abi => fallback_abi(spec_fallback_view(*fallback)),
                },
            ) {
                Some(v) => (r matches Some(w) && w@ == v),
                None => r is None,
            },
    {
        match env_value {
            Some(v) => Some(v.to_owned()),
            None => match fallback {
                Some(f) => Some(
                    match which {
                        FallbackField::Arch => f.arch.clone(),
                        FallbackField::Vendor => f.vendor.clone(),
                        FallbackField::Os => f.os.clone(),
                        FallbackField::Env => f.env.clone(),
                        FallbackField::Abi => f.abi.clone(),
                    },
                ),
                None => None,
            },
        }
    }
}

/// Which field of the table a fallback read takes.
#[derive(Clone, Copy, Debug, PartialEq, Eq, Structural)]
pub enum FallbackField {
    /// The overall architecture.
    Arch,
    /// The vendor.
    Vendor,
    /// The operating system.
    Os,
    /// The environment.
    Env,
    /// The ABI.
    Abi,
}

/// An optional target by its view.
pub open spec fn spec_fallback_view(f: Option<TargetInfo>) -> Option<TargetInfoView> {
    match f {
        Some(v) => Some(v@),
        None => None,
    }
}

} // verus!
