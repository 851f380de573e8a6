//! The build configuration: which files to compile, with which options,
//! and the exact compiler and archiver command lines those options produce.
//!
//! Everything here is a decision on plain values. Reading environment
//! variables, probing installations and running the tools is the embedding
//! program's work; it hands the values in and receives finished argument
//! lists back.

use vstd::prelude::*;
use vstd::string::StrSliceExecFns;
use vstd::string::StringExecFns;

use crate::error::{Error, ErrorKind};
use crate::strutil::{
    extend_strings, push_str, push_string, spec_contains, spec_ends_with, spec_starts_with,
    str_contains, str_ends_with, str_starts_with, str_eq, split_char, spec_split, lemma_split_len,
};

verus! {

/// Extra configuration for the compiler, gathered by the builder methods.
#[derive(Debug, PartialEq, Eq, Clone)]
pub struct Config {
    /// Directories for the include path.
    pub include_directories: Vec<String>,
    /// Preprocessor definitions, each with an optional value.
    pub definitions: Vec<(String, Option<String>)>,
    /// Extra object files to link in.
    pub objects: Vec<String>,
    /// Extra flags for the compiler invocation.
    pub flags: Vec<String>,
    /// The files to compile.
    pub files: Vec<String>,
    /// Whether the sources are C++.
    pub cpp: bool,
    /// The C++ standard library to link, if overridden.
    pub cpp_link_stdlib: Option<Option<String>>,
    /// The C++ standard library to compile against, if forced.
    pub cpp_set_stdlib: Option<String>,
    /// The target triple, if set explicitly.
    pub target: Option<String>,
    /// The host triple, if set explicitly.
    pub host: Option<String>,
    /// The output directory, if set explicitly.
    pub out_dir: Option<String>,
    /// The optimization level, if set explicitly.
    pub opt_level: Option<u32>,
    /// Whether to emit debug information, if set explicitly.
    pub debug: Option<bool>,
    /// Extra environment entries for spawned tools.
    pub env: Vec<(String, String)>,
    /// The compiler, if set explicitly.
    pub compiler: Option<String>,
    /// The archiver, if set explicitly.
    pub archiver: Option<String>,
    /// Whether to print metadata lines for the build orchestrator.
    pub cargo_metadata: bool,
}

/// A blank configuration: no files, no options, metadata on.
pub open spec fn spec_blank_config(c: Config) -> bool {
    &&& c.include_directories@.len() == 0
    &&& c.definitions@.len() == 0
    &&& c.objects@.len() == 0
    &&& c.flags@.len() == 0
    &&& c.files@.len() == 0
    &&& !c.cpp
    &&& c.cpp_link_stdlib is None
    &&& c.cpp_set_stdlib is None
    &&& c.target is None
    &&& c.host is None
    &&& c.out_dir is None
    &&& c.opt_level is None
    &&& c.debug is None
    &&& c.env@.len() == 0
    &&& c.compiler is None
    &&& c.archiver is None
    &&& c.cargo_metadata
}

impl Config {
    /// A blank set of configuration, finished with the compile step.
    pub fn new() -> (c: Config)
        ensures
            spec_blank_config(c),
    {
        Config {
            include_directories: Vec::new(),
            definitions: Vec::new(),
            objects: Vec::new(),
            flags: Vec::new(),
            files: Vec::new(),
            cpp: false,
            cpp_link_stdlib: None,
            cpp_set_stdlib: None,
            target: None,
            host: None,
            out_dir: None,
            opt_level: None,
            debug: None,
            env: Vec::new(),
            compiler: None,
            archiver: None,
            cargo_metadata: true,
        }
    }

    /// Add a directory to the include path.
    pub fn include_dir(&mut self, dir: &str)
        ensures
            *final(self) == (Config {
                include_directories: final(self).include_directories,
                ..*old(self)
            }),
            final(self).include_directories@.map_values(|a: String| a@) == old(self).include_directories@.map_values(|a: String| a@).push(dir@),
    {
        push_str(&mut self.include_directories, dir);
    }

    /// Add a preprocessor definition with an optional value.
    pub fn define(&mut self, var: &str, val: Option<&str>)
        ensures
            *final(self) == (Config { definitions: final(self).definitions, ..*old(self) }),
            final(self).definitions@.len() == old(self).definitions@.len() + 1,
            final(self).definitions@.drop_last() == old(self).definitions@,
            final(self).definitions@.last().0@ == var@,
            match val {
                Some(v) => final(self).definitions@.last().1 matches Some(w) && w@ == v@,
                None => final(self).definitions@.last().1 is None,
            },
    {
        let owned_val = match val {
            Some(v) => Some(v.to_owned()),
            None => None,
        };
        self.definitions.push((var.to_owned(), owned_val));
        proof {
            assert(self.definitions@.drop_last() =~= old(self).definitions@);
        }
    }

    /// Add an object file to link in as it stands.
    pub fn object(&mut self, obj: &str)
        ensures
            *final(self) == (Config { objects: final(self).objects, ..*old(self) }),
            final(self).objects@.map_values(|a: String| a@) == old(self).objects@.map_values(
                |a: String| a@,
            ).push(obj@),
    {
        push_str(&mut self.objects, obj);
    }

    /// Add an arbitrary flag to the compiler invocation.
    pub fn flag(&mut self, flag: &str)
        ensures
            *final(self) == (Config { flags: final(self).flags, ..*old(self) }),
            final(self).flags@.map_values(|a: String| a@) == old(self).flags@.map_values(
                |a: String| a@,
            ).push(flag@),
    {
        push_str(&mut self.flags, flag);
    }

    /// Add a file to be compiled.
    pub fn file(&mut self, p: &str)
        ensures
            *final(self) == (Config { files: final(self).files, ..*old(self) }),
            final(self).files@.map_values(|a: String| a@) == old(self).files@.map_values(
                |a: String| a@,
            ).push(p@),
    {
        push_str(&mut self.files, p);
    }

    /// Set C++ support; the other C++ options only apply when this is on.
    pub fn cpp(&mut self, cpp: bool)
        ensures
            *final(self) == (Config { cpp, ..*old(self) }),
    {
        self.cpp = cpp;
    }

    /// Set the C++ standard library to link against, or none.
    pub fn cpp_link_stdlib(&mut self, cpp_link_stdlib: Option<&str>)
        ensures
            *final(self) == (Config { cpp_link_stdlib: final(self).cpp_link_stdlib, ..*old(self) }),
            match cpp_link_stdlib {
                Some(v) => final(self).cpp_link_stdlib matches Some(Some(w)) && w@ == v@,
                None => final(self).cpp_link_stdlib == Some(Option::<String>::None),
            },
    {
        self.cpp_link_stdlib = Some(
            match cpp_link_stdlib {
                Some(v) => Some(v.to_owned()),
                None => None,
            },
        );
    }

    /// Force the C++ compiler to use the given standard library, which also
    /// links against it.
    pub fn cpp_set_stdlib(&mut self, cpp_set_stdlib: Option<&str>)
        ensures
            *final(self) == (Config {
                cpp_set_stdlib: final(self).cpp_set_stdlib,
                cpp_link_stdlib: final(self).cpp_link_stdlib,
                ..*old(self)
            }),
            match cpp_set_stdlib {
                Some(v) => (final(self).cpp_set_stdlib matches Some(w) && w@ == v@) && (final(self).cpp_link_stdlib matches Some(Some(u)) && u@ == v@),
                None => final(self).cpp_set_stdlib is None && final(self).cpp_link_stdlib == Some(
                    Option::<String>::None,
                ),
            },
    {
        self.cpp_set_stdlib = match cpp_set_stdlib {
            Some(v) => Some(v.to_owned()),
            None => None,
        };
        self.cpp_link_stdlib(cpp_set_stdlib);
    }

    /// Set the target triple this configuration compiles for.
    pub fn target(&mut self, target: &str)
        ensures
            *final(self) == (Config { target: final(self).target, ..*old(self) }),
            final(self).target matches Some(t) && t@ == target@,
    {
        self.target = Some(target.to_owned());
    }

    /// Set the host triple this configuration assumes.
    pub fn host(&mut self, host: &str)
        ensures
            *final(self) == (Config { host: final(self).host, ..*old(self) }),
            final(self).host matches Some(t) && t@ == host@,
    {
        self.host = Some(host.to_owned());
    }

    /// Set the optimization level for generated objects.
    pub fn opt_level(&mut self, opt_level: u32)
        ensures
            *final(self) == (Config { opt_level: Some(opt_level), ..*old(self) }),
    {
        self.opt_level = Some(opt_level);
    }

    /// Set whether generated objects carry debug information.
    pub fn debug(&mut self, debug: bool)
        ensures
            *final(self) == (Config { debug: Some(debug), ..*old(self) }),
    {
        self.debug = Some(debug);
    }

    /// Set the directory where objects and archives are placed.
    pub fn out_dir(&mut self, out_dir: &str)
        ensures
            *final(self) == (Config { out_dir: final(self).out_dir, ..*old(self) }),
            final(self).out_dir matches Some(t) && t@ == out_dir@,
    {
        self.out_dir = Some(out_dir.to_owned());
    }

    /// Set the compiler used to produce output.
    pub fn compiler(&mut self, compiler: &str)
        ensures
            *final(self) == (Config { compiler: final(self).compiler, ..*old(self) }),
            final(self).compiler matches Some(t) && t@ == compiler@,
    {
        self.compiler = Some(compiler.to_owned());
    }

    /// Set the tool used to assemble archives.
    pub fn archiver(&mut self, archiver: &str)
        ensures
            *final(self) == (Config { archiver: final(self).archiver, ..*old(self) }),
            final(self).archiver matches Some(t) && t@ == archiver@,
    {
        self.archiver = Some(archiver.to_owned());
    }

    /// Set whether metadata lines are printed for the build orchestrator.
    pub fn cargo_metadata(&mut self, cargo_metadata: bool)
        ensures
            *final(self) == (Config { cargo_metadata, ..*old(self) }),
    {
        self.cargo_metadata = cargo_metadata;
    }

    /// Add an environment entry for spawned tools.
    pub fn __set_env(&mut self, a: &str, b: &str)
        ensures
            *final(self) == (Config { env: final(self).env, ..*old(self) }),
            final(self).env@.len() == old(self).env@.len() + 1,
            final(self).env@.drop_last() == old(self).env@,
            final(self).env@.last().0@ == a@,
            final(self).env@.last().1@ == b@,
    {
        self.env.push((a.to_owned(), b.to_owned()));
        proof {
            assert(self.env@.drop_last() =~= old(self).env@);
        }
    }

    /// The default C++ standard library for a target, unless one was set:
    /// none for MSVC targets, `c++` for Apple platforms and `stdc++`
    /// elsewhere.
    pub fn get_cpp_link_stdlib(&self, target: &str) -> (r: Option<String>)
        ensures
            match self.cpp_link_stdlib {
                Some(explicit) => match explicit {
                    Some(v) => (r matches Some(w) && w@ == v@),
                    None => r is None,
                },
                None => {
                    if spec_contains(target@, "msvc"@) {
                        r is None
                    } else if spec_contains(target@, "darwin"@) {
                        (r matches Some(w) && w@ == "c++"@)
                    } else {
                        (r matches Some(w) && w@ == "stdc++"@)
                    }
                },
            },
    {
        match &self.cpp_link_stdlib {
            Some(explicit) => match explicit {
                Some(v) => Some(v.clone()),
                None => None,
            },
            None => {
                if str_contains(target, "msvc") {
                    None
                } else if str_contains(target, "darwin") {
                    Some("c++".to_owned())
                } else {
                    Some("stdc++".to_owned())
                }
            },
        }
    }

    /// The archiver to use: the configured one, then the environment's,
    /// then the target-prefixed archiver on Android, then plain `ar`.
    pub fn get_ar(&self, env_ar: Option<&str>, target: &str) -> (r: String)
        ensures
            match self.archiver {
                Some(a) => r@ == a@,
                None => match env_ar {
                    Some(a) => r@ == a@,
                    None => {
                        if spec_contains(target@, "android"@) {
                            r@ == target@ + "-ar"@
                        } else {
                            r@ == "ar"@
                        }
                    },
                },
            },
    {
        match &self.archiver {
            Some(a) => a.clone(),
            None => match env_ar {
                Some(a) => a.to_owned(),
                None => {
                    if str_contains(target, "android") {
                        let mut s = String::new();
                        s.append(target);
                        s.append("-ar");
                        proof {
                            assert(s@ =~= target@ + "-ar"@);
                        }
                        s
                    } else {
                        "ar".to_owned()
                    }
                },
            },
        }
    }

    /// The four environment variable names consulted for a tool variable,
    /// most specific first: the variable with the target triple appended,
    /// the same with dashes as underscores, the host/target-kind form, and
    /// the bare variable.
    pub fn env_var_names(var_base: &str, target: &str, host: &str) -> (r: Vec<String>)
        ensures
            r@.map_values(|a: String| a@) == seq![
                var_base@ + "_"@ + target@,
                var_base@ + "_"@ + crate::strutil::spec_replace_char(target@, '-', '_'),
                (if target@ == host@ {
                    "HOST_"@
                } else {
                    "TARGET_"@
                }) + var_base@,
                var_base@,
            ],
    {
        let mut r: Vec<String> = Vec::new();
        let mut n1 = String::new();
        n1.append(var_base);
        n1.append("_");
        n1.append(target);
        proof {
            assert(n1@ =~= var_base@ + "_"@ + target@);
        }
        push_string(&mut r, n1);
        let underscored = crate::strutil::dashes_to_underscores(target);
        let mut n2 = String::new();
        n2.append(var_base);
        n2.append("_");
        n2.append(underscored.as_str());
        proof {
            assert(n2@ =~= var_base@ + "_"@ + crate::strutil::spec_replace_char(
                target@,
                '-',
                '_',
            ));
        }
        push_string(&mut r, n2);
        let kind: &str = if str_eq(target, host) {
            "HOST_"
        } else {
            "TARGET_"
        };
        let mut n3 = String::new();
        n3.append(kind);
        n3.append(var_base);
        proof {
            assert(n3@ =~= (if target@ == host@ {
                "HOST_"@
            } else {
                "TARGET_"@
            }) + var_base@);
        }
        push_string(&mut r, n3);
        push_str(&mut r, var_base);
        proof {
            assert(r@.map_values(|a: String| a@) =~= seq![
                var_base@ + "_"@ + target@,
                var_base@ + "_"@ + crate::strutil::spec_replace_char(target@, '-', '_'),
                (if target@ == host@ {
                    "HOST_"@
                } else {
                    "TARGET_"@
                }) + var_base@,
                var_base@,
            ]);
        }
        r
    }

    /// The first value present among the candidates, in order: how a tool
    /// variable read under several names resolves.
    pub fn first_env_value(values: Vec<Option<String>>) -> (r: Option<String>)
        ensures
            match r {
                Some(v) => exists|i: int|
                    0 <= i < values@.len() && ((#[trigger] values@[i]) matches Some(w) && w == v)
                        && (forall|k: int| 0 <= k < i ==> (#[trigger] values@[k]) is None),
                None => forall|k: int| 0 <= k < values@.len() ==> (#[trigger] values@[k]) is None,
            },
    {
        let mut i: usize = 0;
        while i < values.len()
            invariant
                0 <= i <= values@.len(),
                forall|k: int| 0 <= k < i ==> (#[trigger] values@[k]) is None,
            decreases values@.len() - i,
        {
            match &values[i] {
                Some(v) => {
                    return Some(v.clone());
                },
                None => {},
            }
            i = i + 1;
        }
        None
    }
}

/// A configuration that is blank in everything but its file list.
pub open spec fn spec_blank_but_files(c: Config) -> bool {
    &&& c.include_directories@.len() == 0
    &&& c.definitions@.len() == 0
    &&& c.objects@.len() == 0
    &&& c.flags@.len() == 0
    &&& !c.cpp
    &&& c.cpp_link_stdlib is None
    &&& c.cpp_set_stdlib is None
    &&& c.target is None
    &&& c.host is None
    &&& c.out_dir is None
    &&& c.opt_level is None
    &&& c.debug is None
    &&& c.env@.len() == 0
    &&& c.compiler is None
    &&& c.archiver is None
    &&& c.cargo_metadata
}

/// Build the configuration for compiling the given files into the given
/// static library. The library name must carry the `lib` prefix and the
/// `.a` suffix.
pub fn compile_library(output: &str, files: &Vec<String>) -> (c: Config)
    requires
        spec_starts_with(output@, "lib"@),
        spec_ends_with(output@, ".a"@),
    ensures
        c.files@.map_values(|a: String| a@) == files@.map_values(|a: String| a@),
        spec_blank_but_files(c),
{
    let mut c = Config::new();
    let mut i: usize = 0;
    while i < files.len()
        invariant
            0 <= i <= files@.len(),
            c.files@.map_values(|a: String| a@) == files@.map_values(|a: String| a@).take(i as int),
            spec_blank_but_files(c),
        decreases files@.len() - i,
    {
        c.file(files[i].as_str());
        proof {
            assert(files@.map_values(|a: String| a@).take(i as int).push(files@[i as int]@)
                =~= files@.map_values(|a: String| a@).take(i + 1));
        }
        i = i + 1;
    }
    proof {
        assert(files@.map_values(|a: String| a@).take(i as int) =~= files@.map_values(
            |a: String| a@,
        ));
    }
    c
}


/// The first arguments of a compile: the MSVC runtime and optimization
/// switches, or the optimization level, compile-only switch and section
/// flags everywhere else.
pub open spec fn spec_base_args(msvc: bool, opt_level: u32) -> Seq<Seq<char>> {
    if msvc {
        seq!["/MD"@] + if opt_level != 0 {
            seq!["/O2"@]
        } else {
            Seq::empty()
        }
    } else {
        seq![
            "-O"@ + crate::strutil::spec_decimal(opt_level as int),
            "-c"@,
            "-ffunction-sections"@,
            "-fdata-sections"@,
        ]
    }
}

/// The debug switch, when debug information is wanted.
pub open spec fn spec_debug_args(msvc: bool, debug: bool) -> Seq<Seq<char>> {
    if debug {
        if msvc {
            seq!["/Z7"@]
        } else {
            seq!["-g"@]
        }
    } else {
        Seq::empty()
    }
}

/// The architecture switches an Apple mobile target needs, keyed by the
/// first segment of the triple: a device architecture for the device
/// targets, a word-size switch for the simulators, and nothing else.
pub open spec fn spec_ios_arch_args(target: Seq<char>) -> Option<Seq<Seq<char>>> {
    let arch = spec_split(target, '-')[0];
    if arch == "arm"@ || arch == "armv7"@ || arch == "thumbv7"@ {
        Some(seq!["-arch"@, "armv7"@])
    } else if arch == "armv7s"@ || arch == "thumbv7s"@ {
        Some(seq!["-arch"@, "armv7s"@])
    } else if arch == "arm64"@ || arch == "aarch64"@ {
        Some(seq!["-arch"@, "arm64"@])
    } else if arch == "i386"@ || arch == "i686"@ {
        Some(seq!["-m32"@])
    } else if arch == "x86_64"@ {
        Some(seq!["-m64"@])
    } else {
        None
    }
}

/// The software-development-kit name an Apple mobile target builds
/// against: the device kit for device targets, the simulator kit for the
/// simulators.
pub open spec fn spec_ios_sdk_name(target: Seq<char>) -> Option<Seq<char>> {
    let arch = spec_split(target, '-')[0];
    if arch == "arm"@ || arch == "armv7"@ || arch == "thumbv7"@ || arch == "armv7s"@ || arch
        == "thumbv7s"@ || arch == "arm64"@ || arch == "aarch64"@ {
        Some("iphoneos"@)
    } else if arch == "i386"@ || arch == "i686"@ || arch == "x86_64"@ {
        Some("iphonesimulator"@)
    } else {
        None
    }
}

/// The architecture switches of a non-Apple, non-MSVC target: a word-size
/// switch where the triple names one, and position-independent code
/// everywhere but 32-bit x86 and Windows.
pub open spec fn spec_gnu_arch_args(target: Seq<char>) -> Seq<Seq<char>> {
    (if spec_contains(target, "i686"@) {
        seq!["-m32"@]
    } else if spec_contains(target, "x86_64"@) {
        seq!["-m64"@]
    } else {
        Seq::empty()
    }) + (if !spec_contains(target, "i686"@) && !spec_contains(target, "windows-gnu"@) {
        seq!["-fPIC"@]
    } else {
        Seq::empty()
    })
}

/// The forced C++ standard library switch, when one applies.
pub open spec fn spec_stdlib_args(c: Config, msvc: bool) -> Seq<Seq<char>> {
    if c.cpp && !msvc {
        match c.cpp_set_stdlib {
            Some(lib) => seq!["-stdlib=lib"@ + lib@],
            None => Seq::empty(),
        }
    } else {
        Seq::empty()
    }
}

/// The include-path switches: one switch and one directory per entry.
pub open spec fn spec_include_args(dirs: Seq<Seq<char>>, msvc: bool) -> Seq<Seq<char>>
    decreases dirs.len(),
{
    if dirs.len() == 0 {
        Seq::empty()
    } else {
        spec_include_args(dirs.drop_last(), msvc) + seq![
            if msvc {
                "/I"@
            } else {
                "-I"@
            },
            dirs.last(),
        ]
    }
}

/// One preprocessor definition as a single argument.
pub open spec fn spec_one_define(def: (Seq<char>, Option<Seq<char>>), msvc: bool) -> Seq<char> {
    (if msvc {
        "/"@
    } else {
        "-"@
    }) + "D"@ + def.0 + match def.1 {
        Some(v) => "="@ + v,
        None => Seq::<char>::empty(),
    }
}

/// The preprocessor-definition arguments, one per definition.
pub open spec fn spec_define_args(defs: Seq<(Seq<char>, Option<Seq<char>>)>, msvc: bool) -> Seq<
    Seq<char>,
>
    decreases defs.len(),
{
    if defs.len() == 0 {
        Seq::empty()
    } else {
        spec_define_args(defs.drop_last(), msvc) + seq![spec_one_define(defs.last(), msvc)]
    }
}

/// A definition list by the views of its parts.
pub open spec fn spec_defs_view(defs: Seq<(String, Option<String>)>) -> Seq<
    (Seq<char>, Option<Seq<char>>),
> {
    defs.map_values(
        |d: (String, Option<String>)|
            (
                d.0@,
                match d.1 {
                    Some(v) => Some(v@),
                    None => None,
                },
            ),
    )
}

/// The whole compiler argument list (after the compiler itself) that a
/// configuration produces: the base switches, then the environment's extra
/// flags, the debug switch, the architecture switches (Apple mobile
/// targets also get the system root handed in by the caller), the forced
/// C++ standard library, the include path, the user flags and the
/// preprocessor definitions, in that order. An Apple mobile target whose
/// architecture the library does not know has no argument list.
pub open spec fn spec_compile_cmd_args(
    c: Config,
    target: Seq<char>,
    opt_level: u32,
    debug: bool,
    envflags: Seq<Seq<char>>,
    ios_sysroot: Seq<char>,
) -> Option<Seq<Seq<char>>> {
    let msvc = spec_contains(target, "msvc"@);
    let middle = if spec_contains(target, "-ios"@) {
        match spec_ios_arch_args(target) {
            Some(a) => Some(a + seq!["-isysroot"@, ios_sysroot]),
            None => None,
        }
    } else if !msvc {
        Some(spec_gnu_arch_args(target))
    } else {
        Some(Seq::empty())
    };
    match middle {
        Some(mid) => Some(
            spec_base_args(msvc, opt_level) + envflags + spec_debug_args(msvc, debug) + mid
                + spec_stdlib_args(c, msvc) + spec_include_args(
                c.include_directories@.map_values(|a: String| a@),
                msvc,
            ) + c.flags@.map_values(|a: String| a@) + spec_define_args(
                spec_defs_view(c.definitions@),
                msvc,
            ),
        ),
        None => None,
    }
}

impl Config {
    /// The architecture switches for an Apple mobile target, as
    /// [`spec_ios_arch_args`] describes; an unknown architecture is an
    /// `InvalidTarget` error.
    pub fn ios_arch_args(target: &str) -> (r: Result<Vec<String>, Error>)
        ensures
            match spec_ios_arch_args(target@) {
                Some(a) => (r matches Ok(v) && v@.map_values(|x: String| x@) == a),
                None => (r matches Err(e) && e.kind == ErrorKind::InvalidTarget),
            },
    {
        let parts = split_char(target, '-');
        proof {
            lemma_split_len(target@, '-');
            assert(parts@.map_values(|p: String| p@).len() == parts@.len());
        }
        let arch = parts[0].as_str();
        let mut v: Vec<String> = Vec::new();
        if str_eq(arch, "arm") || str_eq(arch, "armv7") || str_eq(arch, "thumbv7") {
            push_str(&mut v, "-arch");
            push_str(&mut v, "armv7");
            proof {
                assert(v@.map_values(|x: String| x@) =~= seq!["-arch"@, "armv7"@]);
            }
            Ok(v)
        } else if str_eq(arch, "armv7s") || str_eq(arch, "thumbv7s") {
            push_str(&mut v, "-arch");
            push_str(&mut v, "armv7s");
            proof {
                assert(v@.map_values(|x: String| x@) =~= seq!["-arch"@, "armv7s"@]);
            }
            Ok(v)
        } else if str_eq(arch, "arm64") || str_eq(arch, "aarch64") {
            push_str(&mut v, "-arch");
            push_str(&mut v, "arm64");
            proof {
                assert(v@.map_values(|x: String| x@) =~= seq!["-arch"@, "arm64"@]);
            }
            Ok(v)
        } else if str_eq(arch, "i386") || str_eq(arch, "i686") {
            push_str(&mut v, "-m32");
            proof {
                assert(v@.map_values(|x: String| x@) =~= seq!["-m32"@]);
            }
            Ok(v)
        } else if str_eq(arch, "x86_64") {
            push_str(&mut v, "-m64");
            proof {
                assert(v@.map_values(|x: String| x@) =~= seq!["-m64"@]);
            }
            Ok(v)
        } else {
            Err(Error::new(ErrorKind::InvalidTarget, "unknown Apple mobile architecture".to_owned()))
        }
    }

    /// The software-development-kit name for an Apple mobile target, as
    /// [`spec_ios_sdk_name`] describes; an unknown architecture is an
    /// `InvalidTarget` error.
    pub fn ios_sdk_name(target: &str) -> (r: Result<String, Error>)
        ensures
            match spec_ios_sdk_name(target@) {
                Some(n) => (r matches Ok(v) && v@ == n),
                None => (r matches Err(e) && e.kind == ErrorKind::InvalidTarget),
            },
    {
        let parts = split_char(target, '-');
        proof {
            lemma_split_len(target@, '-');
            assert(parts@.map_values(|p: String| p@).len() == parts@.len());
        }
        let arch = parts[0].as_str();
        if str_eq(arch, "arm") || str_eq(arch, "armv7") || str_eq(arch, "thumbv7") || str_eq(
            arch,
            "armv7s",
        ) || str_eq(arch, "thumbv7s") || str_eq(arch, "arm64") || str_eq(arch, "aarch64") {
            Ok("iphoneos".to_owned())
        } else if str_eq(arch, "i386") || str_eq(arch, "i686") || str_eq(arch, "x86_64") {
            Ok("iphonesimulator".to_owned())
        } else {
            Err(Error::new(ErrorKind::InvalidTarget, "unknown Apple mobile architecture".to_owned()))
        }
    }

    /// The whole compiler argument list this configuration produces, as
    /// [`spec_compile_cmd_args`] describes. For an Apple mobile target the
    /// caller passes the system root it obtained from the toolchain; an
    /// unknown Apple mobile architecture is an `InvalidTarget` error.
    pub fn compile_cmd_args(
        &self,
        target: &str,
        opt_level: u32,
        debug: bool,
        envflags: &Vec<String>,
        ios_sysroot: &str,
    ) -> (r: Result<Vec<String>, Error>)
        ensures
            match spec_compile_cmd_args(
                *self,
                target@,
                opt_level,
                debug,
                envflags@.map_values(|a: String| a@),
                ios_sysroot@,
            ) {
                Some(a) => (r matches Ok(v) && v@.map_values(|x: String| x@) == a),
                None => (r matches Err(e) && e.kind == ErrorKind::InvalidTarget),
            },
    {
        let msvc = str_contains(target, "msvc");
        let mut args: Vec<String> = Vec::new();
        if msvc {
            push_str(&mut args, "/MD");
            if opt_level != 0 {
                push_str(&mut args, "/O2");
            }
        } else {
            let mut o = String::new();
            o.append("-O");
            let dec = crate::strutil::u32_to_decimal(opt_level);
            o.append(dec.as_str());
            proof {
                assert(o@ =~= "-O"@ + crate::strutil::spec_decimal(opt_level as int));
            }
            push_string(&mut args, o);
            push_str(&mut args, "-c");
            push_str(&mut args, "-ffunction-sections");
            push_str(&mut args, "-fdata-sections");
        }
        proof {
            assert(args@.map_values(|x: String| x@) =~= spec_base_args(msvc, opt_level));
        }
        extend_strings(&mut args, envflags);
        if debug {
            if msvc {
                push_str(&mut args, "/Z7");
            } else {
                push_str(&mut args, "-g");
            }
        }
        let ghost upto_debug = spec_base_args(msvc, opt_level) + envflags@.map_values(
            |a: String| a@,
        ) + spec_debug_args(msvc, debug);
        proof {
            assert(args@.map_values(|x: String| x@) =~= upto_debug);
        }
        if str_contains(target, "-ios") {
            let arch = match Config::ios_arch_args(target) {
                Ok(a) => a,
                Err(e) => {
                    return Err(e);
                },
            };
            extend_strings(&mut args, &arch);
            push_str(&mut args, "-isysroot");
            push_str(&mut args, ios_sysroot);
            proof {
                assert(args@.map_values(|x: String| x@) =~= upto_debug
                    + (spec_ios_arch_args(target@)->Some_0 + seq!["-isysroot"@, ios_sysroot@]));
            }
        } else if !msvc {
            if str_contains(target, "i686") {
                push_str(&mut args, "-m32");
            } else if str_contains(target, "x86_64") {
                push_str(&mut args, "-m64");
            }
            if !str_contains(target, "i686") && !str_contains(target, "windows-gnu") {
                push_str(&mut args, "-fPIC");
            }
            proof {
                assert(args@.map_values(|x: String| x@) =~= upto_debug + spec_gnu_arch_args(
                    target@,
                ));
            }
        }
        let ghost upto_arch = args@.map_values(|x: String| x@);
        if self.cpp && !msvc {
            match &self.cpp_set_stdlib {
                Some(lib) => {
                    let mut s = String::new();
                    s.append("-stdlib=lib");
                    s.append(lib.as_str());
                    proof {
                        assert(s@ =~= "-stdlib=lib"@ + self.cpp_set_stdlib->Some_0@);
                    }
                    push_string(&mut args, s);
                },
                None => {},
            }
        }
        proof {
            assert(args@.map_values(|x: String| x@) =~= upto_arch + spec_stdlib_args(*self, msvc));
        }
        let ghost upto_stdlib = args@.map_values(|x: String| x@);
        let ghost dir_views = self.include_directories@.map_values(|a: String| a@);
        let mut i: usize = 0;
        while i < self.include_directories.len()
            invariant
                0 <= i <= self.include_directories@.len(),
                dir_views == self.include_directories@.map_values(|a: String| a@),
                dir_views.len() == self.include_directories@.len(),
                args@.map_values(|x: String| x@) == upto_stdlib + spec_include_args(
                    dir_views.take(i as int),
                    msvc,
                ),
            decreases self.include_directories@.len() - i,
        {
            if msvc {
                push_str(&mut args, "/I");
            } else {
                push_str(&mut args, "-I");
            }
            let dir = self.include_directories[i].clone();
            push_string(&mut args, dir);
            proof {
                assert(dir_views.take(i + 1).drop_last() =~= dir_views.take(i as int));
                assert(dir_views.take(i + 1).last() == dir_views[i as int]);
                assert(args@.map_values(|x: String| x@) =~= upto_stdlib + spec_include_args(
                    dir_views.take(i + 1),
                    msvc,
                ));
            }
            i = i + 1;
        }
        proof {
            assert(dir_views.take(i as int) =~= dir_views);
        }
        extend_strings(&mut args, &self.flags);
        let ghost upto_flags = args@.map_values(|x: String| x@);
        let ghost def_views = spec_defs_view(self.definitions@);
        let mut j: usize = 0;
        while j < self.definitions.len()
            invariant
                0 <= j <= self.definitions@.len(),
                def_views == spec_defs_view(self.definitions@),
                def_views.len() == self.definitions@.len(),
                args@.map_values(|x: String| x@) == upto_flags + spec_define_args(
                    def_views.take(j as int),
                    msvc,
                ),
            decreases self.definitions@.len() - j,
        {
            let mut s = String::new();
            if msvc {
                s.append("/");
            } else {
                s.append("-");
            }
            s.append("D");
            s.append(self.definitions[j].0.as_str());
            match &self.definitions[j].1 {
                Some(v) => {
                    s.append("=");
                    s.append(v.as_str());
                },
                None => {},
            }
            proof {
                assert(s@ =~= spec_one_define(def_views[j as int], msvc));
            }
            push_string(&mut args, s);
            proof {
                assert(def_views.take(j + 1).drop_last() =~= def_views.take(j as int));
                assert(def_views.take(j + 1).last() == def_views[j as int]);
                assert(args@.map_values(|x: String| x@) =~= upto_flags + spec_define_args(
                    def_views.take(j + 1),
                    msvc,
                ));
            }
            j = j + 1;
        }
        proof {
            assert(def_views.take(j as int) =~= def_views);
            assert(args@.map_values(|x: String| x@) =~= spec_compile_cmd_args(
                *self,
                target@,
                opt_level,
                debug,
                envflags@.map_values(|a: String| a@),
                ios_sysroot@,
            )->Some_0);
        }
        Ok(args)
    }

    /// The archiver argument list that assembles the given objects into the
    /// archive at `dst`: the MSVC librarian form for MSVC targets, the
    /// classical create-update-symbols form everywhere else, always
    /// followed by the objects and then the extra linked objects.
    pub fn assemble_args(&self, msvc: bool, dst: &str, objects: &Vec<String>) -> (r: Vec<String>)
        ensures
            r@.map_values(|x: String| x@) == (if msvc {
                seq!["/OUT:"@ + dst@, "/nologo"@]
            } else {
                seq!["crus"@, dst@]
            }) + objects@.map_values(|x: String| x@) + self.objects@.map_values(|x: String| x@),
    {
        let mut args: Vec<String> = Vec::new();
        if msvc {
            let mut out = String::new();
            out.append("/OUT:");
            out.append(dst);
            proof {
                assert(out@ =~= "/OUT:"@ + dst@);
            }
            push_string(&mut args, out);
            push_str(&mut args, "/nologo");
            proof {
                assert(args@.map_values(|x: String| x@) =~= seq!["/OUT:"@ + dst@, "/nologo"@]);
            }
        } else {
            push_str(&mut args, "crus");
            push_str(&mut args, dst);
            proof {
                assert(args@.map_values(|x: String| x@) =~= seq!["crus"@, dst@]);
            }
        }
        extend_strings(&mut args, objects);
        extend_strings(&mut args, &self.objects);
        args
    }

    /// The argument list for the MSVC macro assembler: the include path in
    /// librarian form, then the definitions.
    pub fn msvc_macro_assembler_args(&self) -> (r: Vec<String>)
        ensures
            r@.map_values(|x: String| x@) == spec_include_args(
                self.include_directories@.map_values(|a: String| a@),
                true,
            ) + spec_define_args(spec_defs_view(self.definitions@), true),
    {
        let mut args: Vec<String> = Vec::new();
        let ghost dir_views = self.include_directories@.map_values(|a: String| a@);
        let mut i: usize = 0;
        proof {
            assert(args@.map_values(|x: String| x@) =~= spec_include_args(
                dir_views.take(0),
                true,
            ));
        }
        while i < self.include_directories.len()
            invariant
                0 <= i <= self.include_directories@.len(),
                dir_views == self.include_directories@.map_values(|a: String| a@),
                dir_views.len() == self.include_directories@.len(),
                args@.map_values(|x: String| x@) == spec_include_args(
                    dir_views.take(i as int),
                    true,
                ),
            decreases self.include_directories@.len() - i,
        {
            push_str(&mut args, "/I");
            let dir = self.include_directories[i].clone();
            push_string(&mut args, dir);
            proof {
                assert(dir_views.take(i + 1).drop_last() =~= dir_views.take(i as int));
                assert(dir_views.take(i + 1).last() == dir_views[i as int]);
                assert(args@.map_values(|x: String| x@) =~= spec_include_args(
                    dir_views.take(i + 1),
                    true,
                ));
            }
            i = i + 1;
        }
        proof {
            assert(dir_views.take(i as int) =~= dir_views);
        }
        let ghost upto = args@.map_values(|x: String| x@);
        let ghost def_views = spec_defs_view(self.definitions@);
        let mut j: usize = 0;
        while j < self.definitions.len()
            invariant
                0 <= j <= self.definitions@.len(),
                def_views == spec_defs_view(self.definitions@),
                def_views.len() == self.definitions@.len(),
                args@.map_values(|x: String| x@) == upto + spec_define_args(
                    def_views.take(j as int),
                    true,
                ),
            decreases self.definitions@.len() - j,
        {
            let mut s = String::new();
            s.append("/");
            s.append("D");
            s.append(self.definitions[j].0.as_str());
            match &self.definitions[j].1 {
                Some(v) => {
                    s.append("=");
                    s.append(v.as_str());
                },
                None => {},
            }
            proof {
                assert(s@ =~= spec_one_define(def_views[j as int], true));
            }
            push_string(&mut args, s);
            proof {
                assert(def_views.take(j + 1).drop_last() =~= def_views.take(j as int));
                assert(def_views.take(j + 1).last() == def_views[j as int]);
                assert(args@.map_values(|x: String| x@) =~= upto + spec_define_args(
                    def_views.take(j + 1),
                    true,
                ));
            }
            j = j + 1;
        }
        proof {
            assert(def_views.take(j as int) =~= def_views);
        }
        args
    }
}

} // verus!
