//! Helpers around compiler command lines: where object files go, how output
//! arguments are spelled, and how diagnostics are prefixed for the build
//! orchestrator.

use vstd::prelude::*;
use vstd::string::StrSliceExecFns;
use vstd::string::StringExecFns;

use crate::error::{Error, ErrorKind};

verus! {

/// What the library prints for the build orchestrator: whether metadata
/// lines and captured warnings are emitted at all.
#[derive(Clone, Copy, Debug, PartialEq, Eq, Structural)]
pub struct CargoOutput {
    /// Emit metadata lines (link directives and the like).
    pub metadata: bool,
    /// Forward captured compiler diagnostics as warning lines.
    pub warnings: bool,
}

impl CargoOutput {
    /// Fresh settings: everything is emitted.
    pub fn new() -> (r: CargoOutput)
        ensures
            r.metadata,
            r.warnings,
    {
        CargoOutput { metadata: true, warnings: true }
    }
}

/// One line of captured diagnostics, in the form the build orchestrator
/// recognizes as a warning.
pub fn warning_line(line: &str) -> (r: String)
    ensures
        r@ == "cargo:warning="@ + line@ + "\n"@,
{
    let mut r = String::new();
    r.append("cargo:warning=");
    r.append(line);
    r.append("\n");
    proof {
        assert(r@ =~= "cargo:warning="@ + line@ + "\n"@);
    }
    r
}

/// One source file and the object file it compiles to.
#[derive(Debug, PartialEq, Eq, Clone)]
pub struct Object {
    /// The source file.
    pub src: String,
    /// The object file to produce.
    pub dst: String,
}

impl Object {
    /// Pair a source file with its object file.
    pub fn new(src: String, dst: String) -> (r: Object)
        ensures
            r.src@ == src@,
            r.dst@ == dst@,
    {
        Object { src, dst }
    }
}

/// The offset basis of the 64-bit FNV-1a hash.
pub open spec fn fnv_offset() -> u64 {
    0xcbf29ce484222325u64
}

/// The prime of the 64-bit FNV-1a hash.
pub open spec fn fnv_prime() -> u64 {
    0x100000001b3u64
}

/// The 64-bit FNV-1a hash of a character sequence, each character taken by
/// its scalar value: fold each one in by an exclusive-or, then multiply by
/// the prime, modulo two to the sixty-four.
pub open spec fn spec_fnv1a(s: Seq<char>) -> u64
    decreases s.len(),
{
    if s.len() == 0 {
        fnv_offset()
    } else {
        (((spec_fnv1a(s.drop_last()) ^ (s.last() as u64)) as nat * fnv_prime() as nat)
            % 0x10000000000000000nat) as u64
    }
}

/// The 64-bit FNV-1a hash of a string's characters, as [`spec_fnv1a`]
/// describes.
pub fn fnv1a(s: &str) -> (r: u64)
    ensures
        r == spec_fnv1a(s@),
{
    let n = s.unicode_len();
    let mut h: u64 = 0xcbf29ce484222325;
    let mut i: usize = 0;
    while i < n
        invariant
            0 <= i <= n,
            n == s@.len(),
            h == spec_fnv1a(s@.take(i as int)),
        decreases n - i,
    {
        let c = s.get_char(i);
        let x = h ^ (c as u64);
        h = x.wrapping_mul(0x100000001b3);
        proof {
            assert(s@.take(i + 1).drop_last() =~= s@.take(i as int));
            assert(s@.take(i + 1).last() == s@[i as int]);
        }
        i = i + 1;
    }
    proof {
        assert(s@.take(i as int) =~= s@);
    }
    h
}

/// One hexadecimal digit.
pub open spec fn spec_hex_digit(d: int) -> char {
    if d == 0 {
        '0'
    } else if d == 1 {
        '1'
    } else if d == 2 {
        '2'
    } else if d == 3 {
        '3'
    } else if d == 4 {
        '4'
    } else if d == 5 {
        '5'
    } else if d == 6 {
        '6'
    } else if d == 7 {
        '7'
    } else if d == 8 {
        '8'
    } else if d == 9 {
        '9'
    } else if d == 10 {
        'a'
    } else if d == 11 {
        'b'
    } else if d == 12 {
        'c'
    } else if d == 13 {
        'd'
    } else if d == 14 {
        'e'
    } else {
        'f'
    }
}

/// A 64-bit value as sixteen hexadecimal digits, most significant first:
/// digit `k` is the value divided by sixteen to the `15 - k`, modulo
/// sixteen.
pub open spec fn spec_hex16(h: u64) -> Seq<char> {
    Seq::new(16, |k: int| spec_hex_digit((h as int / vstd::arithmetic::power::pow(16, (15 - k) as nat)) % 16))
}

/// Render a 64-bit value as sixteen hexadecimal digits, as [`spec_hex16`]
/// describes.
pub fn hex16(h: u64) -> (r: String)
    ensures
        r@ == spec_hex16(h),
{
    let mut r = String::new();
    let mut pow: u64 = 0x1000000000000000;
    let mut k: usize = 0;
    proof {
        reveal_with_fuel(vstd::arithmetic::power::pow, 17);
        assert(vstd::arithmetic::power::pow(16, 15nat) == 0x1000000000000000) by {
            reveal_with_fuel(vstd::arithmetic::power::pow, 17);
        }
        assert(spec_hex16(h).take(0) =~= Seq::<char>::empty());
    }
    while k < 16
        invariant
            0 <= k <= 16,
            k < 16 ==> pow == vstd::arithmetic::power::pow(16, (15 - k) as nat),
            r@ =~= spec_hex16(h).take(k as int),
        decreases 16 - k,
    {
        proof {
            vstd::arithmetic::power::lemma_pow_positive(16, (15 - k) as nat);
        }
        let d = (h / pow) % 16;
        let c: &str = if d == 0 {
            "0"
        } else if d == 1 {
            "1"
        } else if d == 2 {
            "2"
        } else if d == 3 {
            "3"
        } else if d == 4 {
            "4"
        } else if d == 5 {
            "5"
        } else if d == 6 {
            "6"
        } else if d == 7 {
            "7"
        } else if d == 8 {
            "8"
        } else if d == 9 {
            "9"
        } else if d == 10 {
            "a"
        } else if d == 11 {
            "b"
        } else if d == 12 {
            "c"
        } else if d == 13 {
            "d"
        } else if d == 14 {
            "e"
        } else {
            "f"
        };
        proof {
            reveal_strlit("0");
            reveal_strlit("1");
            reveal_strlit("2");
            reveal_strlit("3");
            reveal_strlit("4");
            reveal_strlit("5");
            reveal_strlit("6");
            reveal_strlit("7");
            reveal_strlit("8");
            reveal_strlit("9");
            reveal_strlit("a");
            reveal_strlit("b");
            reveal_strlit("c");
            reveal_strlit("d");
            reveal_strlit("e");
            reveal_strlit("f");
            assert(c@ =~= seq![spec_hex_digit(d as int)]);
            assert(spec_hex16(h)[k as int] == spec_hex_digit(d as int));
        }
        r.append(c);
        proof {
            assert(r@ =~= spec_hex16(h).take(k + 1));
        }
        if k < 15 {
            proof {
                vstd::arithmetic::power::lemma_pow_adds(16, 1nat, (14 - k) as nat);
                vstd::arithmetic::power::lemma_pow_positive(16, (14 - k) as nat);
                assert(vstd::arithmetic::power::pow(16, 1nat) == 16) by {
                    reveal_with_fuel(vstd::arithmetic::power::pow, 2);
                }
                assert(vstd::arithmetic::power::pow(16, (15 - k) as nat) == 16
                    * vstd::arithmetic::power::pow(16, (14 - k) as nat));
            }
            pow = pow / 16;
        }
        k = k + 1;
    }
    proof {
        assert(spec_hex16(h).take(16) =~= spec_hex16(h));
    }
    r
}

/// Where the last separator stands in a path, if anywhere.
pub open spec fn spec_last_slash(s: Seq<char>) -> Option<int>
    decreases s.len(),
{
    if s.len() == 0 {
        None
    } else if s.last() == '/' {
        Some(s.len() - 1)
    } else {
        spec_last_slash(s.drop_last())
    }
}

/// The file-name part of a path: everything after the last separator.
pub open spec fn spec_basename(s: Seq<char>) -> Seq<char> {
    match spec_last_slash(s) {
        Some(i) => s.skip(i + 1),
        None => s,
    }
}

/// The directory part of a path: everything before the last separator, or
/// nothing for a bare file name.
pub open spec fn spec_dirname(s: Seq<char>) -> Seq<char> {
    match spec_last_slash(s) {
        Some(i) => s.take(i),
        None => Seq::empty(),
    }
}

/// Where the last dot of a file name stands, if anywhere after the first
/// character.
pub open spec fn spec_last_dot(s: Seq<char>) -> Option<int>
    decreases s.len(),
{
    if s.len() <= 1 {
        None
    } else if s.last() == '.' {
        Some(s.len() - 1)
    } else {
        spec_last_dot(s.drop_last())
    }
}

/// A file name with its extension cut off, if it has one.
pub open spec fn spec_stem(s: Seq<char>) -> Seq<char> {
    match spec_last_dot(s) {
        Some(i) => s.take(i),
        None => s,
    }
}

/// Find the last separator of a path, as [`spec_last_slash`] describes.
fn last_slash(s: &str) -> (r: Option<usize>)
    ensures
        match r {
            Some(i) => spec_last_slash(s@) == Some(i as int) && i < s@.len(),
            None => spec_last_slash(s@) is None,
        },
{
    let n = s.unicode_len();
    let mut j: usize = n;
    proof {
        assert(s@.take(n as int) =~= s@);
    }
    while j > 0
        invariant
            0 <= j <= n,
            n == s@.len(),
            spec_last_slash(s@) == spec_last_slash(s@.take(j as int)),
        decreases j,
    {
        proof {
            assert(s@.take(j as int).drop_last() =~= s@.take(j - 1));
            assert(s@.take(j as int).last() == s@[j - 1]);
        }
        if s.get_char(j - 1) == '/' {
            return Some(j - 1);
        }
        j = j - 1;
    }
    proof {
        assert(s@.take(0) =~= Seq::<char>::empty());
    }
    None
}

/// Find the last dot of a file name, as [`spec_last_dot`] describes.
fn last_dot(s: &str) -> (r: Option<usize>)
    ensures
        match r {
            Some(i) => spec_last_dot(s@) == Some(i as int) && i < s@.len(),
            None => spec_last_dot(s@) is None,
        },
{
    let n = s.unicode_len();
    let mut j: usize = n;
    proof {
        assert(s@.take(n as int) =~= s@);
    }
    while j > 1
        invariant
            0 <= j <= n,
            n == s@.len(),
            spec_last_dot(s@) == spec_last_dot(s@.take(j as int)),
        decreases j,
    {
        proof {
            assert(s@.take(j as int).drop_last() =~= s@.take(j - 1));
            assert(s@.take(j as int).last() == s@[j - 1]);
        }
        if s.get_char(j - 1) == '.' {
            return Some(j - 1);
        }
        j = j - 1;
    }
    None
}

/// The object file name a source file maps to: a hash of its directory,
/// then its file name with the extension replaced by `.o`, under `dst`.
///
/// The directory hash keeps two sources with one file name in different
/// subdirectories from colliding on one object file.
pub open spec fn spec_object_path(file: Seq<char>, dst: Seq<char>) -> Seq<char> {
    dst + "/"@ + spec_hex16(spec_fnv1a(spec_dirname(file))) + "-"@ + spec_stem(
        spec_basename(file),
    ) + ".o"@
}

/// Find the destination object path for each input source file, as
/// [`spec_object_path`] describes, and pair them up. A file whose name
/// part is empty (a path ending in a separator, or an empty path) is an
/// `InvalidArgument` error.
pub fn objects_from_files(files: &Vec<String>, dst: &str) -> (r: Result<Vec<Object>, Error>)
    ensures
        (forall|i: int|
            0 <= i < files@.len() ==> spec_basename(#[trigger] files@[i]@).len() > 0) <==> (r
            matches Ok(objs) && objs@.len() == files@.len() && (forall|i: int|
            0 <= i < files@.len() ==> (#[trigger] objs@[i]).src@ == files@[i]@ && objs@[i].dst@
                == spec_object_path(files@[i]@, dst@))),
        r is Err <==> (exists|i: int|
            0 <= i < files@.len() && spec_basename(#[trigger] files@[i]@).len() == 0),
        r matches Err(e) ==> e.kind == ErrorKind::InvalidArgument,
{
    let mut objects: Vec<Object> = Vec::new();
    let mut i: usize = 0;
    while i < files.len()
        invariant
            0 <= i <= files@.len(),
            objects@.len() == i,
            forall|k: int| 0 <= k < i ==> spec_basename(#[trigger] files@[k]@).len() > 0,
            forall|k: int|
                0 <= k < i ==> (#[trigger] objects@[k]).src@ == files@[k]@ && objects@[k].dst@
                    == spec_object_path(files@[k]@, dst@),
        decreases files@.len() - i,
    {
        let file = &files[i];
        let n = file.as_str().unicode_len();
        let (dir, base) = match last_slash(file.as_str()) {
            Some(j) => {
                let dir = file.as_str().substring_char(0, j);
                let base = file.as_str().substring_char(j + 1, n);
                proof {
                    assert(dir@ =~= spec_dirname(file@));
                    assert(base@ =~= spec_basename(file@));
                }
                (dir, base)
            },
            None => {
                let dir = file.as_str().substring_char(0, 0);
                proof {
                    assert(dir@ =~= spec_dirname(file@));
                    assert(file@.skip(0) =~= file@);
                }
                (dir, file.as_str())
            },
        };
        if base.is_empty() {
            return Err(
                Error::new(
                    ErrorKind::InvalidArgument,
                    "no file name in object file path".to_owned(),
                ),
            );
        }
        let stem = match last_dot(base) {
            Some(j) => {
                let st = base.substring_char(0, j);
                proof {
                    assert(st@ =~= spec_stem(base@));
                }
                st
            },
            None => base,
        };
        let hash = fnv1a(dir);
        let hex = hex16(hash);
        let mut obj = String::new();
        obj.append(dst);
        obj.append("/");
        obj.append(hex.as_str());
        obj.append("-");
        obj.append(stem);
        obj.append(".o");
        proof {
            assert(obj@ =~= spec_object_path(file@, dst@));
        }
        objects.push(Object { src: file.clone(), dst: obj });
        i = i + 1;
    }
    Ok(objects)
}

/// Append the output-file argument to a command line: the joined `-Fo`
/// form for plain MSVC, and `-o` with the path on its own for everything
/// else.
pub fn command_add_output_file(
    cmd: &mut Vec<String>,
    dst: &str,
    cuda: bool,
    msvc: bool,
    clang: bool,
    gnu: bool,
    is_asm: bool,
    is_arm: bool,
)
    ensures
        (msvc && !clang && !gnu && !cuda && !(is_asm && is_arm)) ==> final(cmd)@.map_values(
            |a: String| a@,
        ) == old(cmd)@.map_values(|a: String| a@).push("-Fo"@ + dst@),
        !(msvc && !clang && !gnu && !cuda && !(is_asm && is_arm)) ==> final(cmd)@.map_values(
            |a: String| a@,
        ) == old(cmd)@.map_values(|a: String| a@).push("-o"@).push(dst@),
{
    if msvc && !clang && !gnu && !cuda && !(is_asm && is_arm) {
        let mut s = String::new();
        s.append("-Fo");
        s.append(dst);
        let ghost before = cmd@.map_values(|a: String| a@);
        cmd.push(s);
        proof {
            assert(cmd@.map_values(|a: String| a@) =~= before.push("-Fo"@ + dst@));
        }
    } else {
        let ghost before = cmd@.map_values(|a: String| a@);
        cmd.push("-o".to_owned());
        let ghost mid = cmd@.map_values(|a: String| a@);
        proof {
            assert(mid =~= before.push("-o"@));
        }
        cmd.push(dst.to_owned());
        proof {
            assert(cmd@.map_values(|a: String| a@) =~= mid.push(dst@));
        }
    }
}

} // verus!
