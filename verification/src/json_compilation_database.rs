//! Entries for a JSON compilation database: one record per compiled file,
//! holding the working directory, the argument list, the source and the
//! output. The embedding program resolves the compiler path and serializes
//! the records; the record itself and its accessors live here.

use vstd::prelude::*;

verus! {

/// One entry of a JSON compilation database.
#[derive(Debug, PartialEq, Eq, Clone)]
pub struct CompileCommand {
    pub directory: String,
    pub arguments: Vec<String>,
    pub file: String,
    pub output: String,
}

impl CompileCommand {
    /// An entry for one compilation step: the resolved compiler followed by
    /// its arguments, run in `directory`, reading `file` and producing
    /// `output`.
    pub fn new(program: String, args: Vec<String>, directory: String, file: String, output: String)
        -> (r: CompileCommand)
        ensures
            r.spec_directory() == directory@,
            r.spec_file() == file@,
            r.spec_output() == output@,
            r.spec_arguments() == seq![program@] + args@.map_values(|a: String| a@),
    {
        let mut arguments: Vec<String> = Vec::new();
        arguments.push(program);
        let ghost first = arguments@.map_values(|a: String| a@);
        let mut rest = args;
        let mut i: usize = 0;
        while i < rest.len()
            invariant
                0 <= i <= rest@.len(),
                arguments@.map_values(|a: String| a@) == first + rest@.map_values(
                    |a: String| a@,
                ).take(i as int),
                first.len() == 1,
            decreases rest@.len() - i,
        {
            let ghost before = arguments@.map_values(|a: String| a@);
            arguments.push(rest[i].clone());
            proof {
                assert(arguments@.map_values(|a: String| a@) =~= before.push(rest@[i as int]@));
                assert(before.push(rest@[i as int]@) =~= first + rest@.map_values(
                    |a: String| a@,
                ).take(i + 1));
            }
            i = i + 1;
        }
        proof {
            assert(rest@.map_values(|a: String| a@).take(i as int) =~= rest@.map_values(
                |a: String| a@,
            ));
        }
        CompileCommand { directory, arguments, file, output }
    }

    /// The working directory, as specifications see it.
    pub open spec fn spec_directory(&self) -> Seq<char> {
        self.directory@
    }

    /// The argument list, as specifications see it.
    pub open spec fn spec_arguments(&self) -> Seq<Seq<char>> {
        self.arguments@.map_values(|a: String| a@)
    }

    /// The source file, as specifications see it.
    pub open spec fn spec_file(&self) -> Seq<char> {
        self.file@
    }

    /// The output file, as specifications see it.
    pub open spec fn spec_output(&self) -> Seq<char> {
        self.output@
    }

    /// The working directory of the compilation: all paths in the entry are
    /// absolute or relative to it.
    pub fn directory(&self) -> (r: &String)
        ensures
            r@ == self.spec_directory(),
    {
        &self.directory
    }

    /// The compile argument list, the compiler itself first, unescaped.
    pub fn arguments(&self) -> (r: &Vec<String>)
        ensures
            r@.map_values(|a: String| a@) == self.spec_arguments(),
    {
        &self.arguments
    }

    /// The main translation unit of this compilation step: the key into the
    /// database.
    pub fn file(&self) -> (r: &String)
        ensures
            r@ == self.spec_file(),
    {
        &self.file
    }

    /// The output this compilation step creates.
    pub fn output(&self) -> (r: &String)
        ensures
            r@ == self.spec_output(),
    {
        &self.output
    }
}

} // verus!
