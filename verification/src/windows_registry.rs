//! Lookup of MSVC tools. Probing a Windows installation needs the Windows
//! registry and the file system, which only the embedding program can
//! touch; on every other host the lookup is empty by definition, and the
//! tool description itself lives here.

use vstd::prelude::*;

verus! {

/// A tool found in an MSVC installation.
#[derive(Clone, Debug, PartialEq, Eq)]
pub struct Tool {
    /// The path of the tool's executable.
    pub tool: String,
    /// Whether the tool is the clang-based MSVC-compatible compiler.
    pub clang_cl: bool,
}

impl Tool {
    /// Describe a tool at the given path.
    pub fn new(tool: String, clang_cl: bool) -> (r: Tool)
        ensures
            r.tool@ == tool@,
            r.clang_cl == clang_cl,
    {
        Tool { tool, clang_cl }
    }

    /// Whether the tool is the clang-based MSVC-compatible compiler.
    pub fn is_clang_cl(&self) -> (r: bool)
        ensures
            r == self.clang_cl,
    {
        self.clang_cl
    }
}

/// Attempt to find a tool within an MSVC installation.
///
/// Probing an installation takes the Windows registry, which this host
/// does not have: the lookup always comes back empty, exactly as the
/// original lookup does for every non-MSVC host.
pub fn find_tool(_target: &str, _tool: &str) -> (r: Option<Tool>)
    ensures
        r is None,
{
    None
}

} // verus!
