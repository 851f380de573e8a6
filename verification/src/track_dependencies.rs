//! Incremental-rebuild decisions: whether an output is stale against its
//! inputs, and whether a generated file needs rewriting.
//!
//! The embedding program reads modification times and file contents; the
//! decisions on those plain values are made here.

use vstd::prelude::*;

use crate::strutil::str_eq;

verus! {

/// Whether a generated file was rewritten.
#[derive(Clone, Copy, Debug, PartialEq, Eq, Structural)]
pub enum WriteFileStatus {
    /// The file was absent or held different contents, so it is (to be)
    /// written anew.
    NewContentsWriten,
    /// The file already holds exactly these contents; nothing to write.
    NoWrite,
}

/// Whether a generated file must be rewritten: yes unless it already holds
/// exactly the new contents. `existing` is the file's current contents, or
/// nothing when the file cannot be read.
pub fn write_file_if_changed(existing: Option<&str>, content: &str) -> (r: WriteFileStatus)
    ensures
        r is NoWrite <==> (existing matches Some(s) && s@ == content@),
{
    match existing {
        Some(s) => {
            if str_eq(s, content) {
                WriteFileStatus::NoWrite
            } else {
                WriteFileStatus::NewContentsWriten
            }
        },
        None => WriteFileStatus::NewContentsWriten,
    }
}

/// Whether the output is stale: its modification time is unknown, or some
/// input's modification time is unknown or not older than the output's.
/// Times are plain numbers (seconds or ticks); `None` stands for a file
/// whose time could not be read.
pub fn is_any_input_newer_then_output(out_time: Option<u64>, in_times: &Vec<Option<u64>>) -> (r:
    bool)
    ensures
        r <==> match out_time {
            None => true,
            Some(out) => exists|i: int|
                0 <= i < in_times@.len() && match #[trigger] in_times@[i] {
                    None => true,
                    Some(t) => t >= out,
                },
        },
{
    let out = match out_time {
        Some(t) => t,
        None => {
            return true;
        },
    };
    let mut i: usize = 0;
    while i < in_times.len()
        invariant
            0 <= i <= in_times@.len(),
            out_time == Some(out),
            forall|k: int|
                0 <= k < i ==> match #[trigger] in_times@[k] {
                    None => false,
                    Some(t) => t < out,
                },
        decreases in_times@.len() - i,
    {
        match in_times[i] {
            None => {
                return true;
            },
            Some(t) => {
                if t >= out {
                    return true;
                }
            },
        }
        i = i + 1;
    }
    false
}

} // verus!
