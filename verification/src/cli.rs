//! The command line: which tree to sweep, and in which mode.

use vstd::prelude::*;

verus! {

/// How a run goes through the tree. The mode is chosen once, at the start.
#[derive(Clone, Copy, PartialEq, Eq, Debug, Structural)]
pub enum RunMode {
    /// Collect every candidate first, then handle them all.
    Precompute,
    /// Handle each candidate as the walk finds it.
    Streaming,
}

/// What a command line asks for.
#[derive(Clone, Debug, PartialEq, Eq)]
pub struct Invocation {
    /// The directory at the root of the tree.
    pub root: String,
    pub mode: RunMode,
}

/// The command line names no directory.
#[derive(Clone, Copy, PartialEq, Eq, Debug, Structural)]
pub enum UsageError {
    MissingRoot,
}

/// The flag that selects the streaming mode.
pub open spec fn streaming_flag() -> Seq<char> {
    "--streaming"@
}

/// The mode that a command line selects: streaming where the argument after
/// the directory is the streaming flag, precompute otherwise. Arguments
/// further on are not looked at.
pub open spec fn selected_mode(args: Seq<Seq<char>>) -> RunMode {
    if args.len() > 2 && args[2] == streaming_flag() {
        RunMode::Streaming
    } else {
        RunMode::Precompute
    }
}

/// The arguments of a command line, each as its characters.
pub open spec fn args_view(args: Seq<String>) -> Seq<Seq<char>> {
    args.map_values(|arg: String| arg@)
}

/// Reads a command line, the program's own name first: the directory is the
/// argument after the name and is required; the mode follows from the
/// argument after the directory.
pub fn parse_args(args: &[String]) -> (parsed: Result<Invocation, UsageError>)
    ensures
        parsed is Err <==> args.len() < 2,
        parsed matches Ok(invocation) ==> {
            &&& invocation.root@ == args[1]@
            &&& invocation.mode == selected_mode(args_view(args@))
        },
{
    if args.len() < 2 {
        return Err(UsageError::MissingRoot);
    }
    let flag: String = "--streaming".to_owned();
    let mode = if args.len() > 2 && args[2] == flag {
        RunMode::Streaming
    } else {
        RunMode::Precompute
    };
    Ok(Invocation { root: args[1].clone(), mode })
}

impl RunMode {
    /// The line that announces the mode at the start of a run.
    pub fn banner(&self) -> (line: &'static str)
        ensures
            line@ == match *self {
                RunMode::Streaming => "Running in streaming mode (walk and delete simultaneously)..."@,
                RunMode::Precompute => "Running in precompute mode (collect all paths first)..."@,
            },
    {
        match self {
            RunMode::Streaming => "Running in streaming mode (walk and delete simultaneously)...",
            RunMode::Precompute => "Running in precompute mode (collect all paths first)...",
        }
    }
}

impl UsageError {
    /// The lines that tell how the program is called.
    pub fn usage(&self) -> (lines: [&'static str; 2])
        ensures
            lines[0]@ == "Usage: del_empty_pngs <dir> [--streaming]"@,
            lines[1]@
                == "  --streaming: Use streaming mode for better performance on large deeply nested directories with millions of folders and files"@,
    {
        [
            "Usage: del_empty_pngs <dir> [--streaming]",
            "  --streaming: Use streaming mode for better performance on large deeply nested directories with millions of folders and files",
        ]
    }
}

} // verus!
