//! The command line that asks the tool for its report.

use vstd::prelude::*;

verus! {

/// The name under which the tool is looked up.
pub const PROGRAM: &'static str = "ffprobe";

/// One argument of the command line.
#[derive(Debug, PartialEq, Eq)]
pub enum Argument<P> {
    /// A fixed token.
    Flag(&'static str),
    /// The media to inspect.
    Target(P),
}

/// The command line for `target`: quiet logging, a JSON report, the
/// container's format, the streams, and last the target itself.
pub open spec fn command_line<P>(target: P) -> Seq<Argument<P>> {
    seq![
        Argument::Flag("-v"),
        Argument::Flag("quiet"),
        Argument::Flag("-print_format"),
        Argument::Flag("json"),
        Argument::Flag("-show_format"),
        Argument::Flag("-show_streams"),
        Argument::Target(target),
    ]
}

/// Builds the arguments to run the tool with on `target`.
pub fn arguments<P>(target: P) -> (args: Vec<Argument<P>>)
    ensures
        args@ == command_line(target),
{
    let mut args: Vec<Argument<P>> = Vec::new();
    args.push(Argument::Flag("-v"));
    args.push(Argument::Flag("quiet"));
    args.push(Argument::Flag("-print_format"));
    args.push(Argument::Flag("json"));
    args.push(Argument::Flag("-show_format"));
    args.push(Argument::Flag("-show_streams"));
    args.push(Argument::Target(target));
    assert(args@ =~= command_line(target));
    args
}

} // verus!
