//! Command lines, with the files left open that only the caller can name.

use vstd::prelude::*;

verus! {

/// A file that a command line mentions. The caller knows its path.
#[derive(Debug, Clone, Copy, PartialEq, Eq, Structural)]
pub enum FileSlot {
    /// The file that a tool reads.
    Input,
    /// The file that a tool writes.
    Output,
    /// The speech recognition model.
    Model,
}

/// One argument of a command line.
#[derive(Debug)]
pub enum Arg {
    Text(String),
    File(FileSlot),
}

/// What an argument says.
pub enum ArgView {
    Text(Seq<char>),
    File(FileSlot),
}

impl View for Arg {
    type V = ArgView;

    open spec fn view(&self) -> ArgView {
        match self {
            Arg::Text(text) => ArgView::Text(text@),
            Arg::File(slot) => ArgView::File(*slot),
        }
    }
}

/// What the arguments of a command line say, in order.
pub open spec fn args_view(args: Seq<Arg>) -> Seq<ArgView> {
    args.map_values(|a: Arg| a@)
}

/// An argument that is written out.
pub fn text_arg(text: &str) -> (arg: Arg)
    ensures
        arg@ == ArgView::Text(text@),
{
    Arg::Text(text.to_owned())
}

/// A command line says its arguments in their order: a text as it is, and a file by
/// its place.
pub proof fn law_args_view(args: Seq<Arg>, i: int)
    requires
        0 <= i < args.len(),
    ensures
        args_view(args).len() == args.len(),
        args[i] matches Arg::Text(text) ==> args_view(args)[i] == ArgView::Text(text@),
        args[i] matches Arg::File(slot) ==> args_view(args)[i] == ArgView::File(slot),
{
}

} // verus!
