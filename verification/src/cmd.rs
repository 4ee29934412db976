//! Display commands: the output language of the renderer and the dispatcher.
//!
//! The library never writes to a terminal itself. Every function that has a
//! visible effect returns a sequence of [`Cmd`] values, and the driver plays
//! them back against the real terminal, one escape sequence per command.

use vstd::prelude::*;

verus! {

/// Abstract value of one display command, over mathematical integers and
/// character sequences.
#[verifier::ext_equal]
pub enum CmdView {
    /// Move the cursor to an absolute position; column and row are 1-based.
    MoveTo { col: int, row: int },
    /// Clear the row the cursor is on.
    ClearLine,
    /// Switch the foreground to the dim color.
    DimOn,
    /// Restore the default foreground color.
    DimOff,
    /// Write the characters at the cursor.
    Text(Seq<char>),
    /// Write a line break, which scrolls the screen up one row when the
    /// cursor sits on the last row.
    Newline,
}

/// One display command for the driver to execute.
#[derive(Debug)]
pub enum Cmd {
    /// Move the cursor to an absolute position; column and row are 1-based.
    MoveTo { col: usize, row: usize },
    /// Clear the row the cursor is on.
    ClearLine,
    /// Switch the foreground to the dim color.
    DimOn,
    /// Restore the default foreground color.
    DimOff,
    /// Write the characters at the cursor.
    Text(Vec<char>),
    /// Write a line break, which scrolls the screen up one row when the
    /// cursor sits on the last row.
    Newline,
}

impl View for Cmd {
    type V = CmdView;

    open spec fn view(&self) -> CmdView {
        match self {
            Cmd::MoveTo { col, row } => CmdView::MoveTo { col: *col as int, row: *row as int },
            Cmd::ClearLine => CmdView::ClearLine,
            Cmd::DimOn => CmdView::DimOn,
            Cmd::DimOff => CmdView::DimOff,
            Cmd::Text(chars) => CmdView::Text(chars@),
            Cmd::Newline => CmdView::Newline,
        }
    }
}

/// The abstract value of a command list.
pub open spec fn cmds_view(cmds: Seq<Cmd>) -> Seq<CmdView> {
    cmds.map_values(|c: Cmd| c@)
}

/// Appending a command to a list appends its abstract value to the list's
/// abstract value.
pub proof fn lemma_cmds_view_push(cmds: Seq<Cmd>, c: Cmd)
    ensures
        cmds_view(cmds.push(c)) == cmds_view(cmds).push(c@),
{
    assert(cmds_view(cmds.push(c)) =~= cmds_view(cmds).push(c@));
}

} // verus!
