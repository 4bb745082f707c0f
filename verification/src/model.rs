use vstd::prelude::*;

verus! {

/// One window as the manager reports it: an opaque address handle (unique for
/// the window's lifetime), the id of the workspace it sits on, and a display
/// title.
#[derive(Clone, Debug)]
pub struct Window {
    pub address: String,
    pub workspace_id: u64,
    pub title: String,
}

/// The two fields of the active-workspace record that the dispatcher reads:
/// the workspace id and how many windows remain on it.
#[derive(Clone, Copy, PartialEq, Eq, Structural, Debug)]
pub struct ActiveWorkspace {
    pub id: u64,
    pub windows: u64,
}

/// A typed event decoded from one line of the subscription stream.
/// Event kinds that this tool does not react to all map to `Other`.
#[derive(Clone, Copy, PartialEq, Eq, Structural, Debug)]
pub enum HyprEvent {
    DestroyWorkspace { workspace_id: u64 },
    CloseWindow,
    Other,
}

/// A direction for the window-move and focus-move commands.
#[derive(Clone, Copy, PartialEq, Eq, Structural, Debug)]
pub enum Direction {
    Left,
    Right,
}

/// A command to be dispatched to the manager.
#[derive(Debug)]
pub enum HyprCommand {
    /// Move the window with the given address to workspace `dest` without
    /// changing focus ("movetoworkspacesilent").
    MoveWindowSilent { dest: u64, address: String },
    /// Move the active window to the adjacent workspace ("movetoworkspace -1").
    MoveWindowLeft,
    /// Move the active window to the adjacent workspace ("movetoworkspace +1").
    MoveWindowRight,
    /// Move focus one workspace down ("workspace -1").
    FocusLeft,
    /// Move focus one workspace up ("workspace +1").
    FocusRight,
}

/// The mathematical shape of a command: addresses become character sequences.
pub enum CmdView {
    MoveWindowSilent { dest: u64, address: Seq<char> },
    MoveWindowLeft,
    MoveWindowRight,
    FocusLeft,
    FocusRight,
}

impl View for HyprCommand {
    type V = CmdView;

    open spec fn view(&self) -> CmdView {
        match self {
            HyprCommand::MoveWindowSilent { dest, address } => CmdView::MoveWindowSilent {
                dest: *dest,
                address: address@,
            },
            HyprCommand::MoveWindowLeft => CmdView::MoveWindowLeft,
            HyprCommand::MoveWindowRight => CmdView::MoveWindowRight,
            HyprCommand::FocusLeft => CmdView::FocusLeft,
            HyprCommand::FocusRight => CmdView::FocusRight,
        }
    }
}

/// The view of a command list.
pub open spec fn cmds_view(s: Seq<HyprCommand>) -> Seq<CmdView> {
    s.map_values(|c: HyprCommand| c@)
}

/// Everything that can go wrong with the data the manager hands back: a
/// malformed event parameter, or a required field missing from a response.
/// Each of these is fatal for the caller, matching the all-fatal policy.
#[derive(Clone, Copy, PartialEq, Eq, Structural, Debug)]
pub enum DataError {
    BadEventWorkspaceId,
    ClientsNotArray,
    MissingClientWorkspaceId,
    MissingClientAddress,
    WorkspacesNotArray,
    MissingWorkspaceId,
    MissingActiveWorkspaceId,
    MissingActiveWindowCount,
    MissingActiveWindowAddress,
}

} // verus!
