use vstd::prelude::*;
use crate::compact::{spec_unzip_cmds, unzip_workspaces};
use crate::model::{CmdView, Direction, HyprCommand, Window, cmds_view};
use crate::text::str_eq;

verus! {

/// The commands a direction-based window move issues. Left with create opens
/// a gap at the active workspace, keeping the active window in place; left
/// without create is one plain move. Right issues the plain move unless the
/// active workspace is already the highest id (there is nothing to move
/// into), and with create additionally opens a gap just past the
/// destination, so that from the highest workspace only the gap-opening pass
/// runs.
pub open spec fn spec_move_window(
    dir: Direction,
    create: bool,
    active_id: u64,
    max_id: u64,
    addr: Seq<char>,
    clients: Seq<Window>,
) -> Seq<CmdView> {
    match dir {
        Direction::Left => if create {
            spec_unzip_cmds(clients, active_id, Some(addr))
        } else {
            seq![CmdView::MoveWindowLeft]
        },
        Direction::Right => {
            let plain = if active_id != max_id {
                seq![CmdView::MoveWindowRight]
            } else {
                Seq::<CmdView>::empty()
            };
            if create {
                plain + spec_unzip_cmds(clients, (active_id + 1) as u64, Some(addr))
            } else {
                plain
            }
        },
    }
}

/// Plan a `movetoworkspace` command for the active window, over a snapshot of
/// the manager's state taken before anything is dispatched. The active window
/// itself is excepted from every gap-opening pass, so the snapshot stays
/// accurate for the windows the passes touch.
pub fn move_window(
    dir: Direction,
    create: bool,
    active_id: u64,
    max_id: u64,
    active_addr: &str,
    clients: &Vec<Window>,
) -> (cmds: Vec<HyprCommand>)
    requires
        active_id < u64::MAX,
        forall|i: int| 0 <= i < clients@.len() ==> clients@[i].workspace_id < u64::MAX,
    ensures
        cmds_view(cmds@) == spec_move_window(dir, create, active_id, max_id, active_addr@, clients@),
{
    match dir {
        Direction::Left => {
            if create {
                unzip_workspaces(clients, active_id, Some(active_addr))
            } else {
                let mut cmds: Vec<HyprCommand> = Vec::new();
                cmds.push(HyprCommand::MoveWindowLeft);
                proof {
                    assert(cmds_view(cmds@) =~= seq![CmdView::MoveWindowLeft]);
                }
                cmds
            }
        },
        Direction::Right => {
            let mut cmds: Vec<HyprCommand> = Vec::new();
            if active_id != max_id {
                cmds.push(HyprCommand::MoveWindowRight);
                proof {
                    assert(cmds_view(cmds@) =~= seq![CmdView::MoveWindowRight]);
                }
            } else {
                proof {
                    assert(cmds_view(cmds@) =~= Seq::<CmdView>::empty());
                }
            }
            let ghost plain = cmds_view(cmds@);
            if create {
                let mut more = unzip_workspaces(clients, active_id + 1, Some(active_addr));
                let ghost opened = cmds_view(more@);
                cmds.append(&mut more);
                proof {
                    assert(cmds_view(cmds@) =~= plain + opened);
                }
            }
            cmds
        },
    }
}

/// The focus command `workspace <dir>` issues: left always moves focus one
/// workspace down; right is suppressed when the active workspace id is at or
/// above the highest one, since this command never allocates a workspace.
pub open spec fn spec_workspace_focus(dir: Direction, active_id: u64, max_id: u64) -> Option<
    CmdView,
> {
    match dir {
        Direction::Left => Some(CmdView::FocusLeft),
        Direction::Right => if active_id >= max_id {
            None
        } else {
            Some(CmdView::FocusRight)
        },
    }
}

/// Plan a `workspace` focus move.
pub fn workspace_focus(dir: Direction, active_id: u64, max_id: u64) -> (r: Option<HyprCommand>)
    ensures
        match r {
            Some(c) => spec_workspace_focus(dir, active_id, max_id) == Some(c@),
            None => spec_workspace_focus(dir, active_id, max_id) is None,
        },
{
    match dir {
        Direction::Left => Some(HyprCommand::FocusLeft),
        Direction::Right => if active_id >= max_id {
            None
        } else {
            Some(HyprCommand::FocusRight)
        },
    }
}

/// Decode a CLI direction argument.
pub fn parse_direction(s: &str) -> (r: Option<Direction>)
    ensures
        s@ == "left"@ ==> r == Some(Direction::Left),
        s@ == "right"@ ==> r == Some(Direction::Right),
        s@ != "left"@ && s@ != "right"@ ==> r is None,
{
    proof {
        reveal_strlit("left");
        reveal_strlit("right");
        assert("left"@.len() == 4);
        assert("right"@.len() == 5);
    }
    if str_eq(s, "left") {
        Some(Direction::Left)
    } else if str_eq(s, "right") {
        Some(Direction::Right)
    } else {
        None
    }
}

/// Decode the optional CLI create flag.
pub fn is_create_flag(s: &str) -> (r: bool)
    ensures
        r == (s@ == "create"@),
{
    str_eq(s, "create")
}

} // verus!
