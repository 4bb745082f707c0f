use vstd::prelude::*;
use crate::model::{CmdView, HyprCommand};
use crate::text::{dec_str, u64_to_string};

verus! {

/// The exact dispatch line sent to the command socket for each command.
pub open spec fn spec_render(c: CmdView) -> Seq<char> {
    match c {
        CmdView::MoveWindowSilent { dest, address } => "dispatch movetoworkspacesilent "@ + dec_str(
            dest as nat,
        ) + ","@ + "address:"@ + address,
        CmdView::MoveWindowLeft => "dispatch movetoworkspace -1"@,
        CmdView::MoveWindowRight => "dispatch movetoworkspace +1"@,
        CmdView::FocusLeft => "dispatch workspace -1"@,
        CmdView::FocusRight => "dispatch workspace +1"@,
    }
}

/// Render one command as its dispatch line.
pub fn render_command(c: &HyprCommand) -> (r: String)
    ensures
        r@ == spec_render(c@),
{
    match c {
        HyprCommand::MoveWindowSilent { dest, address } => {
            let mut s = "dispatch movetoworkspacesilent ".to_owned();
            let num = u64_to_string(*dest);
            s.append(num.as_str());
            s.append(",");
            s.append("address:");
            s.append(address.as_str());
            s
        },
        HyprCommand::MoveWindowLeft => "dispatch movetoworkspace -1".to_owned(),
        HyprCommand::MoveWindowRight => "dispatch movetoworkspace +1".to_owned(),
        HyprCommand::FocusLeft => "dispatch workspace -1".to_owned(),
        HyprCommand::FocusRight => "dispatch workspace +1".to_owned(),
    }
}

} // verus!
