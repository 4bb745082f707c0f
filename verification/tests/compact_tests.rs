use hyprzip::compact::{unzip_workspaces, zip_workspaces};
use hyprzip::model::{HyprCommand, Window};
use hyprzip::render::render_command;

fn win(addr: &str, ws: u64) -> Window {
    Window { address: addr.to_string(), workspace_id: ws, title: format!("window {}", addr) }
}

fn rendered(cmds: &[HyprCommand]) -> Vec<String> {
    cmds.iter().map(render_command).collect()
}

/// Apply a list of planned silent moves to a window set, by address.
fn apply(windows: &mut Vec<Window>, cmds: &[HyprCommand]) {
    for c in cmds {
        match c {
            HyprCommand::MoveWindowSilent { dest, address } => {
                for w in windows.iter_mut() {
                    if &w.address == address {
                        w.workspace_id = *dest;
                    }
                }
            },
            _ => panic!("a compaction pass plans silent moves only"),
        }
    }
}

#[test]
fn zip_shifts_windows_at_or_above_boundary() {
    let ws = vec![win("0xa", 1), win("0xb", 2), win("0xc", 3)];
    let cmds = zip_workspaces(&ws, 2, None);
    assert_eq!(
        rendered(&cmds),
        vec![
            "dispatch movetoworkspacesilent 1,address:0xb".to_string(),
            "dispatch movetoworkspacesilent 2,address:0xc".to_string(),
        ]
    );
}

#[test]
fn zip_keeps_excepted_window_in_place() {
    let ws = vec![win("0xa", 5), win("0xb", 7)];
    let cmds = zip_workspaces(&ws, 3, Some("0xa"));
    assert_eq!(rendered(&cmds), vec!["dispatch movetoworkspacesilent 6,address:0xb".to_string()]);
}

#[test]
fn zip_below_boundary_is_a_noop() {
    let ws = vec![win("0xa", 1), win("0xb", 2)];
    let cmds = zip_workspaces(&ws, 5, None);
    assert!(cmds.is_empty());
}

#[test]
fn unzip_shifts_windows_up() {
    let ws = vec![win("0xa", 1), win("0xb", 2), win("0xc", 3)];
    let cmds = unzip_workspaces(&ws, 2, None);
    assert_eq!(
        rendered(&cmds),
        vec![
            "dispatch movetoworkspacesilent 3,address:0xb".to_string(),
            "dispatch movetoworkspacesilent 4,address:0xc".to_string(),
        ]
    );
}

#[test]
fn unzip_then_zip_restores_the_window_set() {
    let before = vec![win("0xa", 1), win("0xb", 2), win("0xc", 2), win("0xd", 4)];
    let mut ws = before.clone();
    let open = unzip_workspaces(&ws, 2, Some("0xc"));
    apply(&mut ws, &open);
    assert_eq!(ws.iter().map(|w| w.workspace_id).collect::<Vec<_>>(), vec![1, 3, 2, 5]);
    let close = zip_workspaces(&ws, 2, Some("0xc"));
    apply(&mut ws, &close);
    for (w, o) in ws.iter().zip(before.iter()) {
        assert_eq!(w.address, o.address);
        assert_eq!(w.workspace_id, o.workspace_id);
    }
}

#[test]
fn zip_with_no_exception_excepts_nothing() {
    // A pass with no excepted address moves every window at or above the
    // boundary, an empty-addressed one included.
    let ws = vec![win("", 2), win("0xb", 3)];
    let cmds = zip_workspaces(&ws, 2, None);
    assert_eq!(
        rendered(&cmds),
        vec![
            "dispatch movetoworkspacesilent 1,address:".to_string(),
            "dispatch movetoworkspacesilent 2,address:0xb".to_string(),
        ]
    );
}

#[test]
fn zip_boundary_one_compacts_everything() {
    let ws = vec![win("0xa", 3), win("0xb", 9)];
    let cmds = zip_workspaces(&ws, 1, None);
    assert_eq!(
        rendered(&cmds),
        vec![
            "dispatch movetoworkspacesilent 2,address:0xa".to_string(),
            "dispatch movetoworkspacesilent 8,address:0xb".to_string(),
        ]
    );
}
