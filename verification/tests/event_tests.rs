use hyprzip::events::{parse_event, process_event};
use hyprzip::model::{ActiveWorkspace, DataError, HyprCommand, HyprEvent, Window};
use hyprzip::render::render_command;

fn win(addr: &str, ws: u64) -> Window {
    Window { address: addr.to_string(), workspace_id: ws, title: format!("window {}", addr) }
}

fn rendered(cmds: &[HyprCommand]) -> Vec<String> {
    cmds.iter().map(render_command).collect()
}

#[test]
fn parse_destroy_event() {
    assert_eq!(
        parse_event("destroyworkspacev2>>5,myworkspace"),
        Ok(HyprEvent::DestroyWorkspace { workspace_id: 5 })
    );
}

#[test]
fn parse_destroy_event_single_param() {
    assert_eq!(
        parse_event("destroyworkspacev2>>12"),
        Ok(HyprEvent::DestroyWorkspace { workspace_id: 12 })
    );
}

#[test]
fn parse_destroy_event_plus_sign() {
    assert_eq!(
        parse_event("destroyworkspacev2>>+7,x"),
        Ok(HyprEvent::DestroyWorkspace { workspace_id: 7 })
    );
}

#[test]
fn parse_destroy_event_bad_id() {
    assert_eq!(parse_event("destroyworkspacev2>>abc,x"), Err(DataError::BadEventWorkspaceId));
}

#[test]
fn parse_destroy_event_missing_params() {
    assert_eq!(parse_event("destroyworkspacev2"), Err(DataError::BadEventWorkspaceId));
}

#[test]
fn parse_destroy_event_overflowing_id() {
    assert_eq!(
        parse_event("destroyworkspacev2>>18446744073709551616"),
        Err(DataError::BadEventWorkspaceId)
    );
    assert_eq!(
        parse_event("destroyworkspacev2>>18446744073709551615"),
        Ok(HyprEvent::DestroyWorkspace { workspace_id: u64::MAX })
    );
}

#[test]
fn parse_close_window_event() {
    assert_eq!(parse_event("closewindow>>80e62df0"), Ok(HyprEvent::CloseWindow));
}

#[test]
fn parse_unknown_event_is_ignored() {
    assert_eq!(parse_event("openwindow>>80e62df0,2,kitty,kitty"), Ok(HyprEvent::Other));
    assert_eq!(parse_event(""), Ok(HyprEvent::Other));
    assert_eq!(parse_event("destroyworkspace>>2"), Ok(HyprEvent::Other));
}

#[test]
fn destroy_event_compacts_and_follows_focus() {
    // Workspaces {1,2,3} held one window each; workspace 2 was destroyed
    // while focus sat on workspace 3.
    let clients = vec![win("0xa", 1), win("0xc", 3)];
    let active = ActiveWorkspace { id: 3, windows: 1 };
    let cmds = process_event("destroyworkspacev2>>2,2", &clients, active, 3).unwrap();
    assert_eq!(
        rendered(&cmds),
        vec![
            "dispatch movetoworkspacesilent 2,address:0xc".to_string(),
            "dispatch workspace -1".to_string(),
        ]
    );
}

#[test]
fn destroy_event_without_higher_focus_only_compacts() {
    let clients = vec![win("0xa", 1), win("0xc", 4)];
    let active = ActiveWorkspace { id: 1, windows: 1 };
    let cmds = process_event("destroyworkspacev2>>3,3", &clients, active, 4).unwrap();
    assert_eq!(
        rendered(&cmds),
        vec!["dispatch movetoworkspacesilent 3,address:0xc".to_string()]
    );
}

#[test]
fn close_window_on_emptied_middle_workspace_compacts_without_focus_move() {
    // Active workspace 2 of max id 3 became empty: zip(2) runs and no
    // additional focus move is issued.
    let clients = vec![win("0xa", 1), win("0xc", 3)];
    let active = ActiveWorkspace { id: 2, windows: 0 };
    let cmds = process_event("closewindow>>0xb", &clients, active, 3).unwrap();
    assert_eq!(
        rendered(&cmds),
        vec!["dispatch movetoworkspacesilent 2,address:0xc".to_string()]
    );
}

#[test]
fn close_window_on_emptied_highest_workspace_moves_focus_only() {
    // The active workspace is the highest id and became empty: a single
    // focus-left dispatch, no zip.
    let clients = vec![win("0xa", 1), win("0xb", 2)];
    let active = ActiveWorkspace { id: 3, windows: 0 };
    let cmds = process_event("closewindow>>0xc", &clients, active, 3).unwrap();
    assert_eq!(rendered(&cmds), vec!["dispatch workspace -1".to_string()]);
}

#[test]
fn close_window_with_windows_remaining_does_nothing() {
    let clients = vec![win("0xa", 1), win("0xb", 2)];
    let active = ActiveWorkspace { id: 2, windows: 1 };
    let cmds = process_event("closewindow>>0xc", &clients, active, 2).unwrap();
    assert!(cmds.is_empty());
}

#[test]
fn irrelevant_event_does_nothing() {
    let clients = vec![win("0xa", 1)];
    let active = ActiveWorkspace { id: 1, windows: 1 };
    let cmds = process_event("workspacev2>>1,1", &clients, active, 1).unwrap();
    assert!(cmds.is_empty());
}

#[test]
fn destroy_event_with_bad_id_is_fatal() {
    let clients = vec![win("0xa", 1)];
    let active = ActiveWorkspace { id: 1, windows: 1 };
    let r = process_event("destroyworkspacev2>>oops", &clients, active, 1);
    assert_eq!(r.unwrap_err(), DataError::BadEventWorkspaceId);
}
