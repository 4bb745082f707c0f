use hyprzip::model::{Direction, HyprCommand, Window};
use hyprzip::moves::{is_create_flag, move_window, parse_direction, workspace_focus};
use hyprzip::render::render_command;

fn win(addr: &str, ws: u64) -> Window {
    Window { address: addr.to_string(), workspace_id: ws, title: format!("window {}", addr) }
}

fn rendered(cmds: &[HyprCommand]) -> Vec<String> {
    cmds.iter().map(render_command).collect()
}

#[test]
fn move_left_plain() {
    let clients = vec![win("0xa", 2)];
    let cmds = move_window(Direction::Left, false, 2, 3, "0xa", &clients);
    assert_eq!(rendered(&cmds), vec!["dispatch movetoworkspace -1".to_string()]);
}

#[test]
fn move_left_create_opens_gap_at_current_workspace() {
    // The active window stays put; its neighbours at or above workspace 2
    // make room by moving up.
    let clients = vec![win("0xa", 2), win("0xb", 2), win("0xc", 3)];
    let cmds = move_window(Direction::Left, true, 2, 3, "0xa", &clients);
    assert_eq!(
        rendered(&cmds),
        vec![
            "dispatch movetoworkspacesilent 3,address:0xb".to_string(),
            "dispatch movetoworkspacesilent 4,address:0xc".to_string(),
        ]
    );
}

#[test]
fn move_right_plain() {
    let clients = vec![win("0xa", 2)];
    let cmds = move_window(Direction::Right, false, 2, 3, "0xa", &clients);
    assert_eq!(rendered(&cmds), vec!["dispatch movetoworkspace +1".to_string()]);
}

#[test]
fn move_right_plain_at_max_does_nothing() {
    let clients = vec![win("0xa", 3)];
    let cmds = move_window(Direction::Right, false, 3, 3, "0xa", &clients);
    assert!(cmds.is_empty());
}

#[test]
fn move_right_create_from_max_skips_plain_move_and_shifts_nothing() {
    // From workspace 2 of max id 2: the plain move is skipped (already at
    // the highest id), then unzip(3) shifts nothing since no workspace at
    // or above 3 holds a window.
    let clients = vec![win("0xa", 2), win("0xb", 1)];
    let cmds = move_window(Direction::Right, true, 2, 2, "0xa", &clients);
    assert!(cmds.is_empty());
}

#[test]
fn move_right_create_below_max_issues_plain_move_and_opens_gap() {
    let clients = vec![win("0xa", 2), win("0xb", 3)];
    let cmds = move_window(Direction::Right, true, 2, 3, "0xa", &clients);
    assert_eq!(
        rendered(&cmds),
        vec![
            "dispatch movetoworkspace +1".to_string(),
            "dispatch movetoworkspacesilent 4,address:0xb".to_string(),
        ]
    );
}

#[test]
fn move_right_create_mid_list_opens_gap_past_destination() {
    let clients = vec![win("0xa", 2), win("0xb", 3), win("0xc", 4)];
    let cmds = move_window(Direction::Right, true, 2, 4, "0xa", &clients);
    assert_eq!(
        rendered(&cmds),
        vec![
            "dispatch movetoworkspace +1".to_string(),
            "dispatch movetoworkspacesilent 4,address:0xb".to_string(),
            "dispatch movetoworkspacesilent 5,address:0xc".to_string(),
        ]
    );
}

#[test]
fn focus_left_always_moves() {
    let cmd = workspace_focus(Direction::Left, 5, 5).unwrap();
    assert_eq!(render_command(&cmd), "dispatch workspace -1");
}

#[test]
fn focus_right_moves_below_max() {
    let cmd = workspace_focus(Direction::Right, 2, 3).unwrap();
    assert_eq!(render_command(&cmd), "dispatch workspace +1");
}

#[test]
fn focus_right_suppressed_at_max() {
    assert!(workspace_focus(Direction::Right, 3, 3).is_none());
}

#[test]
fn direction_arguments() {
    assert_eq!(parse_direction("left"), Some(Direction::Left));
    assert_eq!(parse_direction("right"), Some(Direction::Right));
    assert_eq!(parse_direction("up"), None);
    assert_eq!(parse_direction(""), None);
}

#[test]
fn create_flag_argument() {
    assert!(is_create_flag("create"));
    assert!(!is_create_flag("Create"));
    assert!(!is_create_flag(""));
}
