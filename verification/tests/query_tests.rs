use hyprzip::model::DataError;
use hyprzip::query::{
    active_window_address_from_json, active_window_address_from_response,
    active_workspace_from_json, active_workspace_from_response, clients_from_json,
    clients_from_response, get_max_ws_num, max_ws_from_response, workspace_ids_from_json,
};

fn val(text: &str) -> serde_json::Value {
    serde_json::from_str(text).expect("test JSON must parse")
}

#[test]
fn clients_are_extracted_with_required_fields() {
    let v = val(
        "[{\"address\":\"0xa\",\"workspace\":{\"id\":2,\"name\":\"2\"},\"title\":\"term\"},\
         {\"address\":\"0xb\",\"workspace\":{\"id\":5},\"title\":7}]",
    );
    let ws = clients_from_json(&v).unwrap();
    assert_eq!(ws.len(), 2);
    assert_eq!(ws[0].address, "0xa");
    assert_eq!(ws[0].workspace_id, 2);
    assert_eq!(ws[0].title, "term");
    assert_eq!(ws[1].address, "0xb");
    assert_eq!(ws[1].workspace_id, 5);
    assert_eq!(ws[1].title, "Unknown window");
}

#[test]
fn clients_must_be_an_array() {
    assert_eq!(clients_from_json(&val("{\"a\":1}")).unwrap_err(), DataError::ClientsNotArray);
}

#[test]
fn client_workspace_id_is_required() {
    let v = val("[{\"address\":\"0xa\",\"workspace\":{\"name\":\"2\"}}]");
    assert_eq!(clients_from_json(&v).unwrap_err(), DataError::MissingClientWorkspaceId);
    let v = val("[{\"address\":\"0xa\",\"workspace\":{\"id\":-3}}]");
    assert_eq!(clients_from_json(&v).unwrap_err(), DataError::MissingClientWorkspaceId);
    // With both fields missing, the workspace id is reported first.
    assert_eq!(clients_from_json(&val("[{}]")).unwrap_err(), DataError::MissingClientWorkspaceId);
}

#[test]
fn client_address_is_required() {
    let v = val("[{\"workspace\":{\"id\":1},\"title\":\"t\"}]");
    assert_eq!(clients_from_json(&v).unwrap_err(), DataError::MissingClientAddress);
}

#[test]
fn active_workspace_record_is_strict() {
    let v = val("{\"id\":4,\"windows\":2}");
    let a = active_workspace_from_json(&v).unwrap();
    assert_eq!(a.id, 4);
    assert_eq!(a.windows, 2);
    assert_eq!(
        active_workspace_from_json(&val("{\"windows\":2}")).unwrap_err(),
        DataError::MissingActiveWorkspaceId
    );
    assert_eq!(
        active_workspace_from_json(&val("{\"id\":4}")).unwrap_err(),
        DataError::MissingActiveWindowCount
    );
}

#[test]
fn active_window_address_is_strict() {
    assert_eq!(
        active_window_address_from_json(&val("{\"address\":\"0xdead\"}")).unwrap(),
        "0xdead"
    );
    assert_eq!(
        active_window_address_from_json(&val("{\"title\":\"t\"}")).unwrap_err(),
        DataError::MissingActiveWindowAddress
    );
}

#[test]
fn workspace_ids_and_max() {
    let v = val("[{\"id\":3},{\"id\":1},{\"id\":7}]");
    let ids = workspace_ids_from_json(&v).unwrap();
    assert_eq!(ids, vec![3, 1, 7]);
    assert_eq!(get_max_ws_num(&ids), 7);
    assert_eq!(get_max_ws_num(&Vec::new()), 0);
    assert_eq!(
        workspace_ids_from_json(&val("\"no\"")).unwrap_err(),
        DataError::WorkspacesNotArray
    );
    assert_eq!(
        workspace_ids_from_json(&val("[{\"name\":\"x\"}]")).unwrap_err(),
        DataError::MissingWorkspaceId
    );
}

#[test]
fn responses_are_parsed_from_bytes() {
    let clients =
        clients_from_response(b"[{\"address\":\"0xa\",\"workspace\":{\"id\":2}}]").unwrap();
    assert_eq!(clients.len(), 1);
    assert_eq!(clients[0].workspace_id, 2);
    let a = active_workspace_from_response(b"{\"id\":1,\"windows\":0}").unwrap();
    assert_eq!(a.id, 1);
    assert_eq!(a.windows, 0);
    assert_eq!(active_window_address_from_response(b"{\"address\":\"0xf\"}").unwrap(), "0xf");
    assert_eq!(max_ws_from_response(b"[{\"id\":2},{\"id\":9}]").unwrap(), 9);
}

#[test]
fn unparseable_response_degrades_to_null_and_fails_on_field_access() {
    // Deferred validation: garbage bytes become a Null value, and the first
    // required access reports the failure.
    assert_eq!(
        clients_from_response(b"ok dispatched").unwrap_err(),
        DataError::ClientsNotArray
    );
    assert_eq!(
        active_workspace_from_response(b"").unwrap_err(),
        DataError::MissingActiveWorkspaceId
    );
}
