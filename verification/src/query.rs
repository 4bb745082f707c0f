use vstd::prelude::*;
use crate::model::{ActiveWorkspace, DataError, Window};

verus! {

#[verifier::external_type_specification]
#[verifier::external_body]
pub struct ExJsonValue(serde_json::Value);

/// The value under a key of a JSON value, as `serde_json::Value::get`
/// returns it: `None` for a missing key or a non-object.
pub uninterp spec fn j_field_of(v: serde_json::Value, key: Seq<char>) -> Option<serde_json::Value>;

/// The number a JSON value holds, as `serde_json::Value::as_u64` returns it:
/// `None` unless it is a nonnegative integer fitting in a u64.
pub uninterp spec fn j_u64_of(v: serde_json::Value) -> Option<u64>;

/// The characters a JSON string holds, as `serde_json::Value::as_str`
/// returns them: `None` for any other value.
pub uninterp spec fn j_str_of(v: serde_json::Value) -> Option<Seq<char>>;

/// The elements a JSON array holds, as `serde_json::Value::as_array` returns
/// them: `None` for any other value.
pub uninterp spec fn j_items_of(v: serde_json::Value) -> Option<Seq<serde_json::Value>>;

/// The JSON value a response buffer holds, `Value::Null` when the bytes do
/// not parse as JSON: a function of the bytes alone.
pub uninterp spec fn j_parse_of(buf: Seq<u8>) -> serde_json::Value;

/// Relies on serde_json::Value::get: the value under a key of a JSON object,
/// `None` for a missing key or for a value that is not an object; a function
/// of the value and the key alone.
#[verifier::external_body]
fn json_get<'a>(v: &'a serde_json::Value, key: &str) -> (r: Option<&'a serde_json::Value>)
    ensures
        r matches Some(x) ==> j_field_of(*v, key@) == Some(*x),
        r is None ==> j_field_of(*v, key@) is None,
{
    v.get(key)
}

/// Relies on serde_json::Value::as_u64: the value of a JSON number that is a
/// nonnegative integer fitting in a u64, `None` for anything else.
#[verifier::external_body]
fn json_as_u64(v: &serde_json::Value) -> (r: Option<u64>)
    ensures
        r == j_u64_of(*v),
{
    v.as_u64()
}

/// Relies on serde_json::Value::as_str: the contents of a JSON string,
/// `None` for any other value.
#[verifier::external_body]
fn json_as_string(v: &serde_json::Value) -> (r: Option<String>)
    ensures
        r matches Some(s) ==> j_str_of(*v) == Some(s@),
        r is None ==> j_str_of(*v) is None,
{
    v.as_str().map(str::to_owned)
}

/// Relies on serde_json::Value::as_array: the elements of a JSON array,
/// `None` for any other value.
#[verifier::external_body]
fn json_as_array<'a>(v: &'a serde_json::Value) -> (r: Option<&'a Vec<serde_json::Value>>)
    ensures
        r matches Some(a) ==> j_items_of(*v) == Some(a@),
        r is None ==> j_items_of(*v) is None,
{
    v.as_array()
}

/// Relies on serde_json::from_slice and Value's Default impl: the JSON value
/// a response buffer holds, degraded to Value::Null when the buffer does not
/// parse as JSON — a parse failure is never propagated, deferring the
/// failure to the field accesses.
#[verifier::external_body]
fn parse_response(buf: &[u8]) -> (r: serde_json::Value)
    ensures
        r == j_parse_of(buf@),
{
    serde_json::from_slice(buf).unwrap_or_default()
}

/// The u64 under a key, when the key is there and holds such a number.
pub open spec fn spec_field_u64(v: serde_json::Value, key: Seq<char>) -> Option<u64> {
    match j_field_of(v, key) {
        Some(x) => j_u64_of(x),
        None => None,
    }
}

/// The string under a key, when the key is there and holds a string.
pub open spec fn spec_field_str(v: serde_json::Value, key: Seq<char>) -> Option<Seq<char>> {
    match j_field_of(v, key) {
        Some(x) => j_str_of(x),
        None => None,
    }
}

/// The workspace id of one client record: the number under "workspace"."id".
pub open spec fn spec_client_ws_id(v: serde_json::Value) -> Option<u64> {
    match j_field_of(v, "workspace"@) {
        Some(w) => spec_field_u64(w, "id"@),
        None => None,
    }
}

/// The title of one client record, with the display-only fallback.
pub open spec fn spec_client_title(v: serde_json::Value) -> Seq<char> {
    match spec_field_str(v, "title"@) {
        Some(t) => t,
        None => "Unknown window"@,
    }
}

/// A client record holds both required fields.
pub open spec fn spec_client_ok(v: serde_json::Value) -> bool {
    spec_client_ws_id(v) is Some && spec_field_str(v, "address"@) is Some
}

/// The error a bad client record is reported with: the workspace id is
/// checked before the address.
pub open spec fn spec_client_err(v: serde_json::Value) -> DataError {
    if spec_client_ws_id(v) is None {
        DataError::MissingClientWorkspaceId
    } else {
        DataError::MissingClientAddress
    }
}

/// `w` is exactly the window the client record `v` describes.
pub open spec fn spec_client_matches(v: serde_json::Value, w: Window) -> bool {
    &&& spec_client_ws_id(v) == Some(w.workspace_id)
    &&& spec_field_str(v, "address"@) == Some(w.address@)
    &&& spec_client_title(v) == w.title@
}

/// One client record of a "j/clients" response: the workspace id under
/// "workspace"."id" and the address under "address" are required; the title
/// is display-only and degrades to "Unknown window".
pub fn client_from_json(v: &serde_json::Value) -> (r: Result<Window, DataError>)
    ensures
        (r is Ok) == spec_client_ok(*v),
        r matches Ok(w) ==> spec_client_matches(*v, w),
        r matches Err(e) ==> e == spec_client_err(*v),
{
    let ws = match json_get(v, "workspace") {
        Some(w) => match json_get(w, "id") {
            Some(idv) => json_as_u64(idv),
            None => None,
        },
        None => None,
    };
    let workspace_id = match ws {
        Some(x) => x,
        None => {
            return Err(DataError::MissingClientWorkspaceId);
        },
    };
    let addr = match json_get(v, "address") {
        Some(a) => json_as_string(a),
        None => None,
    };
    let address = match addr {
        Some(a) => a,
        None => {
            return Err(DataError::MissingClientAddress);
        },
    };
    let title = match json_get(v, "title") {
        Some(t) => match json_as_string(t) {
            Some(t) => t,
            None => "Unknown window".to_owned(),
        },
        None => "Unknown window".to_owned(),
    };
    Ok(Window { address, workspace_id, title })
}

/// Every record of a clients value is well-formed.
pub open spec fn spec_clients_ok(v: serde_json::Value) -> bool {
    match j_items_of(v) {
        Some(items) => forall|i: int| 0 <= i < items.len() ==> spec_client_ok(#[trigger] items[i]),
        None => false,
    }
}

/// `ws` lists exactly the windows the clients value describes, in order.
pub open spec fn spec_clients_match(v: serde_json::Value, ws: Seq<Window>) -> bool {
    match j_items_of(v) {
        Some(items) => ws.len() == items.len() && forall|i: int|
            0 <= i < items.len() ==> spec_client_matches(#[trigger] items[i], ws[i]),
        None => false,
    }
}

/// `e` is the error the clients value is reported with: not an array, or the
/// first bad record's own error.
pub open spec fn spec_clients_err(v: serde_json::Value, e: DataError) -> bool {
    match j_items_of(v) {
        None => e == DataError::ClientsNotArray,
        Some(items) => exists|i: int|
            0 <= i < items.len() && !spec_client_ok(#[trigger] items[i]) && (forall|j: int|
                0 <= j < i ==> spec_client_ok(#[trigger] items[j])) && e == spec_client_err(
                items[i],
            ),
    }
}

/// The full window list of a "j/clients" response; an error on the first
/// record that misses a required field, as each record's validation is
/// strict.
pub fn clients_from_json(v: &serde_json::Value) -> (r: Result<Vec<Window>, DataError>)
    ensures
        (r is Ok) == spec_clients_ok(*v),
        r matches Ok(ws) ==> spec_clients_match(*v, ws@),
        r matches Err(e) ==> spec_clients_err(*v, e),
{
    let arr = match json_as_array(v) {
        Some(a) => a,
        None => {
            return Err(DataError::ClientsNotArray);
        },
    };
    let mut out: Vec<Window> = Vec::new();
    let mut i: usize = 0;
    while i < arr.len()
        invariant
            j_items_of(*v) == Some(arr@),
            i <= arr@.len(),
            out@.len() == i as int,
            forall|k: int| 0 <= k < i ==> spec_client_ok(#[trigger] arr@[k]),
            forall|k: int| 0 <= k < i ==> spec_client_matches(#[trigger] arr@[k], out@[k]),
        decreases arr@.len() - i,
    {
        match client_from_json(&arr[i]) {
            Ok(w) => out.push(w),
            Err(e) => {
                proof {
                    assert(!spec_client_ok(arr@[i as int]));
                    assert(spec_clients_err(*v, e));
                }
                return Err(e);
            },
        }
        i += 1;
    }
    Ok(out)
}

/// The active-workspace record holds both required fields.
pub open spec fn spec_active_ok(v: serde_json::Value) -> bool {
    spec_field_u64(v, "id"@) is Some && spec_field_u64(v, "windows"@) is Some
}

/// `a` is exactly the record the active-workspace value describes.
pub open spec fn spec_active_matches(v: serde_json::Value, a: ActiveWorkspace) -> bool {
    spec_field_u64(v, "id"@) == Some(a.id) && spec_field_u64(v, "windows"@) == Some(a.windows)
}

/// The error a bad active-workspace value is reported with: the id is
/// checked before the window count.
pub open spec fn spec_active_err(v: serde_json::Value) -> DataError {
    if spec_field_u64(v, "id"@) is None {
        DataError::MissingActiveWorkspaceId
    } else {
        DataError::MissingActiveWindowCount
    }
}

/// The id and remaining window count of a "j/activeworkspace" response; both
/// fields are required.
pub fn active_workspace_from_json(v: &serde_json::Value) -> (r: Result<ActiveWorkspace, DataError>)
    ensures
        (r is Ok) == spec_active_ok(*v),
        r matches Ok(a) ==> spec_active_matches(*v, a),
        r matches Err(e) ==> e == spec_active_err(*v),
{
    let id = match json_get(v, "id") {
        Some(x) => json_as_u64(x),
        None => None,
    };
    let id = match id {
        Some(x) => x,
        None => {
            return Err(DataError::MissingActiveWorkspaceId);
        },
    };
    let windows = match json_get(v, "windows") {
        Some(x) => json_as_u64(x),
        None => None,
    };
    let windows = match windows {
        Some(x) => x,
        None => {
            return Err(DataError::MissingActiveWindowCount);
        },
    };
    Ok(ActiveWorkspace { id, windows })
}

/// The address of a "j/activewindow" response; the field is required.
pub fn active_window_address_from_json(v: &serde_json::Value) -> (r: Result<String, DataError>)
    ensures
        (r is Ok) == (spec_field_str(*v, "address"@) is Some),
        r matches Ok(a) ==> spec_field_str(*v, "address"@) == Some(a@),
        r matches Err(e) ==> e == DataError::MissingActiveWindowAddress,
{
    let addr = match json_get(v, "address") {
        Some(a) => json_as_string(a),
        None => None,
    };
    match addr {
        Some(a) => Ok(a),
        None => Err(DataError::MissingActiveWindowAddress),
    }
}

/// Every record of a workspaces value carries a u64 id.
pub open spec fn spec_workspaces_ok(v: serde_json::Value) -> bool {
    match j_items_of(v) {
        Some(items) => forall|i: int|
            0 <= i < items.len() ==> spec_field_u64(#[trigger] items[i], "id"@) is Some,
        None => false,
    }
}

/// `ids` lists exactly the workspace ids the value describes, in order.
pub open spec fn spec_workspaces_match(v: serde_json::Value, ids: Seq<u64>) -> bool {
    match j_items_of(v) {
        Some(items) => ids.len() == items.len() && forall|i: int|
            0 <= i < items.len() ==> spec_field_u64(#[trigger] items[i], "id"@) == Some(ids[i]),
        None => false,
    }
}

/// `e` is the error the workspaces value is reported with.
pub open spec fn spec_workspaces_err(v: serde_json::Value, e: DataError) -> bool {
    match j_items_of(v) {
        None => e == DataError::WorkspacesNotArray,
        Some(items) => e == DataError::MissingWorkspaceId && exists|i: int|
            0 <= i < items.len() && spec_field_u64(#[trigger] items[i], "id"@) is None,
    }
}

/// The workspace ids of a "j/workspaces" response; each record's id is
/// required.
pub fn workspace_ids_from_json(v: &serde_json::Value) -> (r: Result<Vec<u64>, DataError>)
    ensures
        (r is Ok) == spec_workspaces_ok(*v),
        r matches Ok(ids) ==> spec_workspaces_match(*v, ids@),
        r matches Err(e) ==> spec_workspaces_err(*v, e),
{
    let arr = match json_as_array(v) {
        Some(a) => a,
        None => {
            return Err(DataError::WorkspacesNotArray);
        },
    };
    let mut out: Vec<u64> = Vec::new();
    let mut i: usize = 0;
    while i < arr.len()
        invariant
            j_items_of(*v) == Some(arr@),
            i <= arr@.len(),
            out@.len() == i as int,
            forall|k: int| 0 <= k < i ==> spec_field_u64(#[trigger] arr@[k], "id"@) == Some(out@[k]),
        decreases arr@.len() - i,
    {
        let id = match json_get(&arr[i], "id") {
            Some(x) => json_as_u64(x),
            None => None,
        };
        match id {
            Some(x) => out.push(x),
            None => {
                proof {
                    assert(spec_field_u64(arr@[i as int], "id"@) is None);
                    assert(spec_workspaces_err(*v, DataError::MissingWorkspaceId));
                }
                return Err(DataError::MissingWorkspaceId);
            },
        }
        i += 1;
    }
    Ok(out)
}

/// The window list a "j/clients" response buffer holds.
pub fn clients_from_response(buf: &[u8]) -> (r: Result<Vec<Window>, DataError>)
    ensures
        (r is Ok) == spec_clients_ok(j_parse_of(buf@)),
        r matches Ok(ws) ==> spec_clients_match(j_parse_of(buf@), ws@),
        r matches Err(e) ==> spec_clients_err(j_parse_of(buf@), e),
{
    let v = parse_response(buf);
    clients_from_json(&v)
}

/// The active-workspace record a "j/activeworkspace" response buffer holds.
pub fn active_workspace_from_response(buf: &[u8]) -> (r: Result<ActiveWorkspace, DataError>)
    ensures
        (r is Ok) == spec_active_ok(j_parse_of(buf@)),
        r matches Ok(a) ==> spec_active_matches(j_parse_of(buf@), a),
        r matches Err(e) ==> e == spec_active_err(j_parse_of(buf@)),
{
    let v = parse_response(buf);
    active_workspace_from_json(&v)
}

/// The active window's address a "j/activewindow" response buffer holds.
pub fn active_window_address_from_response(buf: &[u8]) -> (r: Result<String, DataError>)
    ensures
        (r is Ok) == (spec_field_str(j_parse_of(buf@), "address"@) is Some),
        r matches Ok(a) ==> spec_field_str(j_parse_of(buf@), "address"@) == Some(a@),
        r matches Err(e) ==> e == DataError::MissingActiveWindowAddress,
{
    let v = parse_response(buf);
    active_window_address_from_json(&v)
}

/// The ids of a well-formed workspaces value, in order.
pub open spec fn spec_workspace_ids(v: serde_json::Value) -> Seq<u64> {
    match j_items_of(v) {
        Some(items) => items.map_values(
            |x: serde_json::Value| spec_field_u64(x, "id"@)->Some_0,
        ),
        None => Seq::<u64>::empty(),
    }
}

/// The highest workspace id a "j/workspaces" response buffer holds, 0 when
/// there is none.
pub fn max_ws_from_response(buf: &[u8]) -> (r: Result<u64, DataError>)
    ensures
        (r is Ok) == spec_workspaces_ok(j_parse_of(buf@)),
        r matches Ok(m) ==> m == spec_max_id(spec_workspace_ids(j_parse_of(buf@))),
        r matches Err(e) ==> spec_workspaces_err(j_parse_of(buf@), e),
{
    let v = parse_response(buf);
    match workspace_ids_from_json(&v) {
        Ok(ids) => {
            proof {
                assert(ids@ =~= spec_workspace_ids(j_parse_of(buf@)));
            }
            Ok(get_max_ws_num(&ids))
        },
        Err(e) => Err(e),
    }
}

/// The highest workspace id in a list, or 0 when the list is empty.
pub open spec fn spec_max_id(ids: Seq<u64>) -> u64
    decreases ids.len(),
{
    if ids.len() == 0 {
        0u64
    } else {
        let m = spec_max_id(ids.drop_last());
        if ids.last() > m {
            ids.last()
        } else {
            m
        }
    }
}

/// Scan a workspace-id list for its maximum, with 0 for an empty list.
pub fn get_max_ws_num(ids: &Vec<u64>) -> (r: u64)
    ensures
        r == spec_max_id(ids@),
        forall|i: int| 0 <= i < ids@.len() ==> ids@[i] <= r,
{
    let mut max: u64 = 0;
    let mut i: usize = 0;
    while i < ids.len()
        invariant
            i <= ids@.len(),
            max == spec_max_id(ids@.take(i as int)),
            forall|j: int| 0 <= j < i ==> ids@[j] <= max,
        decreases ids@.len() - i,
    {
        let ghost prefix = ids@.take(i as int);
        if ids[i] > max {
            max = ids[i];
        }
        proof {
            assert(ids@.take(i + 1).drop_last() =~= prefix);
            assert(ids@.take(i + 1).last() == ids@[i as int]);
        }
        i += 1;
    }
    proof {
        assert(ids@.take(ids@.len() as int) =~= ids@);
    }
    max
}

} // verus!
