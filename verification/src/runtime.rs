use vstd::prelude::*;

verus! {

/// The directory holding the manager's sockets, from the instance signature
/// and the values of the two optional environment lookups: the runtime base
/// directory when it is known, else a UID-derived path, else a fixed default
/// UID of 100.
pub fn runtime_dir(instance: &str, xdg_dir: Option<&str>, uid: Option<&str>) -> (r: String)
    ensures
        r@ == (match (xdg_dir, uid) {
            (Some(d), _) => d@ + "/hypr/"@ + instance@,
            (None, Some(u)) => "/run/user/"@ + u@ + "/hypr/"@ + instance@,
            (None, None) => "/run/user/100/hypr/"@ + instance@,
        }),
{
    match xdg_dir {
        Some(d) => {
            let mut s = d.to_owned();
            s.append("/hypr/");
            s.append(instance);
            s
        },
        None => match uid {
            Some(u) => {
                let mut s = "/run/user/".to_owned();
                s.append(u);
                s.append("/hypr/");
                s.append(instance);
                s
            },
            None => {
                let mut s = "/run/user/100/hypr/".to_owned();
                s.append(instance);
                s
            },
        },
    }
}

/// The path of the request/response socket under the runtime directory.
pub fn command_socket_path(dir: &str) -> (r: String)
    ensures
        r@ == dir@ + "/.socket.sock"@,
{
    let mut s = dir.to_owned();
    s.append("/.socket.sock");
    s
}

/// The path of the persistent event socket under the runtime directory.
pub fn event_socket_path(dir: &str) -> (r: String)
    ensures
        r@ == dir@ + "/.socket2.sock"@,
{
    let mut s = dir.to_owned();
    s.append("/.socket2.sock");
    s
}

} // verus!
