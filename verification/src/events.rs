use vstd::prelude::*;
use crate::compact::{spec_zip_cmds, zip_workspaces};
use crate::model::{ActiveWorkspace, CmdView, DataError, HyprCommand, HyprEvent, Window, cmds_view};
use crate::text::{
    find_char, find_sep2, first_char, first_sep2, parse_u64_range, range_eq, u64_str_ok,
    u64_str_val,
};

verus! {

/// The event type of a subscription line: everything before the first ">>",
/// or the whole line if there is none.
pub open spec fn spec_event_type(s: Seq<char>) -> Seq<char> {
    match first_sep2(s, 0) {
        Some(k) => s.take(k),
        None => s,
    }
}

/// The parameter block of a subscription line: from past the first ">>" up to
/// the next ">>" or the end; empty if the line has no separator.
pub open spec fn spec_params(s: Seq<char>) -> Seq<char> {
    match first_sep2(s, 0) {
        None => Seq::<char>::empty(),
        Some(k) => match first_sep2(s, k + 2) {
            Some(k2) => s.subrange(k + 2, k2),
            None => s.subrange(k + 2, s.len() as int),
        },
    }
}

/// The first comma-separated parameter of a subscription line.
pub open spec fn spec_first_param(s: Seq<char>) -> Seq<char> {
    let p = spec_params(s);
    match first_char(p, 0, p.len() as int, ',') {
        Some(c) => p.take(c),
        None => p,
    }
}

/// One line of the subscription stream as a typed event: a workspace
/// destruction carries the destroyed id, which must parse as a u64; a window
/// closure carries nothing; every other event type is ignored.
pub open spec fn spec_parse_event(s: Seq<char>) -> Result<HyprEvent, DataError> {
    if spec_event_type(s) == "destroyworkspacev2"@ {
        if u64_str_ok(spec_first_param(s)) {
            Ok(HyprEvent::DestroyWorkspace { workspace_id: u64_str_val(spec_first_param(s)) as u64 })
        } else {
            Err(DataError::BadEventWorkspaceId)
        }
    } else if spec_event_type(s) == "closewindow"@ {
        Ok(HyprEvent::CloseWindow)
    } else {
        Ok(HyprEvent::Other)
    }
}

proof fn lemma_first_char_shift(s: Seq<char>, a: int, b: int, i: int, c: char)
    requires
        0 <= a <= i <= b <= s.len(),
    ensures
        first_char(s.subrange(a, b), i - a, b - a, c) == match first_char(s, i, b, c) {
            Some(k) => Some(k - a),
            None => None::<int>,
        },
    decreases b - i,
{
    let p = s.subrange(a, b);
    if i < b {
        assert(p[i - a] == s[i]);
        if s[i] != c {
            lemma_first_char_shift(s, a, b, i + 1, c);
        }
    }
}

/// Decode one line of the subscription stream. The result is `Err` exactly
/// when the line is a workspace destruction whose first parameter is not a
/// valid workspace id.
pub fn parse_event(line: &str) -> (r: Result<HyprEvent, DataError>)
    ensures
        r == spec_parse_event(line@),
{
    let n = line.unicode_len();
    let sep = find_sep2(line, 0);
    let tend = match sep {
        Some(k) => k,
        None => n,
    };
    proof {
        if sep is None {
            assert(line@.subrange(0, n as int) =~= line@);
        }
        assert(spec_event_type(line@) == line@.subrange(0, tend as int));
    }
    if range_eq(line, 0, tend, "destroyworkspacev2") {
        let (ps, pe) = match sep {
            Some(k) => {
                match find_sep2(line, k + 2) {
                    Some(k2) => (k + 2, k2),
                    None => (k + 2, n),
                }
            },
            None => (0, 0),
        };
        proof {
            if sep is None {
                assert(line@.subrange(0, 0) =~= Seq::<char>::empty());
            }
            assert(spec_params(line@) == line@.subrange(ps as int, pe as int));
        }
        let ghost p = spec_params(line@);
        let cend = match find_char(line, ps, pe, ',') {
            Some(c) => c,
            None => pe,
        };
        proof {
            lemma_first_char_shift(line@, ps as int, pe as int, ps as int, ',');
            match first_char(line@, ps as int, pe as int, ',') {
                Some(c) => {
                    assert(spec_first_param(line@) == p.take(c - ps));
                    assert(p.take(cend - ps) =~= line@.subrange(ps as int, cend as int));
                },
                None => {
                    assert(spec_first_param(line@) == p);
                },
            }
            assert(spec_first_param(line@) == line@.subrange(ps as int, cend as int));
        }
        match parse_u64_range(line, ps, cend) {
            Some(v) => Ok(HyprEvent::DestroyWorkspace { workspace_id: v }),
            None => Err(DataError::BadEventWorkspaceId),
        }
    } else if range_eq(line, 0, tend, "closewindow") {
        Ok(HyprEvent::CloseWindow)
    } else {
        Ok(HyprEvent::Other)
    }
}

/// The dispatcher's reaction to one event line, over a snapshot of the
/// manager's state. A workspace destruction compacts at the destroyed id and
/// moves focus one down when the active workspace sat above it; a window
/// closure that left the active workspace empty either moves focus one down
/// (when that workspace is the highest) or compacts at its id; everything
/// else does nothing.
pub open spec fn spec_process_event(
    s: Seq<char>,
    clients: Seq<Window>,
    active: ActiveWorkspace,
    max_id: u64,
) -> Result<Seq<CmdView>, DataError> {
    match spec_parse_event(s) {
        Err(e) => Err(e),
        Ok(HyprEvent::DestroyWorkspace { workspace_id: b }) => Ok(
            spec_zip_cmds(clients, b, None) + if active.id > b {
                seq![CmdView::FocusLeft]
            } else {
                Seq::<CmdView>::empty()
            },
        ),
        Ok(HyprEvent::CloseWindow) => Ok(
            if active.windows == 0 {
                if active.id == max_id {
                    seq![CmdView::FocusLeft]
                } else {
                    spec_zip_cmds(clients, active.id, None)
                }
            } else {
                Seq::<CmdView>::empty()
            },
        ),
        Ok(HyprEvent::Other) => Ok(Seq::<CmdView>::empty()),
    }
}

/// React to one event line, given a fresh snapshot of the manager's state:
/// the window list, the active-workspace record, and the highest workspace
/// id. Returns the commands to dispatch, in order, or the fatal data error.
pub fn process_event(
    line: &str,
    clients: &Vec<Window>,
    active: ActiveWorkspace,
    max_id: u64,
) -> (r: Result<Vec<HyprCommand>, DataError>)
    requires
        forall|i: int| 0 <= i < clients@.len() ==> clients@[i].workspace_id >= 1,
    ensures
        (r is Ok) == (spec_process_event(line@, clients@, active, max_id) is Ok),
        r is Ok ==> cmds_view(r->Ok_0@) == spec_process_event(line@, clients@, active, max_id)->Ok_0,
        r is Err ==> r->Err_0 == spec_process_event(line@, clients@, active, max_id)->Err_0,
{
    match parse_event(line) {
        Err(e) => Err(e),
        Ok(HyprEvent::DestroyWorkspace { workspace_id: b }) => {
            let mut cmds = zip_workspaces(clients, b, None);
            let ghost zipped = cmds_view(cmds@);
            if active.id > b {
                cmds.push(HyprCommand::FocusLeft);
                proof {
                    assert(cmds_view(cmds@) =~= zipped + seq![CmdView::FocusLeft]);
                }
            } else {
                proof {
                    assert(zipped + Seq::<CmdView>::empty() =~= zipped);
                }
            }
            Ok(cmds)
        },
        Ok(HyprEvent::CloseWindow) => {
            if active.windows == 0 {
                if active.id == max_id {
                    let mut cmds: Vec<HyprCommand> = Vec::new();
                    cmds.push(HyprCommand::FocusLeft);
                    proof {
                        assert(cmds_view(cmds@) =~= seq![CmdView::FocusLeft]);
                    }
                    Ok(cmds)
                } else {
                    Ok(zip_workspaces(clients, active.id, None))
                }
            } else {
                let cmds: Vec<HyprCommand> = Vec::new();
                proof {
                    assert(cmds_view(cmds@) =~= Seq::<CmdView>::empty());
                }
                Ok(cmds)
            }
        },
        Ok(HyprEvent::Other) => {
            let cmds: Vec<HyprCommand> = Vec::new();
            proof {
                assert(cmds_view(cmds@) =~= Seq::<CmdView>::empty());
            }
            Ok(cmds)
        },
    }
}

} // verus!
