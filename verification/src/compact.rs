use vstd::prelude::*;
use crate::model::{CmdView, HyprCommand, Window, cmds_view};
use crate::text::str_eq;

verus! {

/// The excepted address as the contracts see it: `None` excepts nothing.
pub open spec fn except_view(except: Option<&str>) -> Option<Seq<char>> {
    match except {
        Some(e) => Some(e@),
        None => None,
    }
}

/// Whether a compaction pass with boundary `b` and excepted address `e`
/// relocates window `w`: it sits at or above the boundary and is not excepted.
pub open spec fn shifted(w: Window, b: u64, e: Option<Seq<char>>) -> bool {
    w.workspace_id >= b && e != Some(w.address@)
}

/// The state of one window after `zip(b, e)`: one workspace down if the pass
/// relocates it, untouched otherwise.
pub open spec fn zip_step(w: Window, b: u64, e: Option<Seq<char>>) -> Window {
    if shifted(w, b, e) {
        Window { address: w.address, workspace_id: (w.workspace_id - 1) as u64, title: w.title }
    } else {
        w
    }
}

/// The state of one window after `unzip(b, e)`: one workspace up if the pass
/// relocates it, untouched otherwise.
pub open spec fn unzip_step(w: Window, b: u64, e: Option<Seq<char>>) -> Window {
    if shifted(w, b, e) {
        Window { address: w.address, workspace_id: (w.workspace_id + 1) as u64, title: w.title }
    } else {
        w
    }
}

/// The whole window set after `zip(b, e)`.
pub open spec fn zip_result(ws: Seq<Window>, b: u64, e: Option<Seq<char>>) -> Seq<Window> {
    ws.map_values(|w: Window| zip_step(w, b, e))
}

/// The whole window set after `unzip(b, e)`.
pub open spec fn unzip_result(ws: Seq<Window>, b: u64, e: Option<Seq<char>>) -> Seq<Window> {
    ws.map_values(|w: Window| unzip_step(w, b, e))
}

/// The silent-move commands that `zip(b, e)` issues, in query order: one per
/// relocated window, sending it one workspace down.
pub open spec fn spec_zip_cmds(ws: Seq<Window>, b: u64, e: Option<Seq<char>>) -> Seq<CmdView>
    decreases ws.len(),
{
    if ws.len() == 0 {
        Seq::<CmdView>::empty()
    } else {
        spec_zip_cmds(ws.drop_last(), b, e) + if shifted(ws.last(), b, e) {
            seq![CmdView::MoveWindowSilent {
                dest: (ws.last().workspace_id - 1) as u64,
                address: ws.last().address@,
            }]
        } else {
            Seq::<CmdView>::empty()
        }
    }
}

/// The silent-move commands that `unzip(b, e)` issues, in query order: one per
/// relocated window, sending it one workspace up.
pub open spec fn spec_unzip_cmds(ws: Seq<Window>, b: u64, e: Option<Seq<char>>) -> Seq<CmdView>
    decreases ws.len(),
{
    if ws.len() == 0 {
        Seq::<CmdView>::empty()
    } else {
        spec_unzip_cmds(ws.drop_last(), b, e) + if shifted(ws.last(), b, e) {
            seq![CmdView::MoveWindowSilent {
                dest: (ws.last().workspace_id + 1) as u64,
                address: ws.last().address@,
            }]
        } else {
            Seq::<CmdView>::empty()
        }
    }
}

/// True when the window's address is the excepted one; nothing is excepted
/// under `None`.
fn is_excepted(except: Option<&str>, addr: &String) -> (r: bool)
    ensures
        r == (except_view(except) == Some(addr@)),
{
    match except {
        Some(e) => str_eq(e, addr.as_str()),
        None => false,
    }
}

/// Plan one `zip` pass: every window at or above `boundary` whose address is
/// not the excepted one gets a silent move to the workspace one below its own,
/// in the order the query returned the windows.
pub fn zip_workspaces(clients: &Vec<Window>, boundary: u64, except: Option<&str>) -> (cmds: Vec<
    HyprCommand,
>)
    requires
        forall|i: int|
            0 <= i < clients@.len() && clients@[i].workspace_id >= boundary
                ==> clients@[i].workspace_id >= 1,
    ensures
        cmds_view(cmds@) == spec_zip_cmds(clients@, boundary, except_view(except)),
{
    let ghost e = except_view(except);
    let mut cmds: Vec<HyprCommand> = Vec::new();
    let n = clients.len();
    let mut i: usize = 0;
    while i < n
        invariant
            n == clients@.len(),
            i <= n,
            forall|k: int|
                0 <= k < clients@.len() && clients@[k].workspace_id >= boundary
                    ==> clients@[k].workspace_id >= 1,
            e == except_view(except),
            cmds_view(cmds@) == spec_zip_cmds(clients@.take(i as int), boundary, e),
        decreases n - i,
    {
        let w = &clients[i];
        let ghost prefix = clients@.take(i as int);
        if w.workspace_id >= boundary && !is_excepted(except, &w.address) {
            cmds.push(
                HyprCommand::MoveWindowSilent {
                    dest: w.workspace_id - 1,
                    address: w.address.clone(),
                },
            );
        }
        proof {
            let next = clients@.take(i + 1);
            assert(next.drop_last() =~= prefix);
            assert(next.last() == clients@[i as int]);
            assert(cmds_view(cmds@) =~= spec_zip_cmds(next, boundary, e));
        }
        i += 1;
    }
    proof {
        assert(clients@.take(n as int) =~= clients@);
    }
    cmds
}

/// Plan one `unzip` pass: every window at or above `boundary` whose address is
/// not the excepted one gets a silent move to the workspace one above its own,
/// in the order the query returned the windows.
pub fn unzip_workspaces(clients: &Vec<Window>, boundary: u64, except: Option<&str>) -> (cmds: Vec<
    HyprCommand,
>)
    requires
        forall|i: int|
            0 <= i < clients@.len() && clients@[i].workspace_id >= boundary
                ==> clients@[i].workspace_id < u64::MAX,
    ensures
        cmds_view(cmds@) == spec_unzip_cmds(clients@, boundary, except_view(except)),
{
    let ghost e = except_view(except);
    let mut cmds: Vec<HyprCommand> = Vec::new();
    let n = clients.len();
    let mut i: usize = 0;
    while i < n
        invariant
            n == clients@.len(),
            i <= n,
            forall|k: int|
                0 <= k < clients@.len() && clients@[k].workspace_id >= boundary
                    ==> clients@[k].workspace_id < u64::MAX,
            e == except_view(except),
            cmds_view(cmds@) == spec_unzip_cmds(clients@.take(i as int), boundary, e),
        decreases n - i,
    {
        let w = &clients[i];
        let ghost prefix = clients@.take(i as int);
        if w.workspace_id >= boundary && !is_excepted(except, &w.address) {
            cmds.push(
                HyprCommand::MoveWindowSilent {
                    dest: w.workspace_id + 1,
                    address: w.address.clone(),
                },
            );
        }
        proof {
            let next = clients@.take(i + 1);
            assert(next.drop_last() =~= prefix);
            assert(next.last() == clients@[i as int]);
            assert(cmds_view(cmds@) =~= spec_unzip_cmds(next, boundary, e));
        }
        i += 1;
    }
    proof {
        assert(clients@.take(n as int) =~= clients@);
    }
    cmds
}

/// The window set after one silent move lands: every window carrying the
/// moved address sits on `dest`, all others are untouched.
pub open spec fn apply_move(ws: Seq<Window>, dest: u64, address: Seq<char>) -> Seq<Window> {
    ws.map_values(
        |w: Window|
            if w.address@ == address {
                Window { address: w.address, workspace_id: dest, title: w.title }
            } else {
                w
            },
    )
}

/// The window set after a command list lands, in order; commands other than
/// silent moves leave the windows alone.
pub open spec fn apply_cmds(ws: Seq<Window>, cmds: Seq<CmdView>) -> Seq<Window>
    decreases cmds.len(),
{
    if cmds.len() == 0 {
        ws
    } else {
        let rest = apply_cmds(ws, cmds.drop_last());
        match cmds.last() {
            CmdView::MoveWindowSilent { dest, address } => apply_move(rest, dest, address),
            _ => rest,
        }
    }
}

/// `c` is a silent move of the given address.
pub open spec fn is_move_of(c: CmdView, address: Seq<char>) -> bool {
    c matches CmdView::MoveWindowSilent { address: a, .. } && a == address
}

/// Some command in the list is a silent move of the given address.
pub open spec fn targets(cmds: Seq<CmdView>, address: Seq<char>) -> bool {
    exists|j: int| 0 <= j < cmds.len() && is_move_of(#[trigger] cmds[j], address)
}

proof fn lemma_apply_cmds_concat(a: Seq<Window>, b: Seq<Window>, cmds: Seq<CmdView>)
    ensures
        apply_cmds(a + b, cmds) == apply_cmds(a, cmds) + apply_cmds(b, cmds),
    decreases cmds.len(),
{
    if cmds.len() == 0 {
    } else {
        lemma_apply_cmds_concat(a, b, cmds.drop_last());
        match cmds.last() {
            CmdView::MoveWindowSilent { dest, address } => {
                assert(apply_cmds(a + b, cmds) =~= apply_cmds(a, cmds) + apply_cmds(b, cmds));
            },
            _ => {},
        }
    }
}

proof fn lemma_apply_cmds_untargeted(ws: Seq<Window>, cmds: Seq<CmdView>)
    requires
        forall|i: int| 0 <= i < ws.len() ==> !targets(cmds, ws[i].address@),
    ensures
        apply_cmds(ws, cmds) == ws,
    decreases cmds.len(),
{
    if cmds.len() > 0 {
        assert forall|i: int| 0 <= i < ws.len() implies !targets(cmds.drop_last(), ws[i].address@) by {
            if targets(cmds.drop_last(), ws[i].address@) {
                let j = choose|j: int|
                    0 <= j < cmds.drop_last().len() && is_move_of(
                        #[trigger] cmds.drop_last()[j],
                        ws[i].address@,
                    );
                assert(cmds[j] == cmds.drop_last()[j]);
            }
        }
        lemma_apply_cmds_untargeted(ws, cmds.drop_last());
        match cmds.last() {
            CmdView::MoveWindowSilent { dest, address } => {
                assert forall|i: int| 0 <= i < ws.len() implies ws[i].address@ != address by {
                    assert(cmds.last() == cmds[cmds.len() - 1]);
                }
                assert(apply_cmds(ws, cmds) =~= ws);
            },
            _ => {},
        }
    }
}

proof fn lemma_zip_cmds_addresses(ws: Seq<Window>, b: u64, e: Option<Seq<char>>, addr: Seq<char>)
    requires
        targets(spec_zip_cmds(ws, b, e), addr),
    ensures
        exists|i: int| 0 <= i < ws.len() && ws[i].address@ == addr,
    decreases ws.len(),
{
    let cmds = spec_zip_cmds(ws, b, e);
    let j = choose|j: int| 0 <= j < cmds.len() && is_move_of(#[trigger] cmds[j], addr);
    let prev = spec_zip_cmds(ws.drop_last(), b, e);
    if j < prev.len() {
        assert(prev[j] == cmds[j]);
        lemma_zip_cmds_addresses(ws.drop_last(), b, e, addr);
        let i = choose|i: int| 0 <= i < ws.drop_last().len() && ws.drop_last()[i].address@ == addr;
        assert(ws[i].address@ == addr);
    } else {
        assert(ws.last().address@ == addr);
        assert(ws[ws.len() - 1].address@ == addr);
    }
}

proof fn lemma_unzip_cmds_addresses(ws: Seq<Window>, b: u64, e: Option<Seq<char>>, addr: Seq<char>)
    requires
        targets(spec_unzip_cmds(ws, b, e), addr),
    ensures
        exists|i: int| 0 <= i < ws.len() && ws[i].address@ == addr,
    decreases ws.len(),
{
    let cmds = spec_unzip_cmds(ws, b, e);
    let j = choose|j: int| 0 <= j < cmds.len() && is_move_of(#[trigger] cmds[j], addr);
    let prev = spec_unzip_cmds(ws.drop_last(), b, e);
    if j < prev.len() {
        assert(prev[j] == cmds[j]);
        lemma_unzip_cmds_addresses(ws.drop_last(), b, e, addr);
        let i = choose|i: int| 0 <= i < ws.drop_last().len() && ws.drop_last()[i].address@ == addr;
        assert(ws[i].address@ == addr);
    } else {
        assert(ws.last().address@ == addr);
        assert(ws[ws.len() - 1].address@ == addr);
    }
}

/// Dispatching the planned `zip` commands, in order, takes the window set to
/// exactly the zipped state, provided addresses are unique, as the manager
/// guarantees.
pub proof fn lemma_apply_zip_cmds(ws: Seq<Window>, b: u64, e: Option<Seq<char>>)
    requires
        forall|i: int, j: int| 0 <= i < j < ws.len() ==> ws[i].address@ != ws[j].address@,
    ensures
        apply_cmds(ws, spec_zip_cmds(ws, b, e)) == zip_result(ws, b, e),
    decreases ws.len(),
{
    if ws.len() == 0 {
        assert(apply_cmds(ws, spec_zip_cmds(ws, b, e)) =~= zip_result(ws, b, e));
    } else {
        let w = ws.last();
        let rest = ws.drop_last();
        let cmds_rest = spec_zip_cmds(rest, b, e);
        lemma_apply_zip_cmds(rest, b, e);
        assert(ws =~= rest + seq![w]);
        lemma_apply_cmds_concat(rest, seq![w], cmds_rest);
        assert forall|i: int| 0 <= i < seq![w].len() implies !targets(
            cmds_rest,
            seq![w][i].address@,
        ) by {
            if targets(cmds_rest, w.address@) {
                lemma_zip_cmds_addresses(rest, b, e, w.address@);
            }
        }
        lemma_apply_cmds_untargeted(seq![w], cmds_rest);
        assert(apply_cmds(ws, cmds_rest) =~= zip_result(rest, b, e) + seq![w]);
        if shifted(w, b, e) {
            let m = CmdView::MoveWindowSilent {
                dest: (w.workspace_id - 1) as u64,
                address: w.address@,
            };
            let full = spec_zip_cmds(ws, b, e);
            assert(full =~= cmds_rest.push(m));
            assert(full.drop_last() =~= cmds_rest);
            assert(full.last() == m);
            assert(apply_cmds(ws, full) == apply_move(apply_cmds(ws, cmds_rest), (w.workspace_id
                - 1) as u64, w.address@));
            assert forall|i: int| 0 <= i < rest.len() implies zip_result(rest, b, e)[i].address@
                != w.address@ by {
                assert(zip_result(rest, b, e)[i].address == rest[i].address);
                assert(rest[i] == ws[i]);
            }
            assert(apply_cmds(ws, full) =~= zip_result(ws, b, e));
        } else {
            let full = spec_zip_cmds(ws, b, e);
            assert(full =~= cmds_rest);
            assert(zip_step(w, b, e) == w);
            assert(apply_cmds(ws, full) =~= zip_result(ws, b, e));
        }
    }
}

/// Dispatching the planned `unzip` commands, in order, takes the window set
/// to exactly the unzipped state, provided addresses are unique.
pub proof fn lemma_apply_unzip_cmds(ws: Seq<Window>, b: u64, e: Option<Seq<char>>)
    requires
        forall|i: int, j: int| 0 <= i < j < ws.len() ==> ws[i].address@ != ws[j].address@,
    ensures
        apply_cmds(ws, spec_unzip_cmds(ws, b, e)) == unzip_result(ws, b, e),
    decreases ws.len(),
{
    if ws.len() == 0 {
        assert(apply_cmds(ws, spec_unzip_cmds(ws, b, e)) =~= unzip_result(ws, b, e));
    } else {
        let w = ws.last();
        let rest = ws.drop_last();
        let cmds_rest = spec_unzip_cmds(rest, b, e);
        lemma_apply_unzip_cmds(rest, b, e);
        assert(ws =~= rest + seq![w]);
        lemma_apply_cmds_concat(rest, seq![w], cmds_rest);
        assert forall|i: int| 0 <= i < seq![w].len() implies !targets(
            cmds_rest,
            seq![w][i].address@,
        ) by {
            if targets(cmds_rest, w.address@) {
                lemma_unzip_cmds_addresses(rest, b, e, w.address@);
            }
        }
        lemma_apply_cmds_untargeted(seq![w], cmds_rest);
        assert(apply_cmds(ws, cmds_rest) =~= unzip_result(rest, b, e) + seq![w]);
        if shifted(w, b, e) {
            let m = CmdView::MoveWindowSilent {
                dest: (w.workspace_id + 1) as u64,
                address: w.address@,
            };
            let full = spec_unzip_cmds(ws, b, e);
            assert(full =~= cmds_rest.push(m));
            assert(full.drop_last() =~= cmds_rest);
            assert(full.last() == m);
            assert(apply_cmds(ws, full) == apply_move(apply_cmds(ws, cmds_rest), (w.workspace_id
                + 1) as u64, w.address@));
            assert forall|i: int| 0 <= i < rest.len() implies unzip_result(rest, b, e)[i].address@
                != w.address@ by {
                assert(unzip_result(rest, b, e)[i].address == rest[i].address);
                assert(rest[i] == ws[i]);
            }
            assert(apply_cmds(ws, full) =~= unzip_result(ws, b, e));
        } else {
            let full = spec_unzip_cmds(ws, b, e);
            assert(full =~= cmds_rest);
            assert(unzip_step(w, b, e) == w);
            assert(apply_cmds(ws, full) =~= unzip_result(ws, b, e));
        }
    }
}

/// After `zip(b, None)`, every window that started at or above the boundary
/// sits exactly one workspace lower, and every other window is untouched:
/// with no exception given, no window is excepted.
pub proof fn lemma_zip_shifts_down(ws: Seq<Window>, b: u64)
    requires
        b >= 1,
    ensures
        zip_result(ws, b, None).len() == ws.len(),
        forall|i: int|
            0 <= i < ws.len() && ws[i].workspace_id >= b ==> {
                &&& zip_result(ws, b, None)[i].workspace_id == ws[i].workspace_id - 1
                &&& zip_result(ws, b, None)[i].address == ws[i].address
                &&& zip_result(ws, b, None)[i].title == ws[i].title
            },
        forall|i: int|
            0 <= i < ws.len() && ws[i].workspace_id < b ==> zip_result(ws, b, None)[i] == ws[i],
{
    assert forall|i: int| 0 <= i < ws.len() && ws[i].workspace_id >= b implies {
        &&& zip_result(ws, b, None)[i].workspace_id == ws[i].workspace_id - 1
        &&& zip_result(ws, b, None)[i].address == ws[i].address
        &&& zip_result(ws, b, None)[i].title == ws[i].title
    } by {
        assert(shifted(ws[i], b, None));
    }
}

/// After `zip(b, Some(e))`, the window carrying the excepted address keeps
/// its workspace id, wherever it sits relative to the boundary, and every
/// other window is treated exactly as it would be with no exception.
pub proof fn lemma_zip_keeps_excepted(ws: Seq<Window>, b: u64, e: Seq<char>, i: int)
    requires
        0 <= i < ws.len(),
        ws[i].address@ == e,
    ensures
        zip_result(ws, b, Some(e))[i] == ws[i],
        forall|j: int|
            0 <= j < ws.len() && ws[j].address@ != e ==> zip_result(ws, b, Some(e))[j]
                == zip_result(ws, b, None)[j],
{
}

/// After `unzip(b, Some(e))`, the window carrying the excepted address keeps
/// its workspace id, wherever it sits relative to the boundary, and every
/// other window is treated exactly as it would be with no exception.
pub proof fn lemma_unzip_keeps_excepted(ws: Seq<Window>, b: u64, e: Seq<char>, i: int)
    requires
        0 <= i < ws.len(),
        ws[i].address@ == e,
    ensures
        unzip_result(ws, b, Some(e))[i] == ws[i],
        forall|j: int|
            0 <= j < ws.len() && ws[j].address@ != e ==> unzip_result(ws, b, Some(e))[j]
                == unzip_result(ws, b, None)[j],
{
}

/// `zip(b, e)` undoes `unzip(b, e)`: opening a gap at the boundary and then
/// compacting at the same boundary restores every window's workspace id.
pub proof fn lemma_unzip_zip_round_trip(ws: Seq<Window>, b: u64, e: Option<Seq<char>>)
    requires
        b >= 1,
        forall|i: int| 0 <= i < ws.len() ==> ws[i].workspace_id < u64::MAX,
    ensures
        zip_result(unzip_result(ws, b, e), b, e) == ws,
{
    let u = unzip_result(ws, b, e);
    assert forall|i: int| 0 <= i < ws.len() implies zip_result(u, b, e)[i] == ws[i] by {
        assert(u[i] == unzip_step(ws[i], b, e));
        if shifted(ws[i], b, e) {
            assert(shifted(u[i], b, e));
        }
    }
    assert(zip_result(u, b, e) =~= ws);
}

/// When no window sits at or above the boundary, `zip` issues no commands at
/// all, whatever the exception.
pub proof fn lemma_zip_noop(ws: Seq<Window>, b: u64, e: Option<Seq<char>>)
    requires
        forall|i: int| 0 <= i < ws.len() ==> ws[i].workspace_id < b,
    ensures
        spec_zip_cmds(ws, b, e) == Seq::<CmdView>::empty(),
    decreases ws.len(),
{
    if ws.len() > 0 {
        lemma_zip_noop(ws.drop_last(), b, e);
        assert(!shifted(ws.last(), b, e));
        assert(spec_zip_cmds(ws, b, e) =~= Seq::<CmdView>::empty());
    }
}

/// When no window sits at or above the boundary, `unzip` issues no commands
/// at all, whatever the exception.
pub proof fn lemma_unzip_noop(ws: Seq<Window>, b: u64, e: Option<Seq<char>>)
    requires
        forall|i: int| 0 <= i < ws.len() ==> ws[i].workspace_id < b,
    ensures
        spec_unzip_cmds(ws, b, e) == Seq::<CmdView>::empty(),
    decreases ws.len(),
{
    if ws.len() > 0 {
        lemma_unzip_noop(ws.drop_last(), b, e);
        assert(!shifted(ws.last(), b, e));
        assert(spec_unzip_cmds(ws, b, e) =~= Seq::<CmdView>::empty());
    }
}

} // verus!

