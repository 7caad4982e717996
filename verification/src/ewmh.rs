//! The properties and messages of the window-manager protocols.
//!
//! Each property is written whole, in replace mode. The properties of the
//! root window tell other programs of the desktops and of the clients; the
//! delete protocol asks a window to close itself.

use vstd::prelude::*;
use vstd::utf8::encode_utf8;

use crate::atoms::Atoms;
use crate::client::Client;
use crate::context::Context;
use crate::layout::{Workspace, WorkspaceView};
use crate::requests::{
    PropertyData, PropertyDataView, Request, RequestQueue, RequestView, ATOM_CARDINAL,
    ATOM_STRING, ATOM_WINDOW, CURRENT_TIME,
};
use crate::slab::slot;

verus! {

/// The request that makes `values` the property `property` of `window`, as
/// numbers.
pub open spec fn cardinal_property(window: u32, property: u32, values: Seq<u32>) -> RequestView {
    RequestView::ChangeProperty {
        window,
        property,
        kind: ATOM_CARDINAL,
        data: PropertyDataView::Cardinals(values),
    }
}

/// The request that makes `windows` the property `property` of `window`, as
/// window ids.
pub open spec fn window_property(window: u32, property: u32, windows: Seq<u32>) -> RequestView {
    RequestView::ChangeProperty {
        window,
        property,
        kind: ATOM_WINDOW,
        data: PropertyDataView::Cardinals(windows),
    }
}

/// The request that makes `bytes` the property `property` of `window`, as a
/// string.
pub open spec fn string_property(window: u32, property: u32, bytes: Seq<u8>) -> RequestView {
    RequestView::ChangeProperty {
        window,
        property,
        kind: ATOM_STRING,
        data: PropertyDataView::Bytes(bytes),
    }
}

/// The names of `workspaces` in order, each in UTF-8 and followed by a zero
/// byte.
pub open spec fn names_bytes(workspaces: Seq<WorkspaceView>) -> Seq<u8>
    decreases workspaces.len(),
{
    if workspaces.len() == 0 {
        Seq::empty()
    } else {
        names_bytes(workspaces.drop_last()) + encode_utf8(workspaces.last().name) + seq![0u8]
    }
}

/// For each handle of `handles` that has a client, in order, the request that
/// writes desktop `id` on the client's window.
pub open spec fn desktop_tags(
    handles: Seq<usize>,
    clients: Seq<Option<Client>>,
    atoms: Atoms,
    id: u32,
) -> Seq<RequestView>
    decreases handles.len(),
{
    if handles.len() == 0 {
        Seq::empty()
    } else {
        desktop_tags(handles.drop_last(), clients, atoms, id) + match slot(
            clients,
            handles.last() as int,
        ) {
            Some(client) => seq![cardinal_property(client.window, atoms.net_wm_desktop, seq![id])],
            None => Seq::empty(),
        }
    }
}

/// The requests that write on the window of each client of each workspace the
/// id of that workspace, workspace by workspace.
pub open spec fn wm_desktop_requests(
    workspaces: Seq<WorkspaceView>,
    clients: Seq<Option<Client>>,
    atoms: Atoms,
) -> Seq<RequestView>
    decreases workspaces.len(),
{
    if workspaces.len() == 0 {
        Seq::empty()
    } else {
        wm_desktop_requests(workspaces.drop_last(), clients, atoms) + desktop_tags(
            workspaces.last().handles(),
            clients,
            atoms,
            workspaces.last().id,
        )
    }
}

/// The tags of a list of handles hold the tag of each handle that has a
/// client.
pub proof fn lemma_desktop_tags_hold(
    handles: Seq<usize>,
    clients: Seq<Option<Client>>,
    atoms: Atoms,
    id: u32,
    k: int,
)
    requires
        0 <= k < handles.len(),
        slot(clients, handles[k] as int) is Some,
    ensures
        desktop_tags(handles, clients, atoms, id).contains(
            cardinal_property(
                clients[handles[k] as int].unwrap().window,
                atoms.net_wm_desktop,
                seq![id],
            ),
        ),
    decreases handles.len(),
{
    let tag = cardinal_property(
        clients[handles[k] as int].unwrap().window,
        atoms.net_wm_desktop,
        seq![id],
    );
    let front = desktop_tags(handles.drop_last(), clients, atoms, id);
    let all = desktop_tags(handles, clients, atoms, id);
    if k == handles.len() - 1 {
        assert(all == front + seq![tag]);
        assert(all[front.len() as int] == tag);
    } else {
        assert(handles.drop_last()[k] == handles[k]);
        lemma_desktop_tags_hold(handles.drop_last(), clients, atoms, id, k);
        let at = choose|at: int| 0 <= at < front.len() && front[at] == tag;
        assert(all[at] == tag);
    }
}

/// The tags of all workspaces hold the tag of each handle of each workspace
/// that has a client.
pub proof fn lemma_wm_desktop_holds(
    workspaces: Seq<WorkspaceView>,
    clients: Seq<Option<Client>>,
    atoms: Atoms,
    i: int,
    k: int,
)
    requires
        0 <= i < workspaces.len(),
        0 <= k < workspaces[i].handles().len(),
        slot(clients, workspaces[i].handles()[k] as int) is Some,
    ensures
        wm_desktop_requests(workspaces, clients, atoms).contains(
            cardinal_property(
                clients[workspaces[i].handles()[k] as int].unwrap().window,
                atoms.net_wm_desktop,
                seq![workspaces[i].id],
            ),
        ),
    decreases workspaces.len(),
{
    let tag = cardinal_property(
        clients[workspaces[i].handles()[k] as int].unwrap().window,
        atoms.net_wm_desktop,
        seq![workspaces[i].id],
    );
    let front = wm_desktop_requests(workspaces.drop_last(), clients, atoms);
    let last = desktop_tags(
        workspaces.last().handles(),
        clients,
        atoms,
        workspaces.last().id,
    );
    let all = wm_desktop_requests(workspaces, clients, atoms);
    assert(all == front + last);
    if i == workspaces.len() - 1 {
        lemma_desktop_tags_hold(workspaces[i].handles(), clients, atoms, workspaces[i].id, k);
        let at = choose|at: int| 0 <= at < last.len() && last[at] == tag;
        assert(all[front.len() + at] == tag);
    } else {
        assert(workspaces.drop_last()[i] == workspaces[i]);
        lemma_wm_desktop_holds(workspaces.drop_last(), clients, atoms, i, k);
        let at = choose|at: int| 0 <= at < front.len() && front[at] == tag;
        assert(all[at] == tag);
    }
}

/// The views of the workspaces in `v`.
pub open spec fn views_of_workspaces(v: Seq<Workspace>) -> Seq<WorkspaceView> {
    Seq::new(v.len(), |i: int| v[i]@)
}

/// Writes the number of desktops on the root window.
pub fn set_number_of_desktops(new_amount: u32, root: u32, atoms: &Atoms, out: &mut RequestQueue)
    ensures
        final(out)@ == old(out)@.push(
            cardinal_property(root, atoms.net_number_of_desktops, seq![new_amount]),
        ),
{
    let mut data: Vec<u32> = Vec::new();
    data.push(new_amount);
    assert(data@ =~= seq![new_amount]);
    out.push(
        Request::ChangeProperty {
            window: root,
            property: atoms.net_number_of_desktops,
            kind: ATOM_CARDINAL,
            data: PropertyData::Cardinals(data),
        },
    );
}

/// Writes the id of the desktop that is shown on the root window.
pub fn set_current_desktop(new_desktop: u32, root: u32, atoms: &Atoms, out: &mut RequestQueue)
    ensures
        final(out)@ == old(out)@.push(
            cardinal_property(root, atoms.net_current_desktop, seq![new_desktop]),
        ),
{
    let mut data: Vec<u32> = Vec::new();
    data.push(new_desktop);
    assert(data@ =~= seq![new_desktop]);
    out.push(
        Request::ChangeProperty {
            window: root,
            property: atoms.net_current_desktop,
            kind: ATOM_CARDINAL,
            data: PropertyData::Cardinals(data),
        },
    );
}

/// Writes the names of the desktops on the root window, each followed by a
/// zero byte.
pub fn set_desktop_names(
    workspaces: &Vec<Workspace>,
    root: u32,
    atoms: &Atoms,
    out: &mut RequestQueue,
)
    ensures
        final(out)@ == old(out)@.push(
            string_property(
                root,
                atoms.net_desktop_names,
                names_bytes(views_of_workspaces(workspaces@)),
            ),
        ),
{
    let mut bytes: Vec<u8> = Vec::new();
    let ghost views = views_of_workspaces(workspaces@);
    let n = workspaces.len();
    assert(views.take(0) =~= Seq::<WorkspaceView>::empty());
    for i in 0..n
        invariant
            n == workspaces@.len(),
            views == views_of_workspaces(workspaces@),
            bytes@ == names_bytes(views.take(i as int)),
    {
        let name = workspaces[i].name().as_bytes();
        let ghost before = bytes@;
        let m = name.len();
        for j in 0..m
            invariant
                m == name@.len(),
                bytes@ == before + name@.take(j as int),
        {
            bytes.push(name[j]);
            assert(before + name@.take(j + 1) =~= (before + name@.take(j as int)).push(
                name@[j as int],
            ));
        }
        bytes.push(0u8);
        proof {
            assert(name@.take(m as int) =~= name@);
            assert(views.take(i + 1).drop_last() =~= views.take(i as int));
            assert(views.take(i + 1).last() == workspaces@[i as int]@);
            assert(bytes@ =~= before + encode_utf8(workspaces@[i as int]@.name) + seq![0u8]);
        }
    }
    assert(views.take(n as int) =~= views);
    out.push(
        Request::ChangeProperty {
            window: root,
            property: atoms.net_desktop_names,
            kind: ATOM_STRING,
            data: PropertyData::Bytes(bytes),
        },
    );
}

/// Writes the corner of the desktop on the root window.
pub fn set_desktop_viewport(x: u32, y: u32, root: u32, atoms: &Atoms, out: &mut RequestQueue)
    ensures
        final(out)@ == old(out)@.push(
            cardinal_property(root, atoms.net_desktop_viewport, seq![x, y]),
        ),
{
    let mut data: Vec<u32> = Vec::new();
    data.push(x);
    data.push(y);
    assert(data@ =~= seq![x, y]);
    out.push(
        Request::ChangeProperty {
            window: root,
            property: atoms.net_desktop_viewport,
            kind: ATOM_CARDINAL,
            data: PropertyData::Cardinals(data),
        },
    );
}

/// Writes on the window of each client the id of the workspace that holds
/// it.
pub fn set_wm_desktop(workspaces: &Vec<Workspace>, ctx: &mut Context)
    requires
        old(ctx).wf(),
    ensures
        final(ctx).wf(),
        final(ctx)@ == old(ctx)@.emit(
            wm_desktop_requests(
                views_of_workspaces(workspaces@),
                old(ctx)@.windows,
                old(ctx)@.atoms,
            ),
        ),
{
    let ghost views = views_of_workspaces(workspaces@);
    let ghost clients = ctx@.windows;
    let ghost atoms = ctx@.atoms;
    let n = workspaces.len();
    proof {
        assert(views.take(0) =~= Seq::<WorkspaceView>::empty());
        ctx@.lemma_emit_concat(Seq::empty(), Seq::empty());
    }
    for i in 0..n
        invariant
            n == workspaces@.len(),
            views == views_of_workspaces(workspaces@),
            clients == old(ctx)@.windows,
            atoms == old(ctx)@.atoms,
            ctx.wf(),
            ctx@ == old(ctx)@.emit(wm_desktop_requests(views.take(i as int), clients, atoms)),
    {
        let handles = workspaces[i].windows();
        let id = workspaces[i].id();
        let ghost base = ctx@;
        let m = handles.len();
        proof {
            assert(handles@.take(0) =~= Seq::<usize>::empty());
            base.lemma_emit_concat(Seq::empty(), Seq::empty());
        }
        for j in 0..m
            invariant
                m == handles@.len(),
                base.windows == clients,
                base.atoms == atoms,
                ctx.wf(),
                ctx@ == base.emit(desktop_tags(handles@.take(j as int), clients, atoms, id)),
        {
            assert(handles@.take(j + 1).drop_last() =~= handles@.take(j as int));
            assert(handles@.take(j + 1).last() == handles@[j as int]);
            let ghost sofar = desktop_tags(handles@.take(j as int), clients, atoms, id);
            match ctx.windows.get(handles[j]) {
                Some(client) => {
                    let window = client.window;
                    let property = ctx.atoms.net_wm_desktop;
                    let mut data: Vec<u32> = Vec::new();
                    data.push(id);
                    assert(data@ =~= seq![id]);
                    ctx.emit(
                        Request::ChangeProperty {
                            window,
                            property,
                            kind: ATOM_CARDINAL,
                            data: PropertyData::Cardinals(data),
                        },
                    );
                    proof {
                        base.lemma_emit_concat(
                            sofar,
                            seq![cardinal_property(window, atoms.net_wm_desktop, seq![id])],
                        );
                    }
                },
                None => {
                    assert(sofar + Seq::<RequestView>::empty() =~= sofar);
                },
            }
        }
        proof {
            assert(handles@.take(m as int) =~= handles@);
            assert(views.take(i + 1).drop_last() =~= views.take(i as int));
            assert(views.take(i + 1).last() == workspaces@[i as int]@);
            old(ctx)@.lemma_emit_concat(
                wm_desktop_requests(views.take(i as int), clients, atoms),
                desktop_tags(handles@, clients, atoms, id),
            );
        }
    }
    assert(views.take(n as int) =~= views);
}

/// Writes the windows of the clients on the root window, in the order in
/// which the clients came.
pub fn set_client_list(clients: &Vec<u32>, root: u32, atoms: &Atoms, out: &mut RequestQueue)
    ensures
        final(out)@ == old(out)@.push(window_property(root, atoms.net_client_list, clients@)),
{
    out.push(
        Request::ChangeProperty {
            window: root,
            property: atoms.net_client_list,
            kind: ATOM_WINDOW,
            data: PropertyData::Cardinals(clients.clone()),
        },
    );
}

/// Writes the windows that are on screen on the root window, bottom first.
pub fn set_client_list_stacking(
    clients: &Vec<u32>,
    root: u32,
    atoms: &Atoms,
    out: &mut RequestQueue,
)
    ensures
        final(out)@ == old(out)@.push(
            window_property(root, atoms.net_client_list_stacking, clients@),
        ),
{
    out.push(
        Request::ChangeProperty {
            window: root,
            property: atoms.net_client_list_stacking,
            kind: ATOM_WINDOW,
            data: PropertyData::Cardinals(clients.clone()),
        },
    );
}

/// Writes on the root window whether only the desktop is shown.
pub fn set_showing_desktop(is_showing: bool, root: u32, atoms: &Atoms, out: &mut RequestQueue)
    ensures
        final(out)@ == old(out)@.push(
            cardinal_property(
                root,
                atoms.net_showing_desktop,
                seq![
                    if is_showing {
                        1u32
                    } else {
                        0u32
                    },
                ],
            ),
        ),
{
    let mut data: Vec<u32> = Vec::new();
    data.push(
        if is_showing {
            1u32
        } else {
            0u32
        },
    );
    assert(data@ =~= seq![
        if is_showing {
            1u32
        } else {
            0u32
        },
    ]);
    out.push(
        Request::ChangeProperty {
            window: root,
            property: atoms.net_showing_desktop,
            kind: ATOM_CARDINAL,
            data: PropertyData::Cardinals(data),
        },
    );
}

/// Whether a window whose protocols property holds `protocols` takes part in
/// the protocol `requested_atom`.
pub fn window_supports(requested_atom: u32, protocols: &Vec<u32>) -> (r: bool)
    ensures
        r == protocols@.contains(requested_atom),
{
    let n = protocols.len();
    for i in 0..n
        invariant
            n == protocols@.len(),
            forall|j: int| 0 <= j < i ==> protocols@[j] != requested_atom,
    {
        if protocols[i] == requested_atom {
            return true;
        }
    }
    false
}

/// The message that asks `window` to close itself.
pub open spec fn delete_message_view(window: u32, atoms: Atoms) -> RequestView {
    RequestView::SendClientMessage {
        window,
        kind: atoms.wm_protocols,
        first: atoms.wm_delete_window,
        second: CURRENT_TIME,
    }
}

/// The message that asks `window` to close itself.
pub fn delete_message(window: u32, atoms: &Atoms) -> (r: Request)
    ensures
        r@ == delete_message_view(window, *atoms),
{
    Request::SendClientMessage {
        window,
        kind: atoms.wm_protocols,
        first: atoms.wm_delete_window,
        second: CURRENT_TIME,
    }
}

/// Ends the life of `window` where the delete message did not reach it, and
/// says whether it did so. `delivered` says that the window takes part in the
/// delete protocol and was sent the message: then nothing is done and the
/// window is left to close itself. Otherwise the window is destroyed.
pub fn delete_window(window: u32, delivered: bool, out: &mut RequestQueue) -> (gone: bool)
    ensures
        gone == !delivered,
        delivered ==> final(out)@ == old(out)@,
        !delivered ==> final(out)@ == old(out)@.push(RequestView::DestroyWindow { window }),
{
    if delivered {
        false
    } else {
        out.push(Request::DestroyWindow { window });
        true
    }
}

} // verus!
