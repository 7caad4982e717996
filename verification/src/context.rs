//! What the workspaces share: the clients, the table that finds a client by a
//! window id, and the queue of requests.

use std::collections::HashMap;
use vstd::prelude::*;

use crate::atoms::Atoms;
use crate::client::{close_requests, Client, ClientOp};
use crate::requests::{Request, RequestQueue, RequestView};
use crate::handles::{lemma_push_fresh, lemma_without, remove_handle, without};
use crate::slab::{first_vacant, lemma_first_vacant, pushed, removed, slot, Slab};

verus! {

broadcast use vstd::std_specs::hash::group_hash_axioms;

/// One step of a script: `op` done to the client with handle `handle`.
#[derive(Debug, Clone, Copy, PartialEq, Eq, Structural)]
pub struct Step {
    pub handle: usize,
    pub op: ClientOp,
}

/// The clients after `step`. A step for a handle without a client does
/// nothing.
pub open spec fn step_clients(clients: Seq<Option<Client>>, step: Step) -> Seq<Option<Client>> {
    if slot(clients, step.handle as int) is Some {
        clients.update(
            step.handle as int,
            Some(clients[step.handle as int].unwrap().after(step.op)),
        )
    } else {
        clients
    }
}

/// The requests that `step` sends. A step for a handle without a client sends
/// none.
pub open spec fn step_requests(clients: Seq<Option<Client>>, step: Step) -> Seq<RequestView> {
    if slot(clients, step.handle as int) is Some {
        clients[step.handle as int].unwrap().requests_of(step.op)
    } else {
        Seq::empty()
    }
}

/// The clients after the steps of `script`, done in order.
pub open spec fn run_clients(clients: Seq<Option<Client>>, script: Seq<Step>) -> Seq<
    Option<Client>,
>
    decreases script.len(),
{
    if script.len() == 0 {
        clients
    } else {
        step_clients(run_clients(clients, script.drop_last()), script.last())
    }
}

/// The requests that the steps of `script` send, in order.
pub open spec fn run_requests(clients: Seq<Option<Client>>, script: Seq<Step>) -> Seq<RequestView>
    decreases script.len(),
{
    if script.len() == 0 {
        Seq::empty()
    } else {
        run_requests(clients, script.drop_last()) + step_requests(
            run_clients(clients, script.drop_last()),
            script.last(),
        )
    }
}

/// The script that does `op` to each handle of `handles`, in order.
pub open spec fn each(handles: Seq<usize>, op: ClientOp) -> Seq<Step> {
    Seq::new(handles.len(), |i: int| Step { handle: handles[i], op })
}

/// Two clients are the same but for what a step may change: whether the
/// client is visible, and its rectangle.
pub open spec fn same_identity(a: Client, b: Client) -> bool {
    &&& a.window == b.window
    &&& a.frame == b.frame
    &&& a.name == b.name
    &&& a.workspace == b.workspace
}

/// Two states of the clients have the same slots occupied, by clients of the
/// same identity.
pub open spec fn same_identities(a: Seq<Option<Client>>, b: Seq<Option<Client>>) -> bool {
    &&& a.len() == b.len()
    &&& forall|h: int|
        0 <= h < a.len() ==> ((#[trigger] a[h]) is Some <==> b[h] is Some) && (a[h] is Some
            ==> same_identity(a[h].unwrap(), b[h].unwrap()))
}

/// A script changes no client's identity and neither adds nor removes one.
pub proof fn lemma_run_keeps_identities(clients: Seq<Option<Client>>, script: Seq<Step>)
    ensures
        same_identities(clients, run_clients(clients, script)),
    decreases script.len(),
{
    if script.len() > 0 {
        lemma_run_keeps_identities(clients, script.drop_last());
    }
}

/// A script leaves alone every client for which it has no step.
pub proof fn lemma_run_keeps_untouched(clients: Seq<Option<Client>>, script: Seq<Step>, h: int)
    requires
        0 <= h < clients.len(),
        forall|i: int| 0 <= i < script.len() ==> (#[trigger] script[i]).handle != h,
    ensures
        run_clients(clients, script).len() == clients.len(),
        run_clients(clients, script)[h] == clients[h],
    decreases script.len(),
{
    lemma_run_keeps_identities(clients, script);
    if script.len() > 0 {
        let front = script.drop_last();
        assert forall|i: int| 0 <= i < front.len() implies (#[trigger] front[i]).handle != h by {
            assert(front[i] == script[i]);
        }
        lemma_run_keeps_untouched(clients, front, h);
        lemma_run_keeps_identities(clients, front);
        assert(script.last() == script[script.len() - 1]);
    }
}

/// Where a script has one step only for a client, the client is afterwards
/// what that step makes of it.
pub proof fn lemma_run_single_step(clients: Seq<Option<Client>>, script: Seq<Step>, k: int)
    requires
        0 <= k < script.len(),
        slot(clients, script[k].handle as int) is Some,
        forall|j: int|
            0 <= j < script.len() && j != k ==> (#[trigger] script[j]).handle != script[k].handle,
    ensures
        slot(run_clients(clients, script), script[k].handle as int) == Some(
            clients[script[k].handle as int].unwrap().after(script[k].op),
        ),
    decreases script.len(),
{
    let h = script[k].handle as int;
    let front = script.drop_last();
    lemma_run_keeps_identities(clients, front);
    if k == script.len() - 1 {
        assert forall|i: int| 0 <= i < front.len() implies (#[trigger] front[i]).handle != h by {
            assert(front[i] == script[i]);
        }
        lemma_run_keeps_untouched(clients, front, h);
    } else {
        assert(front[k] == script[k]);
        assert forall|j: int| 0 <= j < front.len() && j != k implies (#[trigger] front[j]).handle
            != front[k].handle by {
            assert(front[j] == script[j]);
        }
        lemma_run_single_step(clients, front, k);
        assert(script.last() == script[script.len() - 1]);
    }
}

/// Running one script and then another is running the two as one.
pub proof fn lemma_run_concat(clients: Seq<Option<Client>>, a: Seq<Step>, b: Seq<Step>)
    ensures
        run_clients(clients, a + b) == run_clients(run_clients(clients, a), b),
        run_requests(clients, a + b) == run_requests(clients, a) + run_requests(
            run_clients(clients, a),
            b,
        ),
    decreases b.len(),
{
    if b.len() == 0 {
        assert(a + b =~= a);
        assert(run_requests(clients, a) + Seq::<RequestView>::empty() =~= run_requests(clients, a));
    } else {
        lemma_run_concat(clients, a, b.drop_last());
        assert((a + b).drop_last() =~= a + b.drop_last());
        assert((a + b).last() == b.last());
        let mid = run_clients(clients, a);
        assert(run_requests(clients, a + b) =~= run_requests(clients, a) + run_requests(mid, b));
    }
}

/// A script of one step is that step.
pub proof fn lemma_run_one(clients: Seq<Option<Client>>, step: Step)
    ensures
        run_clients(clients, seq![step]) == step_clients(clients, step),
        run_requests(clients, seq![step]) == step_requests(clients, step),
{
    let script = seq![step];
    assert(script.drop_last() =~= Seq::<Step>::empty());
    assert(script.last() == step);
    assert(run_clients(clients, Seq::<Step>::empty()) == clients);
    assert(run_requests(clients, Seq::<Step>::empty()) == Seq::<RequestView>::empty());
    assert(run_requests(clients, script) =~= step_requests(clients, step));
}

/// `Context` as a mathematical value.
pub struct ContextView {
    /// The client handle under each window id that is known.
    pub lookup: Map<u32, usize>,
    /// The slots of the clients.
    pub windows: Seq<Option<Client>>,
    /// The handles of the clients, the one that came first being first.
    pub order: Seq<usize>,
    pub current_workspace: u8,
    pub atoms: Atoms,
    pub root_window: u32,
    /// The requests that wait to be sent, oldest first.
    pub requests: Seq<RequestView>,
    pub focused_window: Option<usize>,
}

impl ContextView {
    /// Handle `h` has a client.
    pub open spec fn live(self, h: int) -> bool {
        slot(self.windows, h) is Some
    }

    /// The client of a handle that has one.
    pub open spec fn client(self, h: int) -> Client {
        self.windows[h].unwrap()
    }

    /// The state after `script`: its steps done to the clients and their
    /// requests appended.
    pub open spec fn run(self, script: Seq<Step>) -> ContextView {
        ContextView {
            windows: run_clients(self.windows, script),
            requests: self.requests + run_requests(self.windows, script),
            ..self
        }
    }

    /// The state with `requests` appended to the queue.
    pub open spec fn emit(self, requests: Seq<RequestView>) -> ContextView {
        ContextView { requests: self.requests + requests, ..self }
    }

    /// Every client is found under its frame's id and under its window's id,
    /// which differ.
    pub open spec fn clients_are_found(self) -> bool {
        forall|h: int|
            #![trigger self.windows[h]]
            self.live(h) ==> {
                let c = self.client(h);
                &&& c.frame != c.window
                &&& self.lookup.contains_key(c.frame) && self.lookup[c.frame] == h
                &&& self.lookup.contains_key(c.window) && self.lookup[c.window] == h
            }
    }

    /// Every id that is found leads to a client whose frame or window has it.
    pub open spec fn found_are_clients(self) -> bool {
        forall|id: u32|
            #![trigger self.lookup[id]]
            #![trigger self.lookup.contains_key(id)]
            self.lookup.contains_key(id) ==> {
                let h = self.lookup[id] as int;
                &&& self.live(h)
                &&& (self.client(h).frame == id || self.client(h).window == id)
            }
    }

    /// The order lists each handle that has a client, once, and no other.
    pub open spec fn order_is_exact(self) -> bool {
        &&& self.order.no_duplicates()
        &&& forall|i: int| 0 <= i < self.order.len() ==> self.live((#[trigger] self.order[i]) as int)
        &&& forall|h: int|
            #![trigger self.windows[h]]
            self.live(h) ==> self.order.contains(h as usize)
    }

    /// The table and the order agree with the clients.
    pub open spec fn wf(self) -> bool {
        &&& self.clients_are_found()
        &&& self.found_are_clients()
        &&& self.order_is_exact()
    }

    /// Running two scripts in turn is running the two as one.
    pub proof fn lemma_run_concat(self, a: Seq<Step>, b: Seq<Step>)
        ensures
            self.run(a).run(b) == self.run(a + b),
    {
        lemma_run_concat(self.windows, a, b);
        assert(self.run(a).run(b).requests =~= self.run(a + b).requests);
    }

    /// Running no step changes nothing.
    pub proof fn lemma_run_nothing(self)
        ensures
            self.run(Seq::<Step>::empty()) == self,
    {
        assert(self.run(Seq::<Step>::empty()).requests =~= self.requests);
    }

    /// The state with `client` in the lowest vacant slot, last in the order
    /// and found under its two ids.
    pub open spec fn with_client(self, client: Client) -> ContextView {
        let idx = first_vacant(self.windows) as usize;
        ContextView {
            windows: pushed(self.windows, client),
            order: self.order.push(idx),
            lookup: self.lookup.insert(client.frame, idx).insert(client.window, idx),
            ..self
        }
    }

    /// The state without the client of handle `idx`: its slot is vacant, it
    /// is out of the order, neither of its ids is found, and it does not hold
    /// the focus. The same state where `idx` has no client.
    pub open spec fn without_client(self, idx: usize) -> ContextView {
        if self.live(idx as int) {
            let client = self.client(idx as int);
            ContextView {
                windows: removed(self.windows, idx as int),
                order: without(self.order, idx),
                lookup: self.lookup.remove(client.frame).remove(client.window),
                focused_window: if self.focused_window == Some(idx) {
                    None
                } else {
                    self.focused_window
                },
                ..self
            }
        } else {
            self
        }
    }

    /// A client whose ids are new and differ can be taken in: the table and
    /// the order stay in agreement with the clients, and the clients that
    /// were there stay as they are.
    pub proof fn lemma_with_client(self, client: Client)
        requires
            self.wf(),
            client.frame != client.window,
            !self.lookup.contains_key(client.frame),
            !self.lookup.contains_key(client.window),
            first_vacant(self.windows) <= usize::MAX,
        ensures
            self.with_client(client).wf(),
            !self.live(first_vacant(self.windows)),
            self.with_client(client).live(first_vacant(self.windows)),
            self.with_client(client).client(first_vacant(self.windows)) == client,
            forall|h: int|
                self.live(h) ==> self.with_client(client).live(h) && self.with_client(
                    client,
                ).client(h) == self.client(h),
            forall|h: int|
                self.with_client(client).live(h) ==> self.live(h) || h == first_vacant(
                    self.windows,
                ),
    {
        lemma_first_vacant(self.windows);
        let idx = first_vacant(self.windows);
        let after = self.with_client(client);
        assert(!self.live(idx));
        assert(!self.order.contains(idx as usize)) by {
            if self.order.contains(idx as usize) {
                let i = choose|i: int| 0 <= i < self.order.len() && self.order[i] == idx as usize;
                assert(self.live(self.order[i] as int));
            }
        }
        lemma_push_fresh(self.order, idx as usize);
        assert(after.clients_are_found()) by {
            assert forall|h: int| #![trigger after.windows[h]] after.live(h) implies {
                let c = after.client(h);
                &&& c.frame != c.window
                &&& after.lookup.contains_key(c.frame) && after.lookup[c.frame] == h
                &&& after.lookup.contains_key(c.window) && after.lookup[c.window] == h
            } by {
                if h != idx {
                    assert(self.windows[h] is Some);
                    assert(self.live(h));
                }
            }
        }
        assert(after.found_are_clients()) by {
            assert forall|id: u32|
                #![trigger after.lookup[id]]
                #![trigger after.lookup.contains_key(id)]
                after.lookup.contains_key(id) implies {
                let h = after.lookup[id] as int;
                &&& after.live(h)
                &&& (after.client(h).frame == id || after.client(h).window == id)
            } by {
                if id != client.frame && id != client.window {
                    assert(self.lookup.contains_key(id));
                    let h = self.lookup[id] as int;
                    assert(self.live(h));
                }
            }
        }
        assert(after.order_is_exact()) by {
            assert forall|i: int| 0 <= i < after.order.len() implies after.live(
                (#[trigger] after.order[i]) as int,
            ) by {
                if i < self.order.len() {
                    assert(self.live(self.order[i] as int));
                }
            }
            assert forall|h: int| #![trigger after.windows[h]] after.live(h) implies after.order.contains(
                h as usize,
            ) by {
                if h != idx {
                    assert(self.windows[h] is Some);
                    assert(self.order.contains(h as usize));
                }
            }
        }
    }

    /// A client can be taken out: the table and the order stay in agreement
    /// with the clients, neither of its ids is found any more, and the other
    /// clients stay as they are.
    pub proof fn lemma_without_client(self, idx: usize)
        requires
            self.wf(),
            self.live(idx as int),
        ensures
            self.without_client(idx).wf(),
            !self.without_client(idx).live(idx as int),
            !self.without_client(idx).lookup.contains_key(self.client(idx as int).frame),
            !self.without_client(idx).lookup.contains_key(self.client(idx as int).window),
            forall|h: int|
                h != idx ==> (self.without_client(idx).live(h) <==> self.live(h)),
            forall|h: int|
                h != idx && self.live(h) ==> self.without_client(idx).client(h) == self.client(h),
    {
        let after = self.without_client(idx);
        let gone = self.client(idx as int);
        lemma_without(self.order, idx);
        assert(self.windows[idx as int] is Some);
        assert(after.clients_are_found()) by {
            assert forall|h: int| #![trigger after.windows[h]] after.live(h) implies {
                let c = after.client(h);
                &&& c.frame != c.window
                &&& after.lookup.contains_key(c.frame) && after.lookup[c.frame] == h
                &&& after.lookup.contains_key(c.window) && after.lookup[c.window] == h
            } by {
                assert(self.windows[h] is Some);
                assert(self.live(h));
                let c = self.client(h);
                assert(self.lookup[gone.frame] == idx);
                assert(self.lookup[gone.window] == idx);
            }
        }
        assert(after.found_are_clients()) by {
            assert forall|id: u32|
                #![trigger after.lookup[id]]
                #![trigger after.lookup.contains_key(id)]
                after.lookup.contains_key(id) implies {
                let h = after.lookup[id] as int;
                &&& after.live(h)
                &&& (after.client(h).frame == id || after.client(h).window == id)
            } by {
                assert(self.lookup.contains_key(id));
                let h = self.lookup[id] as int;
                assert(self.live(h));
            }
        }
        assert(after.order_is_exact()) by {
            assert forall|i: int| 0 <= i < after.order.len() implies after.live(
                (#[trigger] after.order[i]) as int,
            ) by {
                let h = after.order[i];
                assert(after.order.contains(h));
                assert(self.order.contains(h));
                let j = choose|j: int| 0 <= j < self.order.len() && self.order[j] == h;
                assert(self.live(self.order[j] as int));
            }
            assert forall|h: int| #![trigger after.windows[h]] after.live(h) implies after.order.contains(
                h as usize,
            ) by {
                assert(self.windows[h] is Some);
                assert(self.order.contains(h as usize));
                assert(without(self.order, idx).contains(h as usize) <==> self.order.contains(
                    h as usize,
                ));
            }
        }
    }

    /// Appending requests in two parts is appending them as one.
    pub proof fn lemma_emit_concat(self, a: Seq<RequestView>, b: Seq<RequestView>)
        ensures
            self.emit(a).emit(b) == self.emit(a + b),
            self.emit(Seq::<RequestView>::empty()) == self,
    {
        assert(self.emit(a).emit(b).requests =~= self.emit(a + b).requests);
        assert(self.emit(Seq::<RequestView>::empty()).requests =~= self.requests);
    }

    /// A script keeps the table and the order in agreement with the clients.
    pub proof fn lemma_run_keeps_wf(self, script: Seq<Step>)
        requires
            self.wf(),
        ensures
            self.run(script).wf(),
    {
        lemma_run_keeps_identities(self.windows, script);
        let after = self.run(script);
        assert(after.clients_are_found()) by {
            assert forall|h: int| #![trigger after.windows[h]] after.live(h) implies {
                let c = after.client(h);
                &&& c.frame != c.window
                &&& after.lookup.contains_key(c.frame) && after.lookup[c.frame] == h
                &&& after.lookup.contains_key(c.window) && after.lookup[c.window] == h
            } by {
                assert(self.windows[h] is Some);
            }
        }
        assert(after.found_are_clients()) by {
            assert forall|id: u32|
                #![trigger after.lookup[id]]
                #![trigger after.lookup.contains_key(id)]
                after.lookup.contains_key(id) implies {
                let h = after.lookup[id] as int;
                &&& after.live(h)
                &&& (after.client(h).frame == id || after.client(h).window == id)
            } by {
                let h = self.lookup[id] as int;
                assert(self.live(h));
                assert(self.windows[h] is Some);
            }
        }
        assert(after.order_is_exact()) by {
            assert forall|i: int| 0 <= i < after.order.len() implies after.live(
                (#[trigger] after.order[i]) as int,
            ) by {
                assert(self.live(self.order[i] as int));
                assert(self.windows[self.order[i] as int] is Some);
            }
            assert forall|h: int| #![trigger after.windows[h]] after.live(h) implies after.order.contains(
                h as usize,
            ) by {
                assert(self.windows[h] is Some);
            }
        }
    }
}

/// The state that the workspaces share.
#[derive(Debug)]
pub struct Context {
    /// The client handle under each window id that is known: a client is
    /// found under its frame's id and under its window's id.
    pub window_lookup: HashMap<u32, usize>,
    pub windows: Slab<Client>,
    /// The handles of the clients, the one that came first being first.
    pub order: Vec<usize>,
    /// The id of the workspace that is shown, from 1 on; 0 while none is.
    pub current_workspace: u8,
    pub atoms: Atoms,
    pub root_window: u32,
    /// The requests that wait to be sent.
    pub requests: RequestQueue,
    /// The handle of the client that holds the focus.
    pub focused_window: Option<usize>,
}

impl View for Context {
    type V = ContextView;

    open spec fn view(&self) -> ContextView {
        ContextView {
            lookup: self.window_lookup@,
            windows: self.windows@,
            order: self.order@,
            current_workspace: self.current_workspace,
            atoms: self.atoms,
            root_window: self.root_window,
            requests: self.requests@,
            focused_window: self.focused_window,
        }
    }
}

impl Context {
    /// The slab is in order, and the table and the order agree with it.
    pub open spec fn wf(&self) -> bool {
        &&& self.windows.wf()
        &&& self@.wf()
    }

    /// A context without clients and without requests.
    pub fn new(atoms: Atoms, root_window: u32) -> (r: Context)
        ensures
            r.wf(),
            r@ == (ContextView {
                lookup: Map::<u32, usize>::empty(),
                windows: Seq::<Option<Client>>::empty(),
                order: Seq::<usize>::empty(),
                current_workspace: 0,
                atoms,
                root_window,
                requests: Seq::<RequestView>::empty(),
                focused_window: None,
            }),
    {
        Context {
            window_lookup: HashMap::new(),
            windows: Slab::new(),
            order: Vec::new(),
            current_workspace: 0,
            atoms,
            root_window,
            requests: RequestQueue::new(),
            focused_window: None,
        }
    }

    /// Does `op` to the client with handle `handle`, if there is one.
    pub fn apply(&mut self, handle: usize, op: ClientOp)
        requires
            old(self).wf(),
        ensures
            final(self).wf(),
            final(self)@ == old(self)@.run(seq![Step { handle, op }]),
    {
        proof {
            lemma_run_one(self.windows@, Step { handle, op });
            self@.lemma_run_keeps_wf(seq![Step { handle, op }]);
        }
        match self.windows.get_mut(handle) {
            Some(client) => {
                client.apply(op, &mut self.requests);
            },
            None => {
                assert(self.requests@ + Seq::<RequestView>::empty() =~= self.requests@);
            },
        }
    }

    /// Takes `client` in: puts it into the lowest vacant slot and at the end
    /// of the order, and enters its frame and its window into the table.
    /// Returns its handle. Nothing is done, and `None` returned, where the
    /// frame is the window or one of the two ids is known already.
    pub fn insert_client(&mut self, client: Client) -> (r: Option<usize>)
        requires
            old(self).wf(),
        ensures
            final(self).wf(),
            Self::admits(old(self)@, client) ==> r is Some && r.unwrap() == first_vacant(
                old(self)@.windows,
            ) && final(self)@ == old(self)@.with_client(client),
            !Self::admits(old(self)@, client) ==> r is None && final(self)@ == old(self)@,
    {
        let frame = client.frame;
        let window = client.window;
        if frame == window || self.window_lookup.contains_key(&frame)
            || self.window_lookup.contains_key(&window) {
            return None;
        }
        proof {
            lemma_first_vacant(self.windows@);
        }
        let ghost before = self@;
        let idx = self.windows.push(client);
        self.order.push(idx);
        self.window_lookup.insert(frame, idx);
        self.window_lookup.insert(window, idx);
        proof {
            before.lemma_with_client(client);
        }
        Some(idx)
    }

    /// A client can be taken in: its frame is not its window and neither id
    /// is known.
    pub open spec fn admits(state: ContextView, client: Client) -> bool {
        &&& client.frame != client.window
        &&& !state.lookup.contains_key(client.frame)
        &&& !state.lookup.contains_key(client.window)
    }

    /// Takes the client of handle `idx` out and returns it: vacates its slot,
    /// takes it out of the order and its two ids out of the table, and takes
    /// the focus from it. Nothing is done where `idx` has no client.
    pub fn remove_client(&mut self, idx: usize) -> (r: Option<Client>)
        requires
            old(self).wf(),
        ensures
            final(self).wf(),
            r == slot(old(self)@.windows, idx as int),
            final(self)@ == old(self)@.without_client(idx),
    {
        let ghost before = self@;
        match self.windows.remove(idx) {
            Some(client) => {
                remove_handle(&mut self.order, idx);
                self.window_lookup.remove(&client.frame);
                self.window_lookup.remove(&client.window);
                if self.focused_window == Some(idx) {
                    self.focused_window = None;
                }
                proof {
                    before.lemma_without_client(idx);
                    assert(self@.lookup =~= before.without_client(idx).lookup);
                }
                Some(client)
            },
            None => {
                assert(self@.windows =~= before.windows);
                None
            },
        }
    }

    /// The handle of the client whose frame or window has the id `window`.
    pub fn find(&self, window: u32) -> (r: Option<usize>)
        ensures
            r is Some <==> self@.lookup.contains_key(window),
            r is Some ==> r.unwrap() == self@.lookup[window],
    {
        match self.window_lookup.get(&window) {
            Some(idx) => Some(*idx),
            None => None,
        }
    }

    /// The requests of closing the client of handle `handle`; none where it
    /// has no client.
    pub open spec fn close_script(state: ContextView, handle: usize, delivered: bool) -> Seq<
        RequestView,
    > {
        if state.live(handle as int) {
            close_requests(state.client(handle as int), delivered)
        } else {
            Seq::empty()
        }
    }

    /// Closes the client of handle `handle` and says whether it is gone at
    /// once. `delivered` says that its window takes part in the delete
    /// protocol and was sent the message: then nothing is done. Otherwise its
    /// window and its frame are destroyed. The client stays where it is in
    /// either case. Nothing is done where `handle` has no client.
    pub fn close(&mut self, handle: usize, delivered: bool) -> (gone: bool)
        requires
            old(self).wf(),
        ensures
            final(self).wf(),
            gone == (old(self)@.live(handle as int) && !delivered),
            final(self)@ == old(self)@.emit(Self::close_script(old(self)@, handle, delivered)),
    {
        let gone = match self.windows.get_mut(handle) {
            Some(client) => client.close(delivered, &mut self.requests),
            None => false,
        };
        proof {
            assert(self@.windows =~= old(self)@.windows);
            assert(self@.requests =~= old(self)@.requests + Self::close_script(
                old(self)@,
                handle,
                delivered,
            ));
        }
        gone
    }

    /// Appends `request` to the queue.
    pub fn emit(&mut self, request: Request)
        ensures
            old(self).wf() ==> final(self).wf(),
            final(self)@ == old(self)@.emit(seq![request@]),
    {
        self.requests.push(request);
        assert(self@.requests =~= old(self)@.requests + seq![request@]);
    }

    /// Does `op` to the client of each handle of `handles`, in order.
    pub fn run_each(&mut self, handles: &Vec<usize>, op: ClientOp)
        requires
            old(self).wf(),
        ensures
            final(self).wf(),
            final(self)@ == old(self)@.run(each(handles@, op)),
    {
        let ghost script = each(handles@, op);
        proof {
            self@.lemma_run_nothing();
            assert(script.take(0) =~= Seq::<Step>::empty());
        }
        let n = handles.len();
        for i in 0..n
            invariant
                self.wf(),
                n == handles@.len(),
                script == each(handles@, op),
                self@ == old(self)@.run(script.take(i as int)),
        {
            self.apply(handles[i], op);
            proof {
                old(self)@.lemma_run_concat(script.take(i as int), seq![script[i as int]]);
                assert(script.take(i as int) + seq![script[i as int]] =~= script.take(i + 1));
            }
        }
        assert(script.take(n as int) =~= script);
    }
}

} // verus!
