use vstd::prelude::*;

use crate::feedback::Feedback;

verus! {

/// The role a client gave a surface.
#[derive(Clone, Copy, Debug, PartialEq, Eq, Structural)]
pub enum SurfaceRole {
    Unassigned,
    Toplevel,
    Popup,
}

/// A surface as the session keeps it: its owner, its role, whether it is
/// activated, and the buffer attached since the last commit beside the one
/// that commit made current.
#[derive(Clone, Copy, Debug, PartialEq, Eq)]
pub struct Surface {
    pub id: u64,
    pub client: u64,
    pub role: SurfaceRole,
    pub activated: bool,
    pub pending_buffer: Option<u64>,
    pub current_buffer: Option<u64>,
}

/// The initial configuration owed to a client for a new top-level surface.
#[derive(Clone, Copy, Debug, PartialEq, Eq)]
pub struct Configure {
    pub surface: u64,
    pub activated: bool,
}

/// Why the session refuses a client request.
#[derive(Clone, Copy, Debug, PartialEq, Eq)]
pub enum SessionError {
    UnknownClient,
    UnknownSurface,
    RoleTaken,
    IdsExhausted,
}

pub open spec fn ids_increasing(s: Seq<Surface>) -> bool {
    forall|i: int, j: int| 0 <= i < j < s.len() ==> s[i].id < s[j].id
}

pub open spec fn clients_increasing(s: Seq<u64>) -> bool {
    forall|i: int, j: int| 0 <= i < j < s.len() ==> s[i] < s[j]
}

pub open spec fn has_surface(s: Seq<Surface>, id: u64) -> bool {
    exists|i: int| 0 <= i < s.len() && s[i].id == id
}

/// The position of the surface `id` in `s`.
pub open spec fn index_of(s: Seq<Surface>, id: u64) -> int {
    choose|i: int| 0 <= i < s.len() && s[i].id == id
}

/// The surfaces left once client `a` is gone.
pub open spec fn surfaces_without(s: Seq<Surface>, a: u64) -> Seq<Surface> {
    s.filter(|x: Surface| x.client != a)
}

/// The clients left once client `a` is gone.
pub open spec fn clients_without(s: Seq<u64>, a: u64) -> Seq<u64> {
    s.filter(|c: u64| c != a)
}

pub open spec fn committed(x: Surface) -> Surface {
    Surface { current_buffer: x.pending_buffer, ..x }
}

pub open spec fn attached(x: Surface, buffer: Option<u64>) -> Surface {
    Surface { pending_buffer: buffer, ..x }
}

pub open spec fn as_toplevel(x: Surface) -> Surface {
    Surface { role: SurfaceRole::Toplevel, activated: true, ..x }
}

pub open spec fn as_popup(x: Surface) -> Surface {
    Surface { role: SurfaceRole::Popup, ..x }
}

/// The server-side protocol state: connected clients, their surfaces, the
/// next object id to hand out, and the default import feedback.
pub struct Session {
    pub clients: Vec<u64>,
    pub surfaces: Vec<Surface>,
    pub next_id: u64,
    pub feedback: Feedback,
}

impl Session {
    /// Ids are handed out in increasing order and never twice.
    pub open spec fn wf(&self) -> bool {
        &&& clients_increasing(self.clients@)
        &&& ids_increasing(self.surfaces@)
        &&& forall|i: int| 0 <= i < self.clients@.len() ==> self.clients@[i] < self.next_id
        &&& forall|i: int| 0 <= i < self.surfaces@.len() ==> self.surfaces@[i].id < self.next_id
    }

    /// A session with no client yet, advertising `feedback` by default.
    pub fn new(feedback: Feedback) -> (r: Self)
        ensures
            r.wf(),
            r.clients@.len() == 0,
            r.surfaces@.len() == 0,
            r.next_id == 1,
            r.feedback == feedback,
    {
        Session { clients: Vec::new(), surfaces: Vec::new(), next_id: 1, feedback }
    }

    /// Registers a newly connected client under a fresh id.
    pub fn accept_client(&mut self) -> (r: Option<u64>)
        requires
            old(self).wf(),
        ensures
            final(self).wf(),
            final(self).surfaces@ == old(self).surfaces@,
            final(self).feedback == old(self).feedback,
            old(self).next_id == u64::MAX ==> r is None && final(self).clients@ == old(self).clients@
                && final(self).next_id == old(self).next_id,
            old(self).next_id < u64::MAX ==> r == Some(old(self).next_id)
                && final(self).clients@ == old(self).clients@.push(old(self).next_id)
                && final(self).next_id == old(self).next_id + 1,
    {
        if self.next_id == u64::MAX {
            return None;
        }
        let id = self.next_id;
        self.clients.push(id);
        self.next_id = id + 1;
        Some(id)
    }

    /// Where the surface `id` stands, if the session holds it.
    pub fn find_surface(&self, id: u64) -> (r: Option<usize>)
        requires
            self.wf(),
        ensures
            r is None <==> !has_surface(self.surfaces@, id),
            r is Some ==> r->Some_0 as int == index_of(self.surfaces@, id)
                && self.surfaces@[r->Some_0 as int].id == id,
    {
        let mut i: usize = 0;
        while i < self.surfaces.len()
            invariant
                self.wf(),
                i <= self.surfaces@.len(),
                forall|j: int| 0 <= j < i ==> self.surfaces@[j].id != id,
            decreases self.surfaces@.len() - i,
        {
            if self.surfaces[i].id == id {
                assert(has_surface(self.surfaces@, id));
                let ghost k = index_of(self.surfaces@, id);
                assert(k == i) by {
                    if k < i {
                    } else if k > i {
                        assert(self.surfaces@[i as int].id < self.surfaces@[k].id);
                    }
                }
                return Some(i);
            }
            i += 1;
        }
        None
    }

    /// The surface `id`, if the session holds it.
    pub fn surface(&self, id: u64) -> (r: Option<Surface>)
        requires
            self.wf(),
        ensures
            r is None <==> !has_surface(self.surfaces@, id),
            r is Some ==> r->Some_0 == self.surfaces@[index_of(self.surfaces@, id)],
    {
        match self.find_surface(id) {
            Some(i) => Some(self.surfaces[i]),
            None => None,
        }
    }

    /// Whether `client` is connected.
    pub fn has_client(&self, client: u64) -> (r: bool)
        ensures
            r == self.clients@.contains(client),
    {
        let mut i: usize = 0;
        while i < self.clients.len()
            invariant
                i <= self.clients@.len(),
                forall|j: int| 0 <= j < i ==> self.clients@[j] != client,
            decreases self.clients@.len() - i,
        {
            if self.clients[i] == client {
                return true;
            }
            i += 1;
        }
        false
    }

    /// Creates a surface owned by `client`, under a fresh id.
    pub fn create_surface(&mut self, client: u64) -> (r: Result<u64, SessionError>)
        requires
            old(self).wf(),
        ensures
            final(self).wf(),
            final(self).clients@ == old(self).clients@,
            final(self).feedback == old(self).feedback,
            !old(self).clients@.contains(client) ==> r == Err::<u64, SessionError>(SessionError::UnknownClient),
            old(self).clients@.contains(client) && old(self).next_id == u64::MAX
                ==> r == Err::<u64, SessionError>(SessionError::IdsExhausted),
            r is Err ==> final(self).surfaces@ == old(self).surfaces@ && final(self).next_id == old(self).next_id,
            r is Ok ==> final(self).next_id == old(self).next_id + 1,
            old(self).clients@.contains(client) && old(self).next_id < u64::MAX ==> r == Ok::<u64, SessionError>(old(self).next_id)
                && final(self).surfaces@ == old(self).surfaces@.push(Surface {
                    id: old(self).next_id,
                    client,
                    role: SurfaceRole::Unassigned,
                    activated: false,
                    pending_buffer: None,
                    current_buffer: None,
                }),
    {
        if !self.has_client(client) {
            return Err(SessionError::UnknownClient);
        }
        if self.next_id == u64::MAX {
            return Err(SessionError::IdsExhausted);
        }
        let id = self.next_id;
        self.surfaces.push(Surface {
            id,
            client,
            role: SurfaceRole::Unassigned,
            activated: false,
            pending_buffer: None,
            current_buffer: None,
        });
        self.next_id = id + 1;
        Ok(id)
    }

    fn replace_surface(&mut self, i: usize, x: Surface)
        requires
            old(self).wf(),
            i < old(self).surfaces@.len(),
            x.id == old(self).surfaces@[i as int].id,
        ensures
            final(self).wf(),
            final(self).clients@ == old(self).clients@,
            final(self).feedback == old(self).feedback,
            final(self).next_id == old(self).next_id,
            final(self).surfaces@ == old(self).surfaces@.update(i as int, x),
    {
        self.surfaces.set(i, x);
    }

    /// Gives the surface `id` the top-level role: it is marked activated and
    /// the initial configuration to send at once comes back.
    pub fn new_toplevel(&mut self, id: u64) -> (r: Result<Configure, SessionError>)
        requires
            old(self).wf(),
        ensures
            final(self).wf(),
            final(self).clients@ == old(self).clients@,
            final(self).feedback == old(self).feedback,
            final(self).next_id == old(self).next_id,
            !has_surface(old(self).surfaces@, id) ==> r == Err::<Configure, SessionError>(SessionError::UnknownSurface),
            has_surface(old(self).surfaces@, id)
                && old(self).surfaces@[index_of(old(self).surfaces@, id)].role != SurfaceRole::Unassigned
                ==> r == Err::<Configure, SessionError>(SessionError::RoleTaken),
            r is Err ==> final(self).surfaces@ == old(self).surfaces@,
            has_surface(old(self).surfaces@, id)
                && old(self).surfaces@[index_of(old(self).surfaces@, id)].role == SurfaceRole::Unassigned
                ==> r == Ok::<Configure, SessionError>(Configure { surface: id, activated: true })
                && final(self).surfaces@ == old(self).surfaces@.update(
                    index_of(old(self).surfaces@, id),
                    as_toplevel(old(self).surfaces@[index_of(old(self).surfaces@, id)]),
                ),
    {
        match self.find_surface(id) {
            None => Err(SessionError::UnknownSurface),
            Some(i) => {
                let x = self.surfaces[i];
                if x.role != SurfaceRole::Unassigned {
                    return Err(SessionError::RoleTaken);
                }
                self.replace_surface(i, Surface { role: SurfaceRole::Toplevel, activated: true, ..x });
                Ok(Configure { surface: id, activated: true })
            },
        }
    }

    /// Gives the surface `id` the popup role; nothing more is done with it.
    pub fn new_popup(&mut self, id: u64) -> (r: Result<(), SessionError>)
        requires
            old(self).wf(),
        ensures
            final(self).wf(),
            final(self).clients@ == old(self).clients@,
            final(self).feedback == old(self).feedback,
            final(self).next_id == old(self).next_id,
            !has_surface(old(self).surfaces@, id) ==> r == Err::<(), SessionError>(SessionError::UnknownSurface),
            has_surface(old(self).surfaces@, id)
                && old(self).surfaces@[index_of(old(self).surfaces@, id)].role != SurfaceRole::Unassigned
                ==> r == Err::<(), SessionError>(SessionError::RoleTaken),
            r is Err ==> final(self).surfaces@ == old(self).surfaces@,
            has_surface(old(self).surfaces@, id)
                && old(self).surfaces@[index_of(old(self).surfaces@, id)].role == SurfaceRole::Unassigned
                ==> r is Ok && final(self).surfaces@ == old(self).surfaces@.update(
                    index_of(old(self).surfaces@, id),
                    as_popup(old(self).surfaces@[index_of(old(self).surfaces@, id)]),
                ),
    {
        match self.find_surface(id) {
            None => Err(SessionError::UnknownSurface),
            Some(i) => {
                let x = self.surfaces[i];
                if x.role != SurfaceRole::Unassigned {
                    return Err(SessionError::RoleTaken);
                }
                self.replace_surface(i, Surface { role: SurfaceRole::Popup, ..x });
                Ok(())
            },
        }
    }

    /// Attaches `buffer` (or detaches, with `None`) as the pending content of
    /// the surface `id`.
    pub fn attach(&mut self, id: u64, buffer: Option<u64>) -> (r: Result<(), SessionError>)
        requires
            old(self).wf(),
        ensures
            final(self).wf(),
            final(self).clients@ == old(self).clients@,
            final(self).feedback == old(self).feedback,
            final(self).next_id == old(self).next_id,
            !has_surface(old(self).surfaces@, id) ==> r == Err::<(), SessionError>(SessionError::UnknownSurface)
                && final(self).surfaces@ == old(self).surfaces@,
            has_surface(old(self).surfaces@, id) ==> r is Ok && final(self).surfaces@ == old(self).surfaces@.update(
                index_of(old(self).surfaces@, id),
                attached(old(self).surfaces@[index_of(old(self).surfaces@, id)], buffer),
            ),
    {
        match self.find_surface(id) {
            None => Err(SessionError::UnknownSurface),
            Some(i) => {
                let x = self.surfaces[i];
                self.replace_surface(i, Surface { pending_buffer: buffer, ..x });
                Ok(())
            },
        }
    }

    /// Commits the surface `id`: its pending buffer becomes current.
    pub fn commit(&mut self, id: u64) -> (r: Result<(), SessionError>)
        requires
            old(self).wf(),
        ensures
            final(self).wf(),
            final(self).clients@ == old(self).clients@,
            final(self).feedback == old(self).feedback,
            final(self).next_id == old(self).next_id,
            !has_surface(old(self).surfaces@, id) ==> r == Err::<(), SessionError>(SessionError::UnknownSurface)
                && final(self).surfaces@ == old(self).surfaces@,
            has_surface(old(self).surfaces@, id) ==> r is Ok && final(self).surfaces@ == old(self).surfaces@.update(
                index_of(old(self).surfaces@, id),
                committed(old(self).surfaces@[index_of(old(self).surfaces@, id)]),
            ),
    {
        match self.find_surface(id) {
            None => Err(SessionError::UnknownSurface),
            Some(i) => {
                let x = self.surfaces[i];
                self.replace_surface(i, Surface { current_buffer: x.pending_buffer, ..x });
                Ok(())
            },
        }
    }

    /// Forgets client `a` and every surface it owns; all else stays.
    pub fn disconnect(&mut self, a: u64)
        requires
            old(self).wf(),
        ensures
            final(self).wf(),
            final(self).clients@ == clients_without(old(self).clients@, a),
            final(self).surfaces@ == surfaces_without(old(self).surfaces@, a),
            final(self).next_id == old(self).next_id,
            final(self).feedback == old(self).feedback,
    {
        let ghost s = self.surfaces@;
        let mut kept: Vec<Surface> = Vec::new();
        let mut i: usize = 0;
        while i < self.surfaces.len()
            invariant
                self.wf(),
                s == self.surfaces@,
                i <= s.len(),
                kept@ == surfaces_without(s.take(i as int), a),
                ids_increasing(kept@),
                forall|k: int| 0 <= k < kept@.len() ==> kept@[k].id < self.next_id,
                i < s.len() && kept@.len() > 0 ==> kept@.last().id < s[i as int].id,
            decreases s.len() - i,
        {
            let x = self.surfaces[i];
            proof {
                reveal(Seq::filter);
                assert(s.take(i + 1).drop_last() =~= s.take(i as int));
                assert(s.take(i + 1).last() == x);
            }
            if x.client != a {
                kept.push(x);
            }
            proof {
                if i + 1 < s.len() {
                    assert(s[i as int].id < s[i + 1].id);
                }
            }
            i += 1;
        }
        assert(s.take(s.len() as int) =~= s);
        let ghost c = self.clients@;
        let mut left: Vec<u64> = Vec::new();
        let mut j: usize = 0;
        while j < self.clients.len()
            invariant
                self.wf(),
                c == self.clients@,
                j <= c.len(),
                left@ == clients_without(c.take(j as int), a),
                clients_increasing(left@),
                forall|k: int| 0 <= k < left@.len() ==> left@[k] < self.next_id,
                j < c.len() && left@.len() > 0 ==> left@.last() < c[j as int],
            decreases c.len() - j,
        {
            let y = self.clients[j];
            proof {
                reveal(Seq::filter);
                assert(c.take(j + 1).drop_last() =~= c.take(j as int));
                assert(c.take(j + 1).last() == y);
            }
            if y != a {
                left.push(y);
            }
            proof {
                if j + 1 < c.len() {
                    assert(c[j as int] < c[j + 1]);
                }
            }
            j += 1;
        }
        assert(c.take(c.len() as int) =~= c);
        self.surfaces = kept;
        self.clients = left;
    }
}

/// Client isolation: once client `a` has disconnected, each surface of any
/// other client is still held with exactly the state it had, and no surface
/// of `a` is held any more.
pub proof fn lemma_disconnect_isolates(before: Seq<Surface>, a: u64, x: Surface)
    ensures
        x.client != a ==> (surfaces_without(before, a).contains(x) <==> before.contains(x)),
        x.client == a ==> !surfaces_without(before, a).contains(x),
{
    broadcast use vstd::seq_lib::group_filter_ensures, Seq::lemma_filter_contains_rev;

    let after = surfaces_without(before, a);
    if after.contains(x) {
        let k = choose|k: int| 0 <= k < after.len() && after[k] == x;
        assert(after[k].client != a);
        assert(before.contains(x));
    }
    if x.client != a && before.contains(x) {
        let k = choose|k: int| 0 <= k < before.len() && before[k] == x;
        assert(after.contains(before[k]));
    }
}

/// Leaving out the surfaces of one client keeps the others in increasing id order.
pub proof fn lemma_without_keeps_order(s: Seq<Surface>, a: u64)
    requires
        ids_increasing(s),
    ensures
        ids_increasing(surfaces_without(s, a)),
    decreases s.len(),
{
    broadcast use Seq::lemma_filter_contains_rev;

    reveal(Seq::filter);
    if s.len() > 0 {
        let init = s.drop_last();
        let last = s.last();
        assert(ids_increasing(init));
        lemma_without_keeps_order(init, a);
        let h = surfaces_without(init, a);
        if last.client != a {
            assert(surfaces_without(s, a) == h.push(last));
            assert forall|i: int| 0 <= i < h.len() implies h[i].id < last.id by {
                assert(h.contains(h[i]));
                assert(init.contains(h[i]));
                let j = choose|j: int| 0 <= j < init.len() && init[j] == h[i];
                assert(s[j] == h[i] && s[s.len() - 1] == last);
            }
            assert forall|i: int, j: int| 0 <= i < j < h.len() + 1 implies #[trigger] h.push(last)[i].id < #[trigger] h.push(last)[j].id by {
                if j < h.len() {
                    assert(h.push(last)[i] == h[i] && h.push(last)[j] == h[j]);
                } else {
                    assert(h.push(last)[i] == h[i]);
                }
            }
        } else {
            assert(surfaces_without(s, a) == h);
        }
    }
}

/// A surface of a client that stays connected outlives another client's
/// disconnect: it is still found under its id, with exactly the state it had,
/// so a later commit on it is still served.
pub proof fn lemma_surviving_surface(before: Seq<Surface>, a: u64, id: u64)
    requires
        ids_increasing(before),
        has_surface(before, id),
        before[index_of(before, id)].client != a,
    ensures
        has_surface(surfaces_without(before, a), id),
        surfaces_without(before, a)[index_of(surfaces_without(before, a), id)] == before[index_of(before, id)],
{
    let x = before[index_of(before, id)];
    let after = surfaces_without(before, a);
    assert(before.contains(x));
    lemma_disconnect_isolates(before, a, x);
    lemma_without_keeps_order(before, a);
    let k = choose|k: int| 0 <= k < after.len() && after[k] == x;
    assert(has_surface(after, id));
    let m = index_of(after, id);
    if m < k {
        assert(after[m].id < after[k].id);
    } else if m > k {
        assert(after[k].id < after[m].id);
    }
}

} // verus!
