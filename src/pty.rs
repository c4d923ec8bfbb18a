use vstd::prelude::*;

use std::collections::HashMap;

use crate::terminal::{pty_input, pty_size, PtyIo};

verus! {

broadcast use vstd::std_specs::hash::group_hash_axioms;

/// Why a registry operation failed.
#[derive(Debug, PartialEq, Eq)]
pub enum PtyError {
    /// No live session has this id: it was destroyed, or never issued.
    SessionNotFound,
    /// The shell could not be started.
    Spawn(String),
    /// Writing or resizing a live session failed.
    Io(String),
}

/// The registry as callers see it: the live sessions with their sizes
/// (rows, cols), and the id the next session will get.
pub struct RegistryState {
    pub live: Map<u64, (u16, u16)>,
    pub next_id: nat,
}

/// Every live id was issued before, and ids to issue fit in a `u64`.
pub open spec fn registry_wf(s: RegistryState) -> bool {
    &&& s.next_id <= u64::MAX
    &&& forall|id: u64| #[trigger] s.live.contains_key(id) ==> id < s.next_id
}

/// A change to the registry, with the outcome of the terminal call where
/// there is one. A create when no id is left changes nothing: the registry
/// refuses it up front.
pub enum SessionOp {
    Create { rows: u16, cols: u16 },
    Resize { id: u64, rows: u16, cols: u16, applied: bool },
    Destroy { id: u64 },
}

pub open spec fn apply_op(s: RegistryState, op: SessionOp) -> RegistryState {
    match op {
        SessionOp::Create { rows, cols } => if s.next_id < u64::MAX {
            RegistryState {
                live: s.live.insert(s.next_id as u64, (rows, cols)),
                next_id: s.next_id + 1,
            }
        } else {
            s
        },
        SessionOp::Resize { id, rows, cols, applied } => if applied && s.live.contains_key(id) {
            RegistryState { live: s.live.insert(id, (rows, cols)), next_id: s.next_id }
        } else {
            s
        },
        SessionOp::Destroy { id } => RegistryState { live: s.live.remove(id), next_id: s.next_id },
    }
}

pub open spec fn apply_ops(s: RegistryState, ops: Seq<SessionOp>) -> RegistryState
    decreases ops.len(),
{
    if ops.len() == 0 {
        s
    } else {
        apply_op(apply_ops(s, ops.drop_last()), ops.last())
    }
}

/// Every change keeps each live id below the next id to issue.
pub proof fn lemma_ops_keep_wf(s: RegistryState, ops: Seq<SessionOp>)
    requires
        registry_wf(s),
    ensures
        registry_wf(apply_ops(s, ops)),
        apply_ops(s, ops).next_id >= s.next_id,
    decreases ops.len(),
{
    if ops.len() > 0 {
        lemma_ops_keep_wf(s, ops.drop_last());
    }
}

proof fn lemma_retired_stays_absent(s: RegistryState, id: u64, ops: Seq<SessionOp>)
    requires
        registry_wf(s),
        id < s.next_id,
        !s.live.contains_key(id),
    ensures
        !apply_ops(s, ops).live.contains_key(id),
        id < apply_ops(s, ops).next_id,
    decreases ops.len(),
{
    if ops.len() > 0 {
        lemma_retired_stays_absent(s, id, ops.drop_last());
        lemma_ops_keep_wf(s, ops.drop_last());
    }
}

/// Right after `destroy`, the id has no session, so a write or resize on it
/// finds none. If the id had been issued, no later sequence of creates,
/// resizes and destroys brings it back.
pub proof fn lemma_destroyed_id_never_returns(s: RegistryState, id: u64, ops: Seq<SessionOp>)
    requires
        registry_wf(s),
    ensures
        !apply_op(s, SessionOp::Destroy { id }).live.contains_key(id),
        id < s.next_id ==> !apply_ops(apply_op(s, SessionOp::Destroy { id }), ops).live.contains_key(
            id,
        ),
{
    if id < s.next_id {
        lemma_retired_stays_absent(apply_op(s, SessionOp::Destroy { id }), id, ops);
    }
}

/// An id that was never issued has no session: a write or resize on it finds
/// none, and destroying it or resizing it leaves the registry as it was.
pub proof fn lemma_never_issued_not_found(s: RegistryState, id: u64, rows: u16, cols: u16, applied: bool)
    requires
        registry_wf(s),
        id >= s.next_id,
    ensures
        !s.live.contains_key(id),
        apply_op(s, SessionOp::Destroy { id }) == s,
        apply_op(s, SessionOp::Resize { id, rows, cols, applied }) == s,
{
    assert(s.live.remove(id) =~= s.live);
}

/// The shell a new session runs: on Windows always PowerShell; elsewhere the
/// shell that the environment names, else `/bin/sh`.
pub open spec fn shell_for(is_windows: bool, shell_var: Option<Seq<char>>) -> Seq<char> {
    if is_windows {
        "powershell.exe"@
    } else {
        match shell_var {
            Some(s) => s,
            None => "/bin/sh"@,
        }
    }
}

/// Picks the shell for a new session; `shell_var` is the value of `SHELL`, if set.
pub fn default_shell(is_windows: bool, shell_var: Option<String>) -> (r: String)
    ensures
        r@ == shell_for(
            is_windows,
            match shell_var {
                Some(s) => Some(s@),
                None => None,
            },
        ),
{
    if is_windows {
        String::from_str("powershell.exe")
    } else {
        match shell_var {
            Some(s) => s,
            None => String::from_str("/bin/sh"),
        }
    }
}

/// A created session's id is the registry's next id, and whatever the registry
/// does afterwards its next id stays above it: an id is never issued twice,
/// whether or not its session was destroyed in between.
pub proof fn lemma_ids_never_reissued(s: RegistryState, rows: u16, cols: u16, ops: Seq<SessionOp>)
    requires
        registry_wf(s),
        s.next_id < u64::MAX,
    ensures
        apply_op(s, SessionOp::Create { rows, cols }).live.contains_key(s.next_id as u64),
        !s.live.contains_key(s.next_id as u64),
        apply_ops(apply_op(s, SessionOp::Create { rows, cols }), ops).next_id > s.next_id,
{
    lemma_ops_keep_wf(apply_op(s, SessionOp::Create { rows, cols }), ops);
}

struct PtySession {
    handle: PtyIo,
    rows: u16,
    cols: u16,
}

/// Owns the live terminal sessions, each under an id that is never issued twice.
pub struct PtyManager {
    ptys: HashMap<u64, PtySession>,
    next_id: u64,
}

impl View for PtyManager {
    type V = RegistryState;

    closed spec fn view(&self) -> RegistryState {
        RegistryState {
            live: self.ptys@.map_values(|s: PtySession| (s.rows, s.cols)),
            next_id: self.next_id as nat,
        }
    }
}

impl PtyManager {
    /// The terminal of each live session.
    pub closed spec fn handles(&self) -> Map<u64, PtyIo> {
        self.ptys@.map_values(|s: PtySession| s.handle)
    }

    /// An empty registry.
    pub fn new() -> (r: Self)
        ensures
            r@.live == Map::<u64, (u16, u16)>::empty(),
            r@.next_id == 0,
            r.handles() == Map::<u64, PtyIo>::empty(),
            r.handles().dom() == r@.live.dom(),
            registry_wf(r@),
    {
        let r = PtyManager { ptys: HashMap::new(), next_id: 0 };
        proof {
            assert(r@.live =~= Map::<u64, (u16, u16)>::empty());
            assert(r.handles() =~= Map::<u64, PtyIo>::empty());
        }
        r
    }

    /// Whether another session can still get an id of its own.
    pub fn has_free_id(&self) -> (r: bool)
        ensures
            r == (self@.next_id < u64::MAX),
    {
        self.next_id < u64::MAX
    }

    /// Stores a freshly spawned terminal of the given size and returns its new id.
    pub fn create_pty(&mut self, handle: PtyIo, rows: u16, cols: u16) -> (id: u64)
        requires
            registry_wf(old(self)@),
            old(self)@.next_id < u64::MAX,
        ensures
            id == old(self)@.next_id,
            !old(self)@.live.contains_key(id),
            final(self)@ == apply_op(old(self)@, SessionOp::Create { rows, cols }),
            final(self).handles() == old(self).handles().insert(id, handle),
            final(self).handles().dom() == final(self)@.live.dom(),
            registry_wf(final(self)@),
    {
        let id = self.next_id;
        self.ptys.insert(id, PtySession { handle, rows, cols });
        self.next_id = self.next_id + 1;
        proof {
            assert(self@.live =~= old(self)@.live.insert(id, (rows, cols)));
            assert(self.handles() =~= old(self).handles().insert(id, handle));
        }
        id
    }

    /// Writes `data`, as UTF-8, to the session's terminal, and to no other.
    pub fn write_pty(&mut self, pty_id: u64, data: String) -> (r: Result<(), PtyError>)
        requires
            registry_wf(old(self)@),
        ensures
            final(self)@ == old(self)@,
            final(self).handles().dom() == old(self).handles().dom(),
            final(self).handles().remove(pty_id) == old(self).handles().remove(pty_id),
            old(self).handles().contains_key(pty_id) ==> pty_size(final(self).handles()[pty_id])
                == pty_size(old(self).handles()[pty_id]),
            r is Ok ==> pty_input(final(self).handles()[pty_id]) == pty_input(
                old(self).handles()[pty_id],
            ) + vstd::utf8::encode_utf8(data@),
            (r matches Err(PtyError::SessionNotFound)) <==> !old(self)@.live.contains_key(pty_id),
            r is Err ==> (r matches Err(PtyError::SessionNotFound)) || (r matches Err(
                PtyError::Io(_),
            )),
            final(self).handles().dom() == final(self)@.live.dom(),
            registry_wf(final(self)@),
    {
        match self.ptys.remove(&pty_id) {
            None => {
                proof {
                    assert(self.ptys@ =~= old(self).ptys@);
                    assert(self.handles() =~= old(self).handles());
                }
                Err(PtyError::SessionNotFound)
            },
            Some(mut session) => {
                let ghost before = session;
                let written = session.handle.write_input(data.as_str().as_bytes());
                proof {
                    assert(session.rows == before.rows && session.cols == before.cols);
                }
                self.ptys.insert(pty_id, session);
                proof {
                    assert(self@.live =~= old(self)@.live);
                    assert(self.handles() =~= old(self).handles().insert(pty_id, session.handle));
                    assert(self.handles().remove(pty_id) =~= old(self).handles().remove(pty_id));
                }
                match written {
                    Ok(()) => Ok(()),
                    Err(e) => Err(PtyError::Io(e)),
                }
            },
        }
    }

    /// Gives the session's terminal, and no other, a new size. The size on
    /// record changes only when the terminal accepted it.
    pub fn resize_pty(&mut self, pty_id: u64, rows: u16, cols: u16) -> (r: Result<(), PtyError>)
        requires
            registry_wf(old(self)@),
        ensures
            final(self).handles().dom() == old(self).handles().dom(),
            final(self).handles().remove(pty_id) == old(self).handles().remove(pty_id),
            old(self).handles().contains_key(pty_id) ==> pty_input(final(self).handles()[pty_id])
                == pty_input(old(self).handles()[pty_id]),
            r is Ok ==> pty_size(final(self).handles()[pty_id]) == (rows, cols),
            final(self)@ == apply_op(
                old(self)@,
                SessionOp::Resize { id: pty_id, rows, cols, applied: r is Ok },
            ),
            (r matches Err(PtyError::SessionNotFound)) <==> !old(self)@.live.contains_key(pty_id),
            r is Err ==> (r matches Err(PtyError::SessionNotFound)) || (r matches Err(
                PtyError::Io(_),
            )),
            final(self).handles().dom() == final(self)@.live.dom(),
            registry_wf(final(self)@),
    {
        match self.ptys.remove(&pty_id) {
            None => {
                proof {
                    assert(self.ptys@ =~= old(self).ptys@);
                    assert(self.handles() =~= old(self).handles());
                }
                Err(PtyError::SessionNotFound)
            },
            Some(mut session) => {
                let resized = session.handle.resize(rows, cols);
                match resized {
                    Ok(()) => {
                        session.rows = rows;
                        session.cols = cols;
                        self.ptys.insert(pty_id, session);
                        proof {
                            assert(self@.live =~= old(self)@.live.insert(pty_id, (rows, cols)));
                            assert(self.handles() =~= old(self).handles().insert(
                                pty_id,
                                session.handle,
                            ));
                            assert(self.handles().remove(pty_id) =~= old(self).handles().remove(
                                pty_id,
                            ));
                        }
                        Ok(())
                    },
                    Err(e) => {
                        self.ptys.insert(pty_id, session);
                        proof {
                            assert(self@.live =~= old(self)@.live);
                            assert(self.handles() =~= old(self).handles().insert(
                                pty_id,
                                session.handle,
                            ));
                            assert(self.handles().remove(pty_id) =~= old(self).handles().remove(
                                pty_id,
                            ));
                        }
                        Err(PtyError::Io(e))
                    },
                }
            },
        }
    }

    /// Forgets the session. An id with no live session is left alone.
    pub fn destroy_pty(&mut self, pty_id: u64)
        requires
            registry_wf(old(self)@),
        ensures
            final(self)@ == apply_op(old(self)@, SessionOp::Destroy { id: pty_id }),
            final(self).handles() == old(self).handles().remove(pty_id),
            final(self).handles().dom() == final(self)@.live.dom(),
            registry_wf(final(self)@),
    {
        let _ = self.ptys.remove(&pty_id);
        proof {
            assert(self@.live =~= old(self)@.live.remove(pty_id));
            assert(self.handles() =~= old(self).handles().remove(pty_id));
        }
    }

    /// The size on record for a live session.
    pub fn session_size(&self, pty_id: u64) -> (r: Option<(u16, u16)>)
        ensures
            r == if self@.live.contains_key(pty_id) {
                Some(self@.live[pty_id])
            } else {
                None::<(u16, u16)>
            },
    {
        match self.ptys.get(&pty_id) {
            Some(s) => Some((s.rows, s.cols)),
            None => None,
        }
    }
}

} // verus!
