//! The session directory: which session ids are live, under a hard
//! session limit.

use vstd::prelude::*;

use crate::strutil::str_eq;
use crate::types::TerminalError;

verus! {

/// Result of destroying a session.
#[derive(Debug, Clone)]
pub struct DestroyResult {
    /// Whether the session was destroyed.
    pub destroyed: bool,
    /// Exit code, when the process terminated gracefully.
    pub exit_code: Option<i32>,
}

/// The directory of live sessions: their ids, under a hard ceiling. The
/// surrounding server keeps the session handles; the directory decides
/// admission and removal.
#[derive(Debug)]
pub struct SessionDirectory {
    ids: Vec<String>,
    max_sessions: usize,
}

impl SessionDirectory {
    /// The ids, in insertion order; for contracts.
    pub closed spec fn ids_spec(&self) -> Seq<Seq<char>> {
        self.ids@.map_values(|s: String| s@)
    }

    /// The session ceiling; for contracts.
    pub closed spec fn max_spec(&self) -> usize {
        self.max_sessions
    }

    /// Whether one more session may be admitted.
    pub open spec fn admits(&self) -> bool {
        self.ids_spec().len() < self.max_spec()
    }

    /// Well-formed: no id twice, never above the ceiling.
    pub open spec fn wf(&self) -> bool {
        &&& forall|i: int, j: int|
            0 <= i < j < self.ids_spec().len() ==> self.ids_spec()[i] != self.ids_spec()[j]
        &&& self.ids_spec().len() <= self.max_spec()
    }

    /// An empty directory with the given ceiling.
    pub fn new(max_sessions: usize) -> (d: SessionDirectory)
        ensures
            d.wf(),
            d.ids_spec().len() == 0,
            d.max_spec() == max_sessions,
    {
        SessionDirectory { ids: Vec::new(), max_sessions }
    }

    /// How many sessions are live.
    pub fn count(&self) -> (r: usize)
        ensures
            r == self.ids_spec().len(),
    {
        self.ids.len()
    }

    /// The configured ceiling.
    pub fn max_sessions(&self) -> (r: usize)
        ensures
            r == self.max_spec(),
    {
        self.max_sessions
    }

    /// Whether an id is live.
    pub fn contains(&self, id: &str) -> (r: bool)
        ensures
            r == self.ids_spec().contains(id@),
    {
        let mut i: usize = 0;
        while i < self.ids.len()
            invariant
                i <= self.ids_spec().len(),
                forall|j: int| 0 <= j < i ==> self.ids_spec()[j] != id@,
            decreases self.ids@.len() - i,
        {
            if str_eq(self.ids[i].as_str(), id) {
                proof {
                    assert(self.ids_spec()[i as int] == id@);
                }
                return true;
            }
            i = i + 1;
        }
        proof {
            if self.ids_spec().contains(id@) {
                let w = choose|w: int|
                    0 <= w < self.ids_spec().len() && self.ids_spec()[w] == id@;
            }
        }
        false
    }

    /// Admit a new session. Fails with `MaxSessionsReached`, carrying the
    /// ceiling, exactly when the directory is full; otherwise the id
    /// becomes live.
    pub fn insert(&mut self, id: String) -> (r: Result<(), TerminalError>)
        requires
            old(self).wf(),
            !old(self).ids_spec().contains(id@),
        ensures
            final(self).wf(),
            final(self).max_spec() == old(self).max_spec(),
            r is Ok <==> old(self).admits(),
            match r {
                Ok(_) => final(self).ids_spec() == old(self).ids_spec().push(id@),
                Err(e) => {
                    &&& e == TerminalError::MaxSessionsReached(old(self).max_spec())
                    &&& final(self).ids_spec() == old(self).ids_spec()
                },
            },
    {
        if self.ids.len() >= self.max_sessions {
            return Err(TerminalError::MaxSessionsReached(self.max_sessions));
        }
        let ghost idv = id@;
        self.ids.push(id);
        proof {
            assert(self.ids_spec() =~= old(self).ids_spec().push(idv));
        }
        Ok(())
    }

    /// Remove an id. Returns whether it was live.
    pub fn remove(&mut self, id: &str) -> (r: bool)
        requires
            old(self).wf(),
        ensures
            final(self).wf(),
            final(self).max_spec() == old(self).max_spec(),
            r == old(self).ids_spec().contains(id@),
            !final(self).ids_spec().contains(id@),
            r ==> final(self).ids_spec().len() == old(self).ids_spec().len() - 1,
            !r ==> final(self).ids_spec() == old(self).ids_spec(),
    {
        let mut i: usize = 0;
        while i < self.ids.len()
            invariant
                old(self).wf(),
                *self == *old(self),
                i <= self.ids_spec().len(),
                forall|j: int| 0 <= j < i ==> self.ids_spec()[j] != id@,
            decreases self.ids@.len() - i,
        {
            if str_eq(self.ids[i].as_str(), id) {
                proof {
                    assert(self.ids_spec()[i as int] == id@);
                }
                let _ = self.ids.remove(i);
                proof {
                    assert(self.ids_spec() =~= old(self).ids_spec().remove(i as int));
                    assert forall|j: int|
                        0 <= j < self.ids_spec().len() implies self.ids_spec()[j] != id@ by {
                        if j < i {
                            assert(self.ids_spec()[j] == old(self).ids_spec()[j]);
                        } else {
                            assert(self.ids_spec()[j] == old(self).ids_spec()[j + 1]);
                        }
                    }
                    if self.ids_spec().contains(id@) {
                        let w = choose|w: int|
                            0 <= w < self.ids_spec().len() && self.ids_spec()[w] == id@;
                    }
                }
                return true;
            }
            i = i + 1;
        }
        proof {
            if self.ids_spec().contains(id@) {
                let w = choose|w: int|
                    0 <= w < self.ids_spec().len() && self.ids_spec()[w] == id@;
            }
        }
        false
    }

    /// Drain every id, leaving the directory empty; the caller terminates
    /// the sessions behind them.
    pub fn drain_ids(&mut self) -> (r: Vec<String>)
        requires
            old(self).wf(),
        ensures
            final(self).wf(),
            final(self).max_spec() == old(self).max_spec(),
            final(self).ids_spec().len() == 0,
            r@.map_values(|s: String| s@) == old(self).ids_spec(),
    {
        let mut out: Vec<String> = Vec::new();
        std::mem::swap(&mut out, &mut self.ids);
        proof {
            assert(self.ids_spec() =~= Seq::<Seq<char>>::empty());
        }
        out
    }
}

/// The session-limit law: a directory never holds more sessions than its
/// ceiling, and a directory that has reached the ceiling admits no more,
/// so by `insert`'s contract the next create fails with
/// `MaxSessionsReached`.
pub proof fn lemma_max_sessions(d: SessionDirectory)
    requires
        d.wf(),
    ensures
        d.ids_spec().len() <= d.max_spec(),
        d.ids_spec().len() == d.max_spec() ==> !d.admits(),
{
}

} // verus!
