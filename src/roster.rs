//! The fixed set of workers of a session, enrolled in the order they logged in.
use vstd::prelude::*;
use crate::protocol::{argument_of, login_name, tag_of, word_login, ProtocolError};

verus! {

/// Why a connection was not enrolled.
#[derive(Clone, Copy, Debug, PartialEq, Eq, Structural)]
pub enum RosterError {
    /// Every expected worker has already logged in.
    Full,
    /// The first message was not `LOGIN <name>`.
    Handshake(ProtocolError),
}

/// A worker that completed its login.
#[derive(Clone, Debug)]
pub struct WorkerRecord {
    /// Position in login order, counted from 1.
    pub id: u32,
    /// The display name the worker gave.
    pub name: Vec<u8>,
}

/// The workers of a session.
pub struct Roster {
    expected: usize,
    workers: Vec<WorkerRecord>,
}

impl Roster {
    /// Number of workers the session waits for.
    pub closed spec fn expected(&self) -> int {
        self.expected as int
    }

    /// Names of the enrolled workers, in login order.
    pub closed spec fn names(&self) -> Seq<Seq<u8>> {
        self.workers@.map_values(|w: WorkerRecord| w.name@)
    }

    /// Ids of the enrolled workers, in login order.
    pub closed spec fn ids(&self) -> Seq<u32> {
        self.workers@.map_values(|w: WorkerRecord| w.id)
    }

    pub closed spec fn wf(&self) -> bool {
        &&& self.workers@.len() <= self.expected
        &&& self.expected <= u32::MAX
        &&& forall|k: int| 0 <= k < self.workers@.len() ==> (#[trigger] self.workers@[k]).id == k + 1
    }

    /// An empty roster that waits for `expected` workers.
    pub fn new(expected: usize) -> (r: Roster)
        requires
            expected <= u32::MAX,
        ensures
            r.wf(),
            r.expected() == expected,
            r.names() == Seq::<Seq<u8>>::empty(),
    {
        Roster { expected, workers: Vec::new() }
    }

    /// Number of workers enrolled so far.
    pub fn len(&self) -> (r: usize)
        ensures
            r == self.names().len(),
    {
        self.workers.len()
    }

    /// Every expected worker has logged in.
    pub fn is_complete(&self) -> (r: bool)
        requires
            self.wf(),
        ensures
            r == (self.names().len() == self.expected()),
    {
        self.workers.len() == self.expected
    }

    /// The enrolled workers, in login order.
    pub fn workers(&self) -> (r: &Vec<WorkerRecord>)
        requires
            self.wf(),
        ensures
            r@.len() == self.names().len(),
            forall|k: int| 0 <= k < r@.len() ==> (#[trigger] r@[k]).id == k + 1 && r@[k].name@ == self.names()[k],
    {
        &self.workers
    }

    /// Enrolls the worker whose first message is `payload`, and gives its id.
    pub fn enroll(&mut self, payload: &[u8]) -> (r: Result<u32, RosterError>)
        requires
            old(self).wf(),
        ensures
            final(self).wf(),
            final(self).expected() == old(self).expected(),
            old(self).names().len() == old(self).expected() ==> r == Err::<u32, RosterError>(
                RosterError::Full,
            ),
            old(self).names().len() < old(self).expected() && tag_of(payload@) != word_login() ==> r
                == Err::<u32, RosterError>(RosterError::Handshake(ProtocolError::WrongTag)),
            old(self).names().len() < old(self).expected() && tag_of(payload@) == word_login()
                && argument_of(payload@) is None ==> r == Err::<u32, RosterError>(
                RosterError::Handshake(ProtocolError::MissingArgument),
            ),
            r is Ok <==> old(self).names().len() < old(self).expected() && tag_of(payload@)
                == word_login() && argument_of(payload@) is Some,
            r is Ok ==> r->Ok_0 == old(self).names().len() + 1 && final(self).names() == old(
                self,
            ).names().push(argument_of(payload@)->Some_0),
            r is Err ==> final(self).names() == old(self).names(),
    {
        if self.workers.len() == self.expected {
            return Err(RosterError::Full);
        }
        match login_name(payload) {
            Ok(name) => {
                let id = (self.workers.len() + 1) as u32;
                let ghost before = self.workers@;
                self.workers.push(WorkerRecord { id, name });
                proof {
                    assert(self.workers@.map_values(|w: WorkerRecord| w.name@) == before.map_values(
                        |w: WorkerRecord| w.name@,
                    ).push(argument_of(payload@)->Some_0));
                }
                Ok(id)
            },
            Err(e) => Err(RosterError::Handshake(e)),
        }
    }
}

/// Ids are dense and start at 1: the `k`-th worker enrolled has id `k + 1`.
pub proof fn lemma_ids_dense(roster: &Roster)
    requires
        roster.wf(),
    ensures
        roster.ids().len() == roster.names().len(),
        forall|k: int| 0 <= k < roster.ids().len() ==> #[trigger] roster.ids()[k] == k + 1,
{
}

} // verus!
