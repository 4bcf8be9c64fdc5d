//! The turn discipline on one worker's connection: one command, then exactly
//! one reply carrying the tag that command calls for, then the next command.
use vstd::prelude::*;
use crate::frame::{encode_frame, encoded};
use crate::protocol::{argument_of, expect_reply, tag_of, Command, ProtocolError};

verus! {

/// One step on a connection, as the coordinator sees it.
#[derive(Clone, Copy, Debug, PartialEq, Eq, Structural)]
pub enum Turn {
    /// A command was written.
    Sent,
    /// A reply with the awaited tag was consumed.
    Received,
}

/// Commands and replies take turns, starting with a command.
pub open spec fn alternates(log: Seq<Turn>) -> bool {
    forall|k: int| 0 <= k < log.len() ==> #[trigger] log[k] == if k % 2 == 0 {
        Turn::Sent
    } else {
        Turn::Received
    }
}

/// State of one worker's connection.
pub struct Conversation {
    awaiting: Option<Vec<u8>>,
    log: Ghost<Seq<Turn>>,
}

impl Conversation {
    /// Every step taken on the connection so far.
    pub closed spec fn log(&self) -> Seq<Turn> {
        self.log@
    }

    /// The tag of the reply awaited, if a command is outstanding.
    pub closed spec fn awaiting(&self) -> Option<Seq<u8>> {
        match self.awaiting {
            Some(t) => Some(t@),
            None => None,
        }
    }

    pub closed spec fn wf(&self) -> bool {
        &&& alternates(self.log@)
        &&& (self.awaiting is Some <==> self.log@.len() % 2 == 1)
    }

    /// Commands and replies on the connection took turns, starting with a
    /// command, and a reply is awaited exactly when the last step was a command.
    pub proof fn lemma_log_alternates(&self)
        requires
            self.wf(),
        ensures
            alternates(self.log()),
            self.awaiting() is Some <==> self.log().len() % 2 == 1,
    {
    }

    /// A connection on which nothing was sent yet.
    pub fn new() -> (r: Conversation)
        ensures
            r.wf(),
            r.log() == Seq::<Turn>::empty(),
            r.awaiting() is None,
    {
        Conversation { awaiting: None, log: Ghost(Seq::empty()) }
    }

    /// A reply is awaited.
    pub fn is_awaiting(&self) -> (r: bool)
        ensures
            r == self.awaiting() is Some,
    {
        self.awaiting.is_some()
    }

    /// The frame that carries `cmd`, to be written on the connection; refused
    /// while the reply to the last command is still awaited.
    pub fn send(&mut self, cmd: &Command) -> (r: Result<Vec<u8>, ProtocolError>)
        requires
            old(self).wf(),
        ensures
            final(self).wf(),
            old(self).awaiting() is Some ==> r == Err::<Vec<u8>, ProtocolError>(
                ProtocolError::OutOfTurn,
            ) && *final(self) == *old(self),
            old(self).awaiting() is None ==> r is Ok && r->Ok_0@ == encoded(cmd.spec_payload())
                && final(self).awaiting() == Some(cmd.spec_reply_tag()) && final(self).log()
                == old(self).log().push(Turn::Sent),
    {
        if self.awaiting.is_some() {
            return Err(ProtocolError::OutOfTurn);
        }
        let payload = cmd.payload();
        let bytes = encode_frame(payload.as_slice());
        self.awaiting = Some(cmd.reply_tag());
        self.log = Ghost(self.log@.push(Turn::Sent));
        Ok(bytes)
    }

    /// Consumes the reply to the outstanding command: checks its tag and hands
    /// back its argument.
    pub fn receive(&mut self, payload: &[u8]) -> (r: Result<Option<Vec<u8>>, ProtocolError>)
        requires
            old(self).wf(),
        ensures
            final(self).wf(),
            old(self).awaiting() is None ==> r == Err::<Option<Vec<u8>>, ProtocolError>(
                ProtocolError::OutOfTurn,
            ),
            r is Ok <==> (old(self).awaiting() is Some && tag_of(payload@) == old(
                self,
            ).awaiting()->Some_0),
            r is Ok ==> final(self).awaiting() is None && final(self).log() == old(self).log().push(
                Turn::Received,
            ) && match r->Ok_0 {
                Some(a) => argument_of(payload@) == Some(a@),
                None => argument_of(payload@) is None,
            },
            old(self).awaiting() is Some && r is Err ==> r == Err::<Option<Vec<u8>>, ProtocolError>(
                ProtocolError::WrongTag,
            ),
            r is Err ==> *final(self) == *old(self),
    {
        let res = match &self.awaiting {
            None => {
                return Err(ProtocolError::OutOfTurn);
            },
            Some(tag) => expect_reply(payload, tag.as_slice()),
        };
        match res {
            Ok(arg) => {
                self.awaiting = None;
                self.log = Ghost(self.log@.push(Turn::Received));
                Ok(arg)
            },
            Err(e) => Err(e),
        }
    }
}

/// Between two consecutive commands on one connection, exactly one reply was
/// consumed.
pub proof fn lemma_one_reply_between_commands(log: Seq<Turn>, i: int, j: int)
    requires
        alternates(log),
        0 <= i < j < log.len(),
        log[i] == Turn::Sent,
        log[j] == Turn::Sent,
        forall|k: int| i < k < j ==> log[k] != Turn::Sent,
    ensures
        j == i + 2,
        log[i + 1] == Turn::Received,
{
    assert(log[i] == Turn::Sent);
    assert(log[j] == Turn::Sent);
    assert(i % 2 == 0 && j % 2 == 0);
    if j > i + 2 {
        assert(log[i + 2] == Turn::Sent);
    }
    assert(log[i + 1] == Turn::Received);
}

} // verus!
