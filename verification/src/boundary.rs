use vstd::prelude::*;

use crate::error::SkipError;

verus! {

/// The engine's error-text protocol: a call that mutates state answers
/// with no text — or empty text — on success, and with a non-empty error
/// message on failure.
pub fn check_result(reply: Option<String>) -> (r: Result<(), SkipError>)
    ensures
        match reply {
            Option::None => r is Ok,
            Option::Some(msg) => if msg@.len() == 0 {
                r is Ok
            } else {
                r matches Err(e) && e.msg@ == msg@
            },
        },
{
    match reply {
        Option::None => Ok(()),
        Option::Some(msg) => {
            if msg.as_str().unicode_len() == 0 {
                Ok(())
            } else {
                Err(SkipError { msg })
            }
        }
    }
}

/// The subscribe call's answer: the handle it carries counts only when the
/// error text signals success, exactly as the error-text protocol has it.
pub fn interpret_subscribe(handle: i64, error: Option<String>) -> (r: Result<i64, SkipError>)
    ensures
        match error {
            Option::None => r == Result::<i64, SkipError>::Ok(handle),
            Option::Some(msg) => if msg@.len() == 0 {
                r == Result::<i64, SkipError>::Ok(handle)
            } else {
                r matches Err(e) && e.msg@ == msg@
            },
        },
{
    match check_result(error) {
        Ok(()) => Ok(handle),
        Err(e) => Err(e),
    }
}

/// One reply from the engine to a snapshot call, read off the wire
/// discriminant: an empty reply is an unknown, fatal failure; a
/// success-tagged reply carries the final payload; a failure-tagged one
/// carries the engine's error text; a continuation-tagged one says "not
/// ready, retry with this token".
pub enum BoundaryReply {
    Empty,
    Success(String),
    Failure(String),
    Continuation(String),
}

/// What the polling loop does next, after one reply.
pub enum PollOutcome {
    /// The poll is over, with the snapshot's final result. The caller must
    /// still close the instance the flow holds open.
    Finish(Result<String, SkipError>),
    /// Not ready: issue the same logical call again, with this
    /// continuation token, after the fixed short delay.
    Retry(String),
}

/// One snapshot retrieval in progress. A snapshot is served under a
/// throwaway resource instance: the flow draws the fresh instance id the
/// caller instantiates the resource under, then drives the polling
/// protocol — one decision per engine reply — until a final answer
/// arrives or the attempt cap is spent. The engine calls themselves cross
/// the boundary and are made by the caller.
pub struct SnapshotFlow {
    /// The instance id this flow holds open, to be closed when it is done.
    pub instance_id: String,
    /// How many continuation replies have been followed so far.
    pub attempts: u64,
    /// How many continuations the caller is willing to follow.
    pub cap: u64,
}

impl SnapshotFlow {
    pub open spec fn wf(self) -> bool {
        self.attempts <= self.cap
    }

    /// Opens a snapshot flow: a fresh instance id and no attempts spent.
    pub fn begin(cap: u64) -> (f: SnapshotFlow)
        ensures
            f.wf(),
            f.instance_id@.len() == 36,
            f.attempts == 0,
            f.cap == cap,
    {
        SnapshotFlow { instance_id: fresh_instance_id(), attempts: 0, cap }
    }

    /// Decides after one reply. A final reply — payload, error text, or an
    /// empty answer — finishes the poll with the matching result; a
    /// continuation is followed, and counted, until the cap is spent, at
    /// which point the poll finishes with an error instead of retrying
    /// forever.
    pub fn poll(&mut self, reply: BoundaryReply) -> (r: PollOutcome)
        requires
            old(self).wf(),
        ensures
            final(self).wf(),
            final(self).instance_id@ == old(self).instance_id@,
            final(self).cap == old(self).cap,
            match reply {
                BoundaryReply::Empty => (r matches PollOutcome::Finish(q)
                    && (q matches Err(e) && e.msg@ == "unknown engine error"@))
                    && final(self).attempts == old(self).attempts,
                BoundaryReply::Success(p) => (r matches PollOutcome::Finish(q)
                    && (q matches Ok(v) && v@ == p@))
                    && final(self).attempts == old(self).attempts,
                BoundaryReply::Failure(m) => (r matches PollOutcome::Finish(q)
                    && (q matches Err(e) && e.msg@ == m@))
                    && final(self).attempts == old(self).attempts,
                BoundaryReply::Continuation(t) => if old(self).attempts < old(self).cap {
                    (r matches PollOutcome::Retry(u) && u@ == t@)
                        && final(self).attempts == old(self).attempts + 1
                } else {
                    (r matches PollOutcome::Finish(q)
                        && (q matches Err(e)
                            && e.msg@ == "snapshot polling attempt limit reached"@))
                        && final(self).attempts == old(self).attempts
                },
            },
    {
        match reply {
            BoundaryReply::Empty => PollOutcome::Finish(
                Err(SkipError { msg: String::from_str("unknown engine error") }),
            ),
            BoundaryReply::Success(p) => PollOutcome::Finish(Ok(p)),
            BoundaryReply::Failure(m) => PollOutcome::Finish(Err(SkipError { msg: m })),
            BoundaryReply::Continuation(t) => {
                if self.attempts < self.cap {
                    self.attempts = self.attempts + 1;
                    PollOutcome::Retry(t)
                } else {
                    PollOutcome::Finish(
                        Err(SkipError {
                            msg: String::from_str("snapshot polling attempt limit reached"),
                        }),
                    )
                }
            }
        }
    }
}

/// Relies on `uuid::Uuid::new_v4` and the hyphenated lower-case display
/// form of the uuid crate: a freshly drawn version-4 identifier always
/// formats as 36 characters. Nothing is assumed about which identifier
/// the random draw yields.
#[verifier::external_body]
fn fresh_instance_id() -> (r: String)
    ensures
        r@.len() == 36,
{
    uuid::Uuid::new_v4().to_string()
}

} // verus!
