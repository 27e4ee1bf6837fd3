use vstd::prelude::*;

use crate::error::SkipError;

verus! {

/// The single serialized execution lane in front of the engine.
///
/// The engine is not safe to call from more than one logical context at a
/// time, so every call is funnelled through one lane: callers submit task
/// tokens, and the lane's worker takes them out one at a time, in
/// first-in-first-out order, and runs each against the engine. Tasks are
/// opaque here; a token stands for one unit of work. The two ghost
/// histories record every token ever accepted and every token ever handed
/// out for execution, so that the ordering guarantee can be stated over
/// whole runs and not only over the current queue.
pub struct ThreadWorker {
    /// Tokens accepted but not yet executed, oldest first.
    pub queue: Vec<u64>,
    /// False once the lane has terminated; submissions are then refused.
    pub alive: bool,
    /// Every token ever accepted, in order of acceptance.
    pub submitted: Ghost<Seq<u64>>,
    /// Every token ever handed out for execution, in order.
    pub executed: Ghost<Seq<u64>>,
}

impl ThreadWorker {
    /// The lane neither invents, reorders nor skips work: what has run,
    /// followed by what still waits, is exactly what was submitted.
    pub open spec fn wf(self) -> bool {
        self.executed@ + self.queue@ == self.submitted@
    }

    /// Creates an empty, live lane.
    pub fn new() -> (w: ThreadWorker)
        ensures
            w.wf(),
            w.alive,
            w.queue@ == Seq::<u64>::empty(),
            w.submitted@ == Seq::<u64>::empty(),
            w.executed@ == Seq::<u64>::empty(),
    {
        let w = ThreadWorker {
            queue: Vec::new(),
            alive: true,
            submitted: Ghost(Seq::empty()),
            executed: Ghost(Seq::empty()),
        };
        proof {
            assert(w.executed@ + w.queue@ =~= w.submitted@);
        }
        w
    }

    /// Accepts a task token at the back of the lane. A lane whose worker
    /// has terminated refuses the task with an error and stays unchanged;
    /// nothing else can fail.
    pub fn submit(&mut self, task: u64) -> (r: Result<(), SkipError>)
        requires
            old(self).wf(),
        ensures
            final(self).wf(),
            final(self).alive == old(self).alive,
            final(self).executed@ == old(self).executed@,
            r is Ok <==> old(self).alive,
            old(self).alive ==> final(self).queue@ == old(self).queue@.push(task)
                && final(self).submitted@ == old(self).submitted@.push(task),
            !old(self).alive ==> (r matches Err(e) && e.msg@ == "Failed to send task"@)
                && final(self).queue@ == old(self).queue@
                && final(self).submitted@ == old(self).submitted@,
    {
        if !self.alive {
            return Err(SkipError { msg: String::from_str("Failed to send task") });
        }
        self.queue.push(task);
        self.submitted = Ghost(self.submitted@.push(task));
        proof {
            assert(self.executed@ + self.queue@ =~= self.submitted@);
        }
        Ok(())
    }

    /// Hands out the next task token: the oldest one still waiting, or
    /// `None` on an empty lane.
    pub fn run_next(&mut self) -> (r: Option<u64>)
        requires
            old(self).wf(),
        ensures
            final(self).wf(),
            final(self).alive == old(self).alive,
            final(self).submitted@ == old(self).submitted@,
            old(self).queue@.len() == 0 ==> r is None
                && final(self).queue@ == old(self).queue@
                && final(self).executed@ == old(self).executed@,
            old(self).queue@.len() > 0 ==> r == Some(old(self).queue@[0])
                && final(self).queue@ == old(self).queue@.drop_first()
                && final(self).executed@ == old(self).executed@.push(old(self).queue@[0]),
    {
        if self.queue.len() == 0 {
            return None;
        }
        let task = self.queue.remove(0);
        self.executed = Ghost(self.executed@.push(task));
        proof {
            assert(self.executed@ + self.queue@ =~= self.submitted@);
        }
        Some(task)
    }

    /// Records that the lane's worker has terminated: from here on,
    /// submissions are refused rather than silently dropped.
    pub fn shutdown(&mut self)
        ensures
            final(self).alive == false,
            final(self).queue@ == old(self).queue@,
            final(self).submitted@ == old(self).submitted@,
            final(self).executed@ == old(self).executed@,
    {
        self.alive = false;
    }

    /// First-in-first-out law: the tokens executed so far are exactly the
    /// first ones submitted, in submission order. In particular, of two
    /// tasks submitted in order, the later one is never executed before
    /// the earlier one.
    pub proof fn lemma_fifo(self)
        requires
            self.wf(),
        ensures
            self.executed@ == self.submitted@.take(self.executed@.len() as int),
            forall|i: int| 0 <= i < self.executed@.len() ==> self.executed@[i]
                == self.submitted@[i],
    {
        assert(self.executed@ =~= self.submitted@.take(self.executed@.len() as int));
    }
}

} // verus!
