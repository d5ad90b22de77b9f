//! The decisions of the generate, compile and run loop: the conversation
//! with the model, which attempt is running, and whether a failed attempt is
//! retried or the task is given up.
use vstd::prelude::*;
use crate::llm::Message;
use crate::pipeline::{format_error_for_retry, retry_context, PipelineError, PipelineResult, VmOutput};

verus! {

/// What follows a failed attempt.
#[derive(Debug, Clone, Copy, PartialEq, Eq)]
pub enum AfterFailure {
    /// The model was told what failed; ask it again.
    Retry,
    /// Every attempt failed; give the task up.
    GiveUp,
}

/// The state of the retry loop for one task.
#[derive(Debug)]
pub struct RetryLoop {
    messages: Vec<Message>,
    attempt: usize,
    max_retries: usize,
}

/// The role the messages of the conversation alternate on: `user` first.
pub open spec fn role_at(i: int) -> Seq<char> {
    if i % 2 == 0 {
        "user"@
    } else {
        "assistant"@
    }
}

impl RetryLoop {
    /// The conversation so far.
    pub closed spec fn history(&self) -> Seq<Message> {
        self.messages@
    }

    /// The number of the attempt in progress (the first is 1).
    pub closed spec fn attempt_number(&self) -> nat {
        self.attempt as nat
    }

    /// How many failed attempts may be retried.
    pub closed spec fn retry_limit(&self) -> nat {
        self.max_retries as nat
    }

    /// How many more attempts may follow the one in progress.
    pub open spec fn retries_left(&self) -> nat {
        (self.retry_limit() + 1 - self.attempt_number()) as nat
    }

    /// The conversation holds one user message for the first attempt and an
    /// answer and a user message for each attempt after it, alternating
    /// roles, and no more attempts have run than the limit allows.
    pub open spec fn well_formed(&self) -> bool {
        &&& 1 <= self.attempt_number() <= self.retry_limit() + 1
        &&& self.retry_limit() < usize::MAX
        &&& self.history().len() == 2 * self.attempt_number() - 1
        &&& forall|i: int| 0 <= i < self.history().len() ==> #[trigger] self.history()[i].role@ == role_at(i)
    }

    /// The loop for `task`, before its first attempt.
    pub fn start(task: String, max_retries: usize) -> (r: RetryLoop)
        requires
            max_retries < usize::MAX,
        ensures
            r.well_formed(),
            r.attempt_number() == 1,
            r.retry_limit() == max_retries,
            r.retries_left() == max_retries,
            r.history().len() == 1,
            r.history()[0].content@ == task@,
    {
        let first = Message::new("user", task);
        let messages = vec![first];
        RetryLoop { messages, attempt: 1, max_retries }
    }

    /// The number of the attempt in progress.
    pub fn attempt(&self) -> (r: usize)
        ensures
            r == self.attempt_number(),
    {
        self.attempt
    }

    /// The conversation to send to the model.
    pub fn messages(&self) -> (r: &Vec<Message>)
        ensures
            r@ == self.history(),
    {
        &self.messages
    }

    /// Records that the attempt in progress failed with `err`: the model had
    /// answered `raw_response`, from which the program `source` was taken.
    /// Where a retry is left, the answer and what failed join the
    /// conversation and the next attempt begins; otherwise the task is
    /// given up and nothing changes.
    pub fn on_failure(&mut self, raw_response: String, source: &str, err: &PipelineError) -> (r: AfterFailure)
        requires
            old(self).well_formed(),
        ensures
            final(self).well_formed(),
            final(self).retry_limit() == old(self).retry_limit(),
            (r == AfterFailure::Retry) == (old(self).attempt_number() <= old(self).retry_limit()),
            r == AfterFailure::Retry ==> {
                &&& final(self).attempt_number() == old(self).attempt_number() + 1
                &&& final(self).retries_left() + 1 == old(self).retries_left()
                &&& final(self).history().len() == old(self).history().len() + 2
                &&& final(self).history().subrange(0, old(self).history().len() as int) == old(self).history()
                &&& final(self).history()[old(self).history().len() as int].content@ == raw_response@
                &&& final(self).history()[old(self).history().len() + 1int].content@ == retry_context(source@, *err)
            },
            r == AfterFailure::GiveUp ==> {
                &&& old(self).retries_left() == 0
                &&& final(self).history() == old(self).history()
                &&& final(self).attempt_number() == old(self).attempt_number()
            },
    {
        if self.attempt <= self.max_retries {
            let ghost before = self.messages@;
            let retry_msg = format_error_for_retry(source, err);
            self.messages.push(Message::new("assistant", raw_response));
            self.messages.push(Message::new("user", retry_msg));
            self.attempt = self.attempt + 1;
            proof {
                let n = before.len() as int;
                assert(self.messages@.subrange(0, n) =~= before);
                assert forall|i: int| 0 <= i < self.messages@.len() implies #[trigger] self.messages@[i].role@ == role_at(i) by {
                    if i < n {
                        assert(self.messages@[i] == before[i]);
                    }
                }
            }
            AfterFailure::Retry
        } else {
            AfterFailure::GiveUp
        }
    }

    /// The result of the attempt in progress, which succeeded with the
    /// program `source` producing `output`.
    pub fn finish(self, source: String, output: VmOutput) -> (r: PipelineResult)
        ensures
            r.source == source,
            r.output == output,
            r.attempts == self.attempt_number(),
    {
        PipelineResult { source, output, attempts: self.attempt }
    }
}

} // verus!
