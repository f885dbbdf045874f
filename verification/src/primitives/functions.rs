use vstd::prelude::*;

verus! {

/// How often a message is offered to a mailbox before it is given up.
pub const DEFAULT_TIMES: u8 = 3;

/// How one attempt to put a message into a mailbox ended.
#[derive(Clone, Copy, Debug, PartialEq, Eq, Structural)]
pub enum SendOutcome {
    /// The mailbox took the message.
    Delivered,
    /// The mailbox was full; a later attempt may succeed.
    Full,
    /// The mailbox is gone; no attempt will succeed.
    Closed,
}

/// What to do next with a message under delivery.
#[derive(Clone, Copy, Debug, PartialEq, Eq, Structural)]
pub enum ResendStep {
    /// Offer the message to the mailbox (again, after a short pause).
    Send,
    /// The message is delivered: stop, with success.
    Done,
    /// The message could not be delivered: stop, with an error.
    GiveUp,
}

/// The step after an attempt that ended with `outcome`, when `made`
/// attempts of at most `times` have been made.
pub open spec fn step_after(times: u8, made: u8, outcome: SendOutcome) -> ResendStep {
    match outcome {
        SendOutcome::Delivered => ResendStep::Done,
        SendOutcome::Full => if made < times {
            ResendStep::Send
        } else {
            ResendStep::GiveUp
        },
        SendOutcome::Closed => ResendStep::GiveUp,
    }
}

/// The delivery of one message with a bounded number of attempts.
pub struct Resend {
    times: u8,
    made: u8,
}

impl Resend {
    #[verifier::type_invariant]
    spec fn inv(self) -> bool {
        self.made <= self.times
    }

    /// The most attempts that this delivery may take.
    pub closed spec fn limit(&self) -> u8 {
        self.times
    }

    /// The attempts asked for so far.
    pub closed spec fn attempts(&self) -> u8 {
        self.made
    }

    /// A delivery that may take `times` attempts, none of them made yet.
    pub fn try_resend_times(times: u8) -> (r: Resend)
        ensures
            r.limit() == times,
            r.attempts() == 0,
    {
        Resend { times, made: 0 }
    }

    /// The attempts asked for so far; never more than the limit.
    pub fn made(&self) -> (n: u8)
        ensures
            n == self.attempts(),
            n <= self.limit(),
    {
        proof {
            use_type_invariant(self);
        }
        self.made
    }

    /// The first step: an attempt, unless no attempt is allowed at all.
    pub fn start(&mut self) -> (step: ResendStep)
        ensures
            final(self).limit() == old(self).limit(),
            final(self).attempts() <= final(self).limit(),
            old(self).attempts() < old(self).limit() ==> step == ResendStep::Send && final(self).attempts() == old(self).attempts() + 1,
            old(self).attempts() >= old(self).limit() ==> step == ResendStep::GiveUp && final(self).attempts() == old(self).attempts(),
    {
        proof {
            use_type_invariant(&*self);
        }
        if self.made < self.times {
            self.made = self.made + 1;
            ResendStep::Send
        } else {
            ResendStep::GiveUp
        }
    }

    /// The step after an attempt: done once the mailbox took the message;
    /// another attempt after a full mailbox, while the limit allows one;
    /// else the message is given up. Only the step `Send` counts as a
    /// further attempt.
    pub fn observe(&mut self, outcome: SendOutcome) -> (step: ResendStep)
        ensures
            step == step_after(old(self).limit(), old(self).attempts(), outcome),
            final(self).limit() == old(self).limit(),
            final(self).attempts() <= final(self).limit(),
            final(self).attempts() == if step == ResendStep::Send {
                old(self).attempts() + 1
            } else {
                old(self).attempts() as int
            },
    {
        proof {
            use_type_invariant(&*self);
        }
        match outcome {
            SendOutcome::Delivered => ResendStep::Done,
            SendOutcome::Full => {
                if self.made < self.times {
                    self.made = self.made + 1;
                    ResendStep::Send
                } else {
                    ResendStep::GiveUp
                }
            },
            SendOutcome::Closed => ResendStep::GiveUp,
        }
    }
}

/// Number of attempts that a delivery takes when the mailbox answers the
/// attempts with `outcomes`, in this order, and at most `times` attempts
/// are allowed after `made` were made.
pub open spec fn attempts_taken(times: u8, made: u8, outcomes: Seq<SendOutcome>) -> int
    decreases outcomes.len(),
{
    if outcomes.len() == 0 {
        made as int
    } else if step_after(times, made, outcomes[0]) == ResendStep::Send {
        attempts_taken(times, (made + 1) as u8, outcomes.drop_first())
    } else {
        made as int
    }
}

/// Whatever the mailbox answers, a delivery never takes more attempts than
/// its limit.
pub proof fn lemma_attempts_bounded(times: u8, made: u8, outcomes: Seq<SendOutcome>)
    requires
        made <= times,
    ensures
        made <= attempts_taken(times, made, outcomes) <= times,
    decreases outcomes.len(),
{
    if outcomes.len() > 0 && step_after(times, made, outcomes[0]) == ResendStep::Send {
        lemma_attempts_bounded(times, (made + 1) as u8, outcomes.drop_first());
    }
}

} // verus!
