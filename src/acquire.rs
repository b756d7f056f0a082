//! The decisions of the two-call protocol that fills an adapter buffer: a
//! probe with an empty buffer learns the size that the list needs, one buffer
//! of exactly that size is allocated, and one fill call either fills it or
//! fails the whole acquisition. The caller performs each call and hands the
//! operating system's reply back.
use vstd::prelude::*;

use crate::address::MacAddressError;

verus! {

/// What the operating system answered to a probe or fill call.
#[derive(Clone, Copy, Debug, PartialEq, Eq)]
pub enum OsReply {
    /// The buffer was too small; the list needs `required` bytes.
    BufferTooSmall { required: u32 },
    /// The buffer was filled.
    Success,
    /// Any other failure.
    Failure,
}

/// Where an acquisition stands.
#[derive(Clone, Copy, Debug, PartialEq, Eq)]
pub enum Acquisition {
    /// The probe call with an empty buffer is outstanding.
    Probing,
    /// A buffer of `size` bytes was allocated; the fill call is outstanding.
    Filling { size: usize },
    /// The buffer holds the adapter list.
    Filled,
    /// The acquisition failed; nothing is to be retried.
    Failed,
}

/// What the caller does next.
#[derive(Clone, Copy, Debug, PartialEq, Eq)]
pub enum Step {
    /// Allocate a buffer of exactly this many bytes and make the fill call
    /// with it.
    AllocateAndFill(usize),
    /// Hand the filled buffer out.
    Accept,
    /// Give up with this error.
    Reject(MacAddressError),
    /// The acquisition is over; make no call.
    Idle,
}

/// The next state and step after `reply` arrives in state `s`.
pub open spec fn transition(s: Acquisition, reply: OsReply) -> (Acquisition, Step) {
    match s {
        Acquisition::Probing => match reply {
            OsReply::BufferTooSmall { required } => (
                Acquisition::Filling { size: required as usize },
                Step::AllocateAndFill(required as usize),
            ),
            _ => (Acquisition::Failed, Step::Reject(MacAddressError::InternalError)),
        },
        Acquisition::Filling { size } => match reply {
            OsReply::Success => (Acquisition::Filled, Step::Accept),
            _ => (Acquisition::Failed, Step::Reject(MacAddressError::InternalError)),
        },
        Acquisition::Filled => (Acquisition::Filled, Step::Idle),
        Acquisition::Failed => (Acquisition::Failed, Step::Idle),
    }
}

/// The steps taken when `replies` arrive one after another from state `s`.
pub open spec fn steps_from(s: Acquisition, replies: Seq<OsReply>) -> Seq<Step>
    decreases replies.len(),
{
    if replies.len() == 0 {
        Seq::empty()
    } else {
        let (next, step) = transition(s, replies[0]);
        seq![step] + steps_from(next, replies.drop_first())
    }
}

/// Whether a step allocates a buffer.
pub open spec fn allocates(step: Step) -> bool {
    step is AllocateAndFill
}

impl Acquisition {
    /// A new acquisition: the caller makes the probe call with an empty
    /// buffer.
    pub fn start() -> (r: Acquisition)
        ensures
            r == Acquisition::Probing,
    {
        Acquisition::Probing
    }

    /// Takes the operating system's reply to the outstanding call.
    pub fn on_reply(self, reply: OsReply) -> (r: (Acquisition, Step))
        ensures
            r == transition(self, reply),
    {
        match self {
            Acquisition::Probing => match reply {
                OsReply::BufferTooSmall { required } => (
                    Acquisition::Filling { size: required as usize },
                    Step::AllocateAndFill(required as usize),
                ),
                _ => (Acquisition::Failed, Step::Reject(MacAddressError::InternalError)),
            },
            Acquisition::Filling { size } => match reply {
                OsReply::Success => (Acquisition::Filled, Step::Accept),
                _ => (Acquisition::Failed, Step::Reject(MacAddressError::InternalError)),
            },
            Acquisition::Filled => (Acquisition::Filled, Step::Idle),
            Acquisition::Failed => (Acquisition::Failed, Step::Idle),
        }
    }
}

/// Once past the probe, no reply leads to another allocation.
pub proof fn lemma_no_allocation_after_probe(s: Acquisition, replies: Seq<OsReply>)
    requires
        !(s is Probing),
    ensures
        forall|i: int| 0 <= i < steps_from(s, replies).len() ==> !allocates(
            #[trigger] steps_from(s, replies)[i],
        ),
    decreases replies.len(),
{
    if replies.len() > 0 {
        let (next, step) = transition(s, replies[0]);
        lemma_no_allocation_after_probe(next, replies.drop_first());
        let rest = steps_from(next, replies.drop_first());
        assert forall|i: int| 0 <= i < steps_from(s, replies).len() implies !allocates(
            #[trigger] steps_from(s, replies)[i],
        ) by {
            if i > 0 {
                assert(steps_from(s, replies)[i] == rest[i - 1]);
            }
        }
    }
}

/// A probe that reports `size` bytes leads to exactly one allocation, of
/// `size` bytes, before the fill call, whatever replies follow: the fill is
/// never retried with another size.
pub proof fn lemma_single_allocation_of_probed_size(size: u32, replies: Seq<OsReply>)
    requires
        replies.len() > 0,
        replies[0] == (OsReply::BufferTooSmall { required: size }),
    ensures
        steps_from(Acquisition::Probing, replies)[0] == Step::AllocateAndFill(size as usize),
        forall|i: int|
            0 < i < steps_from(Acquisition::Probing, replies).len() ==> !allocates(
                #[trigger] steps_from(Acquisition::Probing, replies)[i],
            ),
{
    let next = Acquisition::Filling { size: size as usize };
    lemma_no_allocation_after_probe(next, replies.drop_first());
    let rest = steps_from(next, replies.drop_first());
    assert forall|i: int|
        0 < i < steps_from(Acquisition::Probing, replies).len() implies !allocates(
        #[trigger] steps_from(Acquisition::Probing, replies)[i],
    ) by {
        assert(steps_from(Acquisition::Probing, replies)[i] == rest[i - 1]);
    }
}

/// A fill call that fails after a successful probe fails the acquisition
/// with `InternalError`, and nothing is handed out afterwards.
pub proof fn lemma_failed_fill_rejects(size: u32, fill: OsReply, later: Seq<OsReply>)
    requires
        !(fill is Success),
    ensures
        ({
            let steps = steps_from(
                Acquisition::Probing,
                seq![OsReply::BufferTooSmall { required: size }, fill] + later,
            );
            &&& steps.len() == later.len() + 2
            &&& steps[1] == Step::Reject(MacAddressError::InternalError)
            &&& forall|i: int| 1 < i < steps.len() ==> #[trigger] steps[i] == Step::Idle
        }),
{
    let replies = seq![OsReply::BufferTooSmall { required: size }, fill] + later;
    lemma_idle_after_failure(later);
    let r1 = replies.drop_first();
    assert(replies[0] == OsReply::BufferTooSmall { required: size });
    assert(r1[0] == fill);
    assert(r1.drop_first() =~= later);
    let s1 = Acquisition::Filling { size: size as usize };
    let tail = steps_from(Acquisition::Failed, later);
    assert(steps_from(s1, r1) == seq![Step::Reject(MacAddressError::InternalError)] + tail);
    let steps = steps_from(Acquisition::Probing, replies);
    assert(steps == seq![Step::AllocateAndFill(size as usize)] + steps_from(s1, r1));
    assert(steps.len() == tail.len() + 2);
    assert(steps[1] == Step::Reject(MacAddressError::InternalError));
    assert forall|i: int| 1 < i < steps.len() implies #[trigger] steps[i] == Step::Idle by {
        assert(steps[i] == tail[i - 2]);
    }
}

proof fn lemma_idle_after_failure(replies: Seq<OsReply>)
    ensures
        forall|i: int|
            0 <= i < steps_from(Acquisition::Failed, replies).len() ==> #[trigger] steps_from(
                Acquisition::Failed,
                replies,
            )[i] == Step::Idle,
        steps_from(Acquisition::Failed, replies).len() == replies.len(),
    decreases replies.len(),
{
    if replies.len() > 0 {
        lemma_idle_after_failure(replies.drop_first());
        let rest = steps_from(Acquisition::Failed, replies.drop_first());
        assert forall|i: int|
            0 <= i < steps_from(Acquisition::Failed, replies).len() implies #[trigger] steps_from(
            Acquisition::Failed,
            replies,
        )[i] == Step::Idle by {
            if i > 0 {
                assert(steps_from(Acquisition::Failed, replies)[i] == rest[i - 1]);
            }
        }
    }
}

} // verus!
