//! Mip generation for uploaded textures.
//!
//! Each texture whose level 0 has been written queues a request. A batch of
//! requests is generated on one command encoder, submitted once, and only then
//! marked complete, so that no chain counts as done on the strength of commands
//! that were merely recorded. Here a batch takes the requests that are pending, and
//! gives the order of the work on them; whoever owns the device performs it.

use vstd::prelude::*;

verus! {

/// One piece of work for whoever owns the device. A number is the position of a
/// request in the batch.
#[derive(Debug, Clone, Copy, PartialEq, Eq, Structural)]
pub enum MipmapAction {
    /// Create the command encoder of the batch.
    CreateEncoder,
    /// Make sure that the generator has a pipeline for the request's format.
    EnsurePipeline(usize),
    /// Record the generation of the request's mip chain on the encoder.
    Generate(usize),
    /// Finish the encoder and submit its commands to the queue.
    Submit,
    /// Mark the request as complete.
    MarkComplete(usize),
}

/// How many actions a batch takes: none for an empty one, otherwise three for each
/// request, one for the encoder and one for the submission.
pub open spec fn schedule_len(requests: nat) -> nat {
    if requests == 0 {
        0
    } else {
        3 * requests + 2
    }
}

/// The action at a position of the schedule of a batch.
pub open spec fn action_at(requests: nat, position: int) -> MipmapAction {
    if position == 0 {
        MipmapAction::CreateEncoder
    } else if position <= 2 * requests {
        if position % 2 == 1 {
            MipmapAction::EnsurePipeline(((position - 1) / 2) as usize)
        } else {
            MipmapAction::Generate(((position - 1) / 2) as usize)
        }
    } else if position == 2 * requests + 1 {
        MipmapAction::Submit
    } else {
        MipmapAction::MarkComplete((position - 2 * requests - 2) as usize)
    }
}

/// All the work on a batch, in order.
pub open spec fn schedule(requests: nat) -> Seq<MipmapAction> {
    Seq::new(schedule_len(requests), |position: int| action_at(requests, position))
}

/// What a batch does next.
#[derive(Debug, Clone, Copy, PartialEq, Eq, Structural)]
enum Stage {
    Begin,
    Prepare(usize),
    Record(usize),
    Finish,
    Complete(usize),
    Done,
}

/// The work that is left on a batch of mip requests.
#[derive(Debug)]
pub struct MipmapBatch<R> {
    requests: Vec<R>,
    stage: Stage,
}

impl<R> MipmapBatch<R> {
    /// The requests of the batch.
    pub closed spec fn spec_requests(&self) -> Seq<R> {
        self.requests@
    }

    /// All the work on the batch, done or left.
    pub open spec fn work(&self) -> Seq<MipmapAction> {
        schedule(self.spec_requests().len())
    }

    /// How many actions have been handed out.
    pub closed spec fn position(&self) -> nat {
        let requests = self.requests@.len();
        match self.stage {
            Stage::Begin => 0,
            Stage::Prepare(i) => 1 + 2 * i as nat,
            Stage::Record(i) => 2 + 2 * i as nat,
            Stage::Finish => 2 * requests + 1,
            Stage::Complete(i) => 2 * requests + 2 + i as nat,
            Stage::Done => schedule_len(requests),
        }
    }

    /// Whether the stage is one that the batch can be in.
    pub closed spec fn well_formed(&self) -> bool {
        match self.stage {
            Stage::Begin | Stage::Finish => self.requests@.len() > 0,
            Stage::Prepare(i) | Stage::Record(i) | Stage::Complete(i) => i < self.requests@.len(),
            Stage::Done => true,
        }
    }

    /// The requests of the batch, in the order in which they were queued.
    #[must_use]
    pub fn requests(&self) -> (r: &[R])
        ensures
            r@ == self.spec_requests(),
    {
        self.requests.as_slice()
    }

    /// The next action, or `None` when the work is done. The caller performs each
    /// action before it asks for the next.
    pub fn next_action(&mut self) -> (r: Option<MipmapAction>)
        requires
            old(self).well_formed(),
        ensures
            final(self).well_formed(),
            final(self).spec_requests() == old(self).spec_requests(),
            old(self).position() <= old(self).work().len(),
            old(self).work() == schedule(old(self).spec_requests().len()),
            old(self).position() < old(self).work().len() ==> r == Some(
                old(self).work()[old(self).position() as int],
            ) && final(self).position() == old(self).position() + 1,
            old(self).position() == old(self).work().len() ==> r is None && *final(self) == *old(
                self,
            ),
    {
        let count: usize = self.requests.len();
        match self.stage {
            Stage::Begin => {
                self.stage = Stage::Prepare(0);
                Some(MipmapAction::CreateEncoder)
            },
            Stage::Prepare(i) => {
                self.stage = Stage::Record(i);
                Some(MipmapAction::EnsurePipeline(i))
            },
            Stage::Record(i) => {
                self.stage = if i + 1 < count {
                    Stage::Prepare(i + 1)
                } else {
                    Stage::Finish
                };
                Some(MipmapAction::Generate(i))
            },
            Stage::Finish => {
                self.stage = Stage::Complete(0);
                Some(MipmapAction::Submit)
            },
            Stage::Complete(i) => {
                self.stage = if i + 1 < count {
                    Stage::Complete(i + 1)
                } else {
                    Stage::Done
                };
                Some(MipmapAction::MarkComplete(i))
            },
            Stage::Done => None,
        }
    }
}

/// What starting a batch does to the pending requests: the batch has all of them,
/// in order, with no work done yet, and none stays pending.
pub open spec fn takes_all<R>(pending: Seq<R>, batch: MipmapBatch<R>, left: Seq<R>) -> bool {
    &&& batch.well_formed()
    &&& batch.spec_requests() == pending
    &&& batch.position() == 0
    &&& left == Seq::<R>::empty()
}

/// Mip generation, with the generator that records it.
#[derive(Debug)]
pub struct MipmapFeature<G> {
    generator: G,
}

impl<G> MipmapFeature<G> {
    /// The generator that the feature was made with.
    pub closed spec fn spec_generator(&self) -> G {
        self.generator
    }

    /// A feature that generates with `generator`.
    #[must_use]
    pub fn new(generator: G) -> (r: Self)
        ensures
            r.spec_generator() == generator,
    {
        Self { generator }
    }

    /// The generator, for passes that mip transient textures.
    #[must_use]
    pub fn generator(&self) -> (r: &G)
        ensures
            *r == self.spec_generator(),
    {
        &self.generator
    }

    /// The generator, for the actions of a batch.
    #[must_use]
    pub fn generator_mut(&mut self) -> (r: &mut G)
        ensures
            *r == old(self).spec_generator(),
            final(self).spec_generator() == *final(r),
    {
        &mut self.generator
    }

    /// Starts a batch for every request queued since the last call. They leave the
    /// pending ones, so that no later call serves them again.
    #[must_use]
    pub fn extract_and_prepare<R>(&self, pending: &mut Vec<R>) -> (r: MipmapBatch<R>)
        ensures
            takes_all(old(pending)@, r, final(pending)@),
            r.well_formed(),
            r.spec_requests() == old(pending)@,
            r.position() == 0,
            final(pending)@.len() == 0,
    {
        let mut requests: Vec<R> = Vec::new();
        std::mem::swap(&mut requests, pending);
        let stage = if requests.len() == 0 {
            Stage::Done
        } else {
            Stage::Begin
        };
        MipmapBatch { requests, stage }
    }
}

/// An empty batch takes no work at all.
pub proof fn law_empty_batch_does_nothing()
    ensures
        schedule(0) == Seq::<MipmapAction>::empty(),
{
    assert(schedule(0) =~= Seq::<MipmapAction>::empty());
}

/// A batch that was just started has everything still to do: an encoder, then for
/// each request in turn its pipeline and its chain, then the submission, then each
/// request marked complete, and nothing else.
pub proof fn law_started_batch_has_all_work_left<R>(
    pending: Seq<R>,
    batch: MipmapBatch<R>,
    left: Seq<R>,
    request: usize,
)
    requires
        takes_all(pending, batch, left),
        request < pending.len(),
    ensures
        batch.spec_requests() == pending,
        batch.position() == 0,
        left.len() == 0,
        batch.work().len() == 3 * pending.len() + 2,
        batch.work()[0] == MipmapAction::CreateEncoder,
        batch.work()[1 + 2 * request] == MipmapAction::EnsurePipeline(request),
        batch.work()[2 + 2 * request] == MipmapAction::Generate(request),
        batch.work()[1 + 2 * pending.len() as int] == MipmapAction::Submit,
        batch.work()[2 + 2 * pending.len() + request] == MipmapAction::MarkComplete(request),
{
    law_every_request_is_generated(pending.len(), request);
}

/// When nothing was queued since a batch was started, nothing is pending, and the
/// next batch has no requests and no work, so that its first action is `None`.
pub proof fn law_second_batch_does_nothing<R>(
    pending: Seq<R>,
    first: MipmapBatch<R>,
    left: Seq<R>,
    second: MipmapBatch<R>,
    rest: Seq<R>,
)
    requires
        takes_all(pending, first, left),
        takes_all(left, second, rest),
    ensures
        left.len() == 0,
        rest.len() == 0,
        second.spec_requests().len() == 0,
        second.work() == Seq::<MipmapAction>::empty(),
        second.position() == second.work().len(),
{
    law_empty_batch_does_nothing();
}

/// Each request is served by exactly one batch: of two in a row the first has what
/// was pending, the second what was queued between them, and together they have
/// every request once and in order.
pub proof fn law_each_request_is_in_one_batch<R>(
    pending: Seq<R>,
    first: MipmapBatch<R>,
    left: Seq<R>,
    queued: Seq<R>,
    second: MipmapBatch<R>,
    rest: Seq<R>,
)
    requires
        takes_all(pending, first, left),
        takes_all(left + queued, second, rest),
    ensures
        first.spec_requests() == pending,
        second.spec_requests() == queued,
        first.spec_requests() + second.spec_requests() == pending + queued,
        rest.len() == 0,
{
    assert(left + queued =~= queued);
}

/// Every request of a batch has its pipeline ensured, then its chain recorded,
/// then the batch is submitted, and only after that is the request marked complete.
pub proof fn law_every_request_is_generated(requests: nat, request: usize)
    requires
        request < requests,
    ensures
        ({
            let order = schedule(requests);
            let pipeline = 1 + 2 * request;
            let generate = 2 + 2 * request;
            let submit = 2 * requests + 1;
            let complete = 2 * requests + 2 + request;
            &&& 0 < pipeline < generate < submit < complete < order.len()
            &&& order[0] == MipmapAction::CreateEncoder
            &&& order[pipeline as int] == MipmapAction::EnsurePipeline(request)
            &&& order[generate as int] == MipmapAction::Generate(request)
            &&& order[submit as int] == MipmapAction::Submit
            &&& order[complete as int] == MipmapAction::MarkComplete(request)
        }),
{
    assert((1 + 2 * request) % 2 == 1 && (2 + 2 * request) % 2 == 0);
    assert((1 + 2 * request - 1) / 2 == request && (2 + 2 * request - 1) / 2 == request);
}

/// A request is never marked complete before the batch is submitted, and nothing is
/// recorded after that.
pub proof fn law_complete_only_after_submit(requests: nat, position: int)
    requires
        requests <= usize::MAX,
        0 <= position < schedule(requests).len(),
    ensures
        schedule(requests)[position] is MarkComplete <==> position > 2 * requests + 1,
        schedule(requests)[position] == MipmapAction::Submit <==> position == 2 * requests + 1,
        schedule(requests)[position] is Generate || schedule(requests)[position] is EnsurePipeline
            ==> 0 < position < 2 * requests + 1,
{
}

/// No action of a batch is asked for twice, and every action speaks of a request
/// of the batch.
pub proof fn law_no_action_is_repeated(requests: nat)
    requires
        requests <= usize::MAX,
    ensures
        schedule(requests).no_duplicates(),
        forall|position: int|
            0 <= position < schedule(requests).len() ==> match #[trigger] schedule(
                requests,
            )[position] {
                MipmapAction::EnsurePipeline(i) => i < requests,
                MipmapAction::Generate(i) => i < requests,
                MipmapAction::MarkComplete(i) => i < requests,
                _ => true,
            },
{
    let order = schedule(requests);
    assert forall|i: int, j: int|
        0 <= i < order.len() && 0 <= j < order.len() && i != j implies order[i] != order[j] by {
        if 0 < i <= 2 * requests && 0 < j <= 2 * requests {
            assert(i % 2 != j % 2 || (i - 1) / 2 != (j - 1) / 2);
        }
    }
}

} // verus!
