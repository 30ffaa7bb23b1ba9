use vstd::prelude::*;

use crate::data::{batch_bounds, is_batch_partition, lemma_batch_partition_exact};

verus! {

/// Declares rand's `StdRng`, so that the trainer owns its random source as an
/// explicit, seedable generator rather than drawing from process-wide state.
#[verifier::external_type_specification]
#[verifier::external_body]
pub struct ExStdRng(rand::rngs::StdRng);

/// Relies on rand's `SeedableRng::seed_from_u64` for `StdRng`: the generator
/// state is a function of the seed alone.
#[verifier::external_body]
fn rng_from_seed(seed: u64) -> rand::rngs::StdRng {
    <rand::rngs::StdRng as rand::SeedableRng>::seed_from_u64(seed)
}

/// Relies on rand's `SliceRandom::shuffle`, a full Fisher-Yates pass that
/// only swaps elements of the slice: the elements are permuted in place, so
/// their number and their multiset are unchanged.
#[verifier::external_body]
fn shuffle_examples(data: &mut Vec<(Vec<u64>, Vec<u64>)>, rng: &mut rand::rngs::StdRng)
    ensures
        final(data)@.len() == old(data)@.len(),
        final(data)@.to_multiset() == old(data)@.to_multiset(),
{
    rand::seq::SliceRandom::shuffle(data.as_mut_slice(), rng);
}

/// What the training loop asks of its driver next.  The scalar work of an
/// action — feeding a batch and applying the averaged changes, or evaluating
/// against a test set — is the driver's; the loop owns every decision.
#[derive(Clone, Copy, Debug, PartialEq, Eq, Structural)]
pub enum TrainAction {
    /// A new epoch began and the training set was reshuffled in place.
    ShuffleEpoch,
    /// Feed the examples `start..end` of the shuffled set forward, push their
    /// cost gradients back, and apply the accumulated changes once, averaged
    /// over `end - start` examples.
    TrainBatch(usize, usize),
    /// Evaluate against the test set; the payload is the number of epochs
    /// completed so far.
    Evaluate(usize),
    /// Training is over.
    Done,
}

/// Where the training loop stands between two actions.
#[derive(Clone, Copy, Debug, PartialEq, Eq, Structural)]
pub enum Phase {
    /// The next epoch has not begun yet.
    BeforeEpoch,
    /// The batches of the current epoch are being handed out.
    Batches,
    /// An epoch just ended; a report or the next epoch follows.
    EndOfEpoch,
    /// No epoch ran at all; the single evaluation of an unreported run follows.
    FinalEval,
    /// Nothing is left to do.
    Finished,
}

/// Orchestrates epochs, shuffling, batching and reporting over a training set
/// of `(input, target)` rows of scalar words.  Each epoch reshuffles the set
/// in place and hands out contiguous batches of `batch_size` examples (the
/// last batch of an epoch may be shorter).  With `report_each_epoch` an
/// evaluation follows every epoch; otherwise a single evaluation follows the
/// last one.
pub struct Trainer {
    pub data: Vec<(Vec<u64>, Vec<u64>)>,
    pub rng: rand::rngs::StdRng,
    pub bounds: Vec<(usize, usize)>,
    pub batch_size: usize,
    pub epochs: usize,
    pub report_each_epoch: bool,
    pub epoch: usize,
    pub next_batch: usize,
    pub phase: Phase,
}

impl Trainer {
    /// Control-state invariant, established by `new` and kept by `next_step`.
    pub open spec fn wf(&self) -> bool {
        &&& self.batch_size >= 1
        &&& is_batch_partition(self.bounds@, self.data@.len() as int, self.batch_size as int)
        &&& self.epoch <= self.epochs
        &&& (self.phase == Phase::BeforeEpoch ==> self.epoch < self.epochs)
        &&& (self.phase == Phase::Batches ==> self.epoch < self.epochs && self.next_batch
            < self.bounds@.len())
        &&& (self.phase == Phase::EndOfEpoch ==> self.epoch >= 1)
        &&& (self.phase == Phase::FinalEval ==> self.epoch == self.epochs
            && !self.report_each_epoch)
    }

    /// The action that the next call to `next_step` returns.
    pub open spec fn next_action(&self) -> TrainAction {
        match self.phase {
            Phase::BeforeEpoch => TrainAction::ShuffleEpoch,
            Phase::Batches => TrainAction::TrainBatch(
                self.bounds@[self.next_batch as int].0,
                self.bounds@[self.next_batch as int].1,
            ),
            Phase::EndOfEpoch => if self.report_each_epoch {
                TrainAction::Evaluate(self.epoch)
            } else if self.epoch < self.epochs {
                TrainAction::ShuffleEpoch
            } else {
                TrainAction::Evaluate(self.epoch)
            },
            Phase::FinalEval => TrainAction::Evaluate(self.epoch),
            Phase::Finished => TrainAction::Done,
        }
    }

    /// The control state after the next call: completed epochs, next batch
    /// index, phase.
    pub open spec fn next_control(&self) -> (usize, usize, Phase) {
        match self.phase {
            Phase::BeforeEpoch => if self.bounds@.len() > 0 {
                (self.epoch, 0usize, Phase::Batches)
            } else {
                ((self.epoch + 1) as usize, 0usize, Phase::EndOfEpoch)
            },
            Phase::Batches => if self.next_batch + 1 == self.bounds@.len() {
                ((self.epoch + 1) as usize, 0usize, Phase::EndOfEpoch)
            } else {
                (self.epoch, (self.next_batch + 1) as usize, Phase::Batches)
            },
            Phase::EndOfEpoch => if self.report_each_epoch {
                if self.epoch < self.epochs {
                    (self.epoch, 0usize, Phase::BeforeEpoch)
                } else {
                    (self.epoch, 0usize, Phase::Finished)
                }
            } else if self.epoch < self.epochs {
                if self.bounds@.len() > 0 {
                    (self.epoch, 0usize, Phase::Batches)
                } else {
                    ((self.epoch + 1) as usize, 0usize, Phase::EndOfEpoch)
                }
            } else {
                (self.epoch, 0usize, Phase::Finished)
            },
            Phase::FinalEval => (self.epoch, 0usize, Phase::Finished),
            Phase::Finished => (self.epoch, 0usize, Phase::Finished),
        }
    }

    /// The next call reshuffles the training set.
    pub open spec fn shuffles_next(&self) -> bool {
        self.next_action() == TrainAction::ShuffleEpoch
    }

    /// The trainer as `next_step` leaves it, up to the training set and the
    /// generator, which only a shuffle touches.
    pub open spec fn stepped(&self) -> Trainer {
        Trainer {
            epoch: self.next_control().0,
            next_batch: self.next_control().1,
            phase: self.next_control().2,
            ..*self
        }
    }

    /// How many actions the loop still emits before `Done`.
    pub open spec fn steps_left(&self) -> int {
        let b = self.bounds@.len() as int;
        let rep: int = if self.report_each_epoch {
            1
        } else {
            0
        };
        let fin: int = if self.report_each_epoch {
            0
        } else {
            1
        };
        match self.phase {
            Phase::BeforeEpoch => (self.epochs - self.epoch) * (1 + b + rep) + fin,
            Phase::Batches => (b - self.next_batch) + rep + (self.epochs - self.epoch - 1) * (1
                + b + rep) + fin,
            Phase::EndOfEpoch => if self.report_each_epoch {
                1 + (self.epochs - self.epoch) * (b + 2)
            } else if self.epoch < self.epochs {
                (self.epochs - self.epoch) * (1 + b) + 1
            } else {
                1
            },
            Phase::FinalEval => 1,
            Phase::Finished => 0,
        }
    }
}

/// Each batch of an epoch is pinned down exactly: while batches are being
/// handed out, the next one covers examples `k * batch_size` up to the lesser
/// of `(k + 1) * batch_size` and the training set's length, where `k` counts
/// the batches of the current epoch.
pub proof fn lemma_next_batch_exact(t: Trainer)
    requires
        t.wf(),
        t.phase == Phase::Batches,
    ensures
        t.next_action() == TrainAction::TrainBatch(
            (t.next_batch * t.batch_size) as usize,
            if (t.next_batch + 1) * t.batch_size <= t.data@.len() {
                ((t.next_batch + 1) * t.batch_size) as usize
            } else {
                t.data@.len() as usize
            },
        ),
{
    lemma_batch_partition_exact(t.bounds@, t.data@.len() as int, t.batch_size as int);
    let k = t.next_batch as int;
    assert(t.bounds@[k].0 == k * t.batch_size);
}

/// The training loop terminates: a well-formed trainer that is not finished
/// has strictly fewer actions left after every step, the count never goes
/// below zero, and a finished trainer only answers `Done`.  So a driver that
/// calls `next_step` until `Done` performs exactly the requested epochs and
/// stops.
pub proof fn lemma_schedule_terminates(t: Trainer)
    requires
        t.wf(),
    ensures
        t.steps_left() >= 0,
        t.phase != Phase::Finished ==> t.stepped().steps_left() < t.steps_left(),
        t.phase == Phase::Finished ==> t.next_action() == TrainAction::Done,
{
    vstd::std_specs::vec::axiom_spec_len(&t.bounds);
    let b = t.bounds@.len() as int;
    let rep: int = if t.report_each_epoch {
        1
    } else {
        0
    };
    let re = t.epochs - t.epoch;
    match t.phase {
        Phase::BeforeEpoch => {
            assert(re >= 1);
            assert(re * (1 + b + rep) >= 1 + b + rep && (re - 1) * (1 + b + rep) == re * (1 + b
                + rep) - (1 + b + rep)) by (nonlinear_arith)
                requires
                    re >= 1,
                    b >= 0,
                    rep >= 0,
            ;
            if t.report_each_epoch {
                assert((re - 1) * (b + 2) == re * (b + 2) - (b + 2)) by (nonlinear_arith);
            }
        },
        Phase::Batches => {
            assert(re >= 1);
            assert((re - 1) * (1 + b + rep) >= 0 && (re - 1) * (b + 2) == re * (b + 2) - (b + 2)
                && (re - 1) * (1 + b) >= 0) by (nonlinear_arith)
                requires
                    re >= 1,
                    b >= 0,
                    rep >= 0,
            ;
        },
        Phase::EndOfEpoch => {
            if re >= 1 {
                assert(re * (b + 2) >= b + 2 && re * (1 + b) >= 1 + b && (re - 1) * (b + 2) == re
                    * (b + 2) - (b + 2) && (re - 1) * (1 + b) == re * (1 + b) - (1 + b))
                    by (nonlinear_arith)
                    requires
                        re >= 1,
                        b >= 0,
                ;
            }
        },
        Phase::FinalEval => {},
        Phase::Finished => {},
    }
}

impl Trainer {
    /// A trainer over `data` for `epochs` epochs of batches of `batch_size`
    /// examples, with its own generator seeded from `seed`.
    pub fn new(
        data: Vec<(Vec<u64>, Vec<u64>)>,
        batch_size: usize,
        epochs: usize,
        report_each_epoch: bool,
        seed: u64,
    ) -> (r: Trainer)
        requires
            batch_size >= 1,
        ensures
            r.wf(),
            r.data == data,
            r.batch_size == batch_size,
            r.epochs == epochs,
            r.report_each_epoch == report_each_epoch,
            r.epoch == 0,
            r.phase == (if epochs > 0 {
                Phase::BeforeEpoch
            } else if !report_each_epoch {
                Phase::FinalEval
            } else {
                Phase::Finished
            }),
    {
        let bounds = batch_bounds(data.len(), batch_size);
        let phase = if epochs > 0 {
            Phase::BeforeEpoch
        } else if !report_each_epoch {
            Phase::FinalEval
        } else {
            Phase::Finished
        };
        Trainer {
            data,
            rng: rng_from_seed(seed),
            bounds,
            batch_size,
            epochs,
            report_each_epoch,
            epoch: 0,
            next_batch: 0,
            phase,
        }
    }

    /// One decision of the training loop: performs its own shuffling and
    /// bookkeeping, and tells the driver what scalar work comes next.
    pub fn next_step(&mut self) -> (a: TrainAction)
        requires
            old(self).wf(),
        ensures
            final(self).wf(),
            a == old(self).next_action(),
            final(self).epoch == old(self).next_control().0,
            final(self).next_batch == old(self).next_control().1,
            final(self).phase == old(self).next_control().2,
            final(self).batch_size == old(self).batch_size,
            final(self).epochs == old(self).epochs,
            final(self).report_each_epoch == old(self).report_each_epoch,
            final(self).bounds == old(self).bounds,
            final(self).data@.len() == old(self).data@.len(),
            final(self).data@.to_multiset() == old(self).data@.to_multiset(),
            !old(self).shuffles_next() ==> final(self).data == old(self).data,
    {
        match self.phase {
            Phase::BeforeEpoch => {
                shuffle_examples(&mut self.data, &mut self.rng);
                if self.bounds.len() > 0 {
                    self.next_batch = 0;
                    self.phase = Phase::Batches;
                } else {
                    self.epoch = self.epoch + 1;
                    self.next_batch = 0;
                    self.phase = Phase::EndOfEpoch;
                }
                TrainAction::ShuffleEpoch
            },
            Phase::Batches => {
                let b = self.bounds[self.next_batch];
                if self.next_batch == self.bounds.len() - 1 {
                    self.epoch = self.epoch + 1;
                    self.next_batch = 0;
                    self.phase = Phase::EndOfEpoch;
                } else {
                    self.next_batch = self.next_batch + 1;
                }
                TrainAction::TrainBatch(b.0, b.1)
            },
            Phase::EndOfEpoch => {
                if self.report_each_epoch {
                    let e = self.epoch;
                    if self.epoch < self.epochs {
                        self.phase = Phase::BeforeEpoch;
                    } else {
                        self.phase = Phase::Finished;
                    }
                    self.next_batch = 0;
                    TrainAction::Evaluate(e)
                } else if self.epoch < self.epochs {
                    shuffle_examples(&mut self.data, &mut self.rng);
                    if self.bounds.len() > 0 {
                        self.next_batch = 0;
                        self.phase = Phase::Batches;
                    } else {
                        self.epoch = self.epoch + 1;
                        self.next_batch = 0;
                    }
                    TrainAction::ShuffleEpoch
                } else {
                    self.phase = Phase::Finished;
                    self.next_batch = 0;
                    TrainAction::Evaluate(self.epoch)
                }
            },
            Phase::FinalEval => {
                self.phase = Phase::Finished;
                self.next_batch = 0;
                TrainAction::Evaluate(self.epoch)
            },
            Phase::Finished => {
                self.next_batch = 0;
                TrainAction::Done
            },
        }
    }
}

} // verus!
