//! The training driver: epochs of measuring and updating over a fixed,
//! ordered dataset, until a stopping policy ends the run.

use vstd::prelude::*;
use crate::adaline::Adaline;
use crate::error::AdalineError;
use crate::fixed::{Fixed, SCALE};
use crate::model::{
    lemma_accuracy_in_unit_range,
    lemma_epoch_keeps_shape,
    lemma_epochs_keep_shape,
    lemma_repeated_update_keeps_shape,
    Model,
};
use crate::record::Classification;

verus! {

/// The cap on the number of epochs that a run to a threshold gets where the
/// caller has no better one.
pub const DEFAULT_MAX_EPOCHS: usize = 10_000;

/// When a training run ends.
#[derive(Clone, Copy, Debug)]
pub enum StoppingPolicy {
    /// After exactly this many epochs, whatever accuracy is reached.
    FixedEpochs(usize),
    /// As soon as the accuracy is at least `target`, and after `max_epochs`
    /// epochs at the latest.
    Threshold { target: Fixed, max_epochs: usize },
}

/// How a training run ended.
#[derive(Clone, Copy, Debug, PartialEq, Eq, Structural)]
pub enum TrainingStatus {
    /// The fixed number of epochs was run.
    Completed,
    /// The accuracy reached the target.
    Converged,
    /// The cap on the epochs was reached with the accuracy still under the
    /// target.
    DidNotConverge,
}

/// What a training run hands back.
#[derive(Debug)]
pub struct TrainingReport {
    /// The accuracy before training and after each epoch, in order.
    pub history: Vec<Fixed>,
    /// How the run ended.
    pub status: TrainingStatus,
}

impl StoppingPolicy {
    /// The largest number of epochs that a run under this policy trains.
    pub open spec fn epoch_cap(self) -> nat {
        match self {
            StoppingPolicy::FixedEpochs(epochs) => epochs as nat,
            StoppingPolicy::Threshold { target, max_epochs } => max_epochs as nat,
        }
    }

    /// Whether the accuracy `p` ends a run under this policy.
    pub open spec fn satisfied_by(self, p: Fixed) -> bool {
        match self {
            StoppingPolicy::FixedEpochs(epochs) => false,
            StoppingPolicy::Threshold { target, max_epochs } => p.raw >= target.raw,
        }
    }

    /// How a run under this policy ended whose last accuracy was `last`.
    pub open spec fn status_at(self, last: Fixed) -> TrainingStatus {
        match self {
            StoppingPolicy::FixedEpochs(epochs) => TrainingStatus::Completed,
            StoppingPolicy::Threshold { target, max_epochs } => if last.raw >= target.raw {
                TrainingStatus::Converged
            } else {
                TrainingStatus::DidNotConverge
            },
        }
    }

    /// The largest number of epochs that a run under this policy trains.
    pub fn max_epochs(&self) -> (cap: usize)
        ensures
            cap == self.epoch_cap(),
    {
        match self {
            StoppingPolicy::FixedEpochs(epochs) => *epochs,
            StoppingPolicy::Threshold { target: _, max_epochs } => *max_epochs,
        }
    }

    /// Whether the accuracy `p` ends a run under this policy.
    pub fn is_satisfied_by(&self, p: Fixed) -> (b: bool)
        ensures
            b == self.satisfied_by(p),
    {
        match self {
            StoppingPolicy::FixedEpochs(_) => false,
            StoppingPolicy::Threshold { target, max_epochs: _ } => p.raw >= target.raw,
        }
    }

    /// How a run under this policy ended whose last accuracy was `last`.
    pub fn status(&self, last: Fixed) -> (s: TrainingStatus)
        ensures
            s == self.status_at(last),
    {
        match self {
            StoppingPolicy::FixedEpochs(_) => TrainingStatus::Completed,
            StoppingPolicy::Threshold { target, max_epochs: _ } => if last.raw >= target.raw {
                TrainingStatus::Converged
            } else {
                TrainingStatus::DidNotConverge
            },
        }
    }
}

/// Whether `history` is the accuracy history of a run under `policy` that
/// started from `start`: entry `k` is the accuracy after `k` epochs, no entry
/// but the last ends the run, and the last one does, or stands at the cap.
pub open spec fn is_history_of(
    start: Model,
    records: Seq<Classification>,
    policy: StoppingPolicy,
    history: Seq<Fixed>,
) -> bool {
    &&& 1 <= history.len() <= policy.epoch_cap() + 1
    &&& forall|k: int|
        0 <= k < history.len() ==> #[trigger] history[k] == start.after_epochs(
            records,
            k as nat,
        ).accuracy(records)
    &&& forall|k: int| 0 <= k < history.len() - 1 ==> !policy.satisfied_by(#[trigger] history[k])
    &&& policy.satisfied_by(history.last()) || history.len() == policy.epoch_cap() + 1
}

/// Every entry of an accuracy history over a dataset that is not empty
/// lies between 0 and 1.
pub proof fn lemma_history_in_unit_range(
    start: Model,
    records: Seq<Classification>,
    policy: StoppingPolicy,
    history: Seq<Fixed>,
)
    requires
        records.len() > 0,
        is_history_of(start, records, policy, history),
    ensures
        forall|k: int| 0 <= k < history.len() ==> 0 <= (#[trigger] history[k]).raw <= SCALE,
{
    assert forall|k: int| 0 <= k < history.len() implies 0 <= (#[trigger] history[k]).raw
        <= SCALE by {
        lemma_accuracy_in_unit_range(start.after_epochs(records, k as nat), records);
    }
}

/// One epoch: one update on every record, in the order of the dataset. A
/// dataset with a record of the wrong length changes nothing.
pub fn train_epoch(adaline: &mut Adaline, records: &[Classification]) -> (r: Result<
    (),
    AdalineError,
>)
    ensures
        match r {
            Ok(()) => old(adaline)@.all_fit(records@) && final(adaline)@ == old(adaline)@.epoch(
                records@,
            ),
            Err(e) => !old(adaline)@.all_fit(records@) && e == AdalineError::DimensionMismatch
                && final(adaline)@ == old(adaline)@,
        },
{
    let n = adaline.n();
    let mut i: usize = 0;
    while i < records.len()
        invariant
            i <= records.len(),
            n == adaline@.feature_count(),
            forall|j: int| 0 <= j < i ==> adaline@.fits((#[trigger] records@[j]).x@),
        decreases records.len() - i,
    {
        if records[i].x.len() != n {
            return Err(AdalineError::DimensionMismatch);
        }
        i = i + 1;
    }
    let ghost start = adaline@;
    let mut i: usize = 0;
    while i < records.len()
        invariant
            i <= records.len(),
            start.all_fit(records@),
            adaline@ == start.epoch_in(records@, i as nat),
        decreases records.len() - i,
    {
        proof {
            lemma_epoch_keeps_shape(start, records@, i as nat);
        }
        match adaline.train(&records[i]) {
            Ok(()) => {},
            Err(e) => {
                return Err(e);
            },
        }
        i = i + 1;
    }
    Ok(())
}

/// Trains on the whole dataset, epoch by epoch, until `policy` ends the run.
///
/// Before each epoch the accuracy on the dataset is measured and appended
/// to the history. The run ends there if the policy is satisfied by that
/// accuracy, or if as many epochs as the policy allows have been trained;
/// else one more epoch is trained.
pub fn train_with_policy(
    adaline: &mut Adaline,
    records: &[Classification],
    policy: &StoppingPolicy,
) -> (r: Result<TrainingReport, AdalineError>)
    ensures
        match r {
            Ok(report) => {
                &&& records@.len() > 0
                &&& old(adaline)@.all_fit(records@)
                &&& is_history_of(old(adaline)@, records@, *policy, report.history@)
                &&& report.status == policy.status_at(report.history@.last())
                &&& final(adaline)@ == old(adaline)@.after_epochs(
                    records@,
                    (report.history@.len() - 1) as nat,
                )
            },
            Err(e) => {
                &&& final(adaline)@ == old(adaline)@
                &&& if records@.len() == 0 {
                    e == AdalineError::EmptyDataset
                } else {
                    !old(adaline)@.all_fit(records@) && e == AdalineError::DimensionMismatch
                }
            },
        },
{
    let ghost start = adaline@;
    let cap = policy.max_epochs();
    let mut history: Vec<Fixed> = Vec::new();
    let mut epoch: usize = 0;
    loop
        invariant
            start == old(adaline)@,
            epoch <= cap,
            cap == policy.epoch_cap(),
            history@.len() == epoch,
            adaline@ == start.after_epochs(records@, epoch as nat),
            epoch > 0 ==> records@.len() > 0 && start.all_fit(records@),
            forall|k: int|
                0 <= k < epoch ==> #[trigger] history@[k] == start.after_epochs(
                    records@,
                    k as nat,
                ).accuracy(records@),
            forall|k: int| 0 <= k < epoch ==> !policy.satisfied_by(#[trigger] history@[k]),
        decreases cap - epoch,
    {
        proof {
            lemma_epochs_keep_shape(start, records@, epoch as nat);
        }
        let p = match adaline.classify_multiple_percent(records) {
            Ok(p) => p,
            Err(e) => {
                return Err(e);
            },
        };
        history.push(p);
        if policy.is_satisfied_by(p) || epoch >= cap {
            return Ok(TrainingReport { history, status: policy.status(p) });
        }
        match train_epoch(adaline, records) {
            Ok(()) => {},
            Err(e) => {
                return Err(e);
            },
        }
        epoch = epoch + 1;
    }
}

/// Trains for exactly `epochs` epochs, whatever accuracy is reached, and
/// returns the accuracy before training and after each epoch.
pub fn train_on_all_records(adaline: &mut Adaline, records: &[Classification], epochs: usize) -> (r:
    Result<Vec<Fixed>, AdalineError>)
    ensures
        match r {
            Ok(history) => {
                &&& records@.len() > 0
                &&& old(adaline)@.all_fit(records@)
                &&& history@.len() == epochs + 1
                &&& forall|k: int|
                    0 <= k <= epochs ==> #[trigger] history@[k] == old(adaline)@.after_epochs(
                        records@,
                        k as nat,
                    ).accuracy(records@)
                &&& final(adaline)@ == old(adaline)@.after_epochs(records@, epochs as nat)
            },
            Err(e) => {
                &&& final(adaline)@ == old(adaline)@
                &&& if records@.len() == 0 {
                    e == AdalineError::EmptyDataset
                } else {
                    !old(adaline)@.all_fit(records@) && e == AdalineError::DimensionMismatch
                }
            },
        },
{
    match train_with_policy(adaline, records, &StoppingPolicy::FixedEpochs(epochs)) {
        Ok(report) => Ok(report.history),
        Err(e) => Err(e),
    }
}

/// Trains until the accuracy on the dataset is at least `threshold`, for
/// `max_epochs` epochs at the most. The history holds the accuracy before
/// training and after each epoch that was trained; its last entry is the
/// first that reaches the threshold, unless the cap came first.
pub fn train_on_all_records_until(
    adaline: &mut Adaline,
    records: &[Classification],
    threshold: Fixed,
    max_epochs: usize,
) -> (r: Result<TrainingReport, AdalineError>)
    ensures
        match r {
            Ok(report) => {
                &&& records@.len() > 0
                &&& old(adaline)@.all_fit(records@)
                &&& 1 <= report.history@.len() <= max_epochs + 1
                &&& forall|k: int|
                    0 <= k < report.history@.len() ==> #[trigger] report.history@[k] == old(
                        adaline,
                    )@.after_epochs(records@, k as nat).accuracy(records@)
                &&& forall|k: int|
                    0 <= k < report.history@.len() - 1 ==> (#[trigger] report.history@[k]).raw
                        < threshold.raw
                &&& report.status == if report.history@.last().raw >= threshold.raw {
                    TrainingStatus::Converged
                } else {
                    TrainingStatus::DidNotConverge
                }
                &&& report.status == TrainingStatus::DidNotConverge ==> report.history@.len()
                    == max_epochs + 1
                &&& final(adaline)@ == old(adaline)@.after_epochs(
                    records@,
                    (report.history@.len() - 1) as nat,
                )
            },
            Err(e) => {
                &&& final(adaline)@ == old(adaline)@
                &&& if records@.len() == 0 {
                    e == AdalineError::EmptyDataset
                } else {
                    !old(adaline)@.all_fit(records@) && e == AdalineError::DimensionMismatch
                }
            },
        },
{
    train_with_policy(
        adaline,
        records,
        &StoppingPolicy::Threshold { target: threshold, max_epochs },
    )
}

/// Whether `i` is the place of the first record that the model does not
/// classify as labelled, with every record before it of the right length.
pub open spec fn is_first_misclassified(m: Model, records: Seq<Classification>, i: int) -> bool {
    &&& 0 <= i < records.len()
    &&& m.fits(records[i].x@)
    &&& !m.agrees(records[i])
    &&& forall|j: int| 0 <= j < i ==> m.fits((#[trigger] records[j]).x@) && m.agrees(records[j])
}

/// Whether the record at `i` has the wrong length, with every record
/// before it of the right length and classified as labelled.
pub open spec fn is_first_misfit(m: Model, records: Seq<Classification>, i: int) -> bool {
    &&& 0 <= i < records.len()
    &&& !m.fits(records[i].x@)
    &&& forall|j: int| 0 <= j < i ==> m.fits((#[trigger] records[j]).x@) && m.agrees(records[j])
}

/// The place of the first record that the model does not classify as
/// labelled, if there is one. The search ends in an error at a record of the
/// wrong length.
pub fn first_misclassified(adaline: &Adaline, records: &[Classification]) -> (r: Result<
    Option<usize>,
    AdalineError,
>)
    ensures
        match r {
            Ok(Some(i)) => is_first_misclassified(adaline@, records@, i as int),
            Ok(None) => forall|j: int|
                0 <= j < records@.len() ==> adaline@.fits((#[trigger] records@[j]).x@)
                    && adaline@.agrees(records@[j]),
            Err(e) => e == AdalineError::DimensionMismatch && exists|i: int|
                is_first_misfit(adaline@, records@, i),
        },
{
    let mut i: usize = 0;
    while i < records.len()
        invariant
            i <= records.len(),
            forall|j: int|
                0 <= j < i ==> adaline@.fits((#[trigger] records@[j]).x@) && adaline@.agrees(
                    records@[j],
                ),
        decreases records.len() - i,
    {
        let record = &records[i];
        match adaline.classify(record.x.as_slice()) {
            Ok(class) => {
                if class != record.classification {
                    return Ok(Some(i));
                }
            },
            Err(e) => {
                assert(is_first_misfit(adaline@, records@, i as int));
                return Err(e);
            },
        }
        i = i + 1;
    }
    Ok(None)
}

/// Trains `steps` times on the one record `record` and tells, for each
/// step, whether the model classified the record as labelled just before
/// that update.
pub fn train_repeatedly(adaline: &mut Adaline, record: &Classification, steps: usize) -> (r:
    Result<Vec<bool>, AdalineError>)
    ensures
        match r {
            Ok(trace) => {
                &&& old(adaline)@.fits(record.x@)
                &&& trace@.len() == steps
                &&& forall|k: int|
                    0 <= k < steps ==> #[trigger] trace@[k] == old(adaline)@.trained_times(
                        *record,
                        k as nat,
                    ).agrees(*record)
                &&& final(adaline)@ == old(adaline)@.trained_times(*record, steps as nat)
            },
            Err(e) => {
                &&& !old(adaline)@.fits(record.x@)
                &&& e == AdalineError::DimensionMismatch
                &&& final(adaline)@ == old(adaline)@
            },
        },
{
    if record.x.len() != adaline.n() {
        return Err(AdalineError::DimensionMismatch);
    }
    let ghost start = adaline@;
    let mut trace: Vec<bool> = Vec::new();
    let mut i: usize = 0;
    while i < steps
        invariant
            start == old(adaline)@,
            start.fits(record.x@),
            i <= steps,
            trace@.len() == i,
            adaline@ == start.trained_times(*record, i as nat),
            forall|k: int|
                0 <= k < i ==> #[trigger] trace@[k] == start.trained_times(
                    *record,
                    k as nat,
                ).agrees(*record),
        decreases steps - i,
    {
        proof {
            lemma_repeated_update_keeps_shape(start, *record, i as nat);
        }
        let this_guess_correct = match adaline.classify(record.x.as_slice()) {
            Ok(class) => class == record.classification,
            Err(e) => {
                return Err(e);
            },
        };
        trace.push(this_guess_correct);
        match adaline.train(record) {
            Ok(()) => {},
            Err(e) => {
                return Err(e);
            },
        }
        i = i + 1;
    }
    Ok(trace)
}

/// Picks the first record that the model does not classify as labelled
/// and trains on it alone, `steps` times over. The result names the place
/// of that record and tells, step by step, whether the record was classified
/// as labelled just before that update. With every record classified as
/// labelled there is nothing to train on, and no trace.
pub fn train_on_one_record(records: &[Classification], adaline: &mut Adaline, steps: usize) -> (r:
    Result<Option<(usize, Vec<bool>)>, AdalineError>)
    ensures
        match r {
            Ok(Some((i, trace))) => {
                &&& is_first_misclassified(old(adaline)@, records@, i as int)
                &&& trace@.len() == steps
                &&& forall|k: int|
                    0 <= k < steps ==> #[trigger] trace@[k] == old(adaline)@.trained_times(
                        records@[i as int],
                        k as nat,
                    ).agrees(records@[i as int])
                &&& final(adaline)@ == old(adaline)@.trained_times(
                    records@[i as int],
                    steps as nat,
                )
            },
            Ok(None) => {
                &&& final(adaline)@ == old(adaline)@
                &&& forall|j: int|
                    0 <= j < records@.len() ==> old(adaline)@.fits((#[trigger] records@[j]).x@)
                        && old(adaline)@.agrees(records@[j])
            },
            Err(e) => {
                &&& final(adaline)@ == old(adaline)@
                &&& e == AdalineError::DimensionMismatch
                &&& exists|i: int| is_first_misfit(old(adaline)@, records@, i)
            },
        },
{
    let found = match first_misclassified(adaline, records) {
        Ok(found) => found,
        Err(e) => {
            return Err(e);
        },
    };
    match found {
        None => Ok(None),
        Some(i) => {
            match train_repeatedly(adaline, &records[i], steps) {
                Ok(trace) => Ok(Some((i, trace))),
                Err(e) => Err(e),
            }
        },
    }
}

} // verus!
