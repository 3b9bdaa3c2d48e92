//! The mathematical model of the classifier: what a weight vector scores,
//! how it classifies, and what one delta-rule update makes of it.

use vstd::prelude::*;
use crate::fixed::{fixed, rescale, Fixed, SCALE};
use crate::record::Classification;

verus! {

/// The state of a classifier: the bias weight at index 0, one weight per
/// feature after it, and the learning rate.
pub struct Model {
    pub weights: Seq<Fixed>,
    pub rate: Fixed,
}

/// The value that a label asks the score to be: +1 or -1.
pub open spec fn target(label: bool) -> Fixed {
    if label {
        fixed(SCALE as int)
    } else {
        fixed(-SCALE)
    }
}

impl Model {
    /// A model has at least its bias weight.
    pub open spec fn wf(self) -> bool {
        self.weights.len() >= 1
    }

    /// The length that a feature vector must have.
    pub open spec fn feature_count(self) -> int {
        self.weights.len() - 1
    }

    /// Whether `x` has one entry per feature weight.
    pub open spec fn fits(self, x: Seq<Fixed>) -> bool {
        x.len() == self.feature_count()
    }

    /// The sum of the products of the first `k` features with their
    /// weights, in raw units; each product is rounded and saturated, the sum
    /// is exact.
    pub open spec fn weighted_sum(self, x: Seq<Fixed>, k: nat) -> int
        decreases k,
    {
        if k == 0 {
            0
        } else {
            self.weighted_sum(x, (k - 1) as nat) + self.weights[k as int].spec_mul(
                x[k - 1],
            ).raw
        }
    }

    /// The sum of the exact products of the first `k` features with their
    /// weights, in units of which `SCALE * SCALE` make one whole.
    pub open spec fn exact_weighted_sum(self, x: Seq<Fixed>, k: nat) -> int
        decreases k,
    {
        if k == 0 {
            0
        } else {
            self.exact_weighted_sum(x, (k - 1) as nat) + self.weights[k as int].raw * x[k
                - 1].raw
        }
    }

    /// Whether none of the products of the first `k` features with their
    /// weights leaves the range of the number type.
    pub open spec fn products_in_range(self, x: Seq<Fixed>, k: nat) -> bool {
        forall|i: int|
            0 <= i < k ==> i64::MIN <= rescale(self.weights[i + 1].raw * (#[trigger] x[i]).raw)
                <= i64::MAX
    }

    /// The linear discriminant: the bias plus the weighted sum of all
    /// features, saturated once at the end.
    pub open spec fn score(self, x: Seq<Fixed>) -> Fixed {
        fixed(self.weights[0].raw + self.weighted_sum(x, x.len()))
    }

    /// The class of `x`: `true` where the score is zero or more.
    pub open spec fn classify(self, x: Seq<Fixed>) -> bool {
        self.score(x).raw >= 0
    }

    /// The learning rate times the error of the score on `rec`.
    pub open spec fn step(self, rec: Classification) -> Fixed {
        self.rate.spec_mul(target(rec.classification).spec_sub(self.score(rec.x@)))
    }

    /// The weight at index `i` after one delta-rule update on `rec`.
    pub open spec fn trained_weight(self, rec: Classification, i: int) -> Fixed {
        if i == 0 {
            self.weights[0].spec_add(self.step(rec))
        } else {
            self.weights[i].spec_add(self.step(rec).spec_mul(rec.x@[i - 1]))
        }
    }

    /// The model after one delta-rule update on `rec`: every new weight is
    /// computed from the weights before the update.
    pub open spec fn trained(self, rec: Classification) -> Model {
        Model {
            weights: Seq::new(self.weights.len(), |i: int| self.trained_weight(rec, i)),
            rate: self.rate,
        }
    }

    /// Whether every record has one feature per feature weight.
    pub open spec fn all_fit(self, records: Seq<Classification>) -> bool {
        forall|i: int| 0 <= i < records.len() ==> self.fits((#[trigger] records[i]).x@)
    }

    /// Whether the model gives `rec` the class that its label names.
    pub open spec fn agrees(self, rec: Classification) -> bool {
        self.classify(rec.x@) == rec.classification
    }

    /// How many of the first `k` records the model classifies as labelled.
    pub open spec fn correct_in(self, records: Seq<Classification>, k: nat) -> nat
        decreases k,
    {
        if k == 0 {
            0
        } else {
            self.correct_in(records, (k - 1) as nat) + if self.agrees(records[k - 1]) {
                1nat
            } else {
                0nat
            }
        }
    }

    /// How many of the records the model classifies as labelled.
    pub open spec fn correct(self, records: Seq<Classification>) -> nat {
        self.correct_in(records, records.len())
    }

    /// The share of the records that the model classifies as labelled,
    /// rounded down to the unit below.
    pub open spec fn accuracy(self, records: Seq<Classification>) -> Fixed {
        fixed(self.correct(records) * SCALE / (records.len() as int))
    }

    /// The model after one update on each of the first `k` records, in
    /// their order.
    pub open spec fn epoch_in(self, records: Seq<Classification>, k: nat) -> Model
        decreases k,
    {
        if k == 0 {
            self
        } else {
            self.epoch_in(records, (k - 1) as nat).trained(records[k - 1])
        }
    }

    /// The model after one epoch: one update on every record, in order.
    pub open spec fn epoch(self, records: Seq<Classification>) -> Model {
        self.epoch_in(records, records.len())
    }

    /// The model after `k` updates on the one record `rec`.
    pub open spec fn trained_times(self, rec: Classification, k: nat) -> Model
        decreases k,
    {
        if k == 0 {
            self
        } else {
            self.trained_times(rec, (k - 1) as nat).trained(rec)
        }
    }

    /// The model after `k` epochs over the same records.
    pub open spec fn after_epochs(self, records: Seq<Classification>, k: nat) -> Model
        decreases k,
    {
        if k == 0 {
            self
        } else {
            self.after_epochs(records, (k - 1) as nat).epoch(records)
        }
    }
}

/// An update keeps the number of weights, and with it the number of
/// features, and the learning rate.
pub proof fn lemma_update_keeps_shape(m: Model, rec: Classification)
    ensures
        m.trained(rec).weights.len() == m.weights.len(),
        m.trained(rec).feature_count() == m.feature_count(),
        m.trained(rec).rate == m.rate,
        m.wf() ==> m.trained(rec).wf(),
{
}

/// Repeated updates on one record keep the number of weights and the
/// learning rate.
pub proof fn lemma_repeated_update_keeps_shape(m: Model, rec: Classification, k: nat)
    ensures
        m.trained_times(rec, k).weights.len() == m.weights.len(),
        m.trained_times(rec, k).rate == m.rate,
    decreases k,
{
    if k > 0 {
        lemma_repeated_update_keeps_shape(m, rec, (k - 1) as nat);
    }
}

/// Updates on any number of records keep the number of weights and the
/// learning rate.
pub proof fn lemma_epoch_keeps_shape(m: Model, records: Seq<Classification>, k: nat)
    ensures
        m.epoch_in(records, k).weights.len() == m.weights.len(),
        m.epoch_in(records, k).rate == m.rate,
    decreases k,
{
    if k > 0 {
        lemma_epoch_keeps_shape(m, records, (k - 1) as nat);
        lemma_update_keeps_shape(m.epoch_in(records, (k - 1) as nat), records[k - 1]);
    }
}

/// Any number of epochs keeps the number of weights and the learning rate,
/// so records that fit the model before training fit it after.
pub proof fn lemma_epochs_keep_shape(m: Model, records: Seq<Classification>, k: nat)
    ensures
        m.after_epochs(records, k).weights.len() == m.weights.len(),
        m.after_epochs(records, k).rate == m.rate,
        m.after_epochs(records, k).all_fit(records) == m.all_fit(records),
    decreases k,
{
    if k > 0 {
        lemma_epochs_keep_shape(m, records, (k - 1) as nat);
        lemma_epoch_keeps_shape(m.after_epochs(records, (k - 1) as nat), records, records.len());
    }
}

/// No count of correctly classified records exceeds the number of records
/// looked at.
pub proof fn lemma_correct_bounded(m: Model, records: Seq<Classification>, k: nat)
    ensures
        m.correct_in(records, k) <= k,
    decreases k,
{
    if k > 0 {
        lemma_correct_bounded(m, records, (k - 1) as nat);
    }
}

/// Whether two datasets hold the same labels and the same features, record
/// by record.
pub open spec fn same_data(a: Seq<Classification>, b: Seq<Classification>) -> bool {
    &&& a.len() == b.len()
    &&& forall|i: int|
        0 <= i < a.len() ==> (#[trigger] a[i]).classification == b[i].classification && a[i].x@
            == b[i].x@
}

/// Training has no hidden input: models with the same weights and the same
/// learning rate, updated on the same data in the same order, end with the
/// same weights, after one epoch and after any number of epochs.
pub proof fn lemma_training_is_deterministic(
    a: Model,
    b: Model,
    records_a: Seq<Classification>,
    records_b: Seq<Classification>,
    epochs: nat,
)
    requires
        a.weights == b.weights,
        a.rate == b.rate,
        same_data(records_a, records_b),
    ensures
        a.epoch(records_a) == b.epoch(records_b),
        a.after_epochs(records_a, epochs) == b.after_epochs(records_b, epochs),
    decreases epochs,
{
    lemma_same_updates(a, b, records_a, records_b, records_a.len());
    if epochs > 0 {
        lemma_training_is_deterministic(a, b, records_a, records_b, (epochs - 1) as nat);
        let a1 = a.after_epochs(records_a, (epochs - 1) as nat);
        let b1 = b.after_epochs(records_b, (epochs - 1) as nat);
        lemma_same_updates(a1, b1, records_a, records_b, records_a.len());
    }
}

/// Updates on the first `k` records of the same data give the same model.
proof fn lemma_same_updates(
    a: Model,
    b: Model,
    records_a: Seq<Classification>,
    records_b: Seq<Classification>,
    k: nat,
)
    requires
        a.weights == b.weights,
        a.rate == b.rate,
        same_data(records_a, records_b),
        k <= records_a.len(),
    ensures
        a.epoch_in(records_a, k) == b.epoch_in(records_b, k),
    decreases k,
{
    if k > 0 {
        lemma_same_updates(a, b, records_a, records_b, (k - 1) as nat);
        let m = a.epoch_in(records_a, (k - 1) as nat);
        let ra = records_a[k - 1];
        let rb = records_b[k - 1];
        assert(m.trained(ra).weights =~= m.trained(rb).weights);
    }
}

/// A record whose score is exactly its target is a fixed point of the
/// update: the error is zero, and no weight moves.
pub proof fn lemma_exact_score_is_fixed_point(m: Model, rec: Classification)
    requires
        m.score(rec.x@) == target(rec.classification),
    ensures
        m.trained(rec) == m,
{
    let step = m.step(rec);
    assert(step.raw == 0) by {
        assert(m.rate.raw * 0 == 0);
    }
    assert forall|i: int| 0 <= i < m.weights.len() implies m.trained_weight(rec, i)
        == m.weights[i] by {
        if i > 0 {
            assert(0 * rec.x@[i - 1].raw == 0);
        }
    }
    assert(m.trained(rec).weights =~= m.weights);
}

/// The sign convention: a score of exactly zero is classified `true`.
pub proof fn lemma_zero_score_is_positive(m: Model, x: Seq<Fixed>)
    requires
        m.score(x).raw == 0,
    ensures
        m.classify(x),
{
}

/// An accuracy lies between 0 and 1.
pub proof fn lemma_accuracy_in_unit_range(m: Model, records: Seq<Classification>)
    requires
        records.len() > 0,
    ensures
        0 <= m.accuracy(records).raw <= SCALE,
{
    lemma_correct_bounded(m, records, records.len());
    let c = m.correct(records) as int;
    let n = records.len() as int;
    assert(0 <= c * SCALE / n <= SCALE) by (nonlinear_arith)
        requires
            0 <= c <= n,
            n > 0,
            SCALE == 1_000_000_000,
    ;
}

/// Rounding to the nearest unit moves a value by half a unit at the most.
pub proof fn lemma_rescale_is_nearest(v: int)
    ensures
        -SCALE <= 2 * (SCALE * rescale(v) - v) <= SCALE,
{
    let s = SCALE as int;
    assert(s == 1_000_000_000);
}

/// Where no product leaves the range, the weighted sum of the first `k`
/// features is within half a unit per feature of the sum of their exact
/// products.
pub proof fn lemma_weighted_sum_is_close(m: Model, x: Seq<Fixed>, k: nat)
    requires
        m.products_in_range(x, k),
    ensures
        -k * SCALE <= 2 * (SCALE * m.weighted_sum(x, k) - m.exact_weighted_sum(x, k)) <= k
            * SCALE,
    decreases k,
{
    let s = SCALE as int;
    assert(s == 1_000_000_000);
    if k > 0 {
        lemma_weighted_sum_is_close(m, x, (k - 1) as nat);
        let product = m.weights[k as int].raw * x[k - 1].raw;
        assert(i64::MIN <= rescale(product) <= i64::MAX);
        lemma_rescale_is_nearest(product);
    }
}

/// Where nothing saturates, the score is the real-number formula up to
/// rounding: it differs from the bias plus the sum of the exact products of
/// weights and features by half a unit per feature at the most.
pub proof fn lemma_score_is_close_to_exact(m: Model, x: Seq<Fixed>)
    requires
        m.fits(x),
        m.products_in_range(x, x.len()),
        i64::MIN <= m.weights[0].raw + m.weighted_sum(x, x.len()) <= i64::MAX,
    ensures
        -x.len() * SCALE <= 2 * (SCALE * (m.score(x).raw - m.weights[0].raw)
            - m.exact_weighted_sum(x, x.len())) <= x.len() * SCALE,
{
    lemma_weighted_sum_is_close(m, x, x.len());
}

} // verus!
