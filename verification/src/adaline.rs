//! The classifier: a weight vector with a learning rate.

use vstd::prelude::*;
use rand::rngs::StdRng;
use crate::error::AdalineError;
use crate::fixed::{Fixed, SCALE};
use crate::model::{lemma_accuracy_in_unit_range, Model};
use crate::random::sample_inclusive;
use crate::record::Classification;

verus! {

/// An adaptive linear neuron. It always holds at least the bias weight.
#[derive(Debug)]
pub struct Adaline {
    weights: Vec<Fixed>,
    /// The constant "mu", which decides how far one update moves the weights.
    train_constant: Fixed,
}

impl View for Adaline {
    type V = Model;

    closed spec fn view(&self) -> Model {
        Model { weights: self.weights@, rate: self.train_constant }
    }
}

impl Adaline {
    #[verifier::type_invariant]
    spec fn has_bias(self) -> bool {
        self.weights@.len() >= 1
    }

    /// A model of the given weights (the bias first) and learning rate,
    /// stored as they are. No weights make no model.
    pub fn new(weights: Vec<Fixed>, train_constant: Fixed) -> (r: Result<Adaline, AdalineError>)
        ensures
            match r {
                Ok(a) => weights@.len() > 0 && a@.weights == weights@ && a@.rate
                    == train_constant,
                Err(e) => weights@.len() == 0 && e == AdalineError::InvalidModel,
            },
    {
        if weights.len() == 0 {
            return Err(AdalineError::InvalidModel);
        }
        Ok(Adaline { weights, train_constant })
    }

    /// A model for `n` features whose `n + 1` weights are drawn one by one,
    /// the bias first, from `rng`: each uniformly from the numbers between
    /// -1 and 1, both included. No features make no model.
    pub fn new_random(train_constant: Fixed, n: usize, rng: &mut StdRng) -> (r: Result<
        Adaline,
        AdalineError,
    >)
        ensures
            match r {
                Ok(a) => {
                    &&& n > 0
                    &&& a@.rate == train_constant
                    &&& a@.weights.len() == n + 1
                    &&& forall|i: int|
                        0 <= i < a@.weights.len() ==> -SCALE <= (#[trigger] a@.weights[i]).raw
                            <= SCALE
                },
                Err(e) => n == 0 && e == AdalineError::InvalidModel,
            },
    {
        if n == 0 {
            return Err(AdalineError::InvalidModel);
        }
        let mut weights: Vec<Fixed> = Vec::new();
        weights.push(Fixed { raw: sample_inclusive(rng, -SCALE, SCALE) });
        let mut i: usize = 0;
        while i < n
            invariant
                i <= n,
                weights@.len() == i + 1,
                forall|j: int|
                    0 <= j < weights@.len() ==> -SCALE <= (#[trigger] weights@[j]).raw <= SCALE,
            decreases n - i,
        {
            weights.push(Fixed { raw: sample_inclusive(rng, -SCALE, SCALE) });
            i = i + 1;
        }
        Adaline::new(weights, train_constant)
    }

    /// The length that a feature vector needs to have: the number of
    /// weights less one.
    pub fn n(&self) -> (n: usize)
        ensures
            self@.wf(),
            n == self@.feature_count(),
    {
        proof {
            use_type_invariant(self);
        }
        self.weights.len() - 1
    }

    /// The weights, the bias first.
    pub fn weights(&self) -> (w: &[Fixed])
        ensures
            w@ == self@.weights,
    {
        self.weights.as_slice()
    }

    /// The learning rate.
    pub fn train_constant(&self) -> (mu: Fixed)
        ensures
            mu == self@.rate,
    {
        self.train_constant
    }

    /// The score of `x_vec`: the bias plus the products of the weights with
    /// the features, without thresholding.
    pub fn classify_no_alpha(&self, x_vec: &[Fixed]) -> (r: Result<Fixed, AdalineError>)
        ensures
            match r {
                Ok(s) => self@.fits(x_vec@) && s == self@.score(x_vec@),
                Err(e) => !self@.fits(x_vec@) && e == AdalineError::DimensionMismatch,
            },
    {
        proof {
            use_type_invariant(self);
        }
        if self.weights.len() - 1 != x_vec.len() {
            return Err(AdalineError::DimensionMismatch);
        }
        let mut sum: i128 = self.weights[0].raw as i128;
        let mut i: usize = 0;
        while i < x_vec.len()
            invariant
                i <= x_vec.len(),
                x_vec@.len() + 1 == self.weights@.len(),
                sum == self.weights@[0].raw + self@.weighted_sum(x_vec@, i as nat),
                -(i + 1) * 0x8000_0000_0000_0000 <= sum <= (i + 1) * 0x7fff_ffff_ffff_ffff,
            decreases x_vec.len() - i,
        {
            let term = self.weights[i + 1].sat_mul(x_vec[i]);
            sum = sum + term.raw as i128;
            i = i + 1;
        }
        Ok(Fixed::saturating_from(sum))
    }

    /// The class of `x_vec`: `true` where the score is zero or more. The
    /// features do not start with a 1: the bias stands for it.
    pub fn classify(&self, x_vec: &[Fixed]) -> (r: Result<bool, AdalineError>)
        ensures
            match r {
                Ok(c) => self@.fits(x_vec@) && c == self@.classify(x_vec@),
                Err(e) => !self@.fits(x_vec@) && e == AdalineError::DimensionMismatch,
            },
    {
        match self.classify_no_alpha(x_vec) {
            Ok(sum) => Ok(sum.raw >= 0),
            Err(e) => Err(e),
        }
    }

    /// How many of the records are classified as they are labelled.
    pub fn classify_multiple(&self, classifications: &[Classification]) -> (r: Result<
        usize,
        AdalineError,
    >)
        ensures
            match r {
                Ok(count) => self@.all_fit(classifications@) && count == self@.correct(
                    classifications@,
                ),
                Err(e) => !self@.all_fit(classifications@) && e
                    == AdalineError::DimensionMismatch,
            },
    {
        let mut count: usize = 0;
        let mut i: usize = 0;
        while i < classifications.len()
            invariant
                i <= classifications.len(),
                count <= i,
                count == self@.correct_in(classifications@, i as nat),
                forall|j: int| 0 <= j < i ==> self@.fits((#[trigger] classifications@[j]).x@),
            decreases classifications.len() - i,
        {
            let classific = &classifications[i];
            match self.classify(classific.x.as_slice()) {
                Ok(class) => {
                    if class == classific.classification {
                        count = count + 1;
                    }
                },
                Err(e) => {
                    return Err(e);
                },
            }
            i = i + 1;
        }
        Ok(count)
    }

    /// The share of the records that are classified as they are labelled,
    /// between 0 and 1. There is no such share of no records.
    pub fn classify_multiple_percent(&self, class: &[Classification]) -> (r: Result<
        Fixed,
        AdalineError,
    >)
        ensures
            match r {
                Ok(p) => {
                    &&& class@.len() > 0
                    &&& self@.all_fit(class@)
                    &&& p == self@.accuracy(class@)
                    &&& 0 <= p.raw <= SCALE
                },
                Err(e) => if class@.len() == 0 {
                    e == AdalineError::EmptyDataset
                } else {
                    !self@.all_fit(class@) && e == AdalineError::DimensionMismatch
                },
            },
    {
        if class.len() == 0 {
            return Err(AdalineError::EmptyDataset);
        }
        proof {
            lemma_accuracy_in_unit_range(self@, class@);
        }
        match self.classify_multiple(class) {
            Ok(count) => Ok(Fixed::ratio(count, class.len())),
            Err(e) => Err(e),
        }
    }

    /// One delta-rule update: every weight moves by the learning rate times
    /// the error of the score times its input, all of them computed from the
    /// weights before the update. A record of the wrong length changes nothing.
    pub fn train(&mut self, actual_class: &Classification) -> (r: Result<(), AdalineError>)
        ensures
            final(self)@.feature_count() == old(self)@.feature_count(),
            final(self)@.rate == old(self)@.rate,
            match r {
                Ok(()) => old(self)@.fits(actual_class.x@) && final(self)@ == old(self)@.trained(
                    *actual_class,
                ),
                Err(e) => !old(self)@.fits(actual_class.x@) && e
                    == AdalineError::DimensionMismatch && final(self)@ == old(self)@,
            },
    {
        proof {
            use_type_invariant(&*self);
        }
        let guessed_class = match self.classify_no_alpha(actual_class.x.as_slice()) {
            Ok(sum) => sum,
            Err(e) => {
                return Err(e);
            },
        };
        let y = if actual_class.classification {
            Fixed { raw: SCALE }
        } else {
            Fixed { raw: -SCALE }
        };
        let delta = y.sat_sub(guessed_class);
        let step = self.train_constant.sat_mul(delta);
        let ghost before = self@;

        let mut new_weights: Vec<Fixed> = Vec::new();
        new_weights.push(self.weights[0].sat_add(step));
        let mut i: usize = 1;
        while i < self.weights.len()
            invariant
                1 <= i <= self.weights@.len(),
                self@ == before,
                actual_class.x@.len() + 1 == self.weights@.len(),
                step == before.step(*actual_class),
                new_weights@.len() == i,
                forall|j: int|
                    0 <= j < i ==> new_weights@[j] == before.trained_weight(*actual_class, j),
            decreases self.weights@.len() - i,
        {
            new_weights.push(self.weights[i].sat_add(step.sat_mul(actual_class.x[i - 1])));
            i = i + 1;
        }
        assert(new_weights@ =~= before.trained(*actual_class).weights);
        self.weights = new_weights;
        Ok(())
    }
}

} // verus!
