//! Labelled feature vectors.

use vstd::prelude::*;
use crate::error::AdalineError;
use crate::fixed::Fixed;

verus! {

/// One labelled record of a dataset.
#[derive(Debug)]
pub struct Classification {
    /// The label: `true` stands for the target value +1, `false` for -1.
    pub classification: bool,
    /// The feature vector.
    pub x: Vec<Fixed>,
}

impl Classification {
    /// The record that one row of numbers stands for: the first number
    /// gives the label by its sign (zero counts as positive), the numbers
    /// after it are the features. An empty row stands for no record.
    pub fn from_row(row: &[Fixed]) -> (r: Option<Classification>)
        ensures
            match r {
                Some(rec) => row@.len() >= 1 && rec.classification == (row@[0].raw >= 0) && rec.x@
                    == row@.skip(1),
                None => row@.len() == 0,
            },
    {
        if row.len() == 0 {
            return None;
        }
        let mut x: Vec<Fixed> = Vec::new();
        let mut i: usize = 1;
        while i < row.len()
            invariant
                1 <= i <= row.len(),
                x@.len() == i - 1,
                forall|j: int| 0 <= j < x@.len() ==> x@[j] == row@[j + 1],
            decreases row.len() - i,
        {
            x.push(row[i]);
            i = i + 1;
        }
        assert(x@ =~= row@.skip(1));
        Some(Classification { classification: row[0].raw >= 0, x })
    }
}

/// The points that a scatter plot shows for one label: the first two
/// features of each of the first `k` records that carry the label, in the
/// order of the records.
pub open spec fn points_in(records: Seq<Classification>, label: bool, k: nat) -> Seq<
    (Fixed, Fixed),
>
    decreases k,
{
    if k == 0 {
        Seq::empty()
    } else if records[k - 1].classification == label {
        points_in(records, label, (k - 1) as nat).push((records[k - 1].x@[0], records[k - 1].x@[1]))
    } else {
        points_in(records, label, (k - 1) as nat)
    }
}

/// Whether every record has the two features that a point in the plane
/// takes.
pub open spec fn all_planar(records: Seq<Classification>) -> bool {
    forall|i: int| 0 <= i < records.len() ==> (#[trigger] records[i]).x@.len() >= 2
}

/// The points of the records labelled `label`, for a scatter plot of the
/// dataset: the first feature against the second. A dataset with a record
/// of fewer than two features has no such plot.
pub fn labelled_points(records: &[Classification], label: bool) -> (r: Result<
    Vec<(Fixed, Fixed)>,
    AdalineError,
>)
    ensures
        match r {
            Ok(points) => all_planar(records@) && points@ == points_in(
                records@,
                label,
                records@.len(),
            ),
            Err(e) => !all_planar(records@) && e == AdalineError::DimensionMismatch,
        },
{
    let mut i: usize = 0;
    while i < records.len()
        invariant
            i <= records.len(),
            forall|j: int| 0 <= j < i ==> (#[trigger] records@[j]).x@.len() >= 2,
        decreases records.len() - i,
    {
        if records[i].x.len() < 2 {
            return Err(AdalineError::DimensionMismatch);
        }
        i = i + 1;
    }
    let mut points: Vec<(Fixed, Fixed)> = Vec::new();
    let mut i: usize = 0;
    while i < records.len()
        invariant
            i <= records.len(),
            all_planar(records@),
            points@ == points_in(records@, label, i as nat),
        decreases records.len() - i,
    {
        let class = &records[i];
        if class.classification == label {
            points.push((class.x[0], class.x[1]));
        }
        i = i + 1;
    }
    Ok(points)
}

} // verus!
