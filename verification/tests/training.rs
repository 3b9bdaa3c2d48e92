use adaline::{
    first_misclassified, train_epoch, train_on_all_records, train_on_all_records_until,
    train_on_one_record, train_repeatedly, train_with_policy, Adaline, AdalineError,
    Classification, Fixed, StoppingPolicy, TrainingStatus, DEFAULT_MAX_EPOCHS,
};

fn fx(v: f64) -> Fixed {
    Fixed::from_raw((v * 1e9).round() as i64)
}

fn fxs(vs: &[f64]) -> Vec<Fixed> {
    vs.iter().map(|v| fx(*v)).collect()
}

fn rec(label: bool, xs: &[f64]) -> Classification {
    Classification { classification: label, x: fxs(xs) }
}

fn adaline(ws: &[f64], mu: f64) -> Adaline {
    Adaline::new(fxs(ws), fx(mu)).unwrap()
}

fn weights(a: &Adaline) -> Vec<i64> {
    a.weights().iter().map(|w| w.raw).collect()
}

fn history(h: &[Fixed]) -> Vec<i64> {
    h.iter().map(|p| p.raw).collect()
}

fn separable() -> Vec<Classification> {
    vec![
        rec(true, &[2.0, 2.0]),
        rec(true, &[3.0, 1.0]),
        rec(false, &[-2.0, -2.0]),
        rec(false, &[-1.0, -3.0]),
    ]
}

fn mixed() -> Vec<Classification> {
    vec![
        rec(true, &[1.0, 2.0]),
        rec(false, &[2.0, 1.0]),
        rec(true, &[-1.0, 1.5]),
        rec(false, &[1.0, -1.0]),
        rec(true, &[0.5, 3.0]),
    ]
}

fn contradictory() -> Vec<Classification> {
    vec![rec(true, &[1.0]), rec(false, &[1.0])]
}

#[test]
fn default_cap_is_ten_thousand() {
    assert_eq!(DEFAULT_MAX_EPOCHS, 10_000);
}

#[test]
fn epoch_trains_once_on_every_record_in_order() {
    let mut a = adaline(&[0.5, 1.0, -1.0], 0.05);
    assert_eq!(train_epoch(&mut a, &mixed()), Ok(()));
    assert_eq!(weights(&a), vec![534_624_902, 550_697_217, -297_344_043]);
}

#[test]
fn epoch_over_no_records_changes_nothing() {
    let mut a = adaline(&[0.5, 1.0, -1.0], 0.05);
    assert_eq!(train_epoch(&mut a, &[]), Ok(()));
    assert_eq!(weights(&a), vec![500_000_000, 1_000_000_000, -1_000_000_000]);
}

#[test]
fn epoch_with_a_misfit_changes_nothing() {
    let mut a = adaline(&[0.5, 1.0, -1.0], 0.05);
    let mut records = mixed();
    records.push(rec(true, &[1.0]));
    assert_eq!(train_epoch(&mut a, &records), Err(AdalineError::DimensionMismatch));
    assert_eq!(weights(&a), vec![500_000_000, 1_000_000_000, -1_000_000_000]);
}

#[test]
fn threshold_run_stops_when_the_target_is_reached() {
    let mut a = adaline(&[0.0, 0.0, 0.0], 0.1);
    let report =
        train_on_all_records_until(&mut a, &separable(), fx(1.0), DEFAULT_MAX_EPOCHS).unwrap();
    assert_eq!(history(&report.history), vec![500_000_000, 1_000_000_000]);
    assert_eq!(report.status, TrainingStatus::Converged);
    assert_eq!(weights(&a), vec![82_700_000, 280_300_000, 268_900_000]);
}

#[test]
fn threshold_run_records_every_epoch() {
    let mut a = adaline(&[0.5, 1.0, -1.0], 0.05);
    let report = train_on_all_records_until(&mut a, &mixed(), fx(1.0), 100).unwrap();
    assert_eq!(
        history(&report.history),
        vec![0, 200_000_000, 600_000_000, 600_000_000, 800_000_000, 1_000_000_000]
    );
    assert_eq!(report.status, TrainingStatus::Converged);
    assert_eq!(weights(&a), vec![249_940_414, -384_538_127, 285_195_538]);
    for p in &report.history[..report.history.len() - 1] {
        assert!(p.raw < SCALE_RAW);
    }
    assert_eq!(a.classify_multiple_percent(&mixed()), Ok(fx(1.0)));
}

const SCALE_RAW: i64 = 1_000_000_000;

#[test]
fn threshold_run_that_starts_at_the_target_trains_nothing() {
    let mut a = adaline(&[0.0, 1.0, 1.0], 0.1);
    let report = train_on_all_records_until(&mut a, &separable(), fx(0.98), 50).unwrap();
    assert_eq!(history(&report.history), vec![1_000_000_000]);
    assert_eq!(report.status, TrainingStatus::Converged);
    assert_eq!(weights(&a), vec![0, 1_000_000_000, 1_000_000_000]);
}

#[test]
fn threshold_run_reports_the_cap() {
    let mut a = adaline(&[0.0, 0.0], 0.1);
    let report = train_on_all_records_until(&mut a, &contradictory(), fx(0.98), 25).unwrap();
    assert_eq!(report.status, TrainingStatus::DidNotConverge);
    assert_eq!(report.history.len(), 26);
    assert!(report.history.iter().all(|p| p.raw == 500_000_000));
    assert_eq!(weights(&a), vec![-55_554_763, -55_554_763]);
}

#[test]
fn threshold_run_with_no_epochs_allowed_measures_once() {
    let mut a = adaline(&[0.0, 0.0], 0.1);
    let report = train_on_all_records_until(&mut a, &contradictory(), fx(0.98), 0).unwrap();
    assert_eq!(report.status, TrainingStatus::DidNotConverge);
    assert_eq!(history(&report.history), vec![500_000_000]);
    assert_eq!(weights(&a), vec![0, 0]);
}

#[test]
fn threshold_run_ends_within_the_default_cap() {
    let mut a = adaline(&[0.0, 0.0], 0.1);
    let report =
        train_on_all_records_until(&mut a, &contradictory(), fx(0.98), DEFAULT_MAX_EPOCHS).unwrap();
    assert_eq!(report.status, TrainingStatus::DidNotConverge);
    assert_eq!(report.history.len(), 10_001);
    assert_eq!(weights(&a), vec![-55_555_554, -55_555_554]);
}

#[test]
fn converged_wins_over_the_cap() {
    let mut a = adaline(&[0.0, 0.0, 0.0], 0.1);
    let report = train_on_all_records_until(&mut a, &separable(), fx(1.0), 1).unwrap();
    assert_eq!(history(&report.history), vec![500_000_000, 1_000_000_000]);
    assert_eq!(report.status, TrainingStatus::Converged);
}

#[test]
fn fixed_run_records_one_entry_more_than_epochs() {
    let mut a = adaline(&[0.5, 1.0, -1.0], 0.05);
    let h = train_on_all_records(&mut a, &mixed(), 3).unwrap();
    assert_eq!(history(&h), vec![0, 200_000_000, 600_000_000, 600_000_000]);
    assert_eq!(weights(&a), vec![374_169_440, -83_992_770, 136_647_275]);
}

#[test]
fn fixed_run_goes_on_past_full_accuracy() {
    let mut a = adaline(&[0.0, 0.0, 0.0], 0.1);
    let h = train_on_all_records(&mut a, &separable(), 50).unwrap();
    assert_eq!(h.len(), 51);
    assert_eq!(h[0].raw, 500_000_000);
    assert_eq!(h[1].raw, 1_000_000_000);
    assert_ne!(weights(&a), vec![82_700_000, 280_300_000, 268_900_000]);
}

#[test]
fn fixed_run_of_no_epochs_measures_once() {
    let mut a = adaline(&[0.5, 1.0, -1.0], 0.05);
    let h = train_on_all_records(&mut a, &mixed(), 0).unwrap();
    assert_eq!(history(&h), vec![0]);
    assert_eq!(weights(&a), vec![500_000_000, 1_000_000_000, -1_000_000_000]);
}

#[test]
fn policies_are_one_driver() {
    let mut a = adaline(&[0.5, 1.0, -1.0], 0.05);
    let fixed = train_with_policy(&mut a, &mixed(), &StoppingPolicy::FixedEpochs(3)).unwrap();
    assert_eq!(fixed.status, TrainingStatus::Completed);
    assert_eq!(history(&fixed.history), vec![0, 200_000_000, 600_000_000, 600_000_000]);

    let mut b = adaline(&[0.5, 1.0, -1.0], 0.05);
    let policy = StoppingPolicy::Threshold { target: fx(0.6), max_epochs: 100 };
    let until = train_with_policy(&mut b, &mixed(), &policy).unwrap();
    assert_eq!(until.status, TrainingStatus::Converged);
    assert_eq!(history(&until.history), vec![0, 200_000_000, 600_000_000]);
    assert_eq!(policy.max_epochs(), 100);
    assert!(policy.is_satisfied_by(fx(0.6)));
    assert!(!policy.is_satisfied_by(fx(0.599999999)));
    assert!(!StoppingPolicy::FixedEpochs(3).is_satisfied_by(fx(1.0)));
    assert_eq!(StoppingPolicy::FixedEpochs(3).max_epochs(), 3);
    assert_eq!(StoppingPolicy::FixedEpochs(3).status(fx(1.0)), TrainingStatus::Completed);
    assert_eq!(policy.status(fx(0.7)), TrainingStatus::Converged);
    assert_eq!(policy.status(fx(0.5)), TrainingStatus::DidNotConverge);
}

#[test]
fn driver_is_deterministic() {
    let mut a = adaline(&[0.5, 1.0, -1.0], 0.05);
    let mut b = adaline(&[0.5, 1.0, -1.0], 0.05);
    let ha = train_on_all_records(&mut a, &mixed(), 30).unwrap();
    let hb = train_on_all_records(&mut b, &mixed(), 30).unwrap();
    assert_eq!(ha, hb);
    assert_eq!(weights(&a), weights(&b));
}

#[test]
fn driver_rejects_no_records() {
    let mut a = adaline(&[0.5, 1.0, -1.0], 0.05);
    assert!(matches!(
        train_on_all_records_until(&mut a, &[], fx(0.98), 10),
        Err(AdalineError::EmptyDataset)
    ));
    assert!(matches!(train_on_all_records(&mut a, &[], 10), Err(AdalineError::EmptyDataset)));
    assert_eq!(weights(&a), vec![500_000_000, 1_000_000_000, -1_000_000_000]);
}

#[test]
fn driver_rejects_a_misfit_before_training() {
    let mut a = adaline(&[0.5, 1.0, -1.0], 0.05);
    let mut records = mixed();
    records.push(rec(false, &[1.0, 2.0, 3.0]));
    assert!(matches!(
        train_on_all_records_until(&mut a, &records, fx(0.98), 10),
        Err(AdalineError::DimensionMismatch)
    ));
    assert!(matches!(
        train_on_all_records(&mut a, &records, 10),
        Err(AdalineError::DimensionMismatch)
    ));
    assert_eq!(weights(&a), vec![500_000_000, 1_000_000_000, -1_000_000_000]);
}

#[test]
fn first_misclassified_finds_the_first_disagreement() {
    let a = adaline(&[0.0, 1.0, 1.0], 0.1);
    let records = vec![
        rec(true, &[1.0, 1.0]),
        rec(false, &[-1.0, -1.0]),
        rec(false, &[1.0, 1.0]),
        rec(true, &[-1.0, -1.0]),
    ];
    assert_eq!(first_misclassified(&a, &records), Ok(Some(2)));
    assert_eq!(first_misclassified(&a, &records[..2]), Ok(None));
    assert_eq!(first_misclassified(&a, &[]), Ok(None));
}

#[test]
fn first_misclassified_stops_at_a_misfit() {
    let a = adaline(&[0.0, 1.0, 1.0], 0.1);
    let records = vec![rec(true, &[1.0, 1.0]), rec(false, &[1.0]), rec(false, &[1.0, 1.0])];
    assert_eq!(first_misclassified(&a, &records), Err(AdalineError::DimensionMismatch));
    let records = vec![rec(false, &[1.0, 1.0]), rec(false, &[1.0])];
    assert_eq!(first_misclassified(&a, &records), Ok(Some(0)));
}

#[test]
fn train_repeatedly_traces_the_guesses() {
    let mut a = adaline(&[0.0, 1.0, 1.0], 0.1);
    let record = rec(false, &[1.0, 1.0]);
    assert_eq!(
        train_repeatedly(&mut a, &record, 6),
        Ok(vec![false, false, false, false, true, true])
    );
    assert_eq!(weights(&a), vec![-882_351_000, 117_649_000, 117_649_000]);
}

#[test]
fn train_repeatedly_rejects_the_wrong_length() {
    let mut a = adaline(&[0.0, 1.0, 1.0], 0.1);
    assert_eq!(
        train_repeatedly(&mut a, &rec(false, &[1.0]), 6),
        Err(AdalineError::DimensionMismatch)
    );
    assert_eq!(train_repeatedly(&mut a, &rec(false, &[1.0, 1.0]), 0), Ok(Vec::new()));
    assert_eq!(weights(&a), vec![0, 1_000_000_000, 1_000_000_000]);
}

#[test]
fn train_on_one_record_picks_the_first_misclassified() {
    let mut a = adaline(&[0.0, 1.0, 1.0], 0.1);
    let records = vec![rec(true, &[2.0, 2.0]), rec(false, &[1.0, 1.0]), rec(false, &[3.0, 3.0])];
    assert_eq!(
        train_on_one_record(&records, &mut a, 6),
        Ok(Some((1, vec![false, false, false, false, true, true])))
    );
    assert_eq!(weights(&a), vec![-882_351_000, 117_649_000, 117_649_000]);
}

#[test]
fn train_on_one_record_has_nothing_to_do_when_all_agree() {
    let mut a = adaline(&[0.0, 1.0, 1.0], 0.1);
    let records = vec![rec(true, &[2.0, 2.0]), rec(false, &[-1.0, -1.0])];
    assert_eq!(train_on_one_record(&records, &mut a, 6), Ok(None));
    assert_eq!(weights(&a), vec![0, 1_000_000_000, 1_000_000_000]);
}

#[test]
fn train_on_one_record_rejects_a_misfit() {
    let mut a = adaline(&[0.0, 1.0, 1.0], 0.1);
    let records = vec![rec(true, &[2.0, 2.0]), rec(false, &[1.0])];
    assert_eq!(train_on_one_record(&records, &mut a, 6), Err(AdalineError::DimensionMismatch));
    assert_eq!(weights(&a), vec![0, 1_000_000_000, 1_000_000_000]);
}
