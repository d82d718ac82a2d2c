use rawriser::progress::{ConversionProgress, ProgressFraction};

#[test]
fn progress_starts_at_zero() {
    let progress = ConversionProgress::new(5);
    assert_eq!(progress.files_succeeded(), 0);
    assert_eq!(progress.files_total(), 5);
    assert!(!progress.is_complete());
    assert_eq!(progress.fraction(), ProgressFraction { numerator: 0, denominator: 5 });
}

#[test]
fn each_success_moves_the_count_up_by_one() {
    let mut progress = ConversionProgress::new(3);
    progress.record_success();
    assert_eq!(progress.files_succeeded(), 1);
    progress.record_success();
    assert_eq!(progress.files_succeeded(), 2);
    assert_eq!(progress.files_total(), 3);
    assert_eq!(progress.fraction(), ProgressFraction { numerator: 2, denominator: 3 });
}

#[test]
fn succeeded_count_never_decreases() {
    let mut progress = ConversionProgress::new(4);
    let mut seen = progress.files_succeeded();
    for _ in 0..10 {
        progress.record_success();
        assert!(progress.files_succeeded() >= seen);
        seen = progress.files_succeeded();
    }
}

#[test]
fn succeeded_count_stays_within_total() {
    let mut progress = ConversionProgress::new(2);
    for _ in 0..5 {
        progress.record_success();
        assert!(progress.files_succeeded() <= progress.files_total());
    }
    assert_eq!(progress.files_succeeded(), 2);
    assert!(progress.is_complete());
}

#[test]
fn all_files_converted_reaches_total() {
    let mut progress = ConversionProgress::new(7);
    for _ in 0..7 {
        progress.record_success();
    }
    let outcome = progress.outcome();
    assert_eq!(outcome.succeeded_count(), 7);
    assert_eq!(outcome.total_count(), 7);
    assert_eq!(outcome.failed_count(), 0);
    assert!(outcome.final_progress_fraction().is_complete());
}

#[test]
fn outcome_holds_the_counts_of_the_moment() {
    let mut progress = ConversionProgress::new(4);
    progress.record_success();
    let outcome = progress.outcome();
    assert_eq!(outcome.succeeded_count(), 1);
    assert_eq!(outcome.total_count(), 4);
    assert_eq!(outcome.failed_count(), 3);
    assert_eq!(
        outcome.final_progress_fraction(),
        ProgressFraction { numerator: 1, denominator: 4 }
    );
    progress.record_success();
    assert_eq!(outcome.succeeded_count(), 1);
}

#[test]
fn fraction_is_quotient_of_the_counts() {
    let mut progress = ConversionProgress::new(2);
    progress.record_success();
    let fraction = progress.outcome().final_progress_fraction();
    assert_eq!(fraction.numerator as f64 / fraction.denominator as f64, 0.5);
}

#[test]
fn empty_run_has_fraction_one() {
    let progress = ConversionProgress::new(0);
    assert_eq!(progress.fraction(), ProgressFraction { numerator: 1, denominator: 1 });
    let outcome = progress.outcome();
    assert_eq!(outcome.total_count(), 0);
    assert_eq!(outcome.succeeded_count(), 0);
    let fraction = outcome.final_progress_fraction();
    assert_eq!(fraction, ProgressFraction { numerator: 1, denominator: 1 });
    assert!(fraction.is_complete());
    assert_eq!(fraction.numerator as f64 / fraction.denominator as f64, 1.0);
}

#[test]
fn success_on_an_empty_run_changes_nothing() {
    let mut progress = ConversionProgress::new(0);
    progress.record_success();
    assert_eq!(progress.files_succeeded(), 0);
    assert_eq!(progress.files_total(), 0);
}

#[test]
fn fraction_never_has_a_zero_denominator() {
    for total in 0..4usize {
        let mut progress = ConversionProgress::new(total);
        for _ in 0..=total {
            let fraction = progress.fraction();
            assert!(fraction.denominator > 0);
            assert!(fraction.numerator <= fraction.denominator);
            progress.record_success();
        }
    }
}
