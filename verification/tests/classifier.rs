use std::cell::RefCell;
use supervised_learning::{progress_percent, Classifier, ConfusionMatrix, ErrorRate};

fn as_fraction(rate: ErrorRate) -> f64 {
    let right = (rate.recorded - rate.wrong) as f64;
    let wrong = rate.wrong as f64;
    wrong / (right + wrong)
}

/// Answers with the true label, which the example carries.
struct Oracle;

impl Classifier<u64> for Oracle {
    fn train(&mut self, _training_images: &Vec<(u64, u64)>) {}

    fn classify(&self, example: &u64) -> u64 {
        *example
    }
}

/// Answers with one label, whatever the example.
struct Constant(u64);

impl Classifier<u64> for Constant {
    fn train(&mut self, _training_images: &Vec<(u64, u64)>) {}

    fn classify(&self, _example: &u64) -> u64 {
        self.0
    }
}

/// Answers with the label seen most often in training, and notes every
/// example it is asked about.
struct Majority {
    label: u64,
    asked: RefCell<Vec<u32>>,
}

impl Classifier<u32> for Majority {
    fn train(&mut self, training_images: &Vec<(u64, u32)>) {
        let mut best = (0, 0);
        for (label, _) in training_images {
            let seen = training_images.iter().filter(|(other, _)| other == label).count();
            if seen > best.1 {
                best = (*label, seen);
            }
        }
        self.label = best.0;
    }

    fn classify(&self, example: &u32) -> u64 {
        self.asked.borrow_mut().push(*example);
        self.label
    }
}

fn labelled(n: u64) -> Vec<(u64, u64)> {
    (0..n).map(|i| (i % 4, i % 4)).collect()
}

#[test]
fn test_of_no_examples_records_nothing() {
    let matrix: ConfusionMatrix = Oracle.test(&[]);
    assert_eq!(matrix.error_rate(), ErrorRate { wrong: 0, recorded: 0 });
    assert_eq!(matrix.to_string(), "");
}

#[test]
fn test_of_fewer_than_twenty_examples_records_each() {
    for n in [1, 7, 19] {
        let matrix = Oracle.test(&labelled(n));
        assert_eq!(matrix.error_rate().recorded as u64, n);
    }
}

#[test]
fn test_of_twenty_or_more_examples_records_each() {
    for n in [20, 21, 45, 400] {
        let matrix = Constant(2).test(&labelled(n));
        assert_eq!(matrix.error_rate().recorded as u64, n);
    }
}

#[test]
fn test_classifies_each_example_once_and_in_order() {
    let mut classifier = Majority { label: 0, asked: RefCell::new(Vec::new()) };
    classifier.train(&vec![(6, 0), (9, 1), (9, 2)]);
    let data: Vec<(u64, u32)> = (0..50).map(|i| (if i % 5 == 0 { 9 } else { 6 }, 1000 - i)).collect();
    let matrix = classifier.test(&data);
    let expected: Vec<u32> = data.iter().map(|(_, example)| *example).collect();
    assert_eq!(*classifier.asked.borrow(), expected);
    assert_eq!(matrix.error_rate(), ErrorRate { wrong: 40, recorded: 50 });
    assert_eq!(matrix.to_string(), "6: 0 correct, 40 incorrect\n9: 10 correct, 0 incorrect\n");
}

#[test]
fn classifier_that_is_always_right_has_error_rate_zero() {
    let matrix = Oracle.test(&labelled(30));
    let rate = matrix.error_rate();
    assert_eq!(rate, ErrorRate { wrong: 0, recorded: 30 });
    assert_eq!(as_fraction(rate), 0.0);
}

#[test]
fn classifier_that_is_always_wrong_has_error_rate_one() {
    let matrix = Constant(17).test(&labelled(30));
    let rate = matrix.error_rate();
    assert_eq!(rate, ErrorRate { wrong: 30, recorded: 30 });
    assert_eq!(as_fraction(rate), 1.0);
}

#[test]
fn constant_classifier_is_right_where_the_label_matches() {
    let matrix = Constant(2).test(&labelled(8));
    assert_eq!(
        matrix.to_string(),
        "0: 0 correct, 2 incorrect\n1: 0 correct, 2 incorrect\n2: 2 correct, 0 incorrect\n3: 0 correct, 2 incorrect\n"
    );
    assert_eq!(as_fraction(matrix.error_rate()), 0.75);
}

#[test]
fn no_progress_for_fewer_than_twenty_examples() {
    for len in 0..20 {
        for count in 0..=len {
            assert_eq!(progress_percent(count, len), None);
        }
    }
}

#[test]
fn progress_every_twentieth() {
    let reports: Vec<(usize, usize)> = (1..=40)
        .filter_map(|count| progress_percent(count, 40).map(|percent| (count, percent)))
        .collect();
    let expected: Vec<(usize, usize)> = (1..=20).map(|k| (2 * k, 5 * k)).collect();
    assert_eq!(reports, expected);
}

#[test]
fn progress_of_twenty_examples_is_reported_after_each() {
    assert_eq!(progress_percent(1, 20), Some(5));
    assert_eq!(progress_percent(7, 20), Some(35));
    assert_eq!(progress_percent(20, 20), Some(100));
}

#[test]
fn progress_passes_a_hundred_where_twenty_does_not_divide_the_length() {
    assert_eq!(progress_percent(44, 45), Some(110));
    assert_eq!(progress_percent(45, 45), None);
    assert_eq!(progress_percent(39, 39), Some(195));
    assert_eq!(progress_percent(100, 119), Some(100));
    assert_eq!(progress_percent(115, 119), Some(115));
}

#[test]
fn no_progress_before_the_first_example() {
    assert_eq!(progress_percent(0, 40), None);
    assert_eq!(progress_percent(0, 1000), None);
}

#[test]
fn no_progress_between_twentieths() {
    assert_eq!(progress_percent(3, 40), None);
    assert_eq!(progress_percent(99, 2000), None);
    assert_eq!(progress_percent(100, 2000), Some(5));
}
