use image_scan::aggregate::aggregate;
use image_scan::orientation::Orientation;
use image_scan::outcome::{FailureRecord, ImageRecord, ProbeOutcome, ProbeResult};

fn record(idx: usize, name: &str) -> ImageRecord {
    ImageRecord {
        name: name.to_string(),
        path: format!("/p/{name}"),
        http: format!("/static/{name}"),
        idx,
        orientation: Orientation::Landscape,
        width: 4,
        height: 3,
    }
}

fn failure(name: &str) -> FailureRecord {
    FailureRecord { path: format!("/p/{name}"), message: format!("cannot decode {name}") }
}

fn success(idx: usize, name: &str) -> ProbeOutcome {
    ProbeOutcome { index: idx - 1, result: ProbeResult::Success(record(idx, name)) }
}

fn failed(index: usize, name: &str) -> ProbeOutcome {
    ProbeOutcome { index, result: ProbeResult::Failure(failure(name)) }
}

#[test]
fn no_outcomes_give_empty_parts() {
    let (batch, failures) = aggregate(Vec::new());
    assert!(batch.is_empty());
    assert!(failures.is_empty());
}

#[test]
fn successes_and_failures_are_parted() {
    let outcomes =
        vec![success(1, "a.jpg"), failed(1, "b.jpg"), success(3, "c.jpg"), failed(3, "d.jpg")];
    let (batch, failures) = aggregate(outcomes);
    assert_eq!(batch, vec![record(1, "a.jpg"), record(3, "c.jpg")]);
    assert_eq!(failures, vec![failure("b.jpg"), failure("d.jpg")]);
}

#[test]
fn batch_is_sorted_whatever_the_order_of_arrival() {
    let outcomes = vec![
        success(4, "d.jpg"),
        success(2, "b.jpg"),
        success(5, "e.jpg"),
        success(1, "a.jpg"),
        success(3, "c.jpg"),
    ];
    let (batch, failures) = aggregate(outcomes);
    assert_eq!(
        batch,
        vec![
            record(1, "a.jpg"),
            record(2, "b.jpg"),
            record(3, "c.jpg"),
            record(4, "d.jpg"),
            record(5, "e.jpg"),
        ]
    );
    assert!(failures.is_empty());
}

#[test]
fn every_arrival_order_gives_the_same_batch() {
    let orders: [[usize; 3]; 6] =
        [[1, 2, 3], [1, 3, 2], [2, 1, 3], [2, 3, 1], [3, 1, 2], [3, 2, 1]];
    for order in orders {
        let mut outcomes = Vec::new();
        for idx in order {
            outcomes.push(success(idx, &format!("{idx}.jpg")));
        }
        let (batch, _) = aggregate(outcomes);
        assert_eq!(batch, vec![record(1, "1.jpg"), record(2, "2.jpg"), record(3, "3.jpg")]);
    }
}

#[test]
fn reversed_arrival_is_put_right() {
    let mut outcomes = Vec::new();
    for idx in (1..=40).rev() {
        outcomes.push(success(idx, &format!("{idx}.jpg")));
    }
    let (batch, _) = aggregate(outcomes);
    assert_eq!(batch.len(), 40);
    for (i, r) in batch.iter().enumerate() {
        assert_eq!(r.idx, i + 1);
        assert_eq!(r.name, format!("{}.jpg", i + 1));
    }
}

#[test]
fn records_with_the_same_number_keep_their_order() {
    let outcomes =
        vec![success(2, "first.jpg"), success(1, "a.jpg"), success(2, "second.jpg")];
    let (batch, _) = aggregate(outcomes);
    assert_eq!(batch, vec![record(1, "a.jpg"), record(2, "first.jpg"), record(2, "second.jpg")]);
}

#[test]
fn failures_keep_the_order_of_arrival() {
    let outcomes = vec![failed(2, "c.jpg"), success(2, "b.jpg"), failed(0, "a.jpg")];
    let (batch, failures) = aggregate(outcomes);
    assert_eq!(batch, vec![record(2, "b.jpg")]);
    assert_eq!(failures, vec![failure("c.jpg"), failure("a.jpg")]);
}

#[test]
fn parts_together_are_as_many_as_the_outcomes() {
    for n in 0..12usize {
        let mut outcomes = Vec::new();
        for i in 0..n {
            if i % 3 == 1 {
                outcomes.push(failed(i, &format!("{i}.jpg")));
            } else {
                outcomes.push(success(n - i, &format!("{i}.jpg")));
            }
        }
        let (batch, failures) = aggregate(outcomes);
        assert_eq!(batch.len() + failures.len(), n);
    }
}

#[test]
fn only_failures_give_an_empty_batch() {
    let (batch, failures) = aggregate(vec![failed(0, "a.jpg"), failed(1, "b.jpg")]);
    assert!(batch.is_empty());
    assert_eq!(failures.len(), 2);
}
