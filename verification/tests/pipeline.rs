use image::{DynamicImage, ImageFormat};
use image_scan::aggregate::aggregate;
use image_scan::collector::{collect, CandidatePath, WalkEntry};
use image_scan::config::Config;
use image_scan::extract::{extract, probe_candidate, wrap_probe};
use image_scan::orientation::{Dimensions, Orientation};
use image_scan::outcome::{FailureRecord, ImageRecord, ProbeOutcome, ProbeResult};
use image_scan::probe::DecodeError;
use image_scan::report::summary_lines;
use std::io::Cursor;

fn jpeg(width: u32, height: u32) -> Vec<u8> {
    let mut bytes = Vec::new();
    DynamicImage::new_rgb8(width, height)
        .write_to(&mut Cursor::new(&mut bytes), ImageFormat::Jpeg)
        .unwrap();
    bytes
}

fn config() -> Config {
    Config {
        source_root: "/pics/".to_string(),
        dest_location: "/db/images".to_string(),
        http_prefix: "/static/".to_string(),
        extension_filter: "jpg".to_string(),
    }
}

fn file(name: &str) -> WalkEntry {
    WalkEntry { path: format!("/pics/{name}"), file_name: name.to_string(), is_file: true }
}

fn candidate(name: &str, index: usize) -> CandidatePath {
    CandidatePath { path: format!("/pics/{name}"), name: name.to_string(), index }
}

#[test]
fn successful_probe_becomes_a_record() {
    let probed = Ok(Dimensions { width: 30, height: 20, orientation: Orientation::Landscape });
    let outcome = wrap_probe(&candidate("a.jpg", 4), probed, &config());
    assert_eq!(
        outcome,
        ProbeOutcome {
            index: 4,
            result: ProbeResult::Success(ImageRecord {
                name: "a.jpg".to_string(),
                path: "/pics/a.jpg".to_string(),
                http: "/static/a.jpg".to_string(),
                idx: 5,
                orientation: Orientation::Landscape,
                width: 30,
                height: 20,
            }),
        }
    );
}

#[test]
fn failed_probe_becomes_a_failure_record() {
    let probed =
        Err(DecodeError { path: "/pics/a.jpg".to_string(), message: "bad marker".to_string() });
    let outcome = wrap_probe(&candidate("a.jpg", 0), probed, &config());
    assert_eq!(
        outcome,
        ProbeOutcome {
            index: 0,
            result: ProbeResult::Failure(FailureRecord {
                path: "/pics/a.jpg".to_string(),
                message: "Error processing image /pics/a.jpg: bad marker".to_string(),
            }),
        }
    );
}

#[test]
fn sequence_number_is_one_above_the_discovery_index() {
    for index in [0usize, 1, 9, 1000, usize::MAX - 1] {
        let outcome = probe_candidate(&candidate("a.jpg", index), &Ok(jpeg(2, 2)), &config());
        assert_eq!(outcome.index, index);
        match outcome.result {
            ProbeResult::Success(record) => assert_eq!(record.idx, index + 1),
            ProbeResult::Failure(failure) => panic!("{}", failure.message),
        }
    }
}

#[test]
fn file_that_was_not_read_fails_with_the_message_of_the_read() {
    let outcome = probe_candidate(
        &candidate("gone.jpg", 2),
        &Err("No such file or directory (os error 2)".to_string()),
        &config(),
    );
    assert_eq!(
        outcome,
        ProbeOutcome {
            index: 2,
            result: ProbeResult::Failure(FailureRecord {
                path: "/pics/gone.jpg".to_string(),
                message:
                    "Error processing image /pics/gone.jpg: No such file or directory (os error 2)"
                        .to_string(),
            }),
        }
    );
}

#[test]
fn candidate_outside_the_root_keeps_its_path_for_display() {
    let elsewhere =
        CandidatePath { path: "/other/a.jpg".to_string(), name: "a.jpg".to_string(), index: 0 };
    let outcome = probe_candidate(&elsewhere, &Ok(jpeg(3, 3)), &config());
    match outcome.result {
        ProbeResult::Success(record) => {
            assert_eq!(record.http, "/other/a.jpg");
            assert_eq!(record.orientation, Orientation::Square);
        },
        ProbeResult::Failure(failure) => panic!("{}", failure.message),
    }
}

#[test]
fn corrupt_file_is_reported_once_and_spares_its_siblings() {
    let whole = jpeg(4, 2);
    let cut: Vec<u8> = whole[..whole.len() / 2].to_vec();
    let readings = vec![
        (candidate("a.jpg", 0), Ok(whole.clone())),
        (candidate("bad.jpg", 1), Ok(cut)),
        (candidate("c.jpg", 2), Ok(whole.clone())),
    ];
    let without = vec![readings[0].clone(), readings[2].clone()];
    let (batch, failures) = aggregate(extract(&readings, &config()));
    let (batch_without, failures_without) = aggregate(extract(&without, &config()));
    assert_eq!(batch, batch_without);
    assert!(failures_without.is_empty());
    assert_eq!(failures.len(), 1);
    assert_eq!(failures[0].path, "/pics/bad.jpg");
    assert!(failures[0].message.starts_with("Error processing image /pics/bad.jpg: "));
    assert!(batch.iter().all(|r| r.path != "/pics/bad.jpg" && r.idx != 2));
    assert_eq!(batch.len(), 2);
}

#[test]
fn three_images_and_a_corrupt_one() {
    let config = config();
    let entries = vec![
        WalkEntry { path: "/pics".to_string(), file_name: "pics".to_string(), is_file: false },
        file("wide.jpg"),
        file("tall.jpg"),
        file("readme.txt"),
        file("broken.jpg"),
        file("even.jpg"),
    ];
    let candidates = collect(&entries, &config);
    assert_eq!(candidates.len(), 4);
    let whole = jpeg(9, 9);
    let mut readings = Vec::new();
    for c in candidates {
        let content = match c.name.as_str() {
            "wide.jpg" => jpeg(12, 8),
            "tall.jpg" => jpeg(8, 12),
            "even.jpg" => whole.clone(),
            _ => whole[..20].to_vec(),
        };
        readings.push((c, Ok(content)));
    }
    let outcomes = extract(&readings, &config);
    assert_eq!(outcomes.len(), 4);
    for (i, outcome) in outcomes.iter().enumerate() {
        assert_eq!(outcome.index, i);
    }
    let (batch, failures) = aggregate(outcomes);
    assert_eq!(batch.len() + failures.len(), 4);
    assert_eq!(
        batch,
        vec![
            ImageRecord {
                name: "wide.jpg".to_string(),
                path: "/pics/wide.jpg".to_string(),
                http: "/static/wide.jpg".to_string(),
                idx: 1,
                orientation: Orientation::Landscape,
                width: 12,
                height: 8,
            },
            ImageRecord {
                name: "tall.jpg".to_string(),
                path: "/pics/tall.jpg".to_string(),
                http: "/static/tall.jpg".to_string(),
                idx: 2,
                orientation: Orientation::Portrait,
                width: 8,
                height: 12,
            },
            ImageRecord {
                name: "even.jpg".to_string(),
                path: "/pics/even.jpg".to_string(),
                http: "/static/even.jpg".to_string(),
                idx: 4,
                orientation: Orientation::Square,
                width: 9,
                height: 9,
            },
        ]
    );
    assert_eq!(failures.len(), 1);
    assert_eq!(failures[0].path, "/pics/broken.jpg");
    let lines = summary_lines(&failures);
    assert_eq!(lines[1], "Failed to process 1 image(s):");
    assert!(lines[1].starts_with("Failed to process 1 image(s)"));
    assert_eq!(lines[2], "  - /pics/broken.jpg");
    assert_eq!(lines.len(), 3);
}

#[test]
fn three_valid_images_are_numbered_one_to_three() {
    let config = config();
    let entries = vec![file("wide.jpg"), file("tall.jpg"), file("even.jpg"), file("broken.jpg")];
    let candidates = collect(&entries, &config);
    let contents = vec![jpeg(3, 2), jpeg(2, 3), jpeg(2, 2), vec![0xff, 0xd8, 0xff]];
    let readings: Vec<_> = candidates.into_iter().zip(contents.into_iter().map(Ok)).collect();
    let mut outcomes = extract(&readings, &config);
    outcomes.reverse();
    let (batch, failures) = aggregate(outcomes);
    let numbers: Vec<usize> = batch.iter().map(|r| r.idx).collect();
    let orientations: Vec<Orientation> = batch.iter().map(|r| r.orientation).collect();
    assert_eq!(numbers, vec![1, 2, 3]);
    assert_eq!(
        orientations,
        vec![Orientation::Landscape, Orientation::Portrait, Orientation::Square]
    );
    assert_eq!(failures.len(), 1);
    assert_eq!(summary_lines(&failures)[1], "Failed to process 1 image(s):");
}

#[test]
fn same_input_twice_gives_the_same_rows() {
    let config = config();
    let entries = vec![file("a.jpg"), file("b.jpg")];
    let readings: Vec<_> = collect(&entries, &config)
        .into_iter()
        .zip(vec![Ok(jpeg(5, 4)), Ok(jpeg(4, 5))])
        .collect();
    let first = aggregate(extract(&readings, &config));
    let second = aggregate(extract(&readings, &config));
    assert_eq!(first, second);
    assert_eq!(first.0.len(), 2);
}

#[test]
fn scan_of_nothing_reports_success() {
    let config = config();
    let candidates = collect(&Vec::new(), &config);
    let readings: Vec<(CandidatePath, Result<Vec<u8>, String>)> =
        candidates.into_iter().map(|c| (c, Ok(Vec::new()))).collect();
    let (batch, failures) = aggregate(extract(&readings, &config));
    assert!(batch.is_empty());
    assert_eq!(summary_lines(&failures)[1], "All images processed successfully!");
}
