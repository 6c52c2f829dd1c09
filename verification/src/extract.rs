//! From candidates and what was read of their files to probe outcomes.

use vstd::prelude::*;

use crate::collector::{CandidatePath, CandidateView};
use crate::config::Config;
use crate::display::{create_http_path, display_path};
use crate::orientation::Dimensions;
use crate::outcome::{
    FailureRecord, FailureRecordView, ImageRecord, ImageRecordView, ProbeOutcome, ProbeOutcomeView,
    ProbeResult, ProbeResultView,
};
use crate::probe::{
    failure_text, img_orient, jpeg_decoding, probe_result, probe_view, DecodeError,
    DecodeErrorView,
};

verus! {

/// What reading a file gave, as a mathematical value: its bytes, or the
/// message of the attempt that failed.
pub open spec fn content_view(content: Result<Vec<u8>, String>) -> Result<Seq<u8>, Seq<char>> {
    match content {
        Ok(bytes) => Ok(bytes@),
        Err(message) => Err(message@),
    }
}

/// One candidate with what reading its file gave, as a mathematical value.
pub open spec fn reading_view(reading: (CandidatePath, Result<Vec<u8>, String>)) -> (
    CandidateView,
    Result<Seq<u8>, Seq<char>>,
) {
    (reading.0@, content_view(reading.1))
}

/// The readings of a scan as mathematical values.
pub open spec fn readings_view(readings: Seq<(CandidatePath, Result<Vec<u8>, String>)>) -> Seq<
    (CandidateView, Result<Seq<u8>, Seq<char>>),
> {
    Seq::new(readings.len(), |i: int| reading_view(readings[i]))
}

/// The probe of the file at `path`, given what reading it gave: a file that
/// could not be read fails with the message of the read, one that was read is
/// decoded.
pub open spec fn probe_of_content(path: Seq<char>, content: Result<Seq<u8>, Seq<char>>) -> Result<
    Dimensions,
    DecodeErrorView,
> {
    match content {
        Ok(bytes) => probe_result(path, jpeg_decoding(bytes)),
        Err(message) => Err(DecodeErrorView { path, message }),
    }
}

/// The outcome for a candidate whose probe gave `probed`.
///
/// A success becomes a record with the candidate's name and path, its display
/// path, and the sequence number one above its discovery index; a failure
/// becomes a failure record with the candidate's path and the error's
/// sentence. Either carries the discovery index.
pub open spec fn outcome_of_probe(
    candidate: CandidateView,
    probed: Result<Dimensions, DecodeErrorView>,
    source_root: Seq<char>,
    http_prefix: Seq<char>,
) -> ProbeOutcomeView {
    ProbeOutcomeView {
        index: candidate.index,
        result: match probed {
            Ok(dimensions) => ProbeResultView::Success(
                ImageRecordView {
                    name: candidate.name,
                    path: candidate.path,
                    http: display_path(candidate.path, source_root, http_prefix),
                    idx: candidate.index + 1,
                    orientation: dimensions.orientation,
                    width: dimensions.width as nat,
                    height: dimensions.height as nat,
                },
            ),
            Err(error) => ProbeResultView::Failure(
                FailureRecordView {
                    path: candidate.path,
                    message: failure_text(error.path, error.message),
                },
            ),
        },
    }
}

/// The outcome for a candidate, given what reading its file gave.
pub open spec fn outcome_of(
    candidate: CandidateView,
    content: Result<Seq<u8>, Seq<char>>,
    source_root: Seq<char>,
    http_prefix: Seq<char>,
) -> ProbeOutcomeView {
    outcome_of_probe(
        candidate,
        probe_of_content(candidate.path, content),
        source_root,
        http_prefix,
    )
}

/// The outcomes of a scan: one for each reading, in the order of the readings.
pub open spec fn extraction(
    readings: Seq<(CandidateView, Result<Seq<u8>, Seq<char>>)>,
    source_root: Seq<char>,
    http_prefix: Seq<char>,
) -> Seq<ProbeOutcomeView> {
    Seq::new(
        readings.len(),
        |i: int| outcome_of(readings[i].0, readings[i].1, source_root, http_prefix),
    )
}

/// Wraps the result of a candidate's probe into its outcome.
pub fn wrap_probe(
    candidate: &CandidatePath,
    probed: Result<Dimensions, DecodeError>,
    config: &Config,
) -> (outcome: ProbeOutcome)
    requires
        candidate.index < usize::MAX,
    ensures
        outcome@ == outcome_of_probe(
            candidate@,
            probe_view(probed),
            config@.source_root,
            config@.http_prefix,
        ),
        outcome.index == candidate.index,
        outcome.result is Success <==> probed is Ok,
        probed matches Ok(dimensions) && dimensions.well_formed() ==> outcome@.well_formed(),
{
    let result = match probed {
        Ok(dimensions) => ProbeResult::Success(
            ImageRecord {
                name: candidate.name.clone(),
                path: candidate.path.clone(),
                http: create_http_path(candidate.path.as_str(), config),
                idx: candidate.index + 1,
                orientation: dimensions.orientation,
                width: dimensions.width,
                height: dimensions.height,
            },
        ),
        Err(error) => ProbeResult::Failure(
            FailureRecord { path: candidate.path.clone(), message: error.describe() },
        ),
    };
    ProbeOutcome { index: candidate.index, result }
}

/// Probes one candidate, given what reading its file gave.
///
/// A file that was read is decoded; one that could not be read fails with the
/// message of the read. The outcome of one candidate depends on nothing but
/// that candidate, its file and the settings.
pub fn probe_candidate(
    candidate: &CandidatePath,
    content: &Result<Vec<u8>, String>,
    config: &Config,
) -> (outcome: ProbeOutcome)
    requires
        candidate.index < usize::MAX,
    ensures
        outcome@ == outcome_of(
            candidate@,
            content_view(*content),
            config@.source_root,
            config@.http_prefix,
        ),
        outcome.index == candidate.index,
        outcome@.well_formed(),
{
    let probed = match content {
        Ok(bytes) => img_orient(candidate.path.as_str(), bytes.as_slice()),
        Err(message) => Err(
            DecodeError { path: candidate.path.clone(), message: message.clone() },
        ),
    };
    wrap_probe(candidate, probed, config)
}

/// Probes every candidate in turn: one outcome for each reading, in the order
/// of the readings.
pub fn extract(readings: &Vec<(CandidatePath, Result<Vec<u8>, String>)>, config: &Config) -> (outcomes:
    Vec<ProbeOutcome>)
    requires
        forall|i: int| 0 <= i < readings.len() ==> readings[i].0.index < usize::MAX,
    ensures
        outcomes.deep_view() == extraction(
            readings_view(readings@),
            config@.source_root,
            config@.http_prefix,
        ),
        outcomes.len() == readings.len(),
        forall|i: int|
            0 <= i < outcomes.len() ==> (#[trigger] outcomes[i]).index == readings[i].0.index
                && outcomes[i]@.well_formed(),
{
    let mut outcomes: Vec<ProbeOutcome> = Vec::new();
    let mut i: usize = 0;
    while i < readings.len()
        invariant
            i <= readings.len(),
            outcomes.len() == i,
            forall|k: int| 0 <= k < readings.len() ==> readings[k].0.index < usize::MAX,
            forall|k: int|
                0 <= k < i ==> (#[trigger] outcomes[k]).index == readings[k].0.index
                    && outcomes[k]@.well_formed(),
            forall|k: int|
                0 <= k < i ==> outcomes[k]@ == outcome_of(
                    readings[k].0@,
                    content_view(readings[k].1),
                    config@.source_root,
                    config@.http_prefix,
                ),
        decreases readings.len() - i,
    {
        let reading = &readings[i];
        let outcome = probe_candidate(&reading.0, &reading.1, config);
        outcomes.push(outcome);
        i = i + 1;
    }
    assert(outcomes.deep_view() =~= extraction(
        readings_view(readings@),
        config@.source_root,
        config@.http_prefix,
    ));
    outcomes
}

} // verus!
