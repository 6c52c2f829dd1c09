//! What probing one candidate file yields: a row to keep or a failure to report.

use vstd::prelude::*;

use crate::orientation::{orientation_of, Orientation};

verus! {

/// One row of the image table.
#[derive(Clone, Debug, PartialEq, Eq)]
pub struct ImageRecord {
    /// File name.
    pub name: String,
    /// Path of the file.
    pub path: String,
    /// Path under which the file is served.
    pub http: String,
    /// Sequence number, counted from 1 in the order of discovery.
    pub idx: usize,
    pub orientation: Orientation,
    pub width: u32,
    pub height: u32,
}

/// An [`ImageRecord`] as a mathematical value.
pub struct ImageRecordView {
    pub name: Seq<char>,
    pub path: Seq<char>,
    pub http: Seq<char>,
    pub idx: nat,
    pub orientation: Orientation,
    pub width: nat,
    pub height: nat,
}

impl ImageRecordView {
    /// The sequence number counts from 1, and the orientation is the one that
    /// width and height give.
    pub open spec fn well_formed(self) -> bool {
        &&& self.idx >= 1
        &&& self.orientation == orientation_of(self.width as int, self.height as int)
    }
}

impl View for ImageRecord {
    type V = ImageRecordView;

    open spec fn view(&self) -> ImageRecordView {
        ImageRecordView {
            name: self.name@,
            path: self.path@,
            http: self.http@,
            idx: self.idx as nat,
            orientation: self.orientation,
            width: self.width as nat,
            height: self.height as nat,
        }
    }
}

impl DeepView for ImageRecord {
    type V = ImageRecordView;

    open spec fn deep_view(&self) -> ImageRecordView {
        self@
    }
}

/// A file that could not be decoded, with the reason.
#[derive(Clone, Debug, PartialEq, Eq)]
pub struct FailureRecord {
    /// Path of the file.
    pub path: String,
    /// What went wrong, for a person to read.
    pub message: String,
}

/// A [`FailureRecord`] as a mathematical value.
pub struct FailureRecordView {
    pub path: Seq<char>,
    pub message: Seq<char>,
}

impl View for FailureRecord {
    type V = FailureRecordView;

    open spec fn view(&self) -> FailureRecordView {
        FailureRecordView { path: self.path@, message: self.message@ }
    }
}

impl DeepView for FailureRecord {
    type V = FailureRecordView;

    open spec fn deep_view(&self) -> FailureRecordView {
        self@
    }
}

/// Either side of a probe.
#[derive(Clone, Debug, PartialEq, Eq)]
pub enum ProbeResult {
    Success(ImageRecord),
    Failure(FailureRecord),
}

/// A [`ProbeResult`] as a mathematical value.
pub enum ProbeResultView {
    Success(ImageRecordView),
    Failure(FailureRecordView),
}

impl View for ProbeResult {
    type V = ProbeResultView;

    open spec fn view(&self) -> ProbeResultView {
        match self {
            ProbeResult::Success(r) => ProbeResultView::Success(r@),
            ProbeResult::Failure(f) => ProbeResultView::Failure(f@),
        }
    }
}

/// The result of probing one candidate, tagged with the candidate's
/// discovery index so that the order of discovery can be restored.
#[derive(Clone, Debug, PartialEq, Eq)]
pub struct ProbeOutcome {
    /// Discovery index of the candidate, counted from 0.
    pub index: usize,
    pub result: ProbeResult,
}

/// A [`ProbeOutcome`] as a mathematical value.
pub struct ProbeOutcomeView {
    pub index: nat,
    pub result: ProbeResultView,
}

impl ProbeOutcomeView {
    /// A record that the outcome carries is well formed, and its sequence
    /// number is one above the outcome's discovery index.
    pub open spec fn well_formed(self) -> bool {
        match self.result {
            ProbeResultView::Success(record) => record.well_formed() && record.idx == self.index + 1,
            ProbeResultView::Failure(_) => true,
        }
    }
}

impl View for ProbeOutcome {
    type V = ProbeOutcomeView;

    open spec fn view(&self) -> ProbeOutcomeView {
        ProbeOutcomeView { index: self.index as nat, result: self.result@ }
    }
}

impl DeepView for ProbeOutcome {
    type V = ProbeOutcomeView;

    open spec fn deep_view(&self) -> ProbeOutcomeView {
        self@
    }
}

} // verus!
