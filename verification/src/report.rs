//! The lines that tell a person how a scan went.

use vstd::prelude::*;

use crate::outcome::{FailureRecord, FailureRecordView};
use crate::text::{decimal, decimal_text};

verus! {

/// The line that says a file was skipped, and why.
pub open spec fn skipped_text(failure: FailureRecordView) -> Seq<char> {
    "Skipping image "@ + failure.path + ": "@ + failure.message
}

/// The line that says how many files failed.
pub open spec fn failed_count_text(count: nat) -> Seq<char> {
    "Failed to process "@ + decimal_text(count) + " image(s):"@
}

/// The line that lists one failed file.
pub open spec fn failed_item_text(failure: FailureRecordView) -> Seq<char> {
    "  - "@ + failure.path
}

/// The summary of a scan: a heading, then either the notice that every image
/// was processed, or the number of failed files and the path of each.
pub open spec fn summary(failures: Seq<FailureRecordView>) -> Seq<Seq<char>> {
    if failures.len() == 0 {
        seq!["--- Summary ---"@, "All images processed successfully!"@]
    } else {
        seq!["--- Summary ---"@, failed_count_text(failures.len())] + Seq::new(
            failures.len(),
            |i: int| failed_item_text(failures[i]),
        )
    }
}

/// Writes the line that says a file was skipped.
pub fn skipped_line(failure: &FailureRecord) -> (line: String)
    ensures
        line@ == skipped_text(failure@),
{
    let mut line = String::from_str("Skipping image ");
    line.append(failure.path.as_str());
    line.append(": ");
    line.append(failure.message.as_str());
    line
}

/// Writes the summary of a scan, line by line.
pub fn summary_lines(failures: &Vec<FailureRecord>) -> (lines: Vec<String>)
    ensures
        lines.deep_view() == summary(failures.deep_view()),
{
    let mut lines: Vec<String> = Vec::new();
    lines.push(String::from_str("--- Summary ---"));
    if failures.len() == 0 {
        lines.push(String::from_str("All images processed successfully!"));
        assert(lines.deep_view() =~= summary(failures.deep_view()));
        return lines;
    }
    let mut heading = String::from_str("Failed to process ");
    heading.append(decimal(failures.len()).as_str());
    heading.append(" image(s):");
    lines.push(heading);
    let mut i: usize = 0;
    while i < failures.len()
        invariant
            i <= failures.len(),
            lines.len() == i + 2,
            lines[0]@ == "--- Summary ---"@,
            lines[1]@ == failed_count_text(failures.len() as nat),
            forall|k: int| 0 <= k < i ==> lines[k + 2]@ == failed_item_text(failures[k]@),
        decreases failures.len() - i,
    {
        let mut line = String::from_str("  - ");
        line.append(failures[i].path.as_str());
        lines.push(line);
        i = i + 1;
    }
    assert(lines.deep_view() =~= summary(failures.deep_view()));
    lines
}

} // verus!
