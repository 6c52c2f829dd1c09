//! Choosing the candidate files among the entries of a directory walk.

use vstd::prelude::*;

use crate::config::Config;
use crate::text::{chars_of, eq_ignoring_ascii_case, tail_eq_ignoring_ascii_case};

verus! {

/// One entry that a directory walk yields.
#[derive(Clone, Debug, PartialEq, Eq)]
pub struct WalkEntry {
    /// Path of the entry.
    pub path: String,
    /// Last component of the path.
    pub file_name: String,
    /// Whether the entry is a regular file.
    pub is_file: bool,
}

/// A [`WalkEntry`] as a mathematical value.
pub struct WalkEntryView {
    pub path: Seq<char>,
    pub file_name: Seq<char>,
    pub is_file: bool,
}

impl View for WalkEntry {
    type V = WalkEntryView;

    open spec fn view(&self) -> WalkEntryView {
        WalkEntryView { path: self.path@, file_name: self.file_name@, is_file: self.is_file }
    }
}

impl DeepView for WalkEntry {
    type V = WalkEntryView;

    open spec fn deep_view(&self) -> WalkEntryView {
        self@
    }
}

/// A file chosen for decoding.
#[derive(Clone, Debug, PartialEq, Eq)]
pub struct CandidatePath {
    /// Path of the file.
    pub path: String,
    /// File name.
    pub name: String,
    /// Discovery index: how many candidates were found before this one.
    pub index: usize,
}

/// A [`CandidatePath`] as a mathematical value.
pub struct CandidateView {
    pub path: Seq<char>,
    pub name: Seq<char>,
    pub index: nat,
}

impl View for CandidatePath {
    type V = CandidateView;

    open spec fn view(&self) -> CandidateView {
        CandidateView { path: self.path@, name: self.name@, index: self.index as nat }
    }
}

impl DeepView for CandidatePath {
    type V = CandidateView;

    open spec fn deep_view(&self) -> CandidateView {
        self@
    }
}

/// Position of the last dot in a file name, or -1 where it has none.
pub open spec fn last_dot(name: Seq<char>) -> int
    decreases name.len(),
{
    if name.len() == 0 {
        -1
    } else if name.last() == '.' {
        name.len() - 1
    } else {
        last_dot(name.drop_last())
    }
}

/// The extension of a file name: what follows its last dot. A name without a
/// dot has none, nor has one whose only dot is its first character, nor has
/// `..`.
pub open spec fn extension_of(name: Seq<char>) -> Option<Seq<char>> {
    if last_dot(name) <= 0 || name == seq!['.', '.'] {
        None
    } else {
        Some(name.skip(last_dot(name) + 1))
    }
}

/// Whether a file name has the extension `extension`, the case of ASCII
/// letters aside.
pub open spec fn has_extension(name: Seq<char>, extension: Seq<char>) -> bool {
    match extension_of(name) {
        Some(found) => eq_ignoring_ascii_case(found, extension),
        None => false,
    }
}

/// Whether an entry is a candidate: a regular file with the extension.
pub open spec fn is_candidate(entry: WalkEntryView, extension: Seq<char>) -> bool {
    entry.is_file && has_extension(entry.file_name, extension)
}

/// The candidates among `entries`, in the order of the entries, each with the
/// number of candidates before it as its discovery index.
pub open spec fn candidates_of(entries: Seq<WalkEntryView>, extension: Seq<char>) -> Seq<
    CandidateView,
>
    decreases entries.len(),
{
    if entries.len() == 0 {
        Seq::empty()
    } else {
        let before = candidates_of(entries.drop_last(), extension);
        let entry = entries.last();
        if is_candidate(entry, extension) {
            before.push(CandidateView { path: entry.path, name: entry.file_name, index: before.len() })
        } else {
            before
        }
    }
}

/// `last_dot` is the position of a dot behind which no dot follows.
pub proof fn lemma_last_dot(name: Seq<char>)
    ensures
        -1 <= last_dot(name) < name.len(),
        last_dot(name) >= 0 ==> name[last_dot(name)] == '.',
        forall|i: int| last_dot(name) < i < name.len() ==> name[i] != '.',
    decreases name.len(),
{
    if name.len() > 0 && name.last() != '.' {
        let front = name.drop_last();
        lemma_last_dot(front);
        assert forall|i: int| last_dot(name) < i < name.len() implies name[i] != '.' by {
            if i < front.len() {
                assert(name[i] == front[i]);
            }
        }
    }
}

/// Whether a candidate has the path and name of a regular file with the
/// extension among the entries.
pub open spec fn chosen_from(
    entries: Seq<WalkEntryView>,
    extension: Seq<char>,
    candidate: CandidateView,
) -> bool {
    exists|j: int|
        0 <= j < entries.len() && is_candidate(#[trigger] entries[j], extension)
            && entries[j].path == candidate.path && entries[j].file_name == candidate.name
}

/// Only regular files with the extension become candidates: every candidate
/// has the path and name of an entry that is one, and its discovery index is
/// its place among the candidates.
pub proof fn lemma_candidates_are_chosen_entries(entries: Seq<WalkEntryView>, extension: Seq<char>)
    ensures
        candidates_of(entries, extension).len() <= entries.len(),
        forall|i: int|
            0 <= i < candidates_of(entries, extension).len() ==> (#[trigger] candidates_of(
                entries,
                extension,
            )[i]).index == i,
        forall|i: int|
            0 <= i < candidates_of(entries, extension).len() ==> chosen_from(
                entries,
                extension,
                #[trigger] candidates_of(entries, extension)[i],
            ),
    decreases entries.len(),
{
    if entries.len() > 0 {
        let front = entries.drop_last();
        let found = candidates_of(entries, extension);
        let before = candidates_of(front, extension);
        lemma_candidates_are_chosen_entries(front, extension);
        assert forall|i: int| 0 <= i < found.len() implies chosen_from(
            entries,
            extension,
            #[trigger] found[i],
        ) by {
            if i < before.len() {
                assert(found[i] == before[i]);
                assert(chosen_from(front, extension, before[i]));
                let j = choose|j: int|
                    0 <= j < front.len() && is_candidate(#[trigger] front[j], extension)
                        && front[j].path == before[i].path && front[j].file_name == before[i].name;
                assert(entries[j] == front[j]);
            } else {
                assert(is_candidate(entries[entries.len() - 1], extension));
            }
        }
    }
}

/// An entry that is no regular file with the extension adds no candidate.
pub proof fn lemma_other_entries_are_passed_over(
    entries: Seq<WalkEntryView>,
    extension: Seq<char>,
    k: int,
)
    requires
        0 <= k < entries.len(),
        !is_candidate(entries[k], extension),
    ensures
        candidates_of(entries, extension) == candidates_of(entries.remove(k), extension),
    decreases entries.len(),
{
    let front = entries.drop_last();
    if k == entries.len() - 1 {
        assert(entries.remove(k) =~= front);
    } else {
        lemma_other_entries_are_passed_over(front, extension, k);
        assert(entries.remove(k).drop_last() =~= front.remove(k));
        assert(entries.remove(k).last() == entries.last());
    }
}

/// Finds the last dot of a file name.
fn find_last_dot(name: &Vec<char>) -> (at: Option<usize>)
    ensures
        match at {
            Some(i) => i == last_dot(name@),
            None => last_dot(name@) == -1,
        },
{
    let mut i: usize = name.len();
    assert(name@.take(i as int) =~= name@);
    while i > 0
        invariant
            i <= name.len(),
            last_dot(name@) == last_dot(name@.take(i as int)),
        decreases i,
    {
        if name[i - 1] == '.' {
            assert(name@.take(i as int).last() == '.');
            return Some(i - 1);
        }
        assert(name@.take(i as int).drop_last() =~= name@.take(i - 1));
        i = i - 1;
    }
    None
}

/// Whether a file name has the given extension, the case of ASCII letters
/// aside.
pub fn name_has_extension(name: &str, extension: &str) -> (has: bool)
    ensures
        has == has_extension(name@, extension@),
{
    let letters = chars_of(name);
    let wanted = chars_of(extension);
    proof {
        lemma_last_dot(letters@);
    }
    match find_last_dot(&letters) {
        None => false,
        Some(dot) => {
            if dot == 0 || (letters.len() == 2 && letters[0] == '.') {
                proof {
                    if dot > 0 {
                        assert(letters@ =~= seq!['.', '.']);
                    }
                }
                false
            } else {
                assert(letters@ != seq!['.', '.']) by {
                    if letters.len() == 2 {
                        assert(seq!['.', '.'][0] == '.');
                    }
                }
                tail_eq_ignoring_ascii_case(&letters, dot + 1, &wanted)
            }
        },
    }
}

/// Whether the walk's entry is a file to decode.
pub fn entry_is_candidate(entry: &WalkEntry, config: &Config) -> (chosen: bool)
    ensures
        chosen == is_candidate(entry@, config@.extension_filter),
{
    entry.is_file && name_has_extension(entry.file_name.as_str(), config.extension_filter.as_str())
}

/// Picks the candidates out of what a directory walk yielded.
///
/// Only regular files with the configured extension are taken, in the order
/// of the walk, and each gets the next discovery index, counted from 0.
pub fn collect(entries: &Vec<WalkEntry>, config: &Config) -> (found: Vec<CandidatePath>)
    ensures
        found.deep_view() == candidates_of(entries.deep_view(), config@.extension_filter),
        forall|i: int| 0 <= i < found.len() ==> found[i].index == i,
        forall|i: int|
            0 <= i < found.len() ==> chosen_from(
                entries.deep_view(),
                config@.extension_filter,
                #[trigger] found[i]@,
            ),
        found.len() <= entries.len(),
{
    let ghost all = entries.deep_view();
    let ghost extension = config@.extension_filter;
    let mut found: Vec<CandidatePath> = Vec::new();
    let mut i: usize = 0;
    while i < entries.len()
        invariant
            i <= entries.len(),
            all == entries.deep_view(),
            extension == config@.extension_filter,
            found.deep_view() == candidates_of(all.take(i as int), extension),
            forall|k: int| 0 <= k < found.len() ==> found[k].index == k,
            found.len() <= i,
        decreases entries.len() - i,
    {
        let entry = &entries[i];
        proof {
            assert(all.take(i + 1).drop_last() =~= all.take(i as int));
            assert(all.take(i + 1).last() == entry@);
        }
        if entry_is_candidate(entry, config) {
            let ghost before = found.deep_view();
            let candidate = CandidatePath {
                path: entry.path.clone(),
                name: entry.file_name.clone(),
                index: found.len(),
            };
            found.push(candidate);
            assert(found.deep_view() =~= before.push(candidate@));
        }
        i = i + 1;
    }
    proof {
        assert(all.take(entries.len() as int) =~= all);
        lemma_candidates_are_chosen_entries(all, extension);
        assert forall|k: int| 0 <= k < found.len() implies chosen_from(
            all,
            extension,
            #[trigger] found[k]@,
        ) by {
            assert(found[k]@ == candidates_of(all, extension)[k]);
        }
    }
    found
}

} // verus!
