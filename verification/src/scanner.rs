//! Finding the lines of a blob that hold the marker token.

use crate::model::{candidate_views, CandidateLine, CandidateLineView, ScanError};
use crate::record::candidates_ascending;
use crate::text::{contains_text, decode_text, lines_of, occurs_in, split_lines};
use vstd::prelude::*;
use vstd::string::*;
use vstd::utf8::*;

verus! {

/// The texts of a run of strings.
pub open spec fn line_texts(lines: Seq<String>) -> Seq<Seq<char>> {
    Seq::new(lines.len(), |i: int| lines[i]@)
}

/// The candidates among the lines of a file: each line that holds the
/// marker, with its position counted from one and its text as it stands.
pub open spec fn candidates_in(path: Seq<char>, lines: Seq<Seq<char>>, marker: Seq<char>) -> Seq<
    CandidateLineView,
>
    decreases lines.len(),
{
    if lines.len() == 0 {
        seq![]
    } else {
        let earlier = candidates_in(path, lines.drop_last(), marker);
        if occurs_in(marker, lines.last()) {
            earlier.push(
                CandidateLineView { path, line_number: lines.len(), raw_text: lines.last() },
            )
        } else {
            earlier
        }
    }
}

/// What scanning a blob gives: nothing for a binary blob, whatever its
/// bytes; a decode error for content that is not UTF-8; else the candidates
/// among the lines of the decoded text.
pub open spec fn scan_result(
    path: Seq<char>,
    content: Seq<u8>,
    is_binary: bool,
    marker: Seq<char>,
) -> Result<Seq<CandidateLineView>, ScanError> {
    if is_binary {
        Ok(seq![])
    } else if !valid_utf8(content) {
        Err(ScanError::Decode)
    } else {
        Ok(candidates_in(path, lines_of(decode_utf8(content)), marker))
    }
}

/// Picks the candidates out of the lines of one file.
pub fn select_candidates(path: &str, lines: &Vec<String>, marker: &str) -> (found: Vec<
    CandidateLine,
>)
    ensures
        candidate_views(found@) == candidates_in(path@, line_texts(lines@), marker@),
        found@.len() <= lines@.len(),
        candidates_ascending(candidate_views(found@)),
{
    let mut found: Vec<CandidateLine> = Vec::new();
    let ghost texts = line_texts(lines@);
    let mut i: usize = 0;
    while i < lines.len()
        invariant
            0 <= i <= lines@.len(),
            texts == line_texts(lines@),
            found@.len() <= i,
            candidate_views(found@) == candidates_in(path@, texts.take(i as int), marker@),
        decreases lines@.len() - i,
    {
        proof {
            assert(texts.take(i + 1).drop_last() =~= texts.take(i as int));
            assert(texts.take(i + 1).last() == lines@[i as int]@);
        }
        if contains_text(lines[i].as_str(), marker) {
            let ghost before = candidate_views(found@);
            let candidate = CandidateLine {
                path: path.to_owned(),
                line_number: i + 1,
                raw_text: lines[i].clone(),
            };
            found.push(candidate);
            proof {
                assert(candidate_views(found@) =~= before.push(candidate@));
            }
        }
        i += 1;
    }
    proof {
        assert(texts.take(lines@.len() as int) =~= texts);
        lemma_candidates_ascending(path@, texts, marker@);
    }
    found
}

/// Scans one blob for marker lines. A binary blob is not decoded and gives
/// no candidate; content that is not UTF-8 gives `ScanError::Decode`.
pub fn scan_blob(path: &str, content: &[u8], is_binary: bool, marker: &str) -> (r: Result<
    Vec<CandidateLine>,
    ScanError,
>)
    ensures
        match r {
            Ok(found) => Ok::<Seq<CandidateLineView>, ScanError>(candidate_views(found@))
                == scan_result(path@, content@, is_binary, marker@),
            Err(e) => Err::<Seq<CandidateLineView>, ScanError>(e) == scan_result(
                path@,
                content@,
                is_binary,
                marker@,
            ),
        },
        is_binary ==> r is Ok && r.unwrap()@.len() == 0,
        r is Err <==> !is_binary && !valid_utf8(content@),
        r is Ok ==> candidates_ascending(candidate_views(r.unwrap()@)),
{
    if is_binary {
        let none: Vec<CandidateLine> = Vec::new();
        proof {
            assert(candidate_views(none@) =~= Seq::<CandidateLineView>::empty());
        }
        return Ok(none);
    }
    match decode_text(content) {
        None => Err(ScanError::Decode),
        Some(text) => {
            let lines: Vec<String> = split_lines(text);
            proof {
                assert(line_texts(lines@) =~= lines_of(text@));
            }
            Ok(select_candidates(path, &lines, marker))
        },
    }
}

/// Every candidate of a file has a line number between one and the number
/// of lines, and a position in the run no greater than its line number.
pub proof fn lemma_candidates_bounded(
    path: Seq<char>,
    lines: Seq<Seq<char>>,
    marker: Seq<char>,
)
    ensures
        candidates_in(path, lines, marker).len() <= lines.len(),
        forall|k: int|
            0 <= k < candidates_in(path, lines, marker).len() ==> 1 <= (
            #[trigger] candidates_in(path, lines, marker)[k]).line_number <= lines.len(),
    decreases lines.len(),
{
    if lines.len() > 0 {
        lemma_candidates_bounded(path, lines.drop_last(), marker);
    }
}

/// Candidates come in strictly rising order of line number.
pub proof fn lemma_candidates_ascending(
    path: Seq<char>,
    lines: Seq<Seq<char>>,
    marker: Seq<char>,
)
    ensures
        candidates_ascending(candidates_in(path, lines, marker)),
    decreases lines.len(),
{
    if lines.len() > 0 {
        lemma_candidates_ascending(path, lines.drop_last(), marker);
        lemma_candidates_bounded(path, lines.drop_last(), marker);
    }
}

/// Every candidate names a line of the file that holds the marker, and
/// carries that line's text unchanged under the file's path.
pub proof fn lemma_candidates_sound(
    path: Seq<char>,
    lines: Seq<Seq<char>>,
    marker: Seq<char>,
)
    ensures
        forall|k: int|
            0 <= k < candidates_in(path, lines, marker).len() ==> {
                let c = #[trigger] candidates_in(path, lines, marker)[k];
                &&& c.path == path
                &&& 1 <= c.line_number <= lines.len()
                &&& c.raw_text == lines[c.line_number - 1]
                &&& occurs_in(marker, c.raw_text)
            },
    decreases lines.len(),
{
    if lines.len() > 0 {
        let shorter = lines.drop_last();
        let earlier = candidates_in(path, shorter, marker);
        let all = candidates_in(path, lines, marker);
        lemma_candidates_sound(path, shorter, marker);
        assert forall|k: int| 0 <= k < all.len() implies {
            let c = #[trigger] all[k];
            &&& c.path == path
            &&& 1 <= c.line_number <= lines.len()
            &&& c.raw_text == lines[c.line_number - 1]
            &&& occurs_in(marker, c.raw_text)
        } by {
            if k < earlier.len() {
                let c = earlier[k];
                assert(all[k] == c);
                assert(shorter[c.line_number - 1] == lines[c.line_number - 1]);
            }
        }
    }
}

/// Every line of the file that holds the marker is a candidate.
pub proof fn lemma_candidates_complete(
    path: Seq<char>,
    lines: Seq<Seq<char>>,
    marker: Seq<char>,
    i: int,
) -> (k: int)
    requires
        0 <= i < lines.len(),
        occurs_in(marker, lines[i]),
    ensures
        0 <= k < candidates_in(path, lines, marker).len(),
        candidates_in(path, lines, marker)[k].line_number == i + 1,
    decreases lines.len(),
{
    let earlier = candidates_in(path, lines.drop_last(), marker);
    if i == lines.len() - 1 {
        earlier.len() as int
    } else {
        lemma_candidates_complete(path, lines.drop_last(), marker, i)
    }
}

/// A file none of whose lines holds the marker has no candidate.
pub proof fn lemma_no_marker_no_candidates(
    path: Seq<char>,
    lines: Seq<Seq<char>>,
    marker: Seq<char>,
)
    requires
        forall|i: int| 0 <= i < lines.len() ==> !occurs_in(marker, #[trigger] lines[i]),
    ensures
        candidates_in(path, lines, marker).len() == 0,
    decreases lines.len(),
{
    if lines.len() > 0 {
        lemma_no_marker_no_candidates(path, lines.drop_last(), marker);
    }
}

} // verus!
