//! The decisions of a scan: what to do with each file, and how the records
//! of all files line up in the output.

use crate::model::{
    candidate_views, record_views, AttributionView, CandidateLine, CandidateLineView, LinePolicy,
    Record, RecordView, ScanError,
};
use crate::record::{file_records, lemma_file_records_ascending, records_ascending};
use crate::scanner::{candidates_in, lemma_candidates_ascending, scan_blob, scan_result};
use vstd::prelude::*;
use vstd::string::*;

verus! {

/// What a scan does with one file once its content has been looked at.
#[derive(Clone, Debug, PartialEq, Eq)]
pub enum FileStep {
    /// Nothing to attribute: the file is binary or has no marker line.
    Skip,
    /// The content is not UTF-8; the file is passed over and reported.
    SkipUndecodable,
    /// Resolve the attribution of these lines, of which there is at least one.
    Attribute(Vec<CandidateLine>),
}

/// The decision that a scan result calls for.
pub enum StepView {
    Skip,
    SkipUndecodable,
    Attribute(Seq<CandidateLineView>),
}

impl View for FileStep {
    type V = StepView;

    open spec fn view(&self) -> StepView {
        match self {
            FileStep::Skip => StepView::Skip,
            FileStep::SkipUndecodable => StepView::SkipUndecodable,
            FileStep::Attribute(lines) => StepView::Attribute(candidate_views(lines@)),
        }
    }
}

/// Attribution is asked for exactly where the scan found a candidate.
pub open spec fn step_for(
    path: Seq<char>,
    content: Seq<u8>,
    is_binary: bool,
    marker: Seq<char>,
) -> StepView {
    match scan_result(path, content, is_binary, marker) {
        Err(_) => StepView::SkipUndecodable,
        Ok(found) => if found.len() == 0 {
            StepView::Skip
        } else {
            StepView::Attribute(found)
        },
    }
}

/// The records of all files, one file after the other.
pub open spec fn in_traversal_order(per_file: Seq<Seq<RecordView>>) -> Seq<RecordView>
    decreases per_file.len(),
{
    if per_file.len() == 0 {
        seq![]
    } else {
        in_traversal_order(per_file.drop_last()) + per_file.last()
    }
}

/// The position in the output at which the records of file `f` begin.
pub open spec fn start_of(per_file: Seq<Seq<RecordView>>, f: int) -> int {
    in_traversal_order(per_file.take(f)).len() as int
}

/// The views of the records of each file.
pub open spec fn file_views(per_file: Seq<Vec<Record>>) -> Seq<Seq<RecordView>> {
    Seq::new(per_file.len(), |i: int| record_views(per_file[i]@))
}

/// Decides what to do with one file. The attribution of its lines is asked
/// for only where it has a candidate: a binary file, a file without marker
/// lines and a file that does not decode are passed over.
pub fn plan_file(path: &str, content: &[u8], is_binary: bool, marker: &str) -> (step: FileStep)
    ensures
        step@ == step_for(path@, content@, is_binary, marker@),
        step matches FileStep::Attribute(lines) ==> lines@.len() > 0,
        is_binary ==> step == FileStep::Skip,
{
    match scan_blob(path, content, is_binary, marker) {
        Err(_) => FileStep::SkipUndecodable,
        Ok(found) => {
            if found.len() == 0 {
                FileStep::Skip
            } else {
                FileStep::Attribute(found)
            }
        },
    }
}

/// Attribution is asked for only of a file that has a candidate, and then
/// of exactly the candidates that the scan found: never of a binary file,
/// of a file that does not decode, or of a file without marker lines.
pub proof fn lemma_attribution_only_for_candidates(
    path: Seq<char>,
    content: Seq<u8>,
    is_binary: bool,
    marker: Seq<char>,
)
    ensures
        step_for(path, content, is_binary, marker) is Attribute <==> (scan_result(
            path,
            content,
            is_binary,
            marker,
        ) matches Ok(found) && found.len() > 0),
        step_for(path, content, is_binary, marker) matches StepView::Attribute(lines) ==> lines.len()
            > 0 && scan_result(path, content, is_binary, marker) == Ok::<
            Seq<CandidateLineView>,
            ScanError,
        >(lines),
        is_binary ==> step_for(path, content, is_binary, marker) == StepView::Skip,
{
}

/// The records of a scanned file rise strictly by line number, whatever
/// its content, the marker, the attributions and the policy.
pub proof fn lemma_file_output_ascending(
    path: Seq<char>,
    lines: Seq<Seq<char>>,
    marker: Seq<char>,
    attributions: Seq<Option<AttributionView>>,
    policy: LinePolicy,
)
    ensures
        records_ascending(file_records(candidates_in(path, lines, marker), attributions, policy)),
{
    lemma_candidates_ascending(path, lines, marker);
    lemma_file_records_ascending(candidates_in(path, lines, marker), attributions, policy);
}

/// A copy of a record, field for field.
pub fn clone_record(record: &Record) -> (copy: Record)
    ensures
        copy@ == record@,
{
    let rendered_line: Option<String> = match &record.rendered_line {
        Some(text) => Some(text.clone()),
        None => None,
    };
    Record {
        path: record.path.clone(),
        line_number: record.line_number,
        short_commit_id: record.short_commit_id.clone(),
        author: record.author.clone(),
        rendered_line,
        datetime: record.datetime.clone(),
    }
}

/// Puts the records of the next file behind those of the files before it.
pub fn append_file_records(all: &mut Vec<Record>, file: Vec<Record>)
    ensures
        record_views(final(all)@) == record_views(old(all)@) + record_views(file@),
        final(all)@.len() == old(all)@.len() + file@.len(),
{
    let mut file = file;
    let ghost incoming = file@;
    all.append(&mut file);
    proof {
        assert(record_views(all@) =~= record_views(old(all)@) + record_views(incoming));
    }
}

/// A copy of the records of one file, in their order.
pub fn clone_records(file: &Vec<Record>) -> (copy: Vec<Record>)
    ensures
        record_views(copy@) == record_views(file@),
        copy@.len() == file@.len(),
{
    let mut copy: Vec<Record> = Vec::new();
    let mut k: usize = 0;
    while k < file.len()
        invariant
            0 <= k <= file@.len(),
            copy@.len() == k,
            record_views(copy@) == record_views(file@).take(k as int),
        decreases file@.len() - k,
    {
        let next: Record = clone_record(&file[k]);
        let ghost sofar = record_views(copy@);
        copy.push(next);
        proof {
            assert(record_views(copy@) =~= sofar.push(next@));
            assert(record_views(file@).take(k + 1) =~= record_views(file@).take(k as int).push(
                file@[k as int]@,
            ));
        }
        k += 1;
    }
    proof {
        assert(record_views(file@).take(file@.len() as int) =~= record_views(file@));
    }
    copy
}

/// Lines up the records of all files in the order in which the files were
/// visited, whatever the order in which their records were resolved.
pub fn merge_in_traversal_order(per_file: &Vec<Vec<Record>>) -> (all: Vec<Record>)
    ensures
        record_views(all@) == in_traversal_order(file_views(per_file@)),
{
    let mut all: Vec<Record> = Vec::new();
    let ghost files = file_views(per_file@);
    let mut f: usize = 0;
    proof {
        assert(record_views(all@) =~= in_traversal_order(files.take(0)));
    }
    while f < per_file.len()
        invariant
            0 <= f <= per_file@.len(),
            files == file_views(per_file@),
            record_views(all@) == in_traversal_order(files.take(f as int)),
        decreases per_file@.len() - f,
    {
        let copy: Vec<Record> = clone_records(&per_file[f]);
        append_file_records(&mut all, copy);
        proof {
            assert(files.take(f + 1).drop_last() =~= files.take(f as int));
            assert(files.take(f + 1).last() == record_views(per_file@[f as int]@));
        }
        f += 1;
    }
    proof {
        assert(files.take(per_file@.len() as int) =~= files);
    }
    all
}

/// The records of a file begin where those of the file before it end.
pub proof fn lemma_start_step(per_file: Seq<Seq<RecordView>>, f: int)
    requires
        0 <= f < per_file.len(),
    ensures
        start_of(per_file, f + 1) == start_of(per_file, f) + per_file[f].len(),
        start_of(per_file, 0) == 0,
        start_of(per_file, per_file.len() as int) == in_traversal_order(per_file).len(),
{
    assert(per_file.take(f + 1).drop_last() =~= per_file.take(f));
    assert(per_file.take(f + 1).last() == per_file[f]);
    assert(per_file.take(0).len() == 0);
    assert(per_file.take(per_file.len() as int) =~= per_file);
}

/// The records of an earlier file end before those of a later file begin.
pub proof fn lemma_start_monotone(per_file: Seq<Seq<RecordView>>, f: int, g: int)
    requires
        0 <= f < g <= per_file.len(),
    ensures
        start_of(per_file, f) + per_file[f].len() <= start_of(per_file, g),
    decreases g - f,
{
    lemma_start_step(per_file, f);
    if f + 1 < g {
        lemma_start_monotone(per_file, f + 1, g);
    }
}

/// The output holds record `a` of file `f` at the file's start plus `a`.
pub proof fn lemma_record_position(per_file: Seq<Seq<RecordView>>, f: int, a: int)
    requires
        0 <= f < per_file.len(),
        0 <= a < per_file[f].len(),
    ensures
        0 <= start_of(per_file, f) + a < in_traversal_order(per_file).len(),
        in_traversal_order(per_file)[start_of(per_file, f) + a] == per_file[f][a],
    decreases per_file.len(),
{
    let shorter = per_file.drop_last();
    if f == per_file.len() - 1 {
        assert(per_file.take(f) =~= shorter);
    } else {
        lemma_record_position(shorter, f, a);
        assert(shorter.take(f) =~= per_file.take(f));
    }
}

/// Across files the output follows the order in which the files were
/// visited: every record of an earlier file stands before every record of
/// a later file, whatever commits, times or authors the records name.
pub proof fn lemma_traversal_order(per_file: Seq<Seq<RecordView>>, f: int, g: int, a: int, b: int)
    requires
        0 <= f < g < per_file.len(),
        0 <= a < per_file[f].len(),
        0 <= b < per_file[g].len(),
    ensures
        0 <= start_of(per_file, f) + a < start_of(per_file, g) + b < in_traversal_order(
            per_file,
        ).len(),
        in_traversal_order(per_file)[start_of(per_file, f) + a] == per_file[f][a],
        in_traversal_order(per_file)[start_of(per_file, g) + b] == per_file[g][b],
{
    lemma_start_monotone(per_file, f, g);
    lemma_record_position(per_file, f, a);
    lemma_record_position(per_file, g, b);
}

} // verus!
