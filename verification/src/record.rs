//! Building output records from candidate lines and their attributions.

use crate::model::{
    attribution_view, attribution_views, candidate_views, record_views, text_of, Attribution,
    AttributionView, CandidateLine, CandidateLineView, LinePolicy, Record, RecordView,
};
use crate::text::{excerpt_line, excerpt_of, lemma_trimmed_is_part, trim_text, trimmed};
use crate::timefmt::{datetime_text, gittime_to_datetime, in_plain_range};
use vstd::prelude::*;
use vstd::string::*;

verus! {

/// Number of characters of a commit identifier that a record shows.
pub const SHORT_ID_LENGTH: usize = 7;

/// The first seven characters of a commit identifier; `None` where it has
/// fewer.
pub open spec fn short_id_of(commit_id: Seq<char>) -> Option<Seq<char>> {
    if commit_id.len() >= 7 {
        Some(commit_id.subrange(0, 7))
    } else {
        None
    }
}

/// The text that a record carries for a raw line under a policy.
pub open spec fn rendered_of(raw: Seq<char>, policy: LinePolicy) -> Option<Seq<char>> {
    match policy {
        LinePolicy::Omit => None,
        LinePolicy::Excerpt(n) => Some(excerpt_of(trimmed(raw), n as nat)),
        LinePolicy::Full => Some(trimmed(raw)),
    }
}

/// The record of a candidate line, given its attribution and the rendered
/// time of the commit; `None` where the commit identifier is too short to
/// abbreviate.
pub open spec fn record_of(
    c: CandidateLineView,
    a: AttributionView,
    datetime: Seq<char>,
    policy: LinePolicy,
) -> Option<RecordView> {
    match short_id_of(a.commit_id) {
        Some(id) => Some(
            RecordView {
                path: c.path,
                line_number: c.line_number,
                short_commit_id: id,
                author: a.author,
                rendered_line: rendered_of(c.raw_text, policy),
                datetime,
            },
        ),
        None => None,
    }
}

/// The record of a candidate line whose attribution may be unavailable:
/// `None` where it is, where the commit's time cannot be rendered, or where
/// the commit identifier is too short.
pub open spec fn resolved_record(
    c: CandidateLineView,
    a: Option<AttributionView>,
    policy: LinePolicy,
) -> Option<RecordView> {
    match a {
        Some(attribution) => match datetime_text(attribution.time) {
            Some(datetime) => record_of(c, attribution, datetime, policy),
            None => None,
        },
        None => None,
    }
}

/// An attribution that is sure to give a record: it is there, its commit
/// identifier has seven characters or more, its instant lies between 1970
/// and the end of 9999, and its offset is less than a day.
pub open spec fn resolvable(a: Option<AttributionView>) -> bool {
    &&& a is Some
    &&& a.unwrap().commit_id.len() >= 7
    &&& in_plain_range(a.unwrap().time.seconds as int)
    &&& -1440 < a.unwrap().time.offset_minutes < 1440
}

/// The attribution that stands for the candidate at `index`: the entry at
/// that position, unavailable where the run of attributions ends sooner.
pub open spec fn attribution_at(attributions: Seq<Option<AttributionView>>, index: int) -> Option<
    AttributionView,
> {
    if 0 <= index < attributions.len() {
        attributions[index]
    } else {
        None
    }
}

/// The records of one file: one for each candidate whose record resolves,
/// in the candidates' order; the others are dropped.
pub open spec fn file_records(
    candidates: Seq<CandidateLineView>,
    attributions: Seq<Option<AttributionView>>,
    policy: LinePolicy,
) -> Seq<RecordView>
    decreases candidates.len(),
{
    if candidates.len() == 0 {
        seq![]
    } else {
        let earlier = file_records(candidates.drop_last(), attributions, policy);
        let last = candidates.len() - 1;
        match resolved_record(candidates[last], attribution_at(attributions, last), policy) {
            Some(r) => earlier.push(r),
            None => earlier,
        }
    }
}

/// Line numbers rise strictly along a run of candidates.
pub open spec fn candidates_ascending(candidates: Seq<CandidateLineView>) -> bool {
    forall|i: int, j: int|
        0 <= i < j < candidates.len() ==> candidates[i].line_number < candidates[j].line_number
}

/// Line numbers rise strictly along a run of records.
pub open spec fn records_ascending(records: Seq<RecordView>) -> bool {
    forall|i: int, j: int|
        0 <= i < j < records.len() ==> records[i].line_number < records[j].line_number
}

/// The first seven characters of a commit identifier, for display.
pub fn short_commit_id(commit_id: &str) -> (r: Option<String>)
    ensures
        text_of(r) == short_id_of(commit_id@),
        r is Some <==> commit_id@.len() >= 7,
        r is Some ==> r.unwrap()@.len() == 7 && r.unwrap()@.is_prefix_of(commit_id@),
{
    let total: usize = commit_id.unicode_len();
    if total < SHORT_ID_LENGTH {
        None
    } else {
        let head: &str = commit_id.substring_char(0, SHORT_ID_LENGTH);
        Some(head.to_owned())
    }
}

/// The text that a record carries for a raw line: nothing under `Omit`,
/// the trimmed line under `Full`, and under `Excerpt(n)` the first `n`
/// characters of the trimmed line, or all of it where it is shorter.
pub fn render_line(raw: &str, policy: &LinePolicy) -> (r: Option<String>)
    ensures
        text_of(r) == rendered_of(raw@, *policy),
        r is None <==> *policy == LinePolicy::Omit,
        match *policy {
            LinePolicy::Excerpt(n) => r is Some && r.unwrap()@.len() <= n,
            _ => true,
        },
{
    match policy {
        LinePolicy::Omit => None,
        LinePolicy::Excerpt(n) => {
            let clipped: &str = excerpt_line(trim_text(raw), *n);
            Some(clipped.to_owned())
        },
        LinePolicy::Full => {
            let whole: &str = trim_text(raw);
            Some(whole.to_owned())
        },
    }
}

/// Builds the record of a candidate line from its attribution and the
/// rendered time of the commit.
pub fn build_record(
    candidate: &CandidateLine,
    attribution: &Attribution,
    datetime: String,
    policy: &LinePolicy,
) -> (r: Option<Record>)
    ensures
        r is Some <==> attribution.commit_id@.len() >= 7,
        match r {
            Some(record) => Some(record@) == record_of(
                candidate@,
                attribution@,
                datetime@,
                *policy,
            ),
            None => record_of(candidate@, attribution@, datetime@, *policy) is None,
        },
        r is Some ==> r.unwrap()@.short_commit_id.len() == 7 && r.unwrap()@.short_commit_id.is_prefix_of(
            attribution@.commit_id,
        ),
{
    match short_commit_id(attribution.commit_id.as_str()) {
        Some(id) => Some(
            Record {
                path: candidate.path.clone(),
                line_number: candidate.line_number,
                short_commit_id: id,
                author: attribution.author.clone(),
                rendered_line: render_line(candidate.raw_text.as_str(), policy),
                datetime,
            },
        ),
        None => None,
    }
}

/// Builds the record of a candidate line whose attribution may be
/// unavailable. A line without attribution, with a commit time that cannot
/// be rendered, or with a commit identifier too short to abbreviate gives
/// no record.
pub fn resolve_record(
    candidate: &CandidateLine,
    attribution: &Option<Attribution>,
    policy: &LinePolicy,
) -> (r: Option<Record>)
    ensures
        match r {
            Some(record) => Some(record@) == resolved_record(
                candidate@,
                attribution_view(*attribution),
                *policy,
            ),
            None => resolved_record(candidate@, attribution_view(*attribution), *policy) is None,
        },
        *attribution is None ==> r is None,
        resolvable(attribution_view(*attribution)) ==> r is Some,
{
    match attribution {
        Some(found) => match gittime_to_datetime(&found.time) {
            Some(datetime) => build_record(candidate, found, datetime, policy),
            None => None,
        },
        None => None,
    }
}

/// Builds the records of one file. The attribution at position `i` belongs
/// to the candidate at position `i`; a candidate beyond the end of
/// `attributions` counts as unavailable. Candidates whose record does not
/// resolve are dropped, the others keep their order.
pub fn build_file_records(
    candidates: &Vec<CandidateLine>,
    attributions: &Vec<Option<Attribution>>,
    policy: &LinePolicy,
) -> (records: Vec<Record>)
    ensures
        record_views(records@) == file_records(
            candidate_views(candidates@),
            attribution_views(attributions@),
            *policy,
        ),
        records@.len() <= candidates@.len(),
        candidates_ascending(candidate_views(candidates@)) ==> records_ascending(
            record_views(records@),
        ),
        (forall|k: int|
            0 <= k < candidates@.len() ==> resolvable(
                #[trigger] attribution_at(attribution_views(attributions@), k),
            )) ==> records@.len() == candidates@.len(),
{
    let mut records: Vec<Record> = Vec::new();
    let ghost cs = candidate_views(candidates@);
    let ghost avs = attribution_views(attributions@);
    let unavailable: Option<Attribution> = None;
    let mut i: usize = 0;
    while i < candidates.len()
        invariant
            0 <= i <= candidates@.len(),
            cs == candidate_views(candidates@),
            avs == attribution_views(attributions@),
            unavailable is None,
            records@.len() <= i,
            (forall|k: int| 0 <= k < i ==> resolvable(#[trigger] attribution_at(avs, k)))
                ==> records@.len() == i,
            record_views(records@) == file_records(cs.take(i as int), avs, *policy),
        decreases candidates@.len() - i,
    {
        let attribution: &Option<Attribution> = if i < attributions.len() {
            &attributions[i]
        } else {
            &unavailable
        };
        let built: Option<Record> = resolve_record(&candidates[i], attribution, policy);
        proof {
            assert(cs.take(i + 1).drop_last() =~= cs.take(i as int));
            assert(cs.take(i + 1)[i as int] == candidates@[i as int]@);
            assert(attribution_view(*attribution) == attribution_at(avs, i as int));
        }
        let ghost before = record_views(records@);
        match built {
            Some(record) => {
                records.push(record);
                proof {
                    assert(record_views(records@) =~= before.push(record@));
                }
            },
            None => {},
        }
        i += 1;
    }
    proof {
        assert(cs.take(candidates@.len() as int) =~= cs);
        if candidates_ascending(cs) {
            lemma_file_records_ascending(cs, avs, *policy);
        }
    }
    records
}

/// A record that resolves keeps the candidate's path and line number, takes
/// its author from the attribution, and shows exactly seven characters of
/// the commit identifier, which are the identifier's first seven.
pub proof fn lemma_resolved_record_fields(
    c: CandidateLineView,
    a: Option<AttributionView>,
    policy: LinePolicy,
)
    requires
        resolved_record(c, a, policy) is Some,
    ensures
        a is Some,
        resolved_record(c, a, policy).unwrap().path == c.path,
        resolved_record(c, a, policy).unwrap().line_number == c.line_number,
        resolved_record(c, a, policy).unwrap().author == a.unwrap().author,
        resolved_record(c, a, policy).unwrap().short_commit_id.len() == 7,
        resolved_record(c, a, policy).unwrap().short_commit_id.is_prefix_of(a.unwrap().commit_id),
        resolved_record(c, a, policy).unwrap().rendered_line is None <==> policy
            == LinePolicy::Omit,
{
}

/// An excerpt is never longer than asked for nor than the trimmed line, of
/// which it is the beginning; a trimmed line that fits is carried whole.
pub proof fn lemma_excerpt_clamps(raw: Seq<char>, n: usize)
    ensures
        rendered_of(raw, LinePolicy::Excerpt(n)) is Some,
        rendered_of(raw, LinePolicy::Excerpt(n)).unwrap().len() <= n,
        rendered_of(raw, LinePolicy::Excerpt(n)).unwrap().len() <= raw.len(),
        rendered_of(raw, LinePolicy::Excerpt(n)).unwrap().is_prefix_of(trimmed(raw)),
        trimmed(raw).len() <= n ==> rendered_of(raw, LinePolicy::Excerpt(n)) == Some(trimmed(raw)),
{
    let bounds = lemma_trimmed_is_part(raw);
}

/// Every record of a file is the resolved record of one of its candidates,
/// taken with the attribution at the candidate's position.
pub proof fn lemma_file_records_origin(
    candidates: Seq<CandidateLineView>,
    attributions: Seq<Option<AttributionView>>,
    policy: LinePolicy,
    k: int,
) -> (j: int)
    requires
        0 <= k < file_records(candidates, attributions, policy).len(),
    ensures
        0 <= j < candidates.len(),
        k <= j,
        resolved_record(candidates[j], attribution_at(attributions, j), policy) == Some(
            file_records(candidates, attributions, policy)[k],
        ),
    decreases candidates.len(),
{
    let last = candidates.len() - 1;
    let earlier = file_records(candidates.drop_last(), attributions, policy);
    lemma_file_records_bounded(candidates.drop_last(), attributions, policy);
    if k < earlier.len() {
        let j = lemma_file_records_origin(candidates.drop_last(), attributions, policy, k);
        j
    } else {
        last
    }
}

/// A file has at most one record for each candidate.
pub proof fn lemma_file_records_bounded(
    candidates: Seq<CandidateLineView>,
    attributions: Seq<Option<AttributionView>>,
    policy: LinePolicy,
)
    ensures
        file_records(candidates, attributions, policy).len() <= candidates.len(),
    decreases candidates.len(),
{
    if candidates.len() > 0 {
        lemma_file_records_bounded(candidates.drop_last(), attributions, policy);
    }
}

/// Every record of a file shows exactly seven characters of a commit
/// identifier, and they are the first seven of the identifier that the
/// attribution of its line holds.
pub proof fn lemma_short_ids_are_prefixes(
    candidates: Seq<CandidateLineView>,
    attributions: Seq<Option<AttributionView>>,
    policy: LinePolicy,
)
    ensures
        forall|k: int|
            0 <= k < file_records(candidates, attributions, policy).len() ==> {
                let r = #[trigger] file_records(candidates, attributions, policy)[k];
                r.short_commit_id.len() == 7 && exists|j: int|
                    0 <= j < candidates.len() && j < attributions.len()
                        && (#[trigger] attributions[j]) is Some
                        && candidates[j].line_number == r.line_number
                        && r.short_commit_id.is_prefix_of(attributions[j].unwrap().commit_id)
            },
{
    let records = file_records(candidates, attributions, policy);
    assert forall|k: int| 0 <= k < records.len() implies {
        let r = #[trigger] records[k];
        r.short_commit_id.len() == 7 && exists|j: int|
            0 <= j < candidates.len() && j < attributions.len() && (
            #[trigger] attributions[j]) is Some && candidates[j].line_number == r.line_number
                && r.short_commit_id.is_prefix_of(attributions[j].unwrap().commit_id)
    } by {
        let j = lemma_file_records_origin(candidates, attributions, policy, k);
        lemma_resolved_record_fields(candidates[j], attribution_at(attributions, j), policy);
        assert(attributions[j] is Some);
    }
}

/// Where the candidates of a file come with strictly rising line numbers,
/// so do its records, whichever of them were dropped.
pub proof fn lemma_file_records_ascending(
    candidates: Seq<CandidateLineView>,
    attributions: Seq<Option<AttributionView>>,
    policy: LinePolicy,
)
    requires
        candidates_ascending(candidates),
    ensures
        records_ascending(file_records(candidates, attributions, policy)),
{
    let records = file_records(candidates, attributions, policy);
    assert forall|a: int, b: int| 0 <= a < b < records.len() implies records[a].line_number
        < records[b].line_number by {
        let ja = lemma_file_records_position(candidates, attributions, policy, a, b);
        let (x, y) = ja;
        lemma_resolved_record_fields(candidates[x], attribution_at(attributions, x), policy);
        lemma_resolved_record_fields(candidates[y], attribution_at(attributions, y), policy);
    }
}

/// Two records of a file, one before the other, come from two candidates
/// in the same order.
pub proof fn lemma_file_records_position(
    candidates: Seq<CandidateLineView>,
    attributions: Seq<Option<AttributionView>>,
    policy: LinePolicy,
    a: int,
    b: int,
) -> (origin: (int, int))
    requires
        0 <= a < b < file_records(candidates, attributions, policy).len(),
    ensures
        0 <= origin.0 < origin.1 < candidates.len(),
        resolved_record(candidates[origin.0], attribution_at(attributions, origin.0), policy)
            == Some(file_records(candidates, attributions, policy)[a]),
        resolved_record(candidates[origin.1], attribution_at(attributions, origin.1), policy)
            == Some(file_records(candidates, attributions, policy)[b]),
    decreases candidates.len(),
{
    let last = candidates.len() - 1;
    let shorter = candidates.drop_last();
    let earlier = file_records(shorter, attributions, policy);
    lemma_file_records_bounded(shorter, attributions, policy);
    if b < earlier.len() {
        lemma_file_records_position(shorter, attributions, policy, a, b)
    } else {
        let x = lemma_file_records_origin(shorter, attributions, policy, a);
        (x, last)
    }
}

} // verus!
