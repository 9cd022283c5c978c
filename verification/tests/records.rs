use git_todos::model::{Attribution, CandidateLine, CommitTime, LinePolicy, Record};
use git_todos::pipeline::{
    append_file_records, clone_record, clone_records, merge_in_traversal_order,
};
use git_todos::record::{
    build_file_records, build_record, render_line, resolve_record, short_commit_id,
};
use git_todos::timefmt::gittime_to_datetime;

fn candidate(path: &str, line_number: usize, raw_text: &str) -> CandidateLine {
    CandidateLine { path: path.to_string(), line_number, raw_text: raw_text.to_string() }
}

fn time(seconds: i64, sign: char, offset_minutes: i32) -> CommitTime {
    CommitTime { seconds, sign, offset_minutes }
}

fn attribution(commit_id: &str, author: &str, t: CommitTime) -> Attribution {
    Attribution { commit_id: commit_id.to_string(), author: author.to_string(), time: t }
}

fn record(path: &str, line_number: usize, id: &str, author: &str, datetime: &str) -> Record {
    Record {
        path: path.to_string(),
        line_number,
        short_commit_id: id.to_string(),
        author: author.to_string(),
        rendered_line: None,
        datetime: datetime.to_string(),
    }
}

const JANE: &str = "Jane Doe <jane@x.com>";
const FULL_ID: &str = "abcdef1234567890abcdef1234567890abcdef12";

#[test]
fn record_of_an_attributed_line() {
    let c = candidate("a.txt", 3, "// TODO: fix X");
    let a = Some(attribution(FULL_ID, JANE, time(1672646400, '+', 120)));
    let got = resolve_record(&c, &a, &LinePolicy::Omit);
    assert_eq!(got, Some(record("a.txt", 3, "abcdef1", JANE, "2023-01-02T10:00:00+02:00")));
}

#[test]
fn datetime_keeps_the_commit_offset() {
    assert_eq!(
        gittime_to_datetime(&time(1672646400, '+', 120)),
        Some("2023-01-02T10:00:00+02:00".to_string())
    );
    assert_eq!(
        gittime_to_datetime(&time(1672646400, '+', 0)),
        Some("2023-01-02T08:00:00+00:00".to_string())
    );
    assert_eq!(
        gittime_to_datetime(&time(1431648000, '+', 330)),
        Some("2015-05-15T05:30:00+05:30".to_string())
    );
}

#[test]
fn datetime_west_of_utc_has_a_negative_offset() {
    assert_eq!(
        gittime_to_datetime(&time(1672646400, '-', -300)),
        Some("2023-01-02T03:00:00-05:00".to_string())
    );
    assert_eq!(
        gittime_to_datetime(&time(1672646400, '-', -210)),
        Some("2023-01-02T04:30:00-03:30".to_string())
    );
    assert_eq!(
        gittime_to_datetime(&time(0, '-', -300)),
        Some("1969-12-31T19:00:00-05:00".to_string())
    );
}

#[test]
fn datetime_follows_the_signed_minutes_whatever_the_sign_character() {
    let east = Some("2023-01-02T10:00:00+02:00".to_string());
    let west = Some("2023-01-02T06:00:00-02:00".to_string());
    let zero = Some("2023-01-02T08:00:00+00:00".to_string());
    for sign in ['+', '-', ' '] {
        assert_eq!(gittime_to_datetime(&time(1672646400, sign, 120)), east);
        assert_eq!(gittime_to_datetime(&time(1672646400, sign, -120)), west);
        assert_eq!(gittime_to_datetime(&time(1672646400, sign, 0)), zero);
    }
}

#[test]
fn datetime_with_an_offset_of_a_day_or_more_is_unavailable() {
    assert_eq!(gittime_to_datetime(&time(0, '+', 1440)), None);
    assert_eq!(gittime_to_datetime(&time(0, '-', -1440)), None);
    assert_eq!(gittime_to_datetime(&time(0, '+', i32::MAX)), None);
    assert_eq!(gittime_to_datetime(&time(0, '-', i32::MIN)), None);
    assert_eq!(gittime_to_datetime(&time(0, '+', 1439)), Some("1970-01-01T23:59:00+23:59".to_string()));
    assert_eq!(gittime_to_datetime(&time(0, '-', -1439)), Some("1969-12-31T00:01:00-23:59".to_string()));
}

#[test]
fn datetime_from_1970_to_9999_is_always_available() {
    assert_eq!(
        gittime_to_datetime(&time(253402300799, '+', 0)),
        Some("9999-12-31T23:59:59+00:00".to_string())
    );
    assert_eq!(gittime_to_datetime(&time(0, '+', 0)), Some("1970-01-01T00:00:00+00:00".to_string()));
    for seconds in [0i64, 1, 86399, 951782400, 1672646400, 4102444800, 253402300799] {
        for minutes in [-1439, -300, 0, 1, 330, 1439] {
            assert!(gittime_to_datetime(&time(seconds, '+', minutes)).is_some());
        }
    }
}

#[test]
fn datetime_out_of_the_calendar_is_unavailable() {
    assert_eq!(gittime_to_datetime(&time(i64::MAX, '+', 0)), None);
    assert_eq!(gittime_to_datetime(&time(i64::MIN, '+', 0)), None);
}

#[test]
fn short_commit_id_is_the_first_seven_characters() {
    assert_eq!(short_commit_id(FULL_ID), Some("abcdef1".to_string()));
    assert_eq!(short_commit_id("1234567"), Some("1234567".to_string()));
    let short = short_commit_id(FULL_ID).unwrap();
    assert_eq!(short.len(), 7);
    assert!(FULL_ID.starts_with(&short));
}

#[test]
fn short_commit_id_of_a_short_identifier_is_none() {
    assert_eq!(short_commit_id("123456"), None);
    assert_eq!(short_commit_id(""), None);
}

#[test]
fn render_line_omit_carries_nothing() {
    assert_eq!(render_line("  // TODO: fix X  ", &LinePolicy::Omit), None);
}

#[test]
fn render_line_full_is_the_trimmed_line() {
    assert_eq!(
        render_line("  \t// TODO: fix X \r", &LinePolicy::Full),
        Some("// TODO: fix X".to_string())
    );
    assert_eq!(
        render_line("\u{3000}TODO: x\u{a0}\u{2003}", &LinePolicy::Full),
        Some("TODO: x".to_string())
    );
}

#[test]
fn render_line_excerpt_clamps() {
    assert_eq!(
        render_line("    // TODO: fix the parser", &LinePolicy::Excerpt(12)),
        Some("// TODO: fix".to_string())
    );
    assert_eq!(render_line("   TODO: x ", &LinePolicy::Excerpt(12)), Some("TODO: x".to_string()));
    assert_eq!(render_line("   TODO: x ", &LinePolicy::Excerpt(0)), Some(String::new()));
}

#[test]
fn rendered_line_is_present_unless_omitted() {
    let c = candidate("a.txt", 1, "  TODO: write the report  ");
    let a = Some(attribution(FULL_ID, JANE, time(0, '+', 0)));
    let omit = resolve_record(&c, &a, &LinePolicy::Omit).unwrap();
    let excerpt = resolve_record(&c, &a, &LinePolicy::Excerpt(12)).unwrap();
    let full = resolve_record(&c, &a, &LinePolicy::Full).unwrap();
    assert_eq!(omit.rendered_line, None);
    assert_eq!(excerpt.rendered_line, Some("TODO: write ".to_string()));
    assert_eq!(full.rendered_line, Some("TODO: write the report".to_string()));
}

#[test]
fn build_record_takes_the_datetime_as_given() {
    let c = candidate("dir/b.rs", 9, " TODO: y");
    let a = attribution(FULL_ID, JANE, time(0, '+', 0));
    let got = build_record(&c, &a, "when".to_string(), &LinePolicy::Full).unwrap();
    assert_eq!(got.path, "dir/b.rs");
    assert_eq!(got.line_number, 9);
    assert_eq!(got.short_commit_id, "abcdef1");
    assert_eq!(got.author, JANE);
    assert_eq!(got.rendered_line, Some("TODO: y".to_string()));
    assert_eq!(got.datetime, "when");
}

#[test]
fn build_record_needs_seven_characters_of_identifier() {
    let c = candidate("a.txt", 1, "TODO: y");
    let a = attribution("abc", JANE, time(0, '+', 0));
    assert_eq!(build_record(&c, &a, "when".to_string(), &LinePolicy::Omit), None);
}

#[test]
fn line_without_attribution_gives_no_record() {
    let c = candidate("a.txt", 1, "TODO: y");
    assert_eq!(resolve_record(&c, &None, &LinePolicy::Full), None);
    let bad_time = Some(attribution(FULL_ID, JANE, time(0, '+', 5000)));
    assert_eq!(resolve_record(&c, &bad_time, &LinePolicy::Full), None);
}

#[test]
fn unattributed_lines_are_dropped_and_the_rest_keep_their_order() {
    let candidates = vec![
        candidate("a.txt", 2, "TODO: a"),
        candidate("a.txt", 5, "TODO: b"),
        candidate("a.txt", 7, "TODO: c"),
        candidate("a.txt", 9, "TODO: d"),
    ];
    let newer = "1111111aaaaaaaaaaaaaaaaaaaaaaaaaaaaaaaaa";
    let attributions = vec![
        Some(attribution(newer, "B <b@x>", time(1700000000, '+', 0))),
        None,
        Some(attribution(FULL_ID, JANE, time(1672646400, '+', 120))),
    ];
    let got = build_file_records(&candidates, &attributions, &LinePolicy::Omit);
    assert_eq!(
        got,
        vec![
            record("a.txt", 2, "1111111", "B <b@x>", "2023-11-14T22:13:20+00:00"),
            record("a.txt", 7, "abcdef1", JANE, "2023-01-02T10:00:00+02:00"),
        ]
    );
    assert!(got.windows(2).all(|w| w[0].line_number < w[1].line_number));
}

#[test]
fn no_candidates_no_records() {
    let got = build_file_records(&vec![], &vec![None], &LinePolicy::Full);
    assert_eq!(got, vec![]);
}

#[test]
fn western_commit_keeps_its_offset_in_the_record() {
    let c = candidate("a.txt", 3, "// TODO: fix X");
    let a = Some(attribution(FULL_ID, JANE, time(1672646400, '-', -300)));
    let got = resolve_record(&c, &a, &LinePolicy::Omit);
    assert_eq!(got, Some(record("a.txt", 3, "abcdef1", JANE, "2023-01-02T03:00:00-05:00")));
}

#[test]
fn every_record_shows_a_seven_character_prefix() {
    let ids = ["0123456789abcdef0123456789abcdef01234567", "fedcba9876543210fedcba9876543210fedcba98"];
    let candidates = vec![candidate("a", 1, "TODO:"), candidate("a", 2, "TODO:")];
    let attributions: Vec<Option<Attribution>> =
        ids.iter().map(|id| Some(attribution(id, JANE, time(0, '+', 0)))).collect();
    let got = build_file_records(&candidates, &attributions, &LinePolicy::Omit);
    assert_eq!(got.len(), 2);
    for (r, id) in got.iter().zip(ids.iter()) {
        assert_eq!(r.short_commit_id.chars().count(), 7);
        assert!(id.starts_with(&r.short_commit_id));
    }
}

#[test]
fn output_follows_traversal_order_not_commit_time() {
    let old = Some(attribution(FULL_ID, JANE, time(1000000000, '+', 0)));
    let new = Some(attribution("9999999aaaaaaaaaaaaaaaaaaaaaaaaaaaaaaaaa", "Z <z@x>", time(1700000000, '+', 0)));
    let a = build_file_records(&vec![candidate("a.txt", 4, "TODO: a")], &vec![old.clone()], &LinePolicy::Omit);
    let b = build_file_records(&vec![candidate("b.txt", 1, "TODO: b")], &vec![new.clone()], &LinePolicy::Omit);
    let merged = merge_in_traversal_order(&vec![a.clone(), b.clone()]);
    let paths: Vec<&str> = merged.iter().map(|r| r.path.as_str()).collect();
    assert_eq!(paths, vec!["a.txt", "b.txt"]);

    let a2 = build_file_records(&vec![candidate("a.txt", 4, "TODO: a")], &vec![new], &LinePolicy::Omit);
    let b2 = build_file_records(&vec![candidate("b.txt", 1, "TODO: b")], &vec![old], &LinePolicy::Omit);
    let merged2 = merge_in_traversal_order(&vec![a2, b2]);
    let paths2: Vec<&str> = merged2.iter().map(|r| r.path.as_str()).collect();
    assert_eq!(paths2, vec!["a.txt", "b.txt"]);
}

#[test]
fn merge_concatenates_files_in_order() {
    let r = |p: &str, n: usize| record(p, n, "abcdef1", JANE, "t");
    let per_file = vec![vec![r("a", 1), r("a", 5)], vec![], vec![r("b", 2)], vec![r("c", 1), r("c", 2)]];
    let merged = merge_in_traversal_order(&per_file);
    assert_eq!(merged, vec![r("a", 1), r("a", 5), r("b", 2), r("c", 1), r("c", 2)]);
    assert_eq!(merge_in_traversal_order(&vec![]), vec![]);
}

#[test]
fn append_puts_the_next_file_last() {
    let r = |p: &str, n: usize| record(p, n, "abcdef1", JANE, "t");
    let mut all = vec![r("a", 1)];
    append_file_records(&mut all, vec![r("b", 3), r("b", 4)]);
    append_file_records(&mut all, vec![]);
    assert_eq!(all, vec![r("a", 1), r("b", 3), r("b", 4)]);
}

#[test]
fn clone_record_copies_every_field() {
    let mut first = record("a", 1, "abcdef1", JANE, "t");
    first.rendered_line = Some("TODO: x".to_string());
    assert_eq!(clone_record(&first), first);
    first.rendered_line = None;
    assert_eq!(clone_record(&first), first);
}

fn is_white_space(c: char) -> bool {
    let n = c as u32;
    (0x09..=0x0D).contains(&n)
        || n == 0x20
        || n == 0x85
        || n == 0xA0
        || n == 0x1680
        || (0x2000..=0x200A).contains(&n)
        || n == 0x2028
        || n == 0x2029
        || n == 0x202F
        || n == 0x205F
        || n == 0x3000
}

#[test]
fn trimming_removes_white_space_and_nothing_else() {
    let mut text = String::new();
    for n in 0..=0x10FFFFu32 {
        if let Some(c) = char::from_u32(n) {
            text.clear();
            text.push(c);
            text.push('x');
            text.push(c);
            let got = render_line(&text, &LinePolicy::Full).unwrap();
            if is_white_space(c) {
                assert_eq!(got, "x");
            } else {
                assert_eq!(got, text);
            }
        }
    }
}

#[test]
fn trimming_leaves_inner_white_space() {
    assert_eq!(render_line(" \t a \t b \n", &LinePolicy::Full), Some("a \t b".to_string()));
    assert_eq!(render_line(" \t \n", &LinePolicy::Full), Some(String::new()));
    assert_eq!(render_line("", &LinePolicy::Full), Some(String::new()));
}

#[test]
fn clone_records_copies_a_file() {
    let r = |p: &str, n: usize| record(p, n, "abcdef1", JANE, "t");
    let file = vec![r("a", 1), r("a", 2), r("a", 9)];
    assert_eq!(clone_records(&file), file);
    assert_eq!(clone_records(&vec![]), vec![]);
}
