use git_todos::model::Record;
use git_todos::output::{
    grid_table, html_table, json_line, json_lines, json_object, record_row, render, rows_of,
    OutputFormat, HTML_BORDER,
};

fn record(path: &str, line_number: usize, author: &str, line: Option<&str>) -> Record {
    Record {
        path: path.to_string(),
        line_number,
        short_commit_id: "abcdef1".to_string(),
        author: author.to_string(),
        rendered_line: line.map(|l| l.to_string()),
        datetime: "2023-01-02T10:00:00+02:00".to_string(),
    }
}

#[test]
fn json_leaves_out_a_missing_line() {
    let r = record("a.txt", 3, "Jane Doe <jane@x.com>", None);
    assert_eq!(
        json_line(&r),
        "{\"path\":\"a.txt\",\"lineno\":3,\"commit\":\"abcdef1\",\"author\":\"Jane Doe <jane@x.com>\",\"datetime\":\"2023-01-02T10:00:00+02:00\"}"
    );
}

#[test]
fn json_leaves_out_an_empty_line() {
    let r = record("a.txt", 3, "Jane", Some(""));
    assert!(!json_line(&r).contains("\"line\""));
}

#[test]
fn json_writes_a_rendered_line() {
    let r = record("a.txt", 3, "Jane", Some("// TODO: fix X"));
    assert_eq!(
        json_line(&r),
        "{\"path\":\"a.txt\",\"lineno\":3,\"commit\":\"abcdef1\",\"author\":\"Jane\",\"line\":\"// TODO: fix X\",\"datetime\":\"2023-01-02T10:00:00+02:00\"}"
    );
}

#[test]
fn json_escapes_strings() {
    let r = record("dir\\a \"b\".txt", 1, "Tab\tMan", Some("TODO: say \"hi\"\u{1}"));
    assert_eq!(
        json_line(&r),
        "{\"path\":\"dir\\\\a \\\"b\\\".txt\",\"lineno\":1,\"commit\":\"abcdef1\",\"author\":\"Tab\\tMan\",\"line\":\"TODO: say \\\"hi\\\"\\u0001\",\"datetime\":\"2023-01-02T10:00:00+02:00\"}"
    );
}

#[test]
fn json_line_parses_back() {
    let r = record("ü/a.txt", 42, "José \"J\" <j@x>", Some("TODO: 確認\\n"));
    let value: serde_json::Value = serde_json::from_str(&json_line(&r)).unwrap();
    assert_eq!(value["path"].as_str(), Some("ü/a.txt"));
    assert_eq!(value["lineno"].as_u64(), Some(42));
    assert_eq!(value["commit"].as_str(), Some("abcdef1"));
    assert_eq!(value["author"].as_str(), Some("José \"J\" <j@x>"));
    assert_eq!(value["line"].as_str(), Some("TODO: 確認\\n"));
    assert_eq!(value["datetime"].as_str(), Some("2023-01-02T10:00:00+02:00"));
    assert_eq!(value.as_object().unwrap().len(), 6);
}

#[test]
fn json_object_frames_what_it_is_given() {
    assert_eq!(
        json_object("P", 7, "C", "A", Some("L"), "D"),
        "{\"path\":P,\"lineno\":7,\"commit\":C,\"author\":A,\"line\":L,\"datetime\":D}"
    );
    assert_eq!(
        json_object("P", 0, "C", "A", None, "D"),
        "{\"path\":P,\"lineno\":0,\"commit\":C,\"author\":A,\"datetime\":D}"
    );
}

#[test]
fn json_lines_has_one_line_for_each_record() {
    let records = vec![record("a.txt", 3, "Jane", None), record("b.txt", 1, "Joe", Some("TODO: x"))];
    let text = json_lines(&records);
    let expected = format!("{}\n{}\n", json_line(&records[0]), json_line(&records[1]));
    assert_eq!(text, expected);
    assert_eq!(json_lines(&vec![]), "");
}

#[test]
fn rows_start_with_the_column_names() {
    let records = vec![record("a.txt", 3, "Jane", None), record("b.txt", 10, "Joe", Some("TODO: x"))];
    let rows = rows_of(&records);
    assert_eq!(
        rows,
        vec![
            vec!["path", "lineno", "commit", "author", "line", "datetime"],
            vec!["a.txt", "3", "abcdef1", "Jane", "", "2023-01-02T10:00:00+02:00"],
            vec!["b.txt", "10", "abcdef1", "Joe", "TODO: x", "2023-01-02T10:00:00+02:00"],
        ]
    );
    assert_eq!(record_row(&records[1]), rows[2]);
}

#[test]
fn grid_table_draws_every_cell() {
    let mut r = record("a.txt", 3, "Jane", None);
    r.datetime = "t".to_string();
    let expected = "\
+-------+--------+---------+--------+------+----------+
| path  | lineno | commit  | author | line | datetime |
+-------+--------+---------+--------+------+----------+
| a.txt | 3      | abcdef1 | Jane   |      | t        |
+-------+--------+---------+--------+------+----------+";
    assert_eq!(grid_table(&vec![r]), expected);
}

#[test]
fn html_table_has_a_border_and_every_cell() {
    let mut r = record("a.txt", 3, "Jane", Some("TODO: x"));
    r.datetime = "t".to_string();
    let text = html_table(&vec![r]);
    assert!(text.contains("1px solid"));
    assert_eq!(HTML_BORDER, 1);
    assert!(text.contains("<table"));
    assert!(text.ends_with("</tbody>\n</table>"));
    assert_eq!(text.matches("<tr>").count(), 2);
    assert_eq!(text.matches("<td>").count(), 12);
    for cell in ["path", "lineno", "commit", "author", "line", "datetime", "a.txt", "3", "abcdef1", "Jane", "TODO: x", "t"] {
        let block = format!("<td>\n                <div>\n                    <p>\n                        {}\n                    </p>\n                </div>\n            </td>", cell);
        assert!(text.contains(&block));
    }
}

#[test]
fn render_picks_the_format() {
    let records = vec![record("a.txt", 3, "Jane", None)];
    assert_eq!(render(&records, OutputFormat::Json), json_lines(&records));
    assert_eq!(render(&records, OutputFormat::Table), format!("{}\n", grid_table(&records)));
    assert_eq!(render(&records, OutputFormat::Html), format!("{}\n", html_table(&records)));
    assert_eq!(
        render(&records, OutputFormat::Csv),
        "path,lineno,commit,author,line,datetime\r\na.txt,3,abcdef1,Jane,,2023-01-02T10:00:00+02:00\r\n"
    );
}

fn expected_json_string(text: &str) -> String {
    let mut out = String::from("\"");
    for c in text.chars() {
        match c {
            '"' => out.push_str("\\\""),
            '\\' => out.push_str("\\\\"),
            '\u{8}' => out.push_str("\\b"),
            '\t' => out.push_str("\\t"),
            '\n' => out.push_str("\\n"),
            '\u{c}' => out.push_str("\\f"),
            '\r' => out.push_str("\\r"),
            c if (c as u32) < 0x20 => {
                let digits = ['0', '1', '2', '3', '4', '5', '6', '7', '8', '9', 'a', 'b', 'c', 'd', 'e', 'f'];
                out.push_str("\\u00");
                out.push(digits[(c as usize) / 16]);
                out.push(digits[(c as usize) % 16]);
            }
            c => out.push(c),
        }
    }
    out.push('"');
    out
}

#[test]
fn json_escapes_every_character_as_stated() {
    let mut r = record("p", 1, "", None);
    for n in 0..=0x10FFFFu32 {
        if let Some(c) = char::from_u32(n) {
            r.author.clear();
            r.author.push('x');
            r.author.push(c);
            r.author.push(c);
            r.author.push('y');
            let expected = format!(
                "{{\"path\":\"p\",\"lineno\":1,\"commit\":\"abcdef1\",\"author\":{},\"datetime\":\"2023-01-02T10:00:00+02:00\"}}",
                expected_json_string(&r.author)
            );
            assert_eq!(json_line(&r), expected);
        }
    }
}

#[test]
fn json_control_characters_have_their_escapes() {
    let r = record("p", 1, "\u{0}\u{7}\u{8}\t\n\u{b}\u{c}\r\u{e}\u{1f} \u{7f}", None);
    assert!(json_line(&r).contains(
        "\"author\":\"\\u0000\\u0007\\b\\t\\n\\u000b\\f\\r\\u000e\\u001f \u{7f}\""
    ));
}
