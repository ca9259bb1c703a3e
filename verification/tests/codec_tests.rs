use task_board::board::TaskList;
use task_board::codec::{decode_lists, encode_lists};

fn lists(cols: Vec<(&str, Vec<&str>)>) -> Vec<TaskList> {
    cols.into_iter()
        .map(|(name, tasks)| TaskList {
            name: name.to_string(),
            tasks: tasks.into_iter().map(|t| t.to_string()).collect(),
        })
        .collect()
}

fn same(a: &[TaskList], b: &[TaskList]) -> bool {
    a.len() == b.len()
        && a.iter().zip(b.iter()).all(|(x, y)| x.name == y.name && x.tasks == y.tasks)
}

#[test]
fn encode_exact_simple() {
    let ls = lists(vec![("A", vec!["x"])]);
    assert_eq!(encode_lists(&ls), r#"[{"name":"A","tasks":["x"]}]"#);
}

#[test]
fn encode_exact_two_columns() {
    let ls = lists(vec![("A", vec!["x", "y"]), ("B", vec![])]);
    assert_eq!(
        encode_lists(&ls),
        r#"[{"name":"A","tasks":["x","y"]},{"name":"B","tasks":[]}]"#
    );
}

#[test]
fn encode_escapes_quotes_and_backslashes() {
    let ls = lists(vec![("A", vec![r#"say "hi""#, r"a\b"])]);
    assert_eq!(
        encode_lists(&ls),
        r#"[{"name":"A","tasks":["say \"hi\"","a\\b"]}]"#
    );
}

#[test]
fn round_trip_plain_board() {
    let ls = lists(vec![
        ("Backlog", vec!["write tests", "ship"]),
        ("In Progress", vec![]),
        ("Done", vec![""]),
    ]);
    let text = encode_lists(&ls);
    let back = decode_lists(&text).expect("decodes");
    assert!(same(&ls, &back));
}

#[test]
fn round_trip_empty_board() {
    let ls: Vec<TaskList> = Vec::new();
    let text = encode_lists(&ls);
    assert_eq!(text, "[]");
    let back = decode_lists(&text).expect("decodes");
    assert!(back.is_empty());
}

#[test]
fn round_trip_awkward_texts() {
    let ls = lists(vec![
        (r#"na"me"#, vec![r"\\", r#"""#, "", "a,b", "{}[]:", "héllo ☃"]),
        ("", vec!["trailing\\"]),
    ]);
    let text = encode_lists(&ls);
    let back = decode_lists(&text).expect("decodes");
    assert!(same(&ls, &back));
}

#[test]
fn decode_rejects_malformed_input() {
    assert!(decode_lists("").is_none());
    assert!(decode_lists("[").is_none());
    assert!(decode_lists("]").is_none());
    assert!(decode_lists("{}").is_none());
    assert!(decode_lists(r#"[{"name":"A","tasks":[]}"#).is_none());
    assert!(decode_lists(r#"[{"name":"A","tasks":[]}]x"#).is_none());
    assert!(decode_lists(r#"[{"name":A,"tasks":[]}]"#).is_none());
    assert!(decode_lists(r#"[{"name":"A","tasks":["unterminated]}]"#).is_none());
    assert!(decode_lists(r#"[{"name":"A","tasks":["bad\escape"]}]"#).is_none());
    assert!(decode_lists(r#"[{"name":"A"}]"#).is_none());
    assert!(decode_lists(r#"[,]"#).is_none());
}

#[test]
fn decode_accepts_exact_encoding_only() {
    // The strict reader takes the writer's spacing, not a prettified variant.
    assert!(decode_lists(r#"[{"name": "A","tasks":[]}]"#).is_none());
    assert!(decode_lists(r#"[{"name":"A","tasks":[]}]"#).is_some());
}
