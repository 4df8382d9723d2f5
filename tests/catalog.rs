use gitit_mailserver::catalog::{Category, Link, RstDoc};
use gitit_mailserver::command::{CsvCommand, Dispatch, MailCommand, MailOperation};

fn command(c: &str, o: &str, cat: &str, sub: &str, url: &str) -> CsvCommand {
    CsvCommand {
        command: c.to_string(),
        operation: o.to_string(),
        category: cat.to_string(),
        subcategory: sub.to_string(),
        url: url.to_string(),
    }
}

fn link_texts(doc: &RstDoc, i: usize) -> Vec<(u16, String)> {
    doc.list[i].links.iter().map(|l| (l.id, l.link.clone())).collect()
}

fn keys(doc: &RstDoc) -> Vec<(String, String)> {
    doc.list.iter().map(|c| (c.category.clone(), c.subcategory.clone())).collect()
}

#[test]
fn scenario_a_first_link() {
    let mut doc = RstDoc::new();
    let d = doc.apply(&command("LINK", "ADD", "Books", "Fiction", "http://example.com/a"));
    assert_eq!(d, Dispatch::Applied);
    assert_eq!(doc.list.len(), 1);
    assert_eq!(doc.list[0].category, "Books");
    assert_eq!(doc.list[0].subcategory, "Fiction");
    assert_eq!(link_texts(&doc, 0), vec![(1, "http://example.com/a".to_string())]);
}

#[test]
fn scenario_b_same_link_again() {
    let mut doc = RstDoc::new();
    let cmd = command("LINK", "ADD", "Books", "Fiction", "http://example.com/a");
    doc.apply(&cmd);
    let d = doc.apply(&cmd);
    assert_eq!(d, Dispatch::Applied);
    assert_eq!(doc.list.len(), 1);
    assert_eq!(link_texts(&doc, 0), vec![(1, "http://example.com/a".to_string())]);
}

#[test]
fn scenario_c_second_link_appended() {
    let mut doc = RstDoc::new();
    doc.apply(&command("LINK", "ADD", "Books", "Fiction", "http://example.com/a"));
    doc.apply(&command("LINK", "ADD", "Books", "Fiction", "http://example.com/b"));
    assert_eq!(doc.list.len(), 1);
    assert_eq!(
        link_texts(&doc, 0),
        vec![(1, "http://example.com/a".to_string()), (1, "http://example.com/b".to_string())]
    );
}

#[test]
fn scenario_d_unknown_command_skipped() {
    let mut doc = RstDoc::new();
    doc.apply(&command("LINK", "ADD", "Books", "Fiction", "http://example.com/a"));
    let d = doc.apply(&command("NOTE", "ADD", "Books", "Fiction", "http://example.com/z"));
    assert_eq!(d, Dispatch::UnknownCommand);
    assert_eq!(doc.list.len(), 1);
    assert_eq!(link_texts(&doc, 0), vec![(1, "http://example.com/a".to_string())]);
}

#[test]
fn unknown_operation_skipped() {
    let mut doc = RstDoc::new();
    let d = doc.apply(&command("LINK", "DEL", "Books", "Fiction", "http://example.com/a"));
    assert_eq!(d, Dispatch::UnknownOperation);
    assert!(doc.list.is_empty());
}

#[test]
fn apply_twice_equals_once_on_empty() {
    let cmd = command("LINK", "ADD", "Music", "Jazz", "http://example.com/j");
    let mut once = RstDoc::new();
    once.apply(&cmd);
    let mut twice = RstDoc::new();
    twice.apply(&cmd);
    twice.apply(&cmd);
    assert_eq!(keys(&once), keys(&twice));
    assert_eq!(link_texts(&once, 0), link_texts(&twice, 0));
}

#[test]
fn new_category_goes_last_and_keys_stay_unique() {
    let mut doc = RstDoc::new();
    let cmds = vec![
        command("LINK", "ADD", "Books", "Fiction", "a"),
        command("LINK", "ADD", "Books", "Poetry", "b"),
        command("LINK", "ADD", "Books", "Fiction", "c"),
        command("LINK", "ADD", "Art", "Fiction", "d"),
        command("LINK", "ADD", "Books", "Fiction", "a"),
    ];
    let done = doc.apply_all(&cmds);
    assert_eq!(done, vec![Dispatch::Applied; 5]);
    assert_eq!(
        keys(&doc),
        vec![
            ("Books".to_string(), "Fiction".to_string()),
            ("Books".to_string(), "Poetry".to_string()),
            ("Art".to_string(), "Fiction".to_string()),
        ]
    );
    assert_eq!(link_texts(&doc, 0), vec![(1, "a".to_string()), (1, "c".to_string())]);
    assert_eq!(link_texts(&doc, 1), vec![(1, "b".to_string())]);
    assert_eq!(link_texts(&doc, 2), vec![(1, "d".to_string())]);
}

#[test]
fn apply_all_reports_each_command() {
    let mut doc = RstDoc::new();
    let cmds = vec![
        command("NOTE", "ADD", "A", "B", "x"),
        command("LINK", "ADD", "A", "B", "y"),
        command("LINK", "SET", "A", "B", "z"),
    ];
    let done = doc.apply_all(&cmds);
    assert_eq!(done, vec![Dispatch::UnknownCommand, Dispatch::Applied, Dispatch::UnknownOperation]);
    assert_eq!(doc.list.len(), 1);
    assert_eq!(link_texts(&doc, 0), vec![(1, "y".to_string())]);
}

#[test]
fn append_merges_every_incoming_link() {
    let mut doc = RstDoc::new();
    let cat = Category {
        category: "Books".to_string(),
        subcategory: "Fiction".to_string(),
        links: vec![
            Link { id: 2, link: "x".to_string() },
            Link { id: 3, link: "x".to_string() },
            Link { id: 2, link: "x".to_string() },
        ],
    };
    doc.append(&cat);
    doc.append(&cat);
    assert_eq!(doc.list.len(), 1);
    assert_eq!(link_texts(&doc, 0), vec![(2, "x".to_string()), (3, "x".to_string())]);
}

#[test]
fn extend_keeps_loaded_order() {
    let mut doc = RstDoc::new();
    let cats = vec![
        Category { category: "B".to_string(), subcategory: "s".to_string(), links: vec![] },
        Category { category: "A".to_string(), subcategory: "t".to_string(), links: vec![] },
    ];
    doc.extend(cats);
    assert_eq!(keys(&doc), vec![("B".to_string(), "s".to_string()), ("A".to_string(), "t".to_string())]);
}

#[test]
fn command_and_operation_names() {
    assert_eq!(MailCommand::from_str("LINK"), Some(MailCommand::LINK));
    assert_eq!(MailCommand::from_str("link"), None);
    assert_eq!(MailCommand::LINK.as_str(), "LINK");
    assert_eq!(MailOperation::from_str("ADD"), Some(MailOperation::ADD));
    assert_eq!(MailOperation::from_str("ADDX"), None);
    assert_eq!(MailOperation::ADD.as_str(), "ADD");
}
