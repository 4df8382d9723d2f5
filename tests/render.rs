use gitit_mailserver::catalog::{Category, Link, RstDoc};

fn cat(c: &str, s: &str, links: &[&str]) -> Category {
    Category {
        category: c.to_string(),
        subcategory: s.to_string(),
        links: links.iter().map(|l| Link { id: 1, link: l.to_string() }).collect(),
    }
}

#[test]
fn render_empty_catalog() {
    let doc = RstDoc::new();
    assert_eq!(doc.render(), "---\nwrite: rst+lhs\n...\n\n\n");
}

#[test]
fn render_one_category() {
    let mut doc = RstDoc::new();
    doc.extend(vec![cat("Books", "Fiction", &["http://example.com/a"])]);
    assert_eq!(
        doc.render(),
        "---\nwrite: rst+lhs\n...\n\nBooks\n=====\n\nFiction\n-------\n\n`http://example.com/a`_\n\n\n"
    );
}

#[test]
fn render_groups_by_category_and_subcategory() {
    let mut doc = RstDoc::new();
    doc.extend(vec![
        cat("Books", "Fiction", &["a", "b"]),
        cat("Books", "Poetry", &["c"]),
        cat("Art", "Poetry", &["d"]),
    ]);
    let expected = [
        "---\nwrite: rst+lhs\n...\n",
        "\nBooks\n=====\n\n",
        "Fiction\n-------\n\n",
        "`a`_\n`b`_\n",
        "Poetry\n------\n\n",
        "`c`_\n",
        "\nArt\n===\n\n",
        "Poetry\n------\n\n",
        "`d`_\n",
        "\n\n",
    ]
    .concat();
    assert_eq!(doc.render(), expected);
}

#[test]
fn render_underline_counts_characters() {
    let mut doc = RstDoc::new();
    doc.extend(vec![cat("Café", "Ñu", &[])]);
    assert_eq!(doc.render(), "---\nwrite: rst+lhs\n...\n\nCafé\n====\n\nÑu\n--\n\n\n\n");
}

#[test]
fn render_twice_is_identical() {
    let mut doc = RstDoc::new();
    doc.extend(vec![cat("Books", "Fiction", &["a"]), cat("Art", "Painting", &["b"])]);
    assert_eq!(doc.render(), doc.render());
}
