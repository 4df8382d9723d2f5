use gitit_mailserver::catalog::{Category, Link, RstDoc};
use serde_json::Value;

fn category_of(v: &Value) -> Category {
    Category {
        category: v["category"].as_str().unwrap().to_string(),
        subcategory: v["subcategory"].as_str().unwrap().to_string(),
        links: v["links"]
            .as_array()
            .unwrap()
            .iter()
            .map(|l| Link {
                id: l["id"].as_u64().unwrap() as u16,
                link: l["link"].as_str().unwrap().to_string(),
            })
            .collect(),
    }
}

fn value_of(c: &Category) -> Value {
    let mut links = Vec::new();
    for l in &c.links {
        let mut m = serde_json::Map::new();
        m.insert("id".to_string(), Value::from(l.id));
        m.insert("link".to_string(), Value::from(l.link.clone()));
        links.push(Value::Object(m));
    }
    let mut m = serde_json::Map::new();
    m.insert("category".to_string(), Value::from(c.category.clone()));
    m.insert("subcategory".to_string(), Value::from(c.subcategory.clone()));
    m.insert("links".to_string(), Value::Array(links));
    Value::Object(m)
}

#[test]
fn catalog_json_round_trip() {
    let text = r#"[
  {"category": "Books", "subcategory": "Fiction",
   "links": [{"id": 1, "link": "http://example.com/a"}, {"id": 2, "link": "b"}]},
  {"category": "Art", "subcategory": "Painting", "links": []}
]"#;
    let input: Value = serde_json::from_str(text).unwrap();
    let mut doc = RstDoc::new();
    doc.extend(input.as_array().unwrap().iter().map(category_of).collect());
    let output = Value::Array(doc.list.iter().map(value_of).collect());
    let written = serde_json::to_string_pretty(&output).unwrap();
    let reread: Value = serde_json::from_str(&written).unwrap();
    assert_eq!(reread, input);
}
