use bectordb::add;
use bectordb::collections::string_map::StringMap;
use bectordb::models::collection::{Collection, Column};
use bectordb::models::document::{Document, Timestamp};
use bectordb::models::error::DBError;
use bectordb::models::storage::Object;
use std::collections::HashMap;

#[test]
fn add_sums() {
    assert_eq!(add(2, 2), 4);
    assert_eq!(add(u64::MAX - 1, 1), u64::MAX);
}

#[test]
fn object_new_keeps_its_parts() {
    let o = Object::new("k", "l", "2024-01-01", "2024-01-02", vec![1, 2, 3]);
    assert_eq!(o.key, "k");
    assert_eq!(o.location, "l");
    assert_eq!(o.created_at, "2024-01-01");
    assert_eq!(o.updated_at, "2024-01-02");
    assert_eq!(o.contents, vec![1, 2, 3]);
}

#[test]
fn collection_holds_columns() {
    let c = Collection {
        name: "people".to_string(),
        columns: vec![Column { name: "id".to_string(), is_primary_key: true }],
    };
    assert_eq!(c.name, "people");
    assert!(c.columns[0].is_primary_key);
}

#[test]
fn document_new_starts_empty_at_the_epoch() {
    let mut properties = HashMap::new();
    properties.insert("a".to_string(), "b".to_string());
    let d = Document::new("id", 7u32, properties.clone());
    assert_eq!(d._id, "id");
    assert_eq!(d.contents, 7);
    assert_eq!(d.properties, properties);
    assert!(d.embedding.is_empty());
    assert_eq!(d.created_at, Timestamp { secs: 0, nanos: 0 });
    assert_eq!(d.updated_at, Timestamp { secs: 0, nanos: 0 });
}

#[test]
fn duplicate_copies_every_field() {
    let mut d = Document::new("id", "c".to_string(), HashMap::new());
    d.embedding = vec![0.25f64.to_bits()];
    d.created_at = Timestamp { secs: 3, nanos: 1 };
    d.updated_at = Timestamp { secs: 4, nanos: 2 };
    let e = d.duplicate();
    assert_eq!(e._id, d._id);
    assert_eq!(e.contents, d.contents);
    assert_eq!(e.embedding, d.embedding);
    assert_eq!(e.created_at, Timestamp { secs: 3, nanos: 1 });
    assert_eq!(e.updated_at, Timestamp { secs: 4, nanos: 2 });
}

#[test]
fn error_texts() {
    let m = "m".to_string();
    assert_eq!(DBError::DocumentExists(m.clone()).display_text(), "Document already exists: m");
    assert_eq!(DBError::InternalServerError(m.clone()).display_text(), "Internal Server Error: m");
    assert_eq!(DBError::NotFound(m.clone()).display_text(), "Not Found: m");
    assert_eq!(DBError::Unauthorized(m.clone()).display_text(), "Unauthorized: m");
    assert_eq!(DBError::UnableToAcquireIndexLock(m).display_text(), "Unable to acquire index lock m");
}

#[test]
fn string_map_insert_get_remove() {
    let mut m: StringMap<u32> = StringMap::new();
    assert_eq!(m.len(), 0);
    assert_eq!(m.insert("a".to_string(), 1), None);
    assert_eq!(m.insert("b".to_string(), 2), None);
    assert_eq!(m.insert("a".to_string(), 3), Some(1));
    assert_eq!(m.len(), 2);
    assert_eq!(m.get("a"), Some(&3));
    assert!(m.contains_key("b"));
    assert_eq!(m.remove("a"), Some(3));
    assert_eq!(m.remove("a"), None);
    assert!(!m.contains_key("a"));
    assert_eq!(m.get("b"), Some(&2));
    assert_eq!(m.len(), 1);
}
