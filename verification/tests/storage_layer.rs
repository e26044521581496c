use bectordb::models::document::{Document, Timestamp};
use bectordb::services::storage_layer::{InMemoryStorageLayer, StorageLayer};
use std::collections::HashMap;

#[test]
fn storage_layer_get_method_should_return_a_document() {
    // given: a document w string type contents
    let id = "some-id";
    let contents = "some content".to_string();
    let properties: HashMap<String, String> = HashMap::new();
    let doc: Document<String> = Document::new(id, contents, properties);

    // given: a store that already holds the document at a location
    let location = "some-location";
    let mut sut: InMemoryStorageLayer<String> = InMemoryStorageLayer::new();
    let _ = sut.save(doc.clone(), location);

    // when: method get is called
    let res = sut.get(id, location);

    // then: results should be as expected
    assert!(res.is_ok(), "it should successfully return ok result");
    let res = res.unwrap();
    assert!(res.is_some(), "a document should have been found");
    let res = res.unwrap();
    assert_eq!(doc._id, res._id, "it should have the same document id");
    assert_eq!(doc.contents, res.contents, "it should have the same document contents");
}

#[test]
fn save_method_should_not_return_a_document() {
    let id = "some-id";
    let contents = "some content".to_string();
    let properties: HashMap<String, String> = HashMap::new();
    let doc: Document<String> = Document::new(id, contents, properties);
    let location = "some-location";

    // given: an empty store
    let mut sut = InMemoryStorageLayer::new();

    // when: method save is called
    let res = sut.save(doc, location);

    // then: results should be as expected
    assert!(res.is_ok(), "it should successfully return ok result");
    let res = res.unwrap();
    assert!(res.is_none(), "no document should have been found there previously");
}

#[test]
fn save_method_should_return_previously_existing_document() {
    let id = "some-id";
    let contents = "some content".to_string();
    let properties: HashMap<String, String> = HashMap::new();
    let previous_doc: Document<String> = Document::new(id, contents, properties.clone());

    // given: a store that already holds the document at a location
    let location = "some-location";
    let mut sut = InMemoryStorageLayer::new();
    let _ = sut.save(previous_doc.clone(), location);

    // when: method save is called again with a document of the same id
    let new_contents = "new-contents".to_string();
    let _new_doc: Document<String> = Document::new(id, new_contents, properties);
    let res = sut.save(previous_doc.clone(), location);

    // then: results should be as expected
    assert!(res.is_ok(), "it should successfully return ok result");
    let res = res.unwrap();
    assert!(res.is_some(), "the document previously saved with the same id should be returned");
    let res = res.unwrap();
    assert_eq!(previous_doc._id, res._id, "it should have the same document id");
    assert_eq!(
        previous_doc.contents, res.contents,
        "it should have the same document contents as the previously present document"
    );
}

#[test]
fn delete_method_should_return_previously_existing_document() {
    let id = "some-id";
    let contents = "some content".to_string();
    let properties: HashMap<String, String> = HashMap::new();
    let previous_doc: Document<String> = Document::new(id, contents, properties.clone());

    // given: a store that already holds the document at a location
    let location = "some-location";
    let mut sut = InMemoryStorageLayer::new();
    let _ = sut.save(previous_doc.clone(), location);

    // when: method delete is called
    let new_contents = "new-contents".to_string();
    let _new_doc: Document<String> = Document::new(id, new_contents, properties);
    let res = sut.delete(id, location);

    // then: results should be as expected
    assert!(res.is_ok(), "it should successfully return ok result");
    let res = res.unwrap();
    assert_eq!(previous_doc._id, res._id, "it should have the same document id");
    assert_eq!(
        previous_doc.contents, res.contents,
        "it should have the same document contents as the previously present document"
    );
}

fn doc(id: &str, contents: &str) -> Document<String> {
    Document::new(id, contents.to_string(), HashMap::new())
}

#[test]
fn save_replaces_and_returns_the_overwritten_document() {
    let mut sut = InMemoryStorageLayer::new();
    assert!(sut.save(doc("a", "first"), "loc").unwrap().is_none());
    let prev = sut.save(doc("a", "second"), "loc").unwrap().unwrap();
    assert_eq!(prev.contents, "first");
    let now = sut.get("a", "loc").unwrap().unwrap();
    assert_eq!(now.contents, "second");
}

#[test]
fn same_id_in_two_locations_is_two_documents() {
    let mut sut = InMemoryStorageLayer::new();
    assert!(sut.save(doc("a", "in one"), "one").unwrap().is_none());
    assert!(sut.save(doc("a", "in two"), "two").unwrap().is_none());
    assert_eq!(sut.get("a", "one").unwrap().unwrap().contents, "in one");
    assert_eq!(sut.get("a", "two").unwrap().unwrap().contents, "in two");
}

#[test]
fn get_of_unknown_location_or_id_finds_nothing() {
    let mut sut = InMemoryStorageLayer::new();
    assert!(sut.get("a", "loc").unwrap().is_none());
    let _ = sut.save(doc("a", "x"), "loc");
    assert!(sut.get("b", "loc").unwrap().is_none());
    assert!(sut.get("a", "elsewhere").unwrap().is_none());
}

#[test]
fn delete_from_unknown_location_fails_with_its_message() {
    let mut sut: InMemoryStorageLayer<String> = InMemoryStorageLayer::new();
    let err = sut.delete("a", "nowhere").unwrap_err();
    assert_eq!(err.message, "location nowhere not found");
}

#[test]
fn delete_of_missing_id_fails_with_its_message() {
    let mut sut = InMemoryStorageLayer::new();
    let _ = sut.save(doc("a", "x"), "loc");
    let err = sut.delete("b", "loc").unwrap_err();
    assert_eq!(err.message, "location loc does not contain document with id b");
    // the location stays known, even once it is empty
    let _ = sut.delete("a", "loc").unwrap();
    let err = sut.delete("a", "loc").unwrap_err();
    assert_eq!(err.message, "location loc does not contain document with id a");
}

#[test]
fn delete_then_get_finds_nothing() {
    let mut sut = InMemoryStorageLayer::new();
    let _ = sut.save(doc("a", "x"), "loc");
    let _ = sut.save(doc("b", "y"), "loc");
    assert_eq!(sut.delete("a", "loc").unwrap().contents, "x");
    assert!(sut.get("a", "loc").unwrap().is_none());
    assert_eq!(sut.get("b", "loc").unwrap().unwrap().contents, "y");
}

#[test]
fn list_of_unknown_location_is_empty() {
    let sut: InMemoryStorageLayer<String> = InMemoryStorageLayer::new();
    assert!(sut.list("loc").unwrap().is_empty());
}

#[test]
fn list_gives_each_document_of_the_location_once() {
    let mut sut = InMemoryStorageLayer::new();
    let _ = sut.save(doc("a", "x"), "loc");
    let _ = sut.save(doc("b", "y"), "loc");
    let _ = sut.save(doc("a", "z"), "loc");
    let _ = sut.save(doc("c", "w"), "other");
    let mut listed: Vec<(String, String)> = sut
        .list("loc")
        .unwrap()
        .into_iter()
        .map(|d| (d._id, d.contents))
        .collect();
    listed.sort();
    assert_eq!(
        listed,
        vec![("a".to_string(), "z".to_string()), ("b".to_string(), "y".to_string())]
    );
}

#[test]
fn saved_document_keeps_properties_embedding_and_times() {
    let mut properties = HashMap::new();
    properties.insert("k".to_string(), "v".to_string());
    let mut d = Document::new("a", "x".to_string(), properties.clone());
    d.embedding = vec![1.5f64.to_bits(), (-2.0f64).to_bits()];
    d.created_at = Timestamp { secs: 10, nanos: 500 };
    d.updated_at = Timestamp { secs: 20, nanos: 999_999_999 };
    let mut sut = InMemoryStorageLayer::new();
    let _ = sut.save(d, "loc");
    let got = sut.get("a", "loc").unwrap().unwrap();
    assert_eq!(got.properties, properties);
    assert_eq!(f64::from_bits(got.embedding[0]), 1.5);
    assert_eq!(f64::from_bits(got.embedding[1]), -2.0);
    assert_eq!(got.created_at, Timestamp { secs: 10, nanos: 500 });
    assert_eq!(got.updated_at, Timestamp { secs: 20, nanos: 999_999_999 });
}
