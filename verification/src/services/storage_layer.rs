use crate::collections::string_map::StringMap;
use crate::models::document::{opt_copy_of, Document};
use vstd::prelude::*;
use vstd::string::*;

verus! {

/// A failure reported by a storage layer, with the message that describes it.
#[derive(Debug)]
pub struct StorageError {
    pub message: String,
}

/// What a storage layer holds: for each location, the documents stored
/// there, by id.
pub type StoredDocuments<T> = Map<Seq<char>, Map<Seq<char>, Document<T>>>;

/// The documents at `location`; none where the location is unknown.
pub open spec fn docs_at<T>(docs: StoredDocuments<T>, location: Seq<char>) -> Map<Seq<char>, Document<T>> {
    if docs.contains_key(location) {
        docs[location]
    } else {
        Map::empty()
    }
}

/// The document stored under `id` at `location`, if any.
pub open spec fn lookup<T>(docs: StoredDocuments<T>, location: Seq<char>, id: Seq<char>) -> Option<Document<T>> {
    if docs_at(docs, location).contains_key(id) {
        Some(docs_at(docs, location)[id])
    } else {
        None
    }
}

/// `docs` after `doc` is stored at `location` under its id, in place of any
/// document stored there under that id.
pub open spec fn with_saved<T>(docs: StoredDocuments<T>, location: Seq<char>, doc: Document<T>) -> StoredDocuments<T> {
    docs.insert(location, docs_at(docs, location).insert(doc._id@, doc))
}

/// `docs` after the document under `id` at `location` is taken out.
pub open spec fn with_removed<T>(docs: StoredDocuments<T>, location: Seq<char>, id: Seq<char>) -> StoredDocuments<T> {
    docs.insert(location, docs_at(docs, location).remove(id))
}

/// `listed` holds, position for position, a copy of the document under each
/// id of `ids`, and `ids` names every id of `docs` once.
pub open spec fn lists_in_order<T: Clone>(
    listed: Seq<Document<T>>,
    docs: Map<Seq<char>, Document<T>>,
    ids: Seq<Seq<char>>,
) -> bool {
    &&& ids.len() == listed.len()
    &&& ids.no_duplicates()
    &&& forall|id: Seq<char>| #[trigger] docs.contains_key(id) <==> ids.contains(id)
    &&& forall|i: int| 0 <= i < listed.len() ==> #[trigger] listed[i].is_copy_of(docs[ids[i]])
}

/// `listed` holds a copy of each document of `docs`, each once, in some order.
pub open spec fn is_listing_of<T: Clone>(listed: Seq<Document<T>>, docs: Map<Seq<char>, Document<T>>) -> bool {
    exists|ids: Seq<Seq<char>>| #[trigger] lists_in_order(listed, docs, ids)
}

/// The entry at position `i` of a listing equals, in every field, the
/// document under the id at position `i`.
proof fn listed_entry_is_stored<T: Clone>(listed: Seq<Document<T>>, docs: Map<Seq<char>, Document<T>>, ids: Seq<Seq<char>>, i: int)
    requires
        lists_in_order(listed, docs, ids),
        0 <= i < listed.len(),
    ensures
        docs.contains_key(ids[i]),
        listed[i]._id@ == docs[ids[i]]._id@,
        listed[i].properties@ == docs[ids[i]].properties@,
        listed[i].embedding@ == docs[ids[i]].embedding@,
        listed[i].created_at == docs[ids[i]].created_at,
        listed[i].updated_at == docs[ids[i]].updated_at,
        cloned::<T>(docs[ids[i]].contents, listed[i].contents),
{
    assert(ids.contains(ids[i]));
    assert(listed[i].is_copy_of(docs[ids[i]]));
}

/// Each entry of a listing of `docs` equals, in every field, a document of
/// `docs`.
pub proof fn listed_entry_is_a_stored_document<T: Clone>(listed: Seq<Document<T>>, docs: Map<Seq<char>, Document<T>>, i: int)
    requires
        is_listing_of(listed, docs),
        0 <= i < listed.len(),
    ensures
        exists|id: Seq<char>| #![trigger docs.contains_key(id)] {
            &&& docs.contains_key(id)
            &&& listed[i]._id@ == docs[id]._id@
            &&& listed[i].properties@ == docs[id].properties@
            &&& listed[i].embedding@ == docs[id].embedding@
            &&& listed[i].created_at == docs[id].created_at
            &&& listed[i].updated_at == docs[id].updated_at
            &&& cloned::<T>(docs[id].contents, listed[i].contents)
        },
{
    let ids = choose|ids: Seq<Seq<char>>| #[trigger] lists_in_order(listed, docs, ids);
    listed_entry_is_stored(listed, docs, ids, i);
}

/// A listing of `docs` has as many entries as `docs` has documents, and every
/// document of `docs` is equalled, in every field, by some entry.
pub proof fn listing_holds_each_document_once<T: Clone>(listed: Seq<Document<T>>, docs: Map<Seq<char>, Document<T>>)
    requires
        is_listing_of(listed, docs),
        docs.dom().finite(),
    ensures
        listed.len() == docs.len(),
        forall|id: Seq<char>| #![trigger docs.contains_key(id)] docs.contains_key(id) ==> exists|i: int| #![trigger listed[i]] {
            &&& 0 <= i < listed.len()
            &&& listed[i]._id@ == docs[id]._id@
            &&& listed[i].properties@ == docs[id].properties@
            &&& listed[i].embedding@ == docs[id].embedding@
            &&& listed[i].created_at == docs[id].created_at
            &&& listed[i].updated_at == docs[id].updated_at
            &&& cloned::<T>(docs[id].contents, listed[i].contents)
        },
{
    let ids = choose|ids: Seq<Seq<char>>| #[trigger] lists_in_order(listed, docs, ids);
    assert(docs.dom() =~= ids.to_set());
    ids.unique_seq_to_set();
    assert forall|id: Seq<char>| #![trigger docs.contains_key(id)] docs.contains_key(id) implies exists|i: int| #![trigger listed[i]] {
        &&& 0 <= i < listed.len()
        &&& listed[i]._id@ == docs[id]._id@
        &&& listed[i].properties@ == docs[id].properties@
        &&& listed[i].embedding@ == docs[id].embedding@
        &&& listed[i].created_at == docs[id].created_at
        &&& listed[i].updated_at == docs[id].updated_at
        &&& cloned::<T>(docs[id].contents, listed[i].contents)
    } by {
        assert(ids.contains(id));
        let j = choose|j: int| 0 <= j < ids.len() && ids[j] == id;
        listed_entry_is_stored(listed, docs, ids, j);
    }
}

/// A document saved at a location is found there under its id, and every
/// other (location, id) pair finds what it found before.
pub proof fn lookup_after_save<T>(docs: StoredDocuments<T>, location: Seq<char>, doc: Document<T>, other_location: Seq<char>, other_id: Seq<char>)
    requires
        other_location != location || other_id != doc._id@,
    ensures
        lookup(with_saved(docs, location, doc), location, doc._id@) == Some(doc),
        lookup(with_saved(docs, location, doc), other_location, other_id) == lookup(docs, other_location, other_id),
{
}

/// A removed document is found no more, and every other (location, id) pair
/// finds what it found before.
pub proof fn lookup_after_remove<T>(docs: StoredDocuments<T>, location: Seq<char>, id: Seq<char>, other_location: Seq<char>, other_id: Seq<char>)
    requires
        other_location != location || other_id != id,
    ensures
        lookup(with_removed(docs, location, id), location, id) is None,
        lookup(with_removed(docs, location, id), other_location, other_id) == lookup(docs, other_location, other_id),
{
}

/// Removing a document right after saving it where the location exists and
/// lacked its id gives back the documents as they were.
pub proof fn remove_undoes_save<T>(docs: StoredDocuments<T>, location: Seq<char>, doc: Document<T>)
    requires
        docs.contains_key(location),
        !docs[location].contains_key(doc._id@),
    ensures
        with_removed(with_saved(docs, location, doc), location, doc._id@) == docs,
{
    let after = with_removed(with_saved(docs, location, doc), location, doc._id@);
    assert(after[location] =~= docs[location]);
    assert(after =~= docs);
}

/// A place where documents are kept, grouped by location.
///
/// Each operation may fail; what it promises is stated for the case where it
/// answers `Ok`. A storage that is `reliable` fails only where a delete finds
/// nothing to delete, and then changes nothing.
pub trait StorageLayer<T: Clone>: Sized {
    /// The documents held, by location and id.
    spec fn documents(&self) -> StoredDocuments<T>;

    /// Whether the storage answers every request, refusing only deletes of
    /// documents that it does not hold; every operation keeps it.
    spec fn reliable(&self) -> bool;

    /// The message with which a reliable storage refuses to delete `id` from
    /// `location`.
    spec fn delete_refusal(&self, location: Seq<char>, id: Seq<char>) -> Seq<char>;

    /// Stores `document` at `location` under its id; answers with the
    /// document that it replaced there, if any.
    fn save(&mut self, document: Document<T>, location: &str) -> (r: Result<Option<Document<T>>, StorageError>)
        ensures
            final(self).reliable() == old(self).reliable(),
            old(self).reliable() ==> r is Ok,
            r matches Ok(prev) ==> {
                &&& final(self).documents() == with_saved(old(self).documents(), location@, document)
                &&& opt_copy_of(prev, lookup(old(self).documents(), location@, document._id@))
            },
    ;

    /// The document stored under `id` at `location`, if any.
    fn get(&self, id: &str, location: &str) -> (r: Result<Option<Document<T>>, StorageError>)
        ensures
            self.reliable() ==> r is Ok,
            r matches Ok(found) ==> opt_copy_of(found, lookup(self.documents(), location@, id@)),
    ;

    /// All documents stored at `location`.
    fn list(&self, location: &str) -> (r: Result<Vec<Document<T>>, StorageError>)
        ensures
            self.reliable() ==> r is Ok,
            r matches Ok(listed) ==> is_listing_of(listed@, docs_at(self.documents(), location@)),
    ;

    /// Takes the document under `id` out of `location`, and answers with it.
    fn delete(&mut self, id: &str, location: &str) -> (r: Result<Document<T>, StorageError>)
        ensures
            final(self).reliable() == old(self).reliable(),
            r matches Ok(doc) ==> {
                &&& lookup(old(self).documents(), location@, id@) is Some
                &&& doc.is_copy_of(lookup(old(self).documents(), location@, id@)->0)
                &&& final(self).documents() == with_removed(old(self).documents(), location@, id@)
            },
            old(self).reliable() ==> (r is Ok <==> lookup(old(self).documents(), location@, id@) is Some),
            old(self).reliable() ==> (r matches Err(e) ==> {
                &&& e.message@ == old(self).delete_refusal(location@, id@)
                &&& final(self).documents() == old(self).documents()
            }),
    ;
}

/// A storage layer that keeps every document in memory.
pub struct InMemoryStorageLayer<T> {
    doc_store: StringMap<StringMap<Document<T>>>,
}

/// The message of the failure to delete from an unknown location.
pub open spec fn missing_location_text(location: Seq<char>) -> Seq<char> {
    "location "@ + location + " not found"@
}

/// The message of the failure to delete an id that a location lacks.
pub open spec fn missing_document_text(location: Seq<char>, id: Seq<char>) -> Seq<char> {
    "location "@ + location + " does not contain document with id "@ + id
}

impl<T: Clone> InMemoryStorageLayer<T> {
    /// An empty store.
    pub fn new() -> (s: Self)
        ensures
            s.reliable(),
            s.documents() == Map::<Seq<char>, Map<Seq<char>, Document<T>>>::empty(),
    {
        let s = InMemoryStorageLayer { doc_store: StringMap::new() };
        assert(s.documents() =~= Map::<Seq<char>, Map<Seq<char>, Document<T>>>::empty());
        s
    }

    /// Takes the map of `location` out of the store, or makes an empty one.
    fn take_location(&mut self, location: &str) -> (store: StringMap<Document<T>>)
        ensures
            store@ == docs_at(old(self).documents(), location@),
            final(self).doc_store@ == old(self).doc_store@.remove(location@),
    {
        match self.doc_store.remove(location) {
            Some(m) => m,
            None => StringMap::new(),
        }
    }

    /// Puts the map of `location` back into the store.
    fn put_location(&mut self, location: &str, store: StringMap<Document<T>>)
        ensures
            final(self).doc_store@ == old(self).doc_store@.insert(location@, store),
            final(self).documents() == old(self).doc_store@.map_values(|m: StringMap<Document<T>>| m@).insert(location@, store@),
    {
        let ghost inner = store@;
        self.doc_store.insert(location.to_owned(), store);
        proof {
            assert(self.documents() =~= old(self).doc_store@.map_values(|m: StringMap<Document<T>>| m@).insert(location@, inner));
        }
    }
}

impl<T: Clone> StorageLayer<T> for InMemoryStorageLayer<T> {
    closed spec fn documents(&self) -> StoredDocuments<T> {
        self.doc_store@.map_values(|m: StringMap<Document<T>>| m@)
    }

    /// Memory never fails.
    open spec fn reliable(&self) -> bool {
        true
    }

    /// An unknown location and a missing id are refused with two messages.
    open spec fn delete_refusal(&self, location: Seq<char>, id: Seq<char>) -> Seq<char> {
        if self.documents().contains_key(location) {
            missing_document_text(location, id)
        } else {
            missing_location_text(location)
        }
    }

    fn save(&mut self, document: Document<T>, location: &str) -> (r: Result<Option<Document<T>>, StorageError>)
        ensures
            r == Ok::<Option<Document<T>>, StorageError>(lookup(old(self).documents(), location@, document._id@)),
    {
        let ghost pre = old(self).documents();
        let mut store = self.take_location(location);
        let id = document._id.clone();
        let ghost doc = document;
        let prev = store.insert(id, document);
        self.put_location(location, store);
        proof {
            assert(self.documents() =~= with_saved(pre, location@, doc));
        }
        Ok(prev)
    }

    fn get(&self, id: &str, location: &str) -> (r: Result<Option<Document<T>>, StorageError>)
        ensures
            r matches Ok(found) && opt_copy_of(found, lookup(self.documents(), location@, id@)),
    {
        match self.doc_store.get(location) {
            Some(store) => match store.get(id) {
                Some(doc) => Ok(Some(doc.duplicate())),
                None => Ok(None),
            },
            None => Ok(None),
        }
    }

    fn list(&self, location: &str) -> (r: Result<Vec<Document<T>>, StorageError>)
        ensures
            r matches Ok(listed) && is_listing_of(listed@, docs_at(self.documents(), location@)),
    {
        match self.doc_store.get(location) {
            None => {
                let listed: Vec<Document<T>> = Vec::new();
                proof {
                    let ids = Seq::<Seq<char>>::empty();
                    assert(docs_at(self.documents(), location@) =~= Map::<Seq<char>, Document<T>>::empty());
                    assert(lists_in_order(listed@, docs_at(self.documents(), location@), ids));
                }
                Ok(listed)
            },
            Some(store) => {
                let mut listed: Vec<Document<T>> = Vec::new();
                let n = store.len();
                let mut i: usize = 0;
                while i < n
                    invariant
                        n == store.keys_seq().len(),
                        i <= n,
                        listed@.len() == i,
                        forall|j: int| 0 <= j < i ==> #[trigger] listed@[j].is_copy_of(store.values_seq()[j]),
                    decreases n - i,
                {
                    let doc = store.value_at(i).duplicate();
                    listed.push(doc);
                    i = i + 1;
                }
                proof {
                    let ids = store.keys_seq();
                    let docs = docs_at(self.documents(), location@);
                    assert(docs == store@);
                    assert forall|j: int| 0 <= j < listed@.len() implies #[trigger] listed@[j].is_copy_of(docs[ids[j]]) by {
                        assert(store@.contains_key(ids[j]));
                    }
                    assert(lists_in_order(listed@, docs, ids));
                }
                Ok(listed)
            },
        }
    }

    fn delete(&mut self, id: &str, location: &str) -> (r: Result<Document<T>, StorageError>)
        ensures
            !old(self).documents().contains_key(location@) ==> {
                &&& r matches Err(e) && e.message@ == missing_location_text(location@)
                &&& final(self).documents() == old(self).documents()
            },
            old(self).documents().contains_key(location@) && lookup(old(self).documents(), location@, id@) is None ==> {
                &&& r matches Err(e) && e.message@ == missing_document_text(location@, id@)
                &&& final(self).documents() == old(self).documents()
            },
            lookup(old(self).documents(), location@, id@) is Some ==> {
                &&& r == Ok::<Document<T>, StorageError>(lookup(old(self).documents(), location@, id@)->0)
                &&& final(self).documents() == with_removed(old(self).documents(), location@, id@)
            },
    {
        let ghost pre = old(self).documents();
        if !self.doc_store.contains_key(location) {
            let mut message = "location ".to_owned();
            message.append(location);
            message.append(" not found");
            return Err(StorageError { message });
        }
        let mut store = self.take_location(location);
        let ghost before = store@;
        let removed = store.remove(id);
        proof {
            if removed is None {
                assert(store@ =~= before);
            }
        }
        self.put_location(location, store);
        match removed {
            Some(doc) => {
                proof {
                    assert(self.documents() =~= with_removed(pre, location@, id@));
                }
                Ok(doc)
            },
            None => {
                proof {
                    assert(self.documents() =~= pre);
                }
                let mut message = "location ".to_owned();
                message.append(location);
                message.append(" does not contain document with id ");
                message.append(id);
                Err(StorageError { message })
            },
        }
    }
}

} // verus!
