use crate::models::document::{opt_copy_of, Document};
use crate::models::error::DBError;
use crate::services::storage_layer::{
    docs_at, lookup, with_removed, with_saved, StorageError, StorageLayer, StoredDocuments,
};
use core::marker::PhantomData;
use vstd::hash_map::StringHashMap;
use vstd::prelude::*;
use vstd::string::*;

verus! {

/// What a database holds: an index from document id to the collection that
/// holds the document, and the documents of its storage.
pub struct DbState<T> {
    pub index: Map<Seq<char>, Seq<char>>,
    pub documents: StoredDocuments<T>,
}

impl<T> DbState<T> {
    /// The document that a read of `id` finds: the one stored under `id` in
    /// the collection that the index names for `id`.
    pub open spec fn lookup(self, id: Seq<char>) -> Option<Document<T>> {
        if self.index.contains_key(id) {
            lookup(self.documents, self.index[id], id)
        } else {
            None
        }
    }

    /// The state after `doc` was written to `collection`: the index sends its
    /// id there, and the collection holds it under its id.
    pub open spec fn after_write(self, doc: Document<T>, collection: Seq<char>) -> DbState<T> {
        DbState {
            index: self.index.insert(doc._id@, collection),
            documents: with_saved(self.documents, collection, doc),
        }
    }

    /// The state after the document under `id` was deleted from `collection`.
    pub open spec fn after_delete(self, id: Seq<char>, collection: Seq<char>) -> DbState<T> {
        DbState {
            index: self.index.remove(id),
            documents: with_removed(self.documents, collection, id),
        }
    }

    /// Every indexed id leads to a stored document with that id.
    pub open spec fn consistent(self) -> bool {
        forall|id: Seq<char>| #[trigger] self.index.contains_key(id) ==> {
            &&& lookup(self.documents, self.index[id], id) is Some
            &&& lookup(self.documents, self.index[id], id)->0._id@ == id
        }
    }
}

impl<T> DbState<T> {
    /// A read after a successful write of `doc` to `collection` finds `doc`.
    pub proof fn read_after_write(self, doc: Document<T>, collection: Seq<char>)
        ensures
            self.after_write(doc, collection).lookup(doc._id@) == Some(doc),
    {
    }

    /// A write of `doc` changes what a read of any other id finds in no way.
    pub proof fn write_leaves_other_ids(self, doc: Document<T>, collection: Seq<char>, other: Seq<char>)
        requires
            other != doc._id@,
        ensures
            self.after_write(doc, collection).lookup(other) == self.lookup(other),
    {
        let w = self.after_write(doc, collection);
        if self.index.contains_key(other) {
            let l = self.index[other];
            assert(w.index[other] == l);
            if l == collection {
                assert(docs_at(w.documents, l) == docs_at(self.documents, l).insert(doc._id@, doc));
            } else {
                assert(docs_at(w.documents, l) == docs_at(self.documents, l));
            }
        }
    }

    /// Two writes of documents with one id to one collection leave the state
    /// that the second write alone leaves.
    pub proof fn later_write_wins(self, first: Document<T>, second: Document<T>, collection: Seq<char>)
        requires
            first._id@ == second._id@,
        ensures
            self.after_write(first, collection).after_write(second, collection) == self.after_write(second, collection),
    {
        let twice = self.after_write(first, collection).after_write(second, collection);
        let once = self.after_write(second, collection);
        assert(twice.index =~= once.index);
        assert(twice.documents[collection] =~= once.documents[collection]);
        assert(twice.documents =~= once.documents);
    }

    /// After a successful delete of `id`, a read of `id` finds nothing.
    pub proof fn read_after_delete(self, id: Seq<char>, collection: Seq<char>)
        ensures
            self.after_delete(id, collection).lookup(id) is None,
    {
    }

    /// A delete of `id` changes what a read of any other id finds in no way.
    pub proof fn delete_leaves_other_ids(self, id: Seq<char>, collection: Seq<char>, other: Seq<char>)
        requires
            other != id,
        ensures
            self.after_delete(id, collection).lookup(other) == self.lookup(other),
    {
    }

    /// A successful write keeps every indexed id leading to a stored document
    /// with that id.
    pub proof fn write_keeps_consistency(self, doc: Document<T>, collection: Seq<char>)
        requires
            self.consistent(),
        ensures
            self.after_write(doc, collection).consistent(),
    {
        let w = self.after_write(doc, collection);
        assert forall|k: Seq<char>| #[trigger] w.index.contains_key(k) implies {
            &&& lookup(w.documents, w.index[k], k) is Some
            &&& lookup(w.documents, w.index[k], k)->0._id@ == k
        } by {
            if k != doc._id@ {
                assert(self.index.contains_key(k));
            }
        }
    }

    /// A successful delete keeps every indexed id leading to a stored
    /// document with that id.
    pub proof fn delete_keeps_consistency(self, id: Seq<char>, collection: Seq<char>)
        requires
            self.consistent(),
        ensures
            self.after_delete(id, collection).consistent(),
    {
        let d = self.after_delete(id, collection);
        assert forall|k: Seq<char>| #[trigger] d.index.contains_key(k) implies {
            &&& lookup(d.documents, d.index[k], k) is Some
            &&& lookup(d.documents, d.index[k], k)->0._id@ == k
        } by {
            assert(self.index.contains_key(k));
        }
    }

    /// In a consistent state a read of an indexed id finds a document with
    /// that id.
    pub proof fn indexed_ids_read_back(self, id: Seq<char>)
        requires
            self.consistent(),
            self.index.contains_key(id),
        ensures
            self.lookup(id) matches Some(doc) && doc._id@ == id,
    {
    }

    /// Deleting a document right after creating it in a collection that
    /// already exists and lacks its id gives back the state before the create.
    pub proof fn delete_undoes_create(self, doc: Document<T>, collection: Seq<char>)
        requires
            !self.index.contains_key(doc._id@),
            self.documents.contains_key(collection),
            !self.documents[collection].contains_key(doc._id@),
        ensures
            self.after_write(doc, collection).after_delete(doc._id@, collection) == self,
    {
        let s2 = self.after_write(doc, collection).after_delete(doc._id@, collection);
        assert(s2.index =~= self.index);
        assert(s2.documents[collection] =~= self.documents[collection]);
        assert(s2.documents =~= self.documents);
    }
}

impl<T: Clone> DbState<T> {
    /// A read right after a write of `doc` answers, when it succeeds, with a
    /// document equal to `doc` in every field: the id, the properties, the
    /// embedding, both timestamps, and contents that cloning `doc`'s contents
    /// may give. `found` is any answer that `BectorDB::read` may give there.
    pub proof fn read_after_write_answers_every_field(
        self,
        doc: Document<T>,
        collection: Seq<char>,
        found: Option<Document<T>>,
    )
        requires
            opt_copy_of(found, self.after_write(doc, collection).lookup(doc._id@)),
        ensures
            found is Some,
            found->0._id@ == doc._id@,
            found->0.properties@ == doc.properties@,
            found->0.embedding@ == doc.embedding@,
            found->0.created_at == doc.created_at,
            found->0.updated_at == doc.updated_at,
            cloned::<T>(doc.contents, found->0.contents),
    {
        self.read_after_write(doc, collection);
    }

    /// A second write to a collection, of a document with the id of the first,
    /// answers with the first document, equal in every field. `prev` is any
    /// answer that `BectorDB::update` or `BectorDB::upsert` may give with
    /// `Ok(prev)` there.
    pub proof fn second_write_answers_the_first_in_every_field(
        self,
        first: Document<T>,
        second: Document<T>,
        collection: Seq<char>,
        prev: Option<Document<T>>,
    )
        requires
            first._id@ == second._id@,
            opt_copy_of(prev, lookup(self.after_write(first, collection).documents, collection, second._id@)),
        ensures
            prev is Some,
            prev->0._id@ == first._id@,
            prev->0.properties@ == first.properties@,
            prev->0.embedding@ == first.embedding@,
            prev->0.created_at == first.created_at,
            prev->0.updated_at == first.updated_at,
            cloned::<T>(first.contents, prev->0.contents),
    {
    }

    /// A delete right after a write of `doc` to the same collection answers
    /// with a document equal to `doc` in every field. `deleted` is any
    /// document that `BectorDB::delete` may answer with `Ok` there.
    pub proof fn delete_after_write_answers_every_field(
        self,
        doc: Document<T>,
        collection: Seq<char>,
        deleted: Document<T>,
    )
        requires
            lookup(self.after_write(doc, collection).documents, collection, doc._id@) is Some,
            deleted.is_copy_of(lookup(self.after_write(doc, collection).documents, collection, doc._id@)->0),
        ensures
            deleted._id@ == doc._id@,
            deleted.properties@ == doc.properties@,
            deleted.embedding@ == doc.embedding@,
            deleted.created_at == doc.created_at,
            deleted.updated_at == doc.updated_at,
            cloned::<T>(doc.contents, deleted.contents),
    {
    }
}

/// The message of a failed read.
pub open spec fn retrieve_failure_text() -> Seq<char> {
    "unable to retrieve document"@
}

/// The message of a failed save into `collection`, whose cause is `cause`.
pub open spec fn save_failure_text(collection: Seq<char>, cause: Seq<char>) -> Seq<char> {
    "unable to save document in collection "@ + collection + ": "@ + cause
}

/// The message of a failed removal from `collection`, whose cause is `cause`.
pub open spec fn remove_failure_text(collection: Seq<char>, cause: Seq<char>) -> Seq<char> {
    "unable to remove document in collection "@ + collection + ": "@ + cause
}

/// The message of an update of an id that is not indexed.
pub open spec fn unknown_document_text(id: Seq<char>) -> Seq<char> {
    "Document with id "@ + id + " not found"@
}

/// The message of a delete of an id that is not indexed.
pub open spec fn unknown_key_text(id: Seq<char>) -> Seq<char> {
    "Key "@ + id + " not found"@
}

/// What a read answers, given what the storage answered.
pub fn read_outcome<T>(r: Result<Option<Document<T>>, StorageError>) -> (out: Result<Option<Document<T>>, DBError>)
    ensures
        match r {
            Ok(found) => out == Ok::<Option<Document<T>>, DBError>(found),
            Err(_) => out matches Err(DBError::InternalServerError(m)) && m@ == retrieve_failure_text(),
        },
{
    match r {
        Ok(found) => Ok(found),
        Err(_) => Err(DBError::InternalServerError("unable to retrieve document".to_owned())),
    }
}

/// What a write into `collection` answers, given what the storage answered
/// to the save.
pub fn save_outcome<T>(r: Result<Option<Document<T>>, StorageError>, collection: &str) -> (out: Result<Option<Document<T>>, DBError>)
    ensures
        match r {
            Ok(prev) => out == Ok::<Option<Document<T>>, DBError>(prev),
            Err(e) => out matches Err(DBError::InternalServerError(m)) && m@ == save_failure_text(collection@, e.message@),
        },
{
    match r {
        Ok(prev) => Ok(prev),
        Err(e) => {
            let mut m = "unable to save document in collection ".to_owned();
            m.append(collection);
            m.append(": ");
            m.append(e.message.as_str());
            Err(DBError::InternalServerError(m))
        },
    }
}

/// What a delete from `collection` answers, given what the storage answered.
pub fn delete_outcome<T>(r: Result<Document<T>, StorageError>, collection: &str) -> (out: Result<Document<T>, DBError>)
    ensures
        match r {
            Ok(doc) => out == Ok::<Document<T>, DBError>(doc),
            Err(e) => out matches Err(DBError::InternalServerError(m)) && m@ == remove_failure_text(collection@, e.message@),
        },
{
    match r {
        Ok(doc) => Ok(doc),
        Err(e) => {
            let mut m = "unable to remove document in collection ".to_owned();
            m.append(collection);
            m.append(": ");
            m.append(e.message.as_str());
            Err(DBError::InternalServerError(m))
        },
    }
}

/// A document database: an index from document id to collection, in front
/// of a storage layer that keeps the documents by collection.
pub struct BectorDB<T, S> {
    storage: S,
    index: StringHashMap<String>,
    marker: PhantomData<T>,
}

impl<T: Clone, S: StorageLayer<T>> View for BectorDB<T, S> {
    type V = DbState<T>;

    open spec fn view(&self) -> DbState<T> {
        DbState { index: self.index_map(), documents: self.storage().documents() }
    }
}

impl<T: Clone, S: StorageLayer<T>> BectorDB<T, S> {
    /// The index: for each document id, the collection that holds it.
    pub closed spec fn index_map(&self) -> Map<Seq<char>, Seq<char>> {
        self.index@.map_values(|c: String| c@)
    }

    /// The storage that the database runs on.
    pub closed spec fn storage(&self) -> S {
        self.storage
    }

    /// Whether the storage that the database runs on is reliable.
    pub open spec fn storage_reliable(&self) -> bool {
        self.storage().reliable()
    }

    /// A database over `storage`, with an empty index.
    pub fn new(storage: S) -> (db: Self)
        ensures
            db@.index == Map::<Seq<char>, Seq<char>>::empty(),
            db@.documents == storage.documents(),
            db.storage() == storage,
            db@.consistent(),
    {
        let db = BectorDB { storage, index: StringHashMap::new(), marker: PhantomData };
        assert(db@.index =~= Map::<Seq<char>, Seq<char>>::empty());
        db
    }

    /// Sends `id` to `collection` in the index.
    fn index_insert(&mut self, id: String, collection: String)
        ensures
            final(self).index_map() == old(self).index_map().insert(id@, collection@),
            final(self).storage() == old(self).storage(),
    {
        let ghost before = self.index@;
        self.index.insert(id, collection);
        proof {
            assert(self.index_map() =~= before.map_values(|c: String| c@).insert(id@, collection@));
        }
    }

    /// Takes `id` out of the index.
    fn index_remove(&mut self, id: &str)
        ensures
            final(self).index_map() == old(self).index_map().remove(id@),
            final(self).storage() == old(self).storage(),
    {
        let ghost before = self.index@;
        self.index.remove(id);
        proof {
            assert(self.index_map() =~= before.map_values(|c: String| c@).remove(id@));
        }
    }

    /// Reads the document with id `id` from the collection that the index
    /// names for it.
    pub fn read(&self, id: &str) -> (r: Result<Option<Document<T>>, DBError>)
        ensures
            !self@.index.contains_key(id@) ==> r matches Ok(None),
            r matches Ok(found) ==> opt_copy_of(found, self@.lookup(id@)),
            r matches Err(e) ==> {
                &&& self@.index.contains_key(id@)
                &&& e matches DBError::InternalServerError(m) && m@ == retrieve_failure_text()
            },
            self.storage_reliable() ==> r is Ok,
            self.storage_reliable() && self@.consistent() && self@.index.contains_key(id@) ==> {
                &&& r matches Ok(Some(found))
                &&& found._id@ == id@
            },
    {
        match self.index.get(id) {
            None => Ok(None),
            Some(location) => {
                let r = self.storage.get(id, location.as_str());
                read_outcome(r)
            },
        }
    }

    /// Adds `document` to `collection`; refused when its id is indexed
    /// already. The id is indexed before the storage is asked to save.
    pub fn create(&mut self, document: Document<T>, collection: &str) -> (r: Result<(), DBError>)
        ensures
            old(self)@.index.contains_key(document._id@) ==> {
                &&& r matches Err(DBError::DocumentExists(m)) && m@ == Seq::<char>::empty()
                &&& final(self)@ == old(self)@
            },
            !old(self)@.index.contains_key(document._id@) ==> {
                &&& final(self)@.index == old(self)@.index.insert(document._id@, collection@)
                &&& r is Ok ==> final(self)@ == old(self)@.after_write(document, collection@)
                &&& r matches Err(e) ==> exists|cause: Seq<char>|
                    e matches DBError::InternalServerError(m) && m@ == #[trigger] save_failure_text(collection@, cause)
            },
            old(self).storage_reliable() && !old(self)@.index.contains_key(document._id@) ==> r is Ok,
            final(self).storage_reliable() == old(self).storage_reliable(),
            old(self).storage_reliable() && old(self)@.consistent() ==> final(self)@.consistent(),
    {
        proof {
            if old(self)@.consistent() {
                old(self)@.write_keeps_consistency(document, collection@);
            }
        }
        if self.index.contains_key(document._id.as_str()) {
            return Err(DBError::DocumentExists(String::new()));
        }
        self.index_insert(document._id.clone(), collection.to_owned());
        let r = self.storage.save(document, collection);
        match save_outcome(r, collection) {
            Ok(_) => Ok(()),
            Err(e) => Err(e),
        }
    }

    /// Replaces the document with the id of `document`, which must be
    /// indexed, and sends the id to `collection`; answers with the document
    /// that `collection` held under that id before.
    pub fn update(&mut self, document: Document<T>, collection: &str) -> (r: Result<Option<Document<T>>, DBError>)
        ensures
            !old(self)@.index.contains_key(document._id@) ==> {
                &&& r matches Err(DBError::NotFound(m)) && m@ == unknown_document_text(document._id@)
                &&& final(self)@ == old(self)@
            },
            old(self)@.index.contains_key(document._id@) ==> {
                &&& final(self)@.index == old(self)@.index.insert(document._id@, collection@)
                &&& r matches Ok(prev) ==> {
                    &&& final(self)@ == old(self)@.after_write(document, collection@)
                    &&& opt_copy_of(prev, lookup(old(self)@.documents, collection@, document._id@))
                }
                &&& r matches Err(e) ==> exists|cause: Seq<char>|
                    e matches DBError::InternalServerError(m) && m@ == #[trigger] save_failure_text(collection@, cause)
            },
            old(self).storage_reliable() && old(self)@.index.contains_key(document._id@) ==> r is Ok,
            final(self).storage_reliable() == old(self).storage_reliable(),
            old(self).storage_reliable() && old(self)@.consistent() ==> final(self)@.consistent(),
    {
        proof {
            if old(self)@.consistent() {
                old(self)@.write_keeps_consistency(document, collection@);
            }
        }
        if !self.index.contains_key(document._id.as_str()) {
            let mut m = "Document with id ".to_owned();
            m.append(document._id.as_str());
            m.append(" not found");
            return Err(DBError::NotFound(m));
        }
        self.index_insert(document._id.clone(), collection.to_owned());
        let r = self.storage.save(document, collection);
        save_outcome(r, collection)
    }

    /// Writes `document` to `collection` whether or not its id is indexed;
    /// answers with the document that `collection` held under that id before.
    pub fn upsert(&mut self, document: Document<T>, collection: &str) -> (r: Result<Option<Document<T>>, DBError>)
        ensures
            final(self)@.index == old(self)@.index.insert(document._id@, collection@),
            r matches Ok(prev) ==> {
                &&& final(self)@ == old(self)@.after_write(document, collection@)
                &&& opt_copy_of(prev, lookup(old(self)@.documents, collection@, document._id@))
            },
            r matches Err(e) ==> exists|cause: Seq<char>|
                e matches DBError::InternalServerError(m) && m@ == #[trigger] save_failure_text(collection@, cause),
            old(self).storage_reliable() ==> r is Ok,
            final(self).storage_reliable() == old(self).storage_reliable(),
            old(self).storage_reliable() && old(self)@.consistent() ==> final(self)@.consistent(),
    {
        proof {
            if old(self)@.consistent() {
                old(self)@.write_keeps_consistency(document, collection@);
            }
        }
        self.index_insert(document._id.clone(), collection.to_owned());
        let r = self.storage.save(document, collection);
        save_outcome(r, collection)
    }

    /// Deletes the document with id `id`, which must be indexed, from
    /// `collection`, and answers with it; the id leaves the index only when
    /// the storage removed the document.
    pub fn delete(&mut self, id: &str, collection: &str) -> (r: Result<Document<T>, DBError>)
        ensures
            !old(self)@.index.contains_key(id@) ==> {
                &&& r matches Err(DBError::NotFound(m)) && m@ == unknown_key_text(id@)
                &&& final(self)@ == old(self)@
            },
            r matches Ok(doc) ==> {
                &&& old(self)@.index.contains_key(id@)
                &&& lookup(old(self)@.documents, collection@, id@) is Some
                &&& doc.is_copy_of(lookup(old(self)@.documents, collection@, id@)->0)
                &&& final(self)@ == old(self)@.after_delete(id@, collection@)
            },
            old(self)@.index.contains_key(id@) ==> (r matches Err(e) ==> {
                &&& final(self)@.index == old(self)@.index
                &&& exists|cause: Seq<char>|
                    e matches DBError::InternalServerError(m) && m@ == #[trigger] remove_failure_text(collection@, cause)
            }),
            old(self).storage_reliable() && old(self)@.index.contains_key(id@) ==>
                (r is Ok <==> lookup(old(self)@.documents, collection@, id@) is Some),
            old(self).storage_reliable() && old(self)@.index.contains_key(id@)
                && lookup(old(self)@.documents, collection@, id@) is None ==> {
                &&& r matches Err(DBError::InternalServerError(m))
                    && m@ == remove_failure_text(collection@, old(self).storage().delete_refusal(collection@, id@))
                &&& final(self)@ == old(self)@
            },
            final(self).storage_reliable() == old(self).storage_reliable(),
            old(self).storage_reliable() && old(self)@.consistent() ==> final(self)@.consistent(),
    {
        proof {
            if old(self)@.consistent() {
                old(self)@.delete_keeps_consistency(id@, collection@);
            }
        }
        if !self.index.contains_key(id) {
            let mut m = "Key ".to_owned();
            m.append(id);
            m.append(" not found");
            return Err(DBError::NotFound(m));
        }
        let r = self.storage.delete(id, collection);
        let out = delete_outcome(r, collection);
        if out.is_ok() {
            self.index_remove(id);
        }
        out
    }
}

} // verus!
