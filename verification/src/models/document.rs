use std::collections::HashMap;
use vstd::prelude::*;

verus! {

/// A point in time: whole seconds since the Unix epoch (UTC), and the
/// nanoseconds past that second. Both zero is the epoch, the default time.
#[derive(Clone, Copy, Debug, PartialEq, Eq, Structural)]
pub struct Timestamp {
    pub secs: i64,
    pub nanos: u32,
}

/// A stored document: an id, free-form string properties, an embedding
/// vector, the contents themselves and two timestamps.
///
/// Each entry of `embedding` is the IEEE-754 bit pattern of one `f64`
/// component (`f64::to_bits`).
#[derive(Clone, Debug)]
pub struct Document<T> {
    pub _id: String,
    pub properties: HashMap<String, String>,
    pub embedding: Vec<u64>,
    pub contents: T,
    pub created_at: Timestamp,
    pub updated_at: Timestamp,
}

impl<T> Document<T> {
    /// A new document with the given id, contents and properties, an empty
    /// embedding, and both timestamps at the epoch.
    pub fn new(id: &str, contents: T, properties: HashMap<String, String>) -> (doc: Self)
        ensures
            doc._id@ == id@,
            doc.contents == contents,
            doc.properties == properties,
            doc.embedding@ == Seq::<u64>::empty(),
            doc.created_at == (Timestamp { secs: 0, nanos: 0 }),
            doc.updated_at == (Timestamp { secs: 0, nanos: 0 }),
    {
        Document {
            _id: id.to_owned(),
            contents,
            properties,
            embedding: Vec::new(),
            created_at: Timestamp { secs: 0, nanos: 0 },
            updated_at: Timestamp { secs: 0, nanos: 0 },
        }
    }
}

impl<T: Clone> Document<T> {
    /// `self` is a copy of `original`: every field is equal, and the contents
    /// are what cloning the original contents may give.
    pub open spec fn is_copy_of(self, original: Document<T>) -> bool {
        &&& self._id@ == original._id@
        &&& self.properties@ == original.properties@
        &&& self.embedding@ == original.embedding@
        &&& cloned::<T>(original.contents, self.contents)
        &&& self.created_at == original.created_at
        &&& self.updated_at == original.updated_at
    }

    /// A field-by-field copy of the document.
    pub fn duplicate(&self) -> (copy: Self)
        ensures
            copy.is_copy_of(*self),
    {
        let mut embedding: Vec<u64> = Vec::new();
        let mut i: usize = 0;
        while i < self.embedding.len()
            invariant
                i <= self.embedding@.len(),
                embedding@ == self.embedding@.subrange(0, i as int),
            decreases self.embedding@.len() - i,
        {
            embedding.push(self.embedding[i]);
            i = i + 1;
        }
        proof {
            assert(self.embedding@.subrange(0, self.embedding@.len() as int) =~= self.embedding@);
        }
        Document {
            _id: self._id.clone(),
            properties: self.properties.clone(),
            embedding,
            contents: self.contents.clone(),
            created_at: self.created_at,
            updated_at: self.updated_at,
        }
    }
}

/// `copy` and `original` are both absent, or both present with `copy` a copy
/// of `original`.
pub open spec fn opt_copy_of<T: Clone>(copy: Option<Document<T>>, original: Option<Document<T>>) -> bool {
    match (copy, original) {
        (None, None) => true,
        (Some(c), Some(o)) => c.is_copy_of(o),
        _ => false,
    }
}

} // verus!
