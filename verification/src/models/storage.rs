use vstd::prelude::*;

verus! {

/// A stored object: its bytes, its key and location, and two timestamps
/// kept as text.
#[derive(Clone, Debug)]
pub struct Object {
    pub contents: Vec<u8>,
    pub created_at: String,
    pub key: String,
    pub location: String,
    pub updated_at: String,
}

impl Object {
    /// An object made of the given parts.
    pub fn new(key: &str, location: &str, created_at: &str, updated_at: &str, contents: Vec<u8>) -> (obj: Self)
        ensures
            obj.key@ == key@,
            obj.location@ == location@,
            obj.created_at@ == created_at@,
            obj.updated_at@ == updated_at@,
            obj.contents@ == contents@,
    {
        Object {
            contents,
            created_at: created_at.to_owned(),
            key: key.to_owned(),
            location: location.to_owned(),
            updated_at: updated_at.to_owned(),
        }
    }
}

} // verus!
