//! Notes.
use crate::data::ids::EntityId;
use vstd::prelude::*;

verus! {

/// A plain-text note.
#[derive(Debug, PartialEq, Eq)]
pub struct Snippet {
    pub id: EntityId,
    pub title: String,
    pub content: String,
}

impl Clone for Snippet {
    fn clone(&self) -> (r: Self)
        ensures
            r == *self,
    {
        Snippet {
            id: self.id.clone(),
            title: self.title.clone(),
            content: self.content.clone(),
        }
    }
}

} // verus!
