//! A table of bindings: the global table, or one local frame.

use vstd::prelude::*;
use vstd::hash_map::StringHashMap;
use crate::interpreter::{Object, SpecObject};

verus! {

/// Names bound to values.
pub struct Environment {
    values: StringHashMap<Object>,
}

impl View for Environment {
    type V = Map<Seq<char>, SpecObject>;

    closed spec fn view(&self) -> Map<Seq<char>, SpecObject> {
        self.values@.map_values(|value: Object| value@)
    }
}

impl Environment {
    /// A table that binds nothing.
    pub fn new() -> (table: Self)
        ensures
            table@ == Map::<Seq<char>, SpecObject>::empty(),
    {
        let table = Environment { values: StringHashMap::new() };
        assert(table@ =~= Map::<Seq<char>, SpecObject>::empty());
        table
    }

    /// Binds a name to a value, in place of what it was bound to.
    pub fn assign(&mut self, k: String, v: Object)
        ensures
            final(self)@ == old(self)@.insert(k@, v@),
    {
        self.values.insert(k, v);
        assert(self@ =~= old(self)@.insert(k@, v@));
    }

    /// The value that a name is bound to, if it is bound.
    pub fn get(&self, k: String) -> (found: Option<&Object>)
        ensures
            match found {
                Some(value) => self@.contains_key(k@) && value@ == self@[k@],
                None => !self@.contains_key(k@),
            },
    {
        self.find(&k)
    }

    /// The value that a name is bound to, if it is bound; the name is only
    /// looked at.
    pub fn find(&self, k: &String) -> (found: Option<&Object>)
        ensures
            match found {
                Some(value) => self@.contains_key(k@) && value@ == self@[k@],
                None => !self@.contains_key(k@),
            },
    {
        self.values.get(k.as_str())
    }
}

/// The views of a stack of frames, innermost last.
pub open spec fn frame_views(frames: Seq<Environment>) -> Seq<Map<Seq<char>, SpecObject>> {
    frames.map_values(|frame: Environment| frame@)
}

} // verus!
