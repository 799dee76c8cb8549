//! Instances.
//!
//! An instance is a reference to its class and a mutable field table.
//! Instances live in an arena held by the interpreter; a value of the
//! language refers to an instance by index, which is what makes field
//! mutation through any holder visible to all of them.

use vstd::prelude::*;

verus! {

use crate::environment::{
    find_last,
    lemma_lookup_at_last_match,
    lemma_lookup_no_match,
    lookup_pairs,
};
use crate::tokens::{Object, Token};

/// An instance: its class (an index into the class arena) and its
/// fields, newest last.
pub struct InstanceStruct {
    pub class: usize,
    pub fields: Vec<(String, Object)>,
}

impl InstanceStruct {
    pub fn new(class: usize) -> (inst: InstanceStruct)
        ensures
            inst.class == class,
            inst.fields@.len() == 0,
    {
        InstanceStruct { class, fields: Vec::new() }
    }

    /// Reads a field; method lookup on a miss is the interpreter's
    /// business, since it needs the class arena.
    pub fn get(&self, name: &str) -> (r: Option<Object>)
        ensures
            r == lookup_pairs(self.fields@, name@),
    {
        match find_last(&self.fields, name) {
            Some(i) => {
                proof {
                    lemma_lookup_at_last_match(self.fields@, name@, i as int);
                }
                Some(self.fields[i].1.clone())
            },
            None => {
                proof {
                    lemma_lookup_no_match(self.fields@, name@);
                }
                None
            },
        }
    }

    /// Inserts or overwrites a field.  Fields are always public.
    pub fn set(&mut self, name: &Token, value: Object)
        ensures
            final(self).class == old(self).class,
            final(self).fields@ == old(self).fields@.push((name.lexeme, value)),
            lookup_pairs(final(self).fields@, name.lexeme@) == Some(value),
            forall|m: Seq<char>|
                m != name.lexeme@ ==> #[trigger] lookup_pairs(final(self).fields@, m)
                    == lookup_pairs(old(self).fields@, m),
    {
        self.fields.push((name.lexeme.clone(), value));
        proof {
            assert(final(self).fields@.drop_last() =~= old(self).fields@);
        }
    }
}

} // verus!
