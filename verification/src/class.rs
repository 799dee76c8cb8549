//! Classes.
//!
//! A class is a name, an optional superclass, and a method table
//! mapping method names to function indices.  Classes live in an arena
//! held by the interpreter; a class's superclass always has a smaller
//! index (it is evaluated before the class is built), which keeps
//! inheritance chains acyclic.

use vstd::prelude::*;

verus! {

use crate::environment::{
    find_last,
    lemma_lookup_at_last_match,
    lemma_lookup_no_match,
    lookup_pairs,
};

/// A class: its name, its superclass (an index into the class arena),
/// and its methods (names paired with indices into the function
/// arena).
pub struct ClassStruct {
    pub name: String,
    pub superclass: Option<usize>,
    pub methods: Vec<(String, usize)>,
}

/// Every class's superclass comes earlier in the arena.
pub open spec fn classes_wf(classes: Seq<ClassStruct>) -> bool {
    forall|i: int|
        0 <= i < classes.len() ==> match (#[trigger] classes[i]).superclass {
            Some(s) => s < i,
            None => true,
        }
}

/// The function a method name denotes on class `c`, searching the
/// class itself first and then its superclass chain.
pub open spec fn spec_find_method(classes: Seq<ClassStruct>, c: int, name: Seq<char>) -> Option<
    usize,
>
    decreases c,
    when classes_wf(classes) && 0 <= c < classes.len()
{
    match lookup_pairs(classes[c].methods@, name) {
        Some(f) => Some(f),
        None => match classes[c].superclass {
            Some(s) => spec_find_method(classes, s as int, name),
            None => None,
        },
    }
}

impl ClassStruct {
    pub fn new(name: String, superclass: Option<usize>, methods: Vec<(String, usize)>) -> (c:
        ClassStruct)
        ensures
            c.name == name,
            c.superclass == superclass,
            c.methods == methods,
    {
        ClassStruct { name, superclass, methods }
    }

    /// Looks a method up on class `c`, walking the superclass chain;
    /// an overriding method shadows the superclass's.
    pub fn find_method(classes: &Vec<ClassStruct>, c: usize, name: &str) -> (r: Option<usize>)
        requires
            classes_wf(classes@),
            c < classes@.len(),
        ensures
            r == spec_find_method(classes@, c as int, name@),
    {
        let mut cur = c;
        loop
            invariant
                classes_wf(classes@),
                cur < classes@.len(),
                spec_find_method(classes@, c as int, name@) == spec_find_method(
                    classes@,
                    cur as int,
                    name@,
                ),
            decreases cur,
        {
            match find_last(&classes[cur].methods, name) {
                Some(i) => {
                    proof {
                        lemma_lookup_at_last_match(classes@[cur as int].methods@, name@, i as int);
                    }
                    return Some(classes[cur].methods[i].1);
                },
                None => {
                    proof {
                        lemma_lookup_no_match(classes@[cur as int].methods@, name@);
                    }
                    match classes[cur].superclass {
                        Some(s) => {
                            cur = s;
                        },
                        None => {
                            return None;
                        },
                    }
                },
            }
        }
    }
}

} // verus!
