//! Passes that check the modifiers of methods and functions.

pub mod class_methods_checker;
pub mod functions_checker;

use vstd::prelude::*;
use crate::ast::{view_seq, Attribute, AttributeView, FirstClassEntity, FirstClassEntityView};

verus! {

/// Some attribute of the list has this name.
pub open spec fn has_attribute(attributes: Seq<AttributeView>, name: Seq<char>) -> bool {
    exists|i: int| 0 <= i < attributes.len() && (#[trigger] attributes[i]).name == name
}

/// Whether some attribute of the list has this name.
pub fn find_attribute(attributes: &Vec<Attribute>, name: &str) -> (found: bool)
    ensures
        found == has_attribute(view_seq(attributes@), name@),
{
    let mut i: usize = 0;
    while i < attributes.len()
        invariant
            i <= attributes.len(),
            forall|j: int| 0 <= j < i ==> (#[trigger] view_seq(attributes@)[j]).name != name@,
        decreases attributes.len() - i,
    {
        if attributes[i].is_named(name) {
            assert(view_seq(attributes@)[i as int].name == name@);
            return true;
        }
        i += 1;
    }
    false
}

/// A pass that takes the declarations of a file one at a time.
pub trait EntityPass: View + Sized {
    /// The state of the pass after one declaration, as a function of its
    /// state before.
    spec fn after_entity(state: Self::V, entity: FirstClassEntityView) -> Self::V;

    fn visit_entity(&mut self, entity: &FirstClassEntity)
        ensures
            final(self)@ == Self::after_entity(old(self)@, entity@),
    ;
}

/// The state of a pass after the declarations of a file, in order.
pub open spec fn after_entities<P: EntityPass>(
    state: P::V,
    entities: Seq<FirstClassEntityView>,
) -> P::V
    decreases entities.len(),
{
    if entities.len() == 0 {
        state
    } else {
        P::after_entity(after_entities::<P>(state, entities.drop_last()), entities.last())
    }
}

/// Hands the declarations of a file to the pass, in order.
pub fn visit_entities<P: EntityPass>(pass: &mut P, entities: &Vec<FirstClassEntity>)
    ensures
        final(pass)@ == after_entities::<P>(old(pass)@, view_seq(entities@)),
{
    let ghost all = view_seq(entities@);
    let mut i: usize = 0;
    proof {
        assert(all.take(0) =~= Seq::empty());
    }
    while i < entities.len()
        invariant
            i <= entities.len(),
            all == view_seq(entities@),
            pass@ == after_entities::<P>(old(pass)@, all.take(i as int)),
        decreases entities.len() - i,
    {
        proof {
            assert(all.take(i as int + 1).drop_last() =~= all.take(i as int));
            assert(all.take(i as int + 1).last() == entities@[i as int]@);
        }
        pass.visit_entity(&entities[i]);
        i += 1;
    }
    proof {
        assert(all.take(entities.len() as int) =~= all);
    }
}

} // verus!
