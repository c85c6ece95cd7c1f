//! Functions that give a boolean.

use vstd::prelude::*;
use crate::functions::registry::Registry;
use crate::functions::scalar::{lemma_registered_twice, registered, DefinitionView};

pub mod between;
pub mod comparisons;
pub mod is;
pub mod logic;
pub mod ne;

verus! {

/// The built-in boolean functions, in the order in which they are
/// registered.
pub open spec fn spec_builtins() -> Seq<DefinitionView> {
    logic::spec_builtins()
        + comparisons::spec_builtins()
        + ne::spec_builtins()
        + between::spec_builtins()
        + is::spec_builtins()
}

pub fn register_builtins(registry: &mut Registry)
    ensures
        registered(old(registry)@, final(registry)@, spec_builtins()),
{
    let ghost s0 = registry@;
    logic::register_builtins(registry);
    let ghost s1 = registry@;
    comparisons::register_builtins(registry);
    let ghost s2 = registry@;
    ne::register_builtins(registry);
    let ghost s3 = registry@;
    between::register_builtins(registry);
    let ghost s4 = registry@;
    is::register_builtins(registry);
    proof {
        lemma_registered_twice(s0, s1, s2, logic::spec_builtins(), comparisons::spec_builtins());
        let l2 = logic::spec_builtins() + comparisons::spec_builtins();
        lemma_registered_twice(s0, s2, s3, l2, ne::spec_builtins());
        lemma_registered_twice(s0, s3, s4, l2 + ne::spec_builtins(), between::spec_builtins());
        let l4 = l2 + ne::spec_builtins() + between::spec_builtins();
        lemma_registered_twice(s0, s4, registry@, l4, is::spec_builtins());
        assert(l4 + is::spec_builtins() =~= spec_builtins());
    }
}

} // verus!
