//! Arithmetic.

use vstd::prelude::*;
use crate::functions::registry::Registry;
use crate::functions::scalar::{lemma_registered_twice, registered, DefinitionView};

pub mod add;
pub mod multiply;

verus! {

/// The built-in arithmetic, in the order in which it is registered.
pub open spec fn spec_builtins() -> Seq<DefinitionView> {
    add::spec_builtins()
        + multiply::spec_builtins()
}

pub fn register_builtins(registry: &mut Registry)
    ensures
        registered(old(registry)@, final(registry)@, spec_builtins()),
{
    let ghost s0 = registry@;
    add::register_builtins(registry);
    let ghost s1 = registry@;
    multiply::register_builtins(registry);
    proof {
        lemma_registered_twice(s0, s1, registry@, add::spec_builtins(), multiply::spec_builtins());
        assert(add::spec_builtins() + multiply::spec_builtins() =~= spec_builtins());
    }
}

} // verus!
