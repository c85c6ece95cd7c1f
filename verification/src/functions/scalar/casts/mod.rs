//! Casts: the functions `to_<type>` that a cast compiles to.

use vstd::prelude::*;
use crate::functions::registry::Registry;
use crate::functions::scalar::{lemma_registered_twice, registered, DefinitionView};

pub mod to_bigint;
pub mod to_bool;
pub mod to_decimal;
pub mod to_int;
pub mod to_text;

verus! {

/// The built-in casts, in the order in which they are registered.
pub open spec fn spec_builtins() -> Seq<DefinitionView> {
    to_bool::spec_builtins()
        + to_int::spec_builtins()
        + to_bigint::spec_builtins()
        + to_decimal::spec_builtins()
        + to_text::spec_builtins()
}

pub fn register_builtins(registry: &mut Registry)
    ensures
        registered(old(registry)@, final(registry)@, spec_builtins()),
{
    let ghost s0 = registry@;
    to_bool::register_builtins(registry);
    let ghost s1 = registry@;
    to_int::register_builtins(registry);
    let ghost s2 = registry@;
    to_bigint::register_builtins(registry);
    let ghost s3 = registry@;
    to_decimal::register_builtins(registry);
    let ghost s4 = registry@;
    to_text::register_builtins(registry);
    proof {
        lemma_registered_twice(s0, s1, s2, to_bool::spec_builtins(), to_int::spec_builtins());
        let l2 = to_bool::spec_builtins() + to_int::spec_builtins();
        lemma_registered_twice(s0, s2, s3, l2, to_bigint::spec_builtins());
        lemma_registered_twice(
            s0,
            s3,
            s4,
            l2 + to_bigint::spec_builtins(),
            to_decimal::spec_builtins(),
        );
        let l4 = l2 + to_bigint::spec_builtins() + to_decimal::spec_builtins();
        lemma_registered_twice(s0, s4, registry@, l4, to_text::spec_builtins());
        assert(l4 + to_text::spec_builtins() =~= spec_builtins());
    }
}

} // verus!
